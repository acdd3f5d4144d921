//! Rewriting a message, one occurrence at a time.
//!
//! A rewrite starts from the message and applies the two patterns in turn,
//! first the one for a unit in front of the amount. Each step searches the
//! text as it stands, from its start, and hands out the first occurrence it
//! finds: the amount as it was written, whether the marker for thousands
//! follows it, and the unit. The caller works out the text that is to stand
//! in place of the occurrence and hands it back; the next step searches the
//! text that results. When a pattern finds nothing more, the next pattern
//! takes over, and after the last the rewrite is done.

use vstd::prelude::*;
use crate::amount::{is_amount, is_amount_text, lemma_amount_ends_in_digit};
use crate::models::Unit;
use crate::pattern::Side;
use crate::search::{captures_in, first_match, Patterns};
use crate::table::UnitTable;
use crate::text::{
    byte_len, is_span, is_span_of, is_whitespace, lemma_bytes_of_concat, lemma_cut_where_joined,
    lemma_nothing_to_trim, lemma_piece_len, lemma_piece_whole, lemma_splice_whole,
    lemma_trimmed_piece_is_span, lowercase, piece, piece_of, splice, spliced, str_to_lowercase,
    trimmed, trimmed_byte_len,
};

verus! {

/// The groups of a match: first the whole match, then each group of the
/// pattern in the order of its opening bracket. A group is given by the byte
/// offsets at which it starts and ends, or is empty where it took no part
/// in the match.
pub type Groups = Seq<Option<(usize, usize)>>;

/// Why a match could not be read. None of this happens with patterns that
/// were built from the table in use and a text that holds ordinary letters
/// and digits; each shows that pattern, table and text do not fit together.
#[derive(Clone, Copy, Debug, PartialEq, Eq, Structural)]
pub enum RewriteError {
    /// A group is missing, or its offsets cut no piece out of the text.
    MalformedMatch,
    /// What matched as the amount is not written as an amount.
    UnparseableAmount,
    /// The alias that matched is not in the table.
    UnknownUnit,
}

/// What a search has found, as contracts see it.
pub open spec fn found_groups(found: Option<Vec<Option<(usize, usize)>>>) -> Option<Groups> {
    match found {
        Some(groups) => Some(groups@),
        None => None,
    }
}

/// The word that follows the value when it is one.
pub const SINGULAR: &'static str = " davinci";

/// The word that follows any other value.
pub const PLURAL: &'static str = " davincis";

/// The number of groups that a match of either pattern has, the whole match
/// counted.
pub const GROUPS: usize = 4;

/// The group that holds the alias.
pub open spec fn unit_group(side: Side) -> int {
    match side {
        Side::Before => 1,
        Side::After => 3,
    }
}

/// The group that holds the amount.
pub open spec fn amount_group(side: Side) -> int {
    match side {
        Side::Before => 2,
        Side::After => 1,
    }
}

/// The group that holds the marker for thousands.
pub open spec fn kilo_group(side: Side) -> int {
    match side {
        Side::Before => 3,
        Side::After => 2,
    }
}

/// The piece of `text` that a group cut out, if it took part and its
/// offsets cut a piece out of the text.
pub open spec fn group_span(text: Seq<char>, groups: Groups, index: int) -> Option<(usize, usize)> {
    if 0 <= index < groups.len() {
        match groups[index] {
            Some(span) => if is_span(text, span.0 as int, span.1 as int) {
                Some(span)
            } else {
                None
            },
            None => None,
        }
    } else {
        None
    }
}

/// Whether a match has the groups that are read from it.
pub open spec fn readable(text: Seq<char>, groups: Groups, side: Side) -> bool {
    &&& groups.len() == GROUPS
    &&& group_span(text, groups, 0) is Some
    &&& group_span(text, groups, unit_group(side)) is Some
    &&& group_span(text, groups, amount_group(side)) is Some
}

/// An occurrence as contracts see it.
pub struct Reading {
    /// The byte offset at which the occurrence starts.
    pub start: int,
    /// The byte offset at which it ends, white space at its end left out.
    pub end: int,
    /// The amount as it was written.
    pub amount: Seq<char>,
    /// Whether the marker for thousands follows the amount.
    pub kilo: bool,
    /// The unit that the alias names.
    pub unit: Unit,
}

/// An occurrence of an amount with a unit in a text.
#[derive(Debug)]
pub struct Occurrence {
    /// The byte offset at which the occurrence starts.
    pub start: usize,
    /// The byte offset at which it ends, white space at its end left out.
    pub end: usize,
    /// The amount as it was written.
    pub amount: String,
    /// Whether the marker for thousands follows the amount.
    pub kilo: bool,
    /// The unit that the alias names.
    pub unit: Unit,
}

impl View for Occurrence {
    type V = Reading;

    open spec fn view(&self) -> Reading {
        Reading {
            start: self.start as int,
            end: self.end as int,
            amount: self.amount@,
            kilo: self.kilo,
            unit: self.unit,
        }
    }
}

/// The text that matched as the alias, or an empty text where the group of
/// the alias took no part or cuts no piece out of the text.
pub open spec fn matched_alias(text: Seq<char>, groups: Groups, side: Side) -> Seq<char> {
    match group_span(text, groups, unit_group(side)) {
        Some(span) => piece(text, span.0 as int, span.1 as int),
        None => Seq::empty(),
    }
}

/// What a match says, `lower` being the alias in lower case. The occurrence
/// starts where the match starts and ends where the match ends, white space
/// at that end left out. The amount has to be written as one, and the table
/// has to hold the alias in lower case.
pub open spec fn reading_with(
    table: Map<Seq<char>, Unit>,
    text: Seq<char>,
    groups: Groups,
    side: Side,
    lower: Seq<char>,
) -> Result<Reading, RewriteError> {
    if !readable(text, groups, side) {
        Err(RewriteError::MalformedMatch)
    } else {
        let whole = groups[0].unwrap();
        let amount = groups[amount_group(side)].unwrap();
        if !is_amount(piece(text, amount.0 as int, amount.1 as int)) {
            Err(RewriteError::UnparseableAmount)
        } else if !table.contains_key(lower) {
            Err(RewriteError::UnknownUnit)
        } else {
            Ok(
                Reading {
                    start: whole.0 as int,
                    end: whole.0 + byte_len(trimmed(piece(text, whole.0 as int, whole.1 as int))),
                    amount: piece(text, amount.0 as int, amount.1 as int),
                    kilo: groups[kilo_group(side)] is Some,
                    unit: table[lower],
                },
            )
        }
    }
}

/// What a match says: what it says with the text that matched as the alias
/// brought to lower case.
pub open spec fn reading(
    table: Map<Seq<char>, Unit>,
    text: Seq<char>,
    groups: Groups,
    side: Side,
) -> Result<Reading, RewriteError> {
    reading_with(table, text, groups, side, lowercase(matched_alias(text, groups, side)))
}

/// An occurrence that was read from a match lies inside the match, its
/// offsets cut a piece out of the text, and its amount is written as one.
pub proof fn lemma_reading_is_span(
    table: Map<Seq<char>, Unit>,
    text: Seq<char>,
    groups: Groups,
    side: Side,
)
    requires
        reading(table, text, groups, side) is Ok,
    ensures
        ({
            let read = reading(table, text, groups, side)->Ok_0;
            &&& is_span(text, read.start, read.end)
            &&& read.start == groups[0].unwrap().0
            &&& read.end <= groups[0].unwrap().1
            &&& is_amount(read.amount)
        }),
{
    let whole = groups[0].unwrap();
    lemma_trimmed_piece_is_span(text, whole.0 as int, whole.1 as int);
}

/// A match whose amount is written as one and whose alias, in lower case,
/// stands in the table is read as the unit of the table, with the amount as
/// it is written in the text, and with the marker for thousands where its
/// group took part in the match.
pub proof fn lemma_reading_names_the_unit(
    table: Map<Seq<char>, Unit>,
    text: Seq<char>,
    groups: Groups,
    side: Side,
    alias: Seq<char>,
)
    requires
        readable(text, groups, side),
        is_amount(
            piece(
                text,
                groups[amount_group(side)].unwrap().0 as int,
                groups[amount_group(side)].unwrap().1 as int,
            ),
        ),
        table.contains_key(alias),
        lowercase(
            piece(
                text,
                groups[unit_group(side)].unwrap().0 as int,
                groups[unit_group(side)].unwrap().1 as int,
            ),
        ) == alias,
    ensures
        reading(table, text, groups, side) matches Ok(read) && read.unit == table[alias]
            && read.amount == piece(
            text,
            groups[amount_group(side)].unwrap().0 as int,
            groups[amount_group(side)].unwrap().1 as int,
        ) && read.kilo == (groups[kilo_group(side)] is Some),
{
}

/// The index of the group that holds the alias.
fn unit_index(side: Side) -> (index: usize)
    ensures
        index == unit_group(side),
{
    match side {
        Side::Before => 1,
        Side::After => 3,
    }
}

/// The index of the group that holds the amount.
fn amount_index(side: Side) -> (index: usize)
    ensures
        index == amount_group(side),
{
    match side {
        Side::Before => 2,
        Side::After => 1,
    }
}

/// The index of the group that holds the marker for thousands.
fn kilo_index(side: Side) -> (index: usize)
    ensures
        index == kilo_group(side),
{
    match side {
        Side::Before => 3,
        Side::After => 2,
    }
}

/// The span of a group, if it took part and cuts a piece out of the text.
fn span_of_group(text: &str, groups: &Vec<Option<(usize, usize)>>, index: usize) -> (span: Option<
    (usize, usize),
>)
    ensures
        span == group_span(text@, groups@, index as int),
{
    if index < groups.len() {
        match groups[index] {
            Some(span) => if is_span_of(text, span.0, span.1) {
                Some(span)
            } else {
                None
            },
            None => None,
        }
    } else {
        None
    }
}

/// Reads a match of the pattern of one side, given the alias in lower
/// case: where the occurrence stands, the amount, the marker, and the unit
/// that the table holds for `lower`.
pub fn read_match_with(
    table: &UnitTable,
    text: &str,
    groups: &Vec<Option<(usize, usize)>>,
    side: Side,
    lower: &str,
) -> (read: Result<Occurrence, RewriteError>)
    ensures
        match reading_with(table@, text@, groups@, side, lower@) {
            Ok(expected) => read matches Ok(occurrence) && occurrence@ == expected && is_span(
                text@,
                occurrence.start as int,
                occurrence.end as int,
            ),
            Err(error) => read matches Err(e) && e == error,
        },
{
    if groups.len() != GROUPS {
        return Err(RewriteError::MalformedMatch);
    }
    let whole = match span_of_group(text, groups, 0) {
        Some(span) => span,
        None => {
            return Err(RewriteError::MalformedMatch);
        },
    };
    if span_of_group(text, groups, unit_index(side)).is_none() {
        return Err(RewriteError::MalformedMatch);
    }
    let amount = match span_of_group(text, groups, amount_index(side)) {
        Some(span) => span,
        None => {
            return Err(RewriteError::MalformedMatch);
        },
    };
    let kilo = groups[kilo_index(side)].is_some();
    let written = piece_of(text, amount.0, amount.1);
    if !is_amount_text(written) {
        return Err(RewriteError::UnparseableAmount);
    }
    let found = match table.lookup(lower) {
        Some(found) => found,
        None => {
            return Err(RewriteError::UnknownUnit);
        },
    };
    proof {
        lemma_piece_len(text@, whole.0 as int, whole.1 as int);
        lemma_trimmed_piece_is_span(text@, whole.0 as int, whole.1 as int);
    }
    let end = whole.0 + trimmed_byte_len(piece_of(text, whole.0, whole.1));
    Ok(Occurrence { start: whole.0, end, amount: written.to_owned(), kilo, unit: found })
}

/// Reads a match of the pattern of one side: where the occurrence stands,
/// the amount, the marker, and the unit that the table holds for the alias.
/// The text that matched as the alias is brought to lower case, and
/// `read_match_with` does the rest.
pub fn read_match(
    table: &UnitTable,
    text: &str,
    groups: &Vec<Option<(usize, usize)>>,
    side: Side,
) -> (read: Result<Occurrence, RewriteError>)
    ensures
        match reading(table@, text@, groups@, side) {
            Ok(expected) => read matches Ok(occurrence) && occurrence@ == expected && is_span(
                text@,
                occurrence.start as int,
                occurrence.end as int,
            ),
            Err(error) => read matches Err(e) && e == error,
        },
{
    match span_of_group(text, groups, unit_index(side)) {
        Some(span) => {
            let lower = str_to_lowercase(piece_of(text, span.0, span.1));
            read_match_with(table, text, groups, side, lower.as_str())
        },
        None => read_match_with(table, text, groups, side, ""),
    }
}

/// The text that stands in place of an occurrence: the value and the name
/// of the reference unit, in the singular where the value is one.
pub open spec fn replacement(value: Seq<char>, singular: bool) -> Seq<char> {
    if singular {
        value + SINGULAR@
    } else {
        value + PLURAL@
    }
}

/// A replacement starts with the value, and the name of the reference unit
/// behind it ends in "s" exactly where the value is not said to be one.
pub proof fn lemma_singular_by_flag(value: Seq<char>, singular: bool)
    ensures
        replacement(value, singular).len() == value.len() + if singular {
            8int
        } else {
            9int
        },
        replacement(value, singular).take(value.len() as int) == value,
        replacement(value, singular).last() == 's' <==> !singular,
        replacement(value, true) != replacement(value, false),
{
    reveal_strlit(" davinci");
    reveal_strlit(" davincis");
    assert(SINGULAR@.len() == 8 && SINGULAR@[7] == 'i');
    assert(PLURAL@.len() == 9 && PLURAL@[8] == 's');
    assert(replacement(value, singular).take(value.len() as int) =~= value);
}

/// Writes the text that stands in place of an occurrence.
pub fn format_replacement(value: &str, singular: bool) -> (out: String)
    ensures
        out@ == replacement(value@, singular),
{
    let mut out = String::from_str(value);
    if singular {
        out.append(SINGULAR);
    } else {
        out.append(PLURAL);
    }
    out
}

/// How far a rewrite has come: which pattern is applied, or that both
/// patterns are through.
#[derive(Clone, Copy, Debug, PartialEq, Eq, Structural)]
pub enum Stage {
    Before,
    After,
    Finished,
}

/// A rewrite as contracts see it.
pub struct State {
    /// The message as it came.
    pub original: Seq<char>,
    /// The text as it stands.
    pub text: Seq<char>,
    /// How far the rewrite has come.
    pub stage: Stage,
    /// Where the occurrence stands that was handed out last and has not
    /// been replaced yet.
    pub pending: Option<(usize, usize)>,
}

/// What a step asks of the caller, as contracts see it.
pub enum Action {
    /// An occurrence was found: work out its replacement and hand it back.
    Convert { amount: Seq<char>, kilo: bool, unit: Unit },
    /// Nothing is left to do. The text is given where it differs from the
    /// message, and nothing where the message was left as it was.
    Done(Option<Seq<char>>),
}

/// An occurrence that is handed out for conversion.
#[derive(Debug)]
pub struct Request {
    /// The amount as it was written: digits, and possibly a point and more
    /// digits. A step hands out nothing else.
    pub amount: String,
    /// Whether the amount counts thousands.
    pub kilo: bool,
    /// The unit in which the amount is given.
    pub unit: Unit,
}

/// What a step asks of the caller.
#[derive(Debug)]
pub enum Step {
    /// An occurrence was found: work out its replacement and hand it back.
    Convert(Request),
    /// Nothing is left to do. The text is given where it differs from the
    /// message, and nothing where the message was left as it was.
    Done(Option<String>),
}

impl View for Step {
    type V = Action;

    open spec fn view(&self) -> Action {
        match self {
            Step::Convert(request) => Action::Convert {
                amount: request.amount@,
                kilo: request.kilo,
                unit: request.unit,
            },
            Step::Done(Some(text)) => Action::Done(Some(text@)),
            Step::Done(None) => Action::Done(None),
        }
    }
}

/// The state in which a rewrite of `message` starts.
pub open spec fn fresh(message: Seq<char>) -> State {
    State { original: message, text: message, stage: Stage::Before, pending: None }
}

/// What a rewrite gives out at its end: the text, if it differs from the
/// message.
pub open spec fn output(state: State) -> Option<Seq<char>> {
    if state.text != state.original {
        Some(state.text)
    } else {
        None
    }
}

/// The pattern that is applied at a stage.
pub open spec fn side_at(stage: Stage) -> Option<Side> {
    match stage {
        Stage::Before => Some(Side::Before),
        Stage::After => Some(Side::After),
        Stage::Finished => None,
    }
}

/// The stage that follows.
pub open spec fn stage_after(stage: Stage) -> Stage {
    match stage {
        Stage::Before => Stage::After,
        Stage::After => Stage::Finished,
        Stage::Finished => Stage::Finished,
    }
}

/// How many patterns are still to be applied.
pub open spec fn patterns_left(stage: Stage) -> nat {
    match stage {
        Stage::Before => 2,
        Stage::After => 1,
        Stage::Finished => 0,
    }
}

/// What becomes of a rewrite when the search with the pattern of its stage
/// has come back. A match is read and handed out, and the rewrite stays at
/// its stage. Without a match the rewrite goes on to the next stage, and
/// nothing is decided yet. Once both patterns are through, the rewrite is
/// done whatever the search says.
pub open spec fn resolved(state: State, table: Map<Seq<char>, Unit>, found: Option<Groups>) -> (
    State,
    Result<Option<Action>, RewriteError>,
) {
    match side_at(state.stage) {
        None => (State { pending: None, ..state }, Ok(Some(Action::Done(output(state))))),
        Some(side) => match found {
            None => (State { stage: stage_after(state.stage), pending: None, ..state }, Ok(None)),
            Some(groups) => match reading(table, state.text, groups, side) {
                Ok(read) => (
                    State { pending: Some((read.start as usize, read.end as usize)), ..state },
                    Ok(
                        Some(
                            Action::Convert {
                                amount: read.amount,
                                kilo: read.kilo,
                                unit: read.unit,
                            },
                        ),
                    ),
                ),
                Err(error) => (State { pending: None, ..state }, Err(error)),
            },
        },
    }
}

/// One step of a rewrite, given what the two patterns find in the text as
/// it stands: the pattern of the stage is tried, and the next one where it
/// finds nothing, until something is decided.
pub open spec fn stepped(
    state: State,
    table: Map<Seq<char>, Unit>,
    before: Option<Groups>,
    after: Option<Groups>,
) -> (State, Result<Action, RewriteError>)
    decreases patterns_left(state.stage),
{
    let found = match state.stage {
        Stage::Before => before,
        Stage::After => after,
        Stage::Finished => None,
    };
    let (next, decided) = resolved(state, table, found);
    match decided {
        Ok(Some(action)) => (next, Ok(action)),
        Ok(None) => stepped(next, table, before, after),
        Err(error) => (next, Err(error)),
    }
}

/// The state after a replacement was handed back: it stands in place of
/// the occurrence that was handed out last. Where none is waiting, nothing
/// changes.
pub open spec fn replaced(state: State, with: Seq<char>) -> State {
    match state.pending {
        Some(span) => if is_span(state.text, span.0 as int, span.1 as int) {
            State {
                text: spliced(state.text, span.0 as int, span.1 as int, with),
                pending: None,
                ..state
            }
        } else {
            state
        },
        None => state,
    }
}

/// A message in which neither pattern finds anything is left alone: the
/// first step of its rewrite says that it is done, and gives out nothing.
pub proof fn lemma_nothing_found_nothing_given(message: Seq<char>, table: Map<Seq<char>, Unit>)
    ensures
        stepped(fresh(message), table, None, None).1 == Ok::<Action, RewriteError>(
            Action::Done(None),
        ),
        stepped(fresh(message), table, None, None).0.text == message,
        stepped(fresh(message), table, None, None).0.stage == Stage::Finished,
{
    reveal_with_fuel(stepped, 3);
}

/// A step changes neither the message nor the text, and never goes back
/// to a pattern that is through. The text changes only when a replacement is
/// handed back.
pub proof fn lemma_step_keeps_the_text(
    state: State,
    table: Map<Seq<char>, Unit>,
    before: Option<Groups>,
    after: Option<Groups>,
)
    ensures
        stepped(state, table, before, after).0.original == state.original,
        stepped(state, table, before, after).0.text == state.text,
        patterns_left(stepped(state, table, before, after).0.stage) <= patterns_left(state.stage),
    decreases patterns_left(state.stage),
{
    let found = match state.stage {
        Stage::Before => before,
        Stage::After => after,
        Stage::Finished => None,
    };
    let (next, decided) = resolved(state, table, found);
    if decided matches Ok(None) {
        lemma_step_keeps_the_text(next, table, before, after);
    }
}

/// A step that hands out an occurrence hands out an amount that is written
/// as one. It leaves the text as it was and remembers a span of it; the
/// replacement that is handed back then goes exactly there, and the rest of
/// the text stays.
pub proof fn lemma_handed_out_is_replaced(
    state: State,
    table: Map<Seq<char>, Unit>,
    before: Option<Groups>,
    after: Option<Groups>,
    with: Seq<char>,
)
    requires
        stepped(state, table, before, after).1 matches Ok(Action::Convert { .. }),
    ensures
        ({
            let next = stepped(state, table, before, after).0;
            &&& stepped(state, table, before, after).1 matches Ok(Action::Convert { amount, .. })
                && is_amount(amount)
            &&& next.text == state.text
            &&& next.original == state.original
            &&& next.pending matches Some(span) && is_span(next.text, span.0 as int, span.1 as int)
                && replaced(next, with).text == spliced(
                next.text,
                span.0 as int,
                span.1 as int,
                with,
            )
        }),
    decreases patterns_left(state.stage),
{
    let found = match state.stage {
        Stage::Before => before,
        Stage::After => after,
        Stage::Finished => None,
    };
    let (next, decided) = resolved(state, table, found);
    match decided {
        Ok(Some(action)) => {
            let side = side_at(state.stage).unwrap();
            let groups = found.unwrap();
            lemma_reading_is_span(table, state.text, groups, side);
            lemma_piece_len(state.text, groups[0].unwrap().0 as int, groups[0].unwrap().1 as int);
        },
        Ok(None) => {
            lemma_handed_out_is_replaced(next, table, before, after, with);
        },
        Err(error) => {},
    }
}

/// When neither pattern finds anything, the rewrite is done: it gives out
/// the text where that differs from the message, and nothing where it does
/// not.
pub proof fn lemma_nothing_more_found(state: State, table: Map<Seq<char>, Unit>)
    ensures
        stepped(state, table, None, None).1 == Ok::<Action, RewriteError>(
            Action::Done(output(state)),
        ),
        stepped(state, table, None, None).0.stage == Stage::Finished,
{
    reveal_with_fuel(stepped, 3);
}

/// The groups of a match that takes in all of a message which is an amount
/// with an alias right behind it.
pub open spec fn match_of_amount_and_alias(amount: Seq<char>, alias: Seq<char>) -> Groups {
    let point = byte_len(amount) as usize;
    let end = (byte_len(amount) + byte_len(alias)) as usize;
    seq![Some((0usize, end)), Some((0usize, point)), None, Some((point, end))]
}

/// The groups of a match that takes in all of a message which is an alias,
/// a blank and an amount.
pub open spec fn match_of_alias_and_amount(alias: Seq<char>, amount: Seq<char>) -> Groups {
    let point = byte_len(alias) as usize;
    let start = (byte_len(alias) + 1) as usize;
    let end = (byte_len(alias) + 1 + byte_len(amount)) as usize;
    seq![Some((0usize, end)), Some((0usize, point)), Some((start, end)), None]
}

/// A message that is an amount with an alias of the table right behind it,
/// such as "5kg". Where the pattern for units behind the amount finds the
/// whole of it, and the other pattern nothing, the step hands out the amount
/// as it is written, without the marker, and the unit of the alias. The
/// replacement that is handed back is then all that is left of the message,
/// and when nothing more is found it is what the rewrite gives out.
pub proof fn lemma_amount_and_alias(
    table: Map<Seq<char>, Unit>,
    amount: Seq<char>,
    alias: Seq<char>,
    with: Seq<char>,
)
    requires
        is_amount(amount),
        alias.len() > 0,
        !is_whitespace(alias.last()),
        lowercase(alias) == alias,
        table.contains_key(alias),
        byte_len(amount + alias) <= usize::MAX,
    ensures
        ({
            let message = amount + alias;
            let found = Some(match_of_amount_and_alias(amount, alias));
            let first = stepped(fresh(message), table, None, found);
            let then = replaced(first.0, with);
            &&& first.1 == Ok::<Action, RewriteError>(
                Action::Convert { amount, kilo: false, unit: table[alias] },
            )
            &&& then.text == with
            &&& then.original == message
            &&& stepped(then, table, None, None).1 == Ok::<Action, RewriteError>(
                Action::Done(
                    if with != message {
                        Some(with)
                    } else {
                        None
                    },
                ),
            )
        }),
{
    let message = amount + alias;
    let groups = match_of_amount_and_alias(amount, alias);
    let nothing = Seq::<char>::empty();
    assert(amount + alias + nothing =~= message);
    assert(vstd::utf8::encode_utf8(nothing).len() == 0);
    lemma_bytes_of_concat(amount, alias);
    lemma_cut_where_joined(amount, alias, nothing);
    lemma_piece_whole(message);
    lemma_nothing_to_trim(message);
    lemma_splice_whole(message, with);
    reveal_with_fuel(stepped, 3);
    assert(readable(message, groups, Side::After));
    let first = stepped(fresh(message), table, None, Some(groups));
    assert(first.0.pending == Some((0usize, byte_len(message) as usize)));
    lemma_nothing_more_found(replaced(first.0, with), table);
}

/// A message that is an alias of the table, a blank and an amount, such as
/// "eur 5". Where the pattern for units in front of the amount finds the
/// whole of it, the step hands out the amount as it is written, without the
/// marker, and the unit of the alias. The replacement that is handed back is
/// then all that is left of the message, and when nothing more is found it
/// is what the rewrite gives out.
pub proof fn lemma_alias_and_amount(
    table: Map<Seq<char>, Unit>,
    alias: Seq<char>,
    amount: Seq<char>,
    after: Option<Groups>,
    with: Seq<char>,
)
    requires
        is_amount(amount),
        lowercase(alias) == alias,
        table.contains_key(alias),
        byte_len(alias + seq![' '] + amount) <= usize::MAX,
    ensures
        ({
            let message = alias + seq![' '] + amount;
            let found = Some(match_of_alias_and_amount(alias, amount));
            let first = stepped(fresh(message), table, found, after);
            let then = replaced(first.0, with);
            &&& first.1 == Ok::<Action, RewriteError>(
                Action::Convert { amount, kilo: false, unit: table[alias] },
            )
            &&& then.text == with
            &&& then.original == message
            &&& stepped(then, table, None, None).1 == Ok::<Action, RewriteError>(
                Action::Done(
                    if with != message {
                        Some(with)
                    } else {
                        None
                    },
                ),
            )
        }),
{
    let blank = seq![' '];
    let message = alias + blank + amount;
    let groups = match_of_alias_and_amount(alias, amount);
    assert(byte_len(blank) == 1) by {
        reveal_with_fuel(vstd::utf8::encode_utf8, 2);
        assert(blank.drop_first() =~= Seq::<char>::empty());
    }
    lemma_bytes_of_concat(alias + blank, amount);
    lemma_bytes_of_concat(alias, blank);
    lemma_cut_where_joined(alias, blank, amount);
    lemma_piece_whole(message);
    lemma_amount_ends_in_digit(amount);
    assert(message.last() == amount.last());
    lemma_nothing_to_trim(message);
    lemma_splice_whole(message, with);
    reveal_with_fuel(stepped, 3);
    assert(readable(message, groups, Side::Before));
    let first = stepped(fresh(message), table, Some(groups), after);
    assert(first.0.pending == Some((0usize, byte_len(message) as usize)));
    lemma_nothing_more_found(replaced(first.0, with), table);
}

/// A rewrite of one message.
#[derive(Debug)]
pub struct Rewrite {
    original: String,
    text: String,
    stage: Stage,
    pending: Option<(usize, usize)>,
}

impl View for Rewrite {
    type V = State;

    closed spec fn view(&self) -> State {
        State {
            original: self.original@,
            text: self.text@,
            stage: self.stage,
            pending: self.pending,
        }
    }
}

impl Rewrite {
    /// Starts the rewrite of a message.
    pub fn new(message: &str) -> (rewrite: Rewrite)
        ensures
            rewrite@ == fresh(message@),
    {
        Rewrite {
            original: message.to_owned(),
            text: message.to_owned(),
            stage: Stage::Before,
            pending: None,
        }
    }

    /// The text as it stands.
    pub fn text(&self) -> (text: &str)
        ensures
            text@ == self@.text,
    {
        self.text.as_str()
    }

    /// The pattern that is applied next, or nothing when both are through.
    pub fn side(&self) -> (side: Option<Side>)
        ensures
            side == side_at(self@.stage),
    {
        match self.stage {
            Stage::Before => Some(Side::Before),
            Stage::After => Some(Side::After),
            Stage::Finished => None,
        }
    }

    /// What the rewrite gives out if it ends now: the text, if it differs
    /// from the message.
    pub fn output(&self) -> (out: Option<String>)
        ensures
            match output(self@) {
                Some(text) => out matches Some(given) && given@ == text,
                None => out is None,
            },
    {
        if self.text != self.original {
            Some(self.text.clone())
        } else {
            None
        }
    }

    /// Takes in what the search with the pattern of the stage has found in
    /// the text as it stands. Hands out the occurrence that a match
    /// describes, or says that the rewrite is done; gives nothing where the
    /// next pattern has to be tried first.
    pub fn resolve(
        &mut self,
        table: &UnitTable,
        found: Option<Vec<Option<(usize, usize)>>>,
    ) -> (decided: Result<Option<Step>, RewriteError>)
        ensures
            final(self)@ == resolved(old(self)@, table@, found_groups(found)).0,
            match resolved(old(self)@, table@, found_groups(found)).1 {
                Ok(Some(action)) => decided matches Ok(Some(step)) && step@ == action,
                Ok(None) => decided matches Ok(None),
                Err(error) => decided matches Err(e) && e == error,
            },
    {
        let side = match self.side() {
            Some(side) => side,
            None => {
                self.pending = None;
                return Ok(Some(Step::Done(self.output())));
            },
        };
        let groups = match found {
            Some(groups) => groups,
            None => {
                self.pending = None;
                self.stage =
                match self.stage {
                    Stage::Before => Stage::After,
                    Stage::After => Stage::Finished,
                    Stage::Finished => Stage::Finished,
                };
                return Ok(None);
            },
        };
        match read_match(table, self.text.as_str(), &groups, side) {
            Ok(occurrence) => {
                self.pending = Some((occurrence.start, occurrence.end));
                Ok(
                    Some(
                        Step::Convert(
                            Request {
                                amount: occurrence.amount,
                                kilo: occurrence.kilo,
                                unit: occurrence.unit,
                            },
                        ),
                    ),
                )
            },
            Err(error) => {
                self.pending = None;
                Err(error)
            },
        }
    }

    /// One step: searches the text as it stands with the pattern of the
    /// stage, and with the next where that finds nothing, and hands out the
    /// first occurrence, or says that the rewrite is done.
    pub fn step(&mut self, patterns: &Patterns, table: &UnitTable) -> (decided: Result<
        Step,
        RewriteError,
    >)
        ensures
            final(self)@ == stepped(
                old(self)@,
                table@,
                first_match(patterns.before, old(self)@.text),
                first_match(patterns.after, old(self)@.text),
            ).0,
            match stepped(
                old(self)@,
                table@,
                first_match(patterns.before, old(self)@.text),
                first_match(patterns.after, old(self)@.text),
            ).1 {
                Ok(action) => decided matches Ok(step) && step@ == action,
                Err(error) => decided matches Err(e) && e == error,
            },
    {
        let ghost before = first_match(patterns.before, self@.text);
        let ghost after = first_match(patterns.after, self@.text);
        let ghost text = self@.text;
        loop
            invariant
                self@.text == text,
                old(self)@.text == text,
                before == first_match(patterns.before, text),
                after == first_match(patterns.after, text),
                stepped(self@, table@, before, after) == stepped(old(self)@, table@, before, after),
            decreases patterns_left(self@.stage),
        {
            let found = match self.side() {
                Some(side) => captures_in(patterns.of_side(side), self.text.as_str()),
                None => None,
            };
            let ghost state = self@;
            match self.resolve(table, found) {
                Ok(Some(step)) => {
                    return Ok(step);
                },
                Ok(None) => {
                    assert(patterns_left(self@.stage) < patterns_left(state.stage));
                },
                Err(error) => {
                    return Err(error);
                },
            }
        }
    }

    /// Puts `with` in place of the occurrence that the last step handed
    /// out. Says whether it did: where no occurrence is waiting, nothing
    /// changes.
    pub fn replace(&mut self, with: &str) -> (done: bool)
        ensures
            final(self)@ == replaced(old(self)@, with@),
            done == (old(self)@.pending matches Some(span) && is_span(
                old(self)@.text,
                span.0 as int,
                span.1 as int,
            )),
    {
        match self.pending {
            Some(span) => match splice(self.text.as_str(), span.0, span.1, with) {
                Some(text) => {
                    self.text = text;
                    self.pending = None;
                    true
                },
                None => false,
            },
            None => false,
        }
    }
}

} // verus!
