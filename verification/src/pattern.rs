//! The text of the two search patterns, put together from the unit table.
//!
//! The pattern for a unit in front of the amount reads: the start of a line
//! or a word boundary, one of the aliases, at most one white space, the
//! amount, and possibly the marker for thousands. The pattern for a unit
//! behind the amount reads: the amount, possibly the marker, any white space,
//! one of the aliases, and then a word boundary, a white space or the end of
//! a line. An amount is a run of digits, which a point and another run of
//! digits may follow; the marker is the letter k with one white space behind
//! it.

use vstd::prelude::*;
use crate::models::Position;
use crate::order::{
    lemma_longer_alias_stands_first, lemma_longest_first, longest_first, longest_first_of, rows_of,
};
use crate::table::{Entry, Row, UnitTable};

verus! {

/// Which of the two patterns: the one with the unit in front of the amount,
/// or the one with the unit behind it.
#[derive(Clone, Copy, Debug, PartialEq, Eq, Structural)]
pub enum Side {
    Before,
    After,
}

/// What stands between two alternatives.
pub const SEPARATOR: &'static str = "|";

/// The pattern for a unit in front of the amount, up to the aliases.
pub const BEFORE_OPENING: &'static str = "(?:^|\\b)(?P<unit>";

/// The pattern for a unit in front of the amount, from the aliases on.
pub const BEFORE_CLOSING: &'static str = ")\\s?(?P<amount>\\d+(?:\\.\\d+)?)(?P<kilo>k\\s)?";

/// The pattern for a unit behind the amount, up to the aliases.
pub const AFTER_OPENING: &'static str = "(?P<amount>\\d+(?:\\.\\d+)?)(?P<kilo>k\\s)?\\s*(?P<unit>";

/// The pattern for a unit behind the amount, from the aliases on.
pub const AFTER_CLOSING: &'static str = ")(?:\\b|\\s|$)";

/// The characters that mean something in a pattern.
pub open spec fn is_meta_character(c: char) -> bool {
    c == '\\' || c == '.' || c == '+' || c == '*' || c == '?' || c == '(' || c == ')' || c == '|'
        || c == '[' || c == ']' || c == '{' || c == '}' || c == '^' || c == '$' || c == '#' || c
        == '&' || c == '-' || c == '~'
}

/// `text` with a backslash in front of each of its meta characters, so that
/// a pattern takes it by the letter.
pub open spec fn escaped(text: Seq<char>) -> Seq<char>
    decreases text.len(),
{
    if text.len() == 0 {
        Seq::empty()
    } else if is_meta_character(text.last()) {
        escaped(text.drop_last()).push('\\').push(text.last())
    } else {
        escaped(text.drop_last()).push(text.last())
    }
}

/// Whether an alias with this position belongs in the pattern of this side.
pub open spec fn belongs(position: Position, side: Side) -> bool {
    match side {
        Side::Before => position.spec_allows_before(),
        Side::After => position.spec_allows_after(),
    }
}

/// The alternatives of a pattern: the aliases of the rows that belong in
/// it, escaped, in the order of the rows.
pub open spec fn alternatives(rows: Seq<Row>, side: Side) -> Seq<Seq<char>>
    decreases rows.len(),
{
    if rows.len() == 0 {
        Seq::empty()
    } else if belongs(rows.last().1.position, side) {
        alternatives(rows.drop_last(), side).push(escaped(rows.last().0))
    } else {
        alternatives(rows.drop_last(), side)
    }
}

/// The parts written one after the other, with a separator between each
/// two.
pub open spec fn joined(parts: Seq<Seq<char>>) -> Seq<char>
    decreases parts.len(),
{
    if parts.len() == 0 {
        Seq::empty()
    } else if parts.len() == 1 {
        parts[0]
    } else {
        joined(parts.drop_last()) + SEPARATOR@ + parts.last()
    }
}

/// What a pattern starts with.
pub open spec fn opening(side: Side) -> Seq<char> {
    match side {
        Side::Before => BEFORE_OPENING@,
        Side::After => AFTER_OPENING@,
    }
}

/// What a pattern ends with.
pub open spec fn closing(side: Side) -> Seq<char> {
    match side {
        Side::Before => BEFORE_CLOSING@,
        Side::After => AFTER_CLOSING@,
    }
}

/// The text of the pattern of one side for a table with these rows: its
/// aliases stand between the opening and the closing, longest first.
pub open spec fn source(rows: Seq<Row>, side: Side) -> Seq<char> {
    opening(side) + joined(alternatives(longest_first(rows), side)) + closing(side)
}

/// The place of row `i` among the alternatives: the number of alternatives
/// that the rows in front of it give.
pub open spec fn place(rows: Seq<Row>, side: Side, i: int) -> int {
    alternatives(rows.take(i), side).len() as int
}

/// A row that belongs in the pattern adds one alternative, and any other
/// row adds none.
pub proof fn lemma_place_of_next(rows: Seq<Row>, side: Side, i: int)
    requires
        0 <= i < rows.len(),
    ensures
        place(rows, side, i + 1) == place(rows, side, i) + if belongs(rows[i].1.position, side) {
            1int
        } else {
            0int
        },
        belongs(rows[i].1.position, side) ==> alternatives(rows.take(i + 1), side).last()
            == escaped(rows[i].0),
{
    assert(rows.take(i + 1).drop_last() =~= rows.take(i));
    assert(rows.take(i + 1).last() == rows[i]);
}

/// The places grow with the rows, and one row further where a row belongs
/// in the pattern.
pub proof fn lemma_places_grow(rows: Seq<Row>, side: Side, i: int, j: int)
    requires
        0 <= i <= j <= rows.len(),
    ensures
        place(rows, side, i) <= place(rows, side, j),
        i < j && belongs(rows[i].1.position, side) ==> place(rows, side, i) < place(rows, side, j),
    decreases j - i,
{
    if i < j {
        lemma_places_grow(rows, side, i, j - 1);
        lemma_place_of_next(rows, side, j - 1);
    }
}

/// The alternatives of the first rows stay where they are when more rows
/// follow.
pub proof fn lemma_alternatives_of_beginning(rows: Seq<Row>, side: Side, i: int, p: int)
    requires
        0 <= i <= rows.len(),
        0 <= p < place(rows, side, i),
    ensures
        p < alternatives(rows, side).len(),
        alternatives(rows, side)[p] == alternatives(rows.take(i), side)[p],
    decreases rows.len() - i,
{
    if i < rows.len() {
        lemma_place_of_next(rows, side, i);
        lemma_alternatives_of_beginning(rows, side, i + 1, p);
        assert(rows.take(i + 1).drop_last() =~= rows.take(i));
    } else {
        assert(rows.take(i) =~= rows);
    }
}

/// Every row that belongs in the pattern has its alias, escaped, among the
/// alternatives, at its place.
pub proof fn lemma_alias_is_alternative(rows: Seq<Row>, side: Side, i: int)
    requires
        0 <= i < rows.len(),
        belongs(rows[i].1.position, side),
    ensures
        0 <= place(rows, side, i) < alternatives(rows, side).len(),
        alternatives(rows, side)[place(rows, side, i)] == escaped(rows[i].0),
{
    lemma_place_of_next(rows, side, i);
    lemma_alternatives_of_beginning(rows, side, i + 1, place(rows, side, i));
}

/// Every alternative is the escaped alias of a row that belongs in the
/// pattern: nothing else gets into the pattern.
pub proof fn lemma_alternative_is_alias(rows: Seq<Row>, side: Side, p: int)
    requires
        0 <= p < alternatives(rows, side).len(),
    ensures
        exists|i: int|
            0 <= i < rows.len() && belongs(rows[i].1.position, side) && place(rows, side, i) == p
                && #[trigger] escaped(rows[i].0) == alternatives(rows, side)[p],
    decreases rows.len(),
{
    let head = rows.drop_last();
    let last = rows.len() - 1;
    assert(rows.take(last) =~= head);
    if belongs(rows.last().1.position, side) && p == alternatives(head, side).len() {
        assert(place(rows, side, last) == p);
        assert(escaped(rows[last].0) == alternatives(rows, side)[p]);
    } else {
        lemma_alternative_is_alias(head, side, p);
        let i = choose|i: int|
            0 <= i < head.len() && belongs(head[i].1.position, side) && place(head, side, i) == p
                && #[trigger] escaped(head[i].0) == alternatives(head, side)[p];
        assert(head.take(i) =~= rows.take(i));
        assert(head[i] == rows[i]);
        assert(escaped(rows[i].0) == alternatives(rows, side)[p]);
    }
}

/// Longest-alias precedence: in a pattern, an alias stands in front of
/// every shorter alias that it begins with. Where both match at one place,
/// the longer one is therefore tried first.
pub proof fn lemma_longest_alias_is_tried_first(rows: Seq<Row>, side: Side, i: int, j: int)
    requires
        0 <= i < rows.len(),
        0 <= j < rows.len(),
        belongs(longest_first(rows)[i].1.position, side),
        belongs(longest_first(rows)[j].1.position, side),
        longest_first(rows)[j].0.len() < longest_first(rows)[i].0.len(),
        longest_first(rows)[i].0.take(longest_first(rows)[j].0.len() as int) == longest_first(
            rows,
        )[j].0,
    ensures
        ({
            let ordered = longest_first(rows);
            let parts = alternatives(ordered, side);
            &&& 0 <= place(ordered, side, i) < place(ordered, side, j) < parts.len()
            &&& parts[place(ordered, side, i)] == escaped(ordered[i].0)
            &&& parts[place(ordered, side, j)] == escaped(ordered[j].0)
        }),
{
    let ordered = longest_first(rows);
    lemma_longest_first(rows);
    lemma_longer_alias_stands_first(rows, i, j);
    lemma_places_grow(ordered, side, i, j);
    lemma_alias_is_alternative(ordered, side, i);
    lemma_alias_is_alternative(ordered, side, j);
}

/// Calls `regex::escape`, which copies the text and writes a backslash in
/// front of each character that `regex_syntax::is_meta_character` accepts;
/// `is_meta_character` above lists the same characters.
#[verifier::external_body]
fn escape(text: &str) -> (quoted: String)
    ensures
        quoted@ == escaped(text@),
{
    regex::escape(text)
}

/// Whether an alias with this position belongs in the pattern of this side.
pub fn belongs_in(position: Position, side: Side) -> (yes: bool)
    ensures
        yes == belongs(position, side),
{
    match side {
        Side::Before => position.allows_before(),
        Side::After => position.allows_after(),
    }
}

/// The alternatives of one side, joined: the aliases of the entries that
/// belong in the pattern, escaped, with a separator between each two.
pub fn alternation_of(entries: &Vec<Entry>, side: Side) -> (out: String)
    ensures
        out@ == joined(alternatives(rows_of(entries@), side)),
{
    let mut out = String::new();
    let mut first = true;
    let mut i: usize = 0;
    let ghost rows = rows_of(entries@);
    assert(rows.take(0) =~= Seq::<Row>::empty());
    while i < entries.len()
        invariant
            i <= entries.len(),
            rows == rows_of(entries@),
            out@ == joined(alternatives(rows.take(i as int), side)),
            first == (alternatives(rows.take(i as int), side).len() == 0),
        decreases entries.len() - i,
    {
        let entry = &entries[i];
        proof {
            let next = rows.take(i + 1);
            assert(next.drop_last() =~= rows.take(i as int));
            assert(next.last() == entry@);
        }
        if belongs_in(entry.unit.position, side) {
            let quoted = escape(entry.alias.as_str());
            let ghost parts = alternatives(rows.take(i + 1), side);
            assert(parts.drop_last() =~= alternatives(rows.take(i as int), side));
            if !first {
                out.append(SEPARATOR);
            }
            out.append(quoted.as_str());
            proof {
                if parts.len() == 1 {
                    assert(out@ =~= parts[0]);
                }
            }
            first = false;
        }
        i += 1;
    }
    assert(rows.take(i as int) =~= rows);
    out
}

/// The texts of the two patterns for a table: first the one for a unit in
/// front of the amount, then the one for a unit behind it.
pub fn sources_of(table: &UnitTable) -> (sources: (String, String))
    ensures
        sources.0@ == source(table.rows(), Side::Before),
        sources.1@ == source(table.rows(), Side::After),
{
    let ordered = longest_first_of(table);
    let mut before = String::from_str(BEFORE_OPENING);
    before.append(alternation_of(&ordered, Side::Before).as_str());
    before.append(BEFORE_CLOSING);
    let mut after = String::from_str(AFTER_OPENING);
    after.append(alternation_of(&ordered, Side::After).as_str());
    after.append(AFTER_CLOSING);
    (before, after)
}

} // verus!
