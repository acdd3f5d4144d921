//! The compiled patterns and the search for the first match.

use vstd::prelude::*;
use regex::Regex;
use crate::pattern::{source, sources_of, Side};
use crate::table::{Row, UnitTable};

verus! {

/// A compiled pattern of the `regex` crate. What is inside is not looked at
/// here: a pattern is known by the settings it was compiled with.
#[verifier::external_type_specification]
#[verifier::external_body]
pub struct ExRegex(regex::Regex);

/// The error with which the `regex` crate refuses a pattern.
#[verifier::external_type_specification]
#[verifier::external_body]
pub struct ExRegexError(regex::Error);

/// What stands for a compiled pattern in contracts: whatever fixes what
/// the pattern matches. For a pattern that this crate compiled, with every
/// other option of the builder left as it is, these are the three things
/// that the builder was given: the text of the pattern (which
/// `Regex::as_str` gives back), whether it ignores the case of letters, and
/// whether `^` and `$` match at the ends of lines. Of a pattern that was
/// built elsewhere, with other options, no contract says what its settings
/// are: they need not be its text and its flags.
pub uninterp spec fn regex_settings(regex: Regex) -> (Seq<char>, bool, bool);

/// What `Regex::captures` returns for a pattern with these settings on
/// `text`: nothing where the pattern matches nowhere; otherwise, for the
/// match that starts first, the byte offsets at which the whole match and
/// then each group of the pattern starts and ends, a group that took no part
/// in the match being left empty. How a pattern matches is for the `regex`
/// crate to say and is not written out here.
pub uninterp spec fn first_captures(
    source: Seq<char>,
    case_insensitive: bool,
    multi_line: bool,
    text: Seq<char>,
) -> Option<Seq<Option<(usize, usize)>>>;

/// Whether `RegexBuilder::build` accepts a pattern text with these
/// settings on a machine whose addresses are `bits` bits wide. The builder
/// refuses a text that is no pattern, and a pattern whose compiled form is
/// larger than the builder's limit. That size is counted in bytes of the
/// machine's own layout, which is why the width stands among the arguments:
/// for one text, one pair of flags and one width the answer is always the
/// same.
pub uninterp spec fn compiles(
    source: Seq<char>,
    case_insensitive: bool,
    multi_line: bool,
    bits: u32,
) -> bool;

/// Whether the text compiles the way this crate compiles its patterns, on
/// the machine at hand.
pub open spec fn is_pattern(source: Seq<char>) -> bool {
    compiles(source, true, true, usize::BITS)
}

/// Why a pattern could not be compiled.
#[derive(Debug)]
pub enum PatternError {
    /// The text is no pattern; the message says why.
    Syntax(String),
    /// The compiled pattern would be larger than the limit, in bytes.
    TooBig(usize),
    /// Another reason.
    Other,
}

/// The two compiled patterns. They are built once and only read afterwards.
/// The fields are open, so that a pair can be made of patterns that were
/// compiled elsewhere; what is known of such a pair is only what `step`
/// says of any pair.
#[derive(Debug)]
pub struct Patterns {
    pub before: Regex,
    pub after: Regex,
}

/// Whether `regex` is the pattern with the text `source`, compiled the way
/// this crate compiles its patterns: ignoring case, and with `^` and `$`
/// matching at the ends of lines.
pub open spec fn compiled_from(regex: Regex, source: Seq<char>) -> bool {
    regex_settings(regex) == (source, true, true)
}

/// The first match of `regex` in `text`, with its groups.
pub open spec fn first_match(regex: Regex, text: Seq<char>) -> Option<Seq<Option<(usize, usize)>>> {
    first_captures(regex_settings(regex).0, regex_settings(regex).1, regex_settings(regex).2, text)
}

/// Calls `RegexBuilder::new`, `case_insensitive`, `multi_line` and `build`.
/// Whether the text compiles is decided by the `regex` crate, from the text,
/// the two settings and the layout of the machine alone; the contract gives
/// that answer the name `compiles`. Of a pattern that did compile it records
/// the settings that were handed in.
#[verifier::external_body]
fn build_regex(source: &str, case_insensitive: bool, multi_line: bool) -> (built: Result<
    Regex,
    regex::Error,
>)
    ensures
        built is Ok <==> compiles(source@, case_insensitive, multi_line, usize::BITS),
        built matches Ok(regex) ==> regex_settings(regex) == (
            source@,
            case_insensitive,
            multi_line,
        ),
{
    regex::RegexBuilder::new(source).case_insensitive(case_insensitive).multi_line(
        multi_line,
    ).build()
}

/// Tells the variants of `regex::Error` apart. Nothing is claimed of the
/// result.
#[verifier::external_body]
fn describe(error: regex::Error) -> PatternError {
    match error {
        regex::Error::Syntax(message) => PatternError::Syntax(message),
        regex::Error::CompiledTooBig(limit) => PatternError::TooBig(limit),
        _ => PatternError::Other,
    }
}

/// Calls `Regex::captures` and `Captures::iter`, and copies the offsets of
/// each group (`Match::start`, `Match::end`). The result depends on the
/// pattern and the text alone; the contract gives it the name
/// `first_captures`.
#[verifier::external_body]
pub(crate) fn captures_in(regex: &Regex, text: &str) -> (groups: Option<
    Vec<Option<(usize, usize)>>,
>)
    ensures
        groups matches Some(g) ==> first_captures(
            regex_settings(*regex).0,
            regex_settings(*regex).1,
            regex_settings(*regex).2,
            text@,
        ) == Some(g@),
        groups is None ==> first_captures(
            regex_settings(*regex).0,
            regex_settings(*regex).1,
            regex_settings(*regex).2,
            text@,
        ) is None,
{
    regex.captures(text).map(
        |found| found.iter().map(|group| group.map(|m| (m.start(), m.end()))).collect(),
    )
}

/// What becomes of the answer of the `regex` crate to a pattern text: a
/// pattern that compiled is handed on as it is, and a refusal is handed on
/// as the reason for it.
pub fn outcome_of(built: Result<Regex, regex::Error>) -> (compiled: Result<Regex, PatternError>)
    ensures
        match built {
            Ok(regex) => compiled == Ok::<Regex, PatternError>(regex),
            Err(_) => compiled is Err,
        },
{
    match built {
        Ok(regex) => Ok(regex),
        Err(error) => Err(describe(error)),
    }
}

/// Compiles the text of a pattern, ignoring case and with `^` and `$`
/// matching at the ends of lines. It succeeds on every text that the
/// `regex` crate takes for a pattern, and on no other; `outcome_of` says
/// what is made of the answer of that crate.
pub fn compile(source: &str) -> (compiled: Result<Regex, PatternError>)
    ensures
        compiled is Ok <==> is_pattern(source@),
        compiled matches Ok(regex) ==> compiled_from(regex, source@),
{
    outcome_of(build_regex(source, true, true))
}

impl Patterns {
    /// Whether these are the patterns of a table with the given rows.
    pub open spec fn built_for(self, rows: Seq<Row>) -> bool {
        &&& compiled_from(self.before, source(rows, Side::Before))
        &&& compiled_from(self.after, source(rows, Side::After))
    }

    /// The pattern of one side.
    pub open spec fn side(self, side: Side) -> Regex {
        match side {
            Side::Before => self.before,
            Side::After => self.after,
        }
    }

    /// The pattern of one side.
    pub fn of_side(&self, side: Side) -> (regex: &Regex)
        ensures
            *regex == self.side(side),
    {
        match side {
            Side::Before => &self.before,
            Side::After => &self.after,
        }
    }

    /// The pair of two compiled patterns, or the reason why the first of
    /// them that failed did not compile.
    pub fn pair(before: Result<Regex, PatternError>, after: Result<Regex, PatternError>) -> (paired:
        Result<Patterns, PatternError>)
        ensures
            paired == (match (before, after) {
                (Ok(b), Ok(a)) => Ok::<Patterns, PatternError>(Patterns { before: b, after: a }),
                (Err(e), _) => Err::<Patterns, PatternError>(e),
                (Ok(_), Err(e)) => Err::<Patterns, PatternError>(e),
            }),
    {
        match before {
            Ok(b) => match after {
                Ok(a) => Ok(Patterns { before: b, after: a }),
                Err(e) => Err(e),
            },
            Err(e) => Err(e),
        }
    }

    /// Compiles the two patterns of a table. It succeeds where the texts
    /// of both patterns compile, and the patterns that it gives are those of
    /// the table.
    pub fn build(table: &UnitTable) -> (built: Result<Patterns, PatternError>)
        ensures
            built is Ok <==> is_pattern(source(table.rows(), Side::Before)) && is_pattern(
                source(table.rows(), Side::After),
            ),
            built matches Ok(patterns) ==> patterns.built_for(table.rows()),
    {
        let sources = sources_of(table);
        let before = compile(sources.0.as_str());
        let after = compile(sources.1.as_str());
        Patterns::pair(before, after)
    }
}

} // verus!
