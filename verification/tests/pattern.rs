use davinci_metrics::models::{Decimal, Metric, Position, Unit};
use davinci_metrics::order::longest_first_of;
use davinci_metrics::pattern::{
    alternation_of, belongs_in, sources_of, Side, AFTER_CLOSING, AFTER_OPENING, BEFORE_CLOSING,
    BEFORE_OPENING,
};
use davinci_metrics::search::{compile, outcome_of, PatternError, Patterns};
use davinci_metrics::table::{get_units, UnitTable};

fn unit(position: Position) -> Unit {
    Unit { metric: Metric::Length, position, factor: Decimal { digits: 1, scale: 0 } }
}

fn small_table() -> UnitTable {
    let mut table = UnitTable::new();
    table.insert("m", unit(Position::AfterAmount));
    table.insert("$", unit(Position::Both));
    table.insert("mile", unit(Position::AfterAmount));
    table.insert("us dollar", unit(Position::AfterAmount));
    table.insert("c++", unit(Position::BeforeAmount));
    table
}

fn aliases(table: &UnitTable) -> Vec<String> {
    longest_first_of(table).iter().map(|entry| entry.alias.clone()).collect()
}

#[test]
fn the_openings_and_closings() {
    assert_eq!(BEFORE_OPENING, r"(?:^|\b)(?P<unit>");
    assert_eq!(BEFORE_CLOSING, r")\s?(?P<amount>\d+(?:\.\d+)?)(?P<kilo>k\s)?");
    assert_eq!(AFTER_OPENING, r"(?P<amount>\d+(?:\.\d+)?)(?P<kilo>k\s)?\s*(?P<unit>");
    assert_eq!(AFTER_CLOSING, r")(?:\b|\s|$)");
}

#[test]
fn longer_aliases_come_first_and_equal_ones_keep_their_order() {
    assert_eq!(aliases(&small_table()), vec!["us dollar", "mile", "c++", "m", "$"]);
    assert_eq!(aliases(&UnitTable::new()), Vec::<String>::new());
}

#[test]
fn length_is_counted_in_bytes() {
    let mut table = UnitTable::new();
    table.insert("ab", unit(Position::AfterAmount));
    table.insert("m²", unit(Position::AfterAmount));
    table.insert("€", unit(Position::AfterAmount));
    table.insert("abc", unit(Position::AfterAmount));
    table.insert("abcd", unit(Position::AfterAmount));
    assert_eq!(aliases(&table), vec!["abcd", "m²", "€", "abc", "ab"]);
}

#[test]
fn the_vocabulary_longest_first() {
    let table = get_units();
    let ordered = longest_first_of(&table);
    assert_eq!(ordered.len(), table.len());
    for i in 1..ordered.len() {
        assert!(ordered[i - 1].alias.len() >= ordered[i].alias.len());
    }
    for i in 0..table.len() {
        let entry = table.entry(i).unwrap();
        let found: Vec<_> = ordered.iter().filter(|o| o.alias == entry.alias).collect();
        assert_eq!(found.len(), 1);
        assert_eq!(found[0].unit, entry.unit);
    }
    let place = |alias: &str| ordered.iter().position(|o| o.alias == alias).unwrap();
    assert!(place("miles") < place("mile"));
    assert!(place("mile") < place("m"));
    assert!(place("kilograms") < place("kilogram"));
    assert!(place("kilogram") < place("kilo"));
    assert!(place("kg") < place("g"));
    assert!(place("km²") < place("km"));
    assert!(place("square meters") < place("square meter"));
    assert_eq!(ordered[0].alias.len(), 18);
    assert_eq!(ordered[ordered.len() - 1].alias.len(), 1);
}

#[test]
fn an_alias_stands_behind_every_alias_that_begins_with_it() {
    let ordered = longest_first_of(&get_units());
    for (i, short) in ordered.iter().enumerate() {
        for (j, long) in ordered.iter().enumerate() {
            if long.alias != short.alias && long.alias.starts_with(short.alias.as_str()) {
                assert!(j < i);
            }
        }
    }
}

#[test]
fn the_sides_of_a_position() {
    assert!(belongs_in(Position::BeforeAmount, Side::Before));
    assert!(!belongs_in(Position::BeforeAmount, Side::After));
    assert!(!belongs_in(Position::AfterAmount, Side::Before));
    assert!(belongs_in(Position::AfterAmount, Side::After));
    assert!(belongs_in(Position::Both, Side::Before));
    assert!(belongs_in(Position::Both, Side::After));
}

#[test]
fn aliases_are_escaped_and_joined() {
    let ordered = longest_first_of(&small_table());
    assert_eq!(alternation_of(&ordered, Side::Before), r"c\+\+|\$");
    assert_eq!(alternation_of(&ordered, Side::After), r"us dollar|mile|m|\$");
    assert_eq!(alternation_of(&Vec::new(), Side::Before), "");
    let mut table = UnitTable::new();
    table.insert(r"\.+*?()|[]{}^$#&-~", unit(Position::Both));
    table.insert("a%/!\"e é", unit(Position::Both));
    let ordered = longest_first_of(&table);
    assert_eq!(
        alternation_of(&ordered, Side::After),
        r#"\\\.\+\*\?\(\)\|\[\]\{\}\^\$\#\&\-\~|a%/!"e é"#
    );
}

#[test]
fn the_sources_of_a_small_table() {
    let (before, after) = sources_of(&small_table());
    assert_eq!(before, r"(?:^|\b)(?P<unit>c\+\+|\$)\s?(?P<amount>\d+(?:\.\d+)?)(?P<kilo>k\s)?");
    assert_eq!(
        after,
        r"(?P<amount>\d+(?:\.\d+)?)(?P<kilo>k\s)?\s*(?P<unit>us dollar|mile|m|\$)(?:\b|\s|$)"
    );
}

#[test]
fn the_sources_of_an_empty_table() {
    let table = UnitTable::new();
    let (before, after) = sources_of(&table);
    assert_eq!(before, r"(?:^|\b)(?P<unit>)\s?(?P<amount>\d+(?:\.\d+)?)(?P<kilo>k\s)?");
    assert_eq!(after, r"(?P<amount>\d+(?:\.\d+)?)(?P<kilo>k\s)?\s*(?P<unit>)(?:\b|\s|$)");
    assert!(Patterns::build(&table).is_ok());
}

#[test]
fn the_sources_of_the_vocabulary() {
    let table = get_units();
    let (before, after) = sources_of(&table);
    assert_eq!(
        before,
        r"(?:^|\b)(?P<unit>€|eur|usd|huf|₹|inr|gbp|cny|rmb|ft|rs|£|¥|\$)\s?(?P<amount>\d+(?:\.\d+)?)(?P<kilo>k\s)?"
    );
    assert!(after.starts_with(r"(?P<amount>\d+(?:\.\d+)?)(?P<kilo>k\s)?\s*(?P<unit>square centimeters|square centimetres|square millimeters|"));
    assert!(after.ends_with(r"|g|t|m|j|\$)(?:\b|\s|$)"));
    assert_eq!(after.matches('|').count(), 263 + 2);
    let patterns = Patterns::build(&table).unwrap();
    assert_eq!(patterns.before.as_str(), before);
    assert_eq!(patterns.after.as_str(), after);
    assert_eq!(patterns.of_side(Side::Before).as_str(), before);
    assert_eq!(patterns.of_side(Side::After).as_str(), after);
}

#[test]
fn a_later_row_decides_where_an_alias_belongs() {
    let mut table = UnitTable::new();
    table.insert("x", unit(Position::Both));
    table.insert("x", unit(Position::AfterAmount));
    let ordered = longest_first_of(&table);
    assert_eq!(alternation_of(&ordered, Side::Before), "");
    assert_eq!(alternation_of(&ordered, Side::After), "x");
}

#[test]
fn compiled_patterns_ignore_case_and_take_lines_apart() {
    let regex = compile("^ab$").unwrap();
    assert_eq!(regex.as_str(), "^ab$");
    assert!(regex.is_match("AB"));
    assert!(regex.is_match("x\nAb\ny"));
    assert!(!regex.is_match("xab"));
}

#[test]
fn the_patterns_of_a_table_compile() {
    assert!(Patterns::build(&get_units()).is_ok());
    assert!(Patterns::build(&small_table()).is_ok());
    assert!(Patterns::build(&UnitTable::new()).is_ok());
    let (before, after) = sources_of(&get_units());
    assert!(compile(&before).is_ok());
    assert!(compile(&after).is_ok());
}

#[test]
fn what_is_no_pattern_does_not_compile() {
    assert!(matches!(compile("("), Err(PatternError::Syntax(_))));
    assert!(matches!(compile(r"\e"), Err(PatternError::Syntax(_))));
    assert!(matches!(compile(r"(?P<a>x)(?P<a>y)"), Err(PatternError::Syntax(_))));
    assert!(matches!(compile(r"\pL{1000}{100}"), Err(PatternError::TooBig(_))));
}

#[test]
fn a_pattern_that_compiled_is_handed_on_and_a_refusal_is_described() {
    let built = regex::RegexBuilder::new("a+b").case_insensitive(true).build();
    let regex = outcome_of(built).unwrap();
    assert_eq!(regex.as_str(), "a+b");
    assert!(regex.is_match("xAAB"));
    assert!(matches!(
        outcome_of(regex::Regex::new("a(")),
        Err(PatternError::Syntax(message)) if message.contains("unclosed group")
    ));
    assert!(matches!(
        outcome_of(regex::RegexBuilder::new("a{100}").size_limit(10).build()),
        Err(PatternError::TooBig(10))
    ));
}

#[test]
fn a_pair_needs_both_patterns() {
    let good = || compile("a");
    assert!(Patterns::pair(good(), good()).is_ok());
    assert!(matches!(
        Patterns::pair(Err(PatternError::TooBig(7)), good()),
        Err(PatternError::TooBig(7))
    ));
    assert!(matches!(
        Patterns::pair(good(), Err(PatternError::Other)),
        Err(PatternError::Other)
    ));
    assert!(matches!(
        Patterns::pair(Err(PatternError::Syntax(String::from("first"))), Err(PatternError::Other)),
        Err(PatternError::Syntax(message)) if message == "first"
    ));
    let pair = Patterns::pair(compile("a"), compile("b")).unwrap();
    assert_eq!(pair.before.as_str(), "a");
    assert_eq!(pair.after.as_str(), "b");
}
