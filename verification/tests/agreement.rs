use std::collections::HashMap;

use davinci_metrics::models::{Decimal, Position, Unit};
use davinci_metrics::rewrite::{format_replacement, Rewrite, RewriteError, Step};
use davinci_metrics::search::Patterns;
use davinci_metrics::table::{get_units, UnitTable};
use davinci_metrics::vocabulary::VOCABULARY;
use regex::{Regex, RegexBuilder};

fn value(number: Decimal) -> f64 {
    format!("{}e-{}", number.digits, number.scale).parse().unwrap()
}

fn davincis(unit: &Unit, mut amount: f64, kilo: bool) -> String {
    if kilo {
        amount *= 1000.0;
    }
    let converted = amount / value(unit.factor) / value(unit.metric.reference());
    let rounded = (converted * 100.0).round() / 100.0;
    format_replacement(&format!("{rounded}"), (rounded - 1.0).abs() < f64::EPSILON)
}

/// The rewrite as the library steps through it.
fn stepped(patterns: &Patterns, table: &UnitTable, message: &str) -> Result<Option<String>, RewriteError> {
    let mut rewrite = Rewrite::new(message);
    let mut rounds = 0;
    loop {
        match rewrite.step(patterns, table)? {
            Step::Convert(request) => {
                let amount: f64 = lexical_core::parse(request.amount.as_bytes()).unwrap();
                assert!(rewrite.replace(&davincis(&request.unit, amount, request.kilo)));
                rounds += 1;
                assert!(rounds < 1000);
            }
            Step::Done(output) => return Ok(output),
        }
    }
}

/// The two patterns, written down with the `regex` crate alone.
fn plain_patterns(units: &HashMap<&'static str, Unit>) -> [Regex; 2] {
    let mut sorted: Vec<(&'static str, Unit)> = VOCABULARY
        .iter()
        .filter(|row| units.contains_key(row.0))
        .map(|row| (row.0, units[row.0]))
        .collect();
    sorted.sort_by(|(a, _), (b, _)| b.len().cmp(&a.len()));
    let join = |keep: &dyn Fn(Position) -> bool| {
        sorted
            .iter()
            .filter(|(_, unit)| keep(unit.position))
            .map(|(alias, _)| regex::escape(alias))
            .collect::<Vec<_>>()
            .join("|")
    };
    let before = format!(
        "(?:^|\\b)(?P<unit>{})\\s?(?P<amount>\\d+(?:\\.\\d+)?)(?P<kilo>k\\s)?",
        join(&|p| p == Position::BeforeAmount || p == Position::Both)
    );
    let after = format!(
        "(?P<amount>\\d+(?:\\.\\d+)?)(?P<kilo>k\\s)?\\s*(?P<unit>{})(?:\\b|\\s|$)",
        join(&|p| p == Position::AfterAmount || p == Position::Both)
    );
    let build = |source: &str| {
        RegexBuilder::new(source).case_insensitive(true).multi_line(true).build().unwrap()
    };
    [build(&before), build(&after)]
}

/// The rewrite as one loop over the text, with the `regex` crate alone.
fn plain(
    patterns: &[Regex; 2],
    units: &HashMap<&'static str, Unit>,
    message: &str,
) -> Result<Option<String>, RewriteError> {
    let mut text = message.to_string();
    for regex in patterns.iter() {
        let mut rounds = 0;
        while let Some(cap) = regex.captures(&text) {
            let amount: f64 = match lexical_core::parse(cap["amount"].as_bytes()) {
                Ok(amount) => amount,
                Err(_) => return Err(RewriteError::UnparseableAmount),
            };
            let alias = cap["unit"].to_lowercase();
            let unit = match units.get(alias.as_str()) {
                Some(unit) => unit,
                None => return Err(RewriteError::UnknownUnit),
            };
            let new = davincis(unit, amount, cap.name("kilo").is_some());
            let old = cap.get(0).unwrap();
            let range = old.start()..old.start() + old.as_str().trim_end().len();
            text.replace_range(range, &new);
            rounds += 1;
            assert!(rounds < 1000);
        }
    }
    if message != text {
        Ok(Some(text))
    } else {
        Ok(None)
    }
}

struct Both {
    table: UnitTable,
    patterns: Patterns,
    units: HashMap<&'static str, Unit>,
    plain: [Regex; 2],
}

fn both() -> Both {
    let table = get_units();
    let patterns = Patterns::build(&table).unwrap();
    let units: HashMap<&'static str, Unit> =
        VOCABULARY.iter().map(|row| (row.0, Unit::from_descriptor(row.1))).collect();
    let plain = plain_patterns(&units);
    Both { table, patterns, units, plain }
}

fn agree(both: &Both, message: &str) {
    assert_eq!(
        stepped(&both.patterns, &both.table, message),
        plain(&both.plain, &both.units, message),
        "on {message:?}"
    );
}

#[test]
fn the_patterns_read_the_same() {
    let both = both();
    assert_eq!(both.patterns.before.as_str(), both.plain[0].as_str());
    assert_eq!(both.patterns.after.as_str(), both.plain[1].as_str());
}

#[test]
fn messages_are_rewritten_alike() {
    let both = both();
    let messages = [
        "",
        " ",
        "5",
        "kg",
        "191g",
        "2kg",
        "€50",
        "50€",
        "50 miles",
        "5k kg",
        "5k\tkg",
        "5k\u{a0}kg",
        "5kkg",
        "5 k kg",
        "I walked 3 km and then 2 miles, carrying 5kg.",
        "usd usd5",
        "usd5 usd5 usd 5",
        "$ $5",
        "costs $5",
        "costs\n$5\r\n€7",
        "2kg\n",
        "2kg \n 3m",
        "2kg   ",
        "2kg\u{2003}\u{2003}",
        "1.5.2kg",
        "1.kg",
        ".5kg",
        "1,5kg",
        "00012.500kg",
        "12345678901234567890123456789012345678901234567890kg",
        "0.000000000000000000000000000000000001kg",
        "5 square meters of 3 cubic feet",
        "5 squaremeters",
        "5m2 5m² 5m3 5m³ 5 M²",
        "5μg 5ΜG 5ug 5µg",
        "5Kg 5\u{212a}g 5 KILOGRAMS",
        "5 in 5 inch 5 inches 5 \"",
        "5ft 5 ft ft5 ft 5 5fts",
        "rs5 5rs Rs. 5 ₹5 5₹",
        "£5 5£ ¥5 5¥ 5 pounds sterling",
        "5 chinese yuan 5 yuan 5rmb rmb5",
        "5 g5 g",
        "5g5g5g",
        "g5g",
        "5 kWh per 100 km",
        "5mah 5 mAh 5 ampere hours",
        "a5t b5ton c5tons",
        "5t5",
        "5 tonne",
        "5 tx",
        "5 t.",
        "5 t-shirts",
        "5 m/s",
        "(5kg)",
        "[5kg]5kg{5kg}",
        "5kg5",
        "x5kg",
        "5 ha 5 has 5 hectar 5 ar 5 ars",
        "5 j 5 kj 5 kilo joule 5 wh",
        "5 pints of 5 gallons in 5 barrels",
        "5 davincis",
        "1 davinci",
        "5 davincikg",
        "eur5 davincis",
        "5\n kg",
        "5 \n\nkg",
        "5€5",
        "€5€",
        "€5k €5",
        "€5k\n€5",
        "5 €5",
        "5eur 5",
        "eur 5 eur",
        "\u{665}kg",
        "5.\u{665}kg 2kg",
        "2kg \u{ff15}kg",
        "\u{665}ton\u{17f}",
        "eur\u{966}",
        "5\u{665}kg",
        "\u{665}5kg",
    ];
    for message in messages {
        agree(&both, message);
    }
}

#[test]
fn every_alias_is_rewritten_alike() {
    let both = both();
    for row in VOCABULARY.iter() {
        let alias = row.0;
        let upper = alias.to_uppercase();
        for message in [
            format!("5{alias}"),
            format!("5 {alias}"),
            format!("{alias}5"),
            format!("{alias} 5"),
            format!("a {alias} 5 b"),
            format!("a 5 {alias} b"),
            format!("5k {alias}"),
            format!("{alias}5k x"),
            format!("2.50{alias}s"),
            format!("7{alias}7{alias}"),
            format!("{alias}7{alias}7"),
            format!("3 {alias}\n4 {alias}"),
            format!("3{alias}\t4 {alias}  "),
        ] {
            agree(&both, &message);
        }
        if upper.to_lowercase() == alias {
            agree(&both, &format!("5{upper}"));
            agree(&both, &format!("{upper} 5"));
        }
    }
}

#[test]
fn a_letter_that_only_the_pattern_takes_for_another_is_an_error_either_way() {
    let both = both();
    assert_eq!(
        stepped(&both.patterns, &both.table, "5ton\u{17f}"),
        Err(RewriteError::UnknownUnit)
    );
    agree(&both, "5ton\u{17f}");
    agree(&both, "5 inche\u{17f}");
}
