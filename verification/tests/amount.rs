use davinci_metrics::amount::is_amount_text;

#[test]
fn digits_with_at_most_one_point_between_them() {
    for text in [
        "0",
        "5",
        "42",
        "007",
        "12.5",
        "0.0",
        "0.191",
        "00.00",
        "1.0000000000000000000000000000000000000001",
        "123456789012345678901234567890123456789012345678901234567890",
    ] {
        assert!(is_amount_text(text), "{text}");
        assert!(lexical_core::parse::<f64>(text.as_bytes()).is_ok(), "{text}");
    }
}

#[test]
fn anything_else_is_no_amount() {
    for text in [
        "",
        ".",
        "5.",
        ".5",
        "5..5",
        "5.5.5",
        "5.5.",
        "-5",
        "+5",
        "5e3",
        "5E3",
        "0x10",
        " 5",
        "5 ",
        "5 5",
        "1,5",
        "1_000",
        "1'000",
        "a",
        "5a",
        "a5",
        "5.a",
        "5.5a",
        "inf",
        "NaN",
        "\u{665}",
        "5\u{665}",
        "5.\u{665}",
        "\u{ff11}\u{ff12}",
        "5\u{2024}5",
        "½",
        "²",
    ] {
        assert!(!is_amount_text(text), "{text}");
    }
}

#[test]
fn every_short_text_of_digits_and_signs_is_judged_alike() {
    let letters = ['0', '9', '.', '-', 'e', ' ', '\u{665}'];
    let mut texts = vec![String::new()];
    for _ in 0..5 {
        let mut longer = Vec::new();
        for text in texts.iter() {
            for letter in letters {
                let mut next = text.clone();
                next.push(letter);
                longer.push(next);
            }
        }
        for text in longer.iter() {
            let parts: Vec<&str> = text.split('.').collect();
            let digits = |part: &str| !part.is_empty() && part.chars().all(|c| c.is_ascii_digit());
            let expected = match parts.as_slice() {
                [whole] => digits(whole),
                [whole, fraction] => digits(whole) && digits(fraction),
                _ => false,
            };
            assert_eq!(is_amount_text(text), expected, "{text}");
        }
        texts = longer;
    }
}
