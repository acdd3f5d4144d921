use davinci_metrics::text::{
    byte_len_of, is_span_of, is_whitespace_char, splice, trimmed_byte_len,
};

#[test]
fn white_space_is_what_the_standard_library_calls_white_space() {
    let mut white = 0;
    for code in 0..=0x10ffff_u32 {
        if let Some(c) = char::from_u32(code) {
            assert_eq!(is_whitespace_char(c), c.is_whitespace());
            if is_whitespace_char(c) {
                white += 1;
            }
        }
    }
    assert_eq!(white, 25);
    assert!(is_whitespace_char(' '));
    assert!(is_whitespace_char('\n'));
    assert!(is_whitespace_char('\u{a0}'));
    assert!(!is_whitespace_char('\u{200b}'));
    assert!(!is_whitespace_char('a'));
}

#[test]
fn lengths_are_counted_in_bytes() {
    assert_eq!(byte_len_of(""), 0);
    assert_eq!(byte_len_of("kg"), 2);
    assert_eq!(byte_len_of("m²"), 3);
    assert_eq!(byte_len_of("€"), 3);
    assert_eq!(byte_len_of("𝄞"), 4);
}

#[test]
fn a_span_does_not_cut_a_character() {
    let text = "a€b";
    assert!(is_span_of(text, 0, 0));
    assert!(is_span_of(text, 0, 1));
    assert!(is_span_of(text, 1, 4));
    assert!(is_span_of(text, 4, 5));
    assert!(is_span_of(text, 5, 5));
    assert!(is_span_of(text, 0, 5));
    assert!(!is_span_of(text, 0, 2));
    assert!(!is_span_of(text, 0, 3));
    assert!(!is_span_of(text, 2, 4));
    assert!(!is_span_of(text, 3, 3));
    assert!(!is_span_of(text, 1, 0));
    assert!(!is_span_of(text, 0, 6));
    assert!(!is_span_of(text, 6, 6));
    assert!(!is_span_of(text, 0, usize::MAX));
    assert!(is_span_of("", 0, 0));
    assert!(!is_span_of("", 0, 1));
}

#[test]
fn trailing_white_space_is_taken_off() {
    assert_eq!(trimmed_byte_len(""), 0);
    assert_eq!(trimmed_byte_len("   "), 0);
    assert_eq!(trimmed_byte_len("ab"), 2);
    assert_eq!(trimmed_byte_len("ab "), 2);
    assert_eq!(trimmed_byte_len("ab \t\r\n"), 2);
    assert_eq!(trimmed_byte_len("  ab"), 4);
    assert_eq!(trimmed_byte_len("a b "), 3);
    assert_eq!(trimmed_byte_len("5€\u{3000}\u{a0} "), 4);
    assert_eq!(trimmed_byte_len("a\u{200b}"), 4);
    for text in ["", " ", "x ", " x", "5 kg\u{2003}", "\u{85}", "é\u{1680}\u{2028}", "a\u{feff}"] {
        assert_eq!(trimmed_byte_len(text), text.trim_end().len());
    }
}

#[test]
fn a_piece_is_replaced_and_the_rest_stays() {
    assert_eq!(splice("hello world", 0, 5, "howdy"), Some(String::from("howdy world")));
    assert_eq!(splice("hello world", 6, 11, "you"), Some(String::from("hello you")));
    assert_eq!(splice("hello world", 5, 6, ""), Some(String::from("helloworld")));
    assert_eq!(splice("hello", 2, 2, "-"), Some(String::from("he-llo")));
    assert_eq!(splice("hello", 0, 5, ""), Some(String::new()));
    assert_eq!(splice("", 0, 0, "x"), Some(String::from("x")));
    assert_eq!(splice("a€b", 1, 4, "$$"), Some(String::from("a$$b")));
    assert_eq!(splice("a€b", 4, 5, "€"), Some(String::from("a€€")));
}

#[test]
fn what_is_no_span_is_not_replaced() {
    assert_eq!(splice("a€b", 1, 2, "x"), None);
    assert_eq!(splice("a€b", 2, 4, "x"), None);
    assert_eq!(splice("a€b", 3, 1, "x"), None);
    assert_eq!(splice("a€b", 0, 6, "x"), None);
    assert_eq!(splice("", 1, 1, "x"), None);
}
