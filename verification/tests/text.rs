use tfs_core::text::{
    chars_are, chars_of, eq_ignore_ascii_case, i64_to_decimal, lower_chars, lower_string,
    parse_i32, parse_span, span_is, u64_to_decimal,
};

#[test]
fn decimal_texts() {
    assert_eq!(u64_to_decimal(0), "0");
    assert_eq!(u64_to_decimal(18446744073709551615), "18446744073709551615");
    assert_eq!(i64_to_decimal(-9223372036854775808), "-9223372036854775808");
    assert_eq!(i64_to_decimal(42), "42");
}

#[test]
fn i32_parsing_follows_rust() {
    for w in ["0", "7", "+7", "-7", "2147483647", "-2147483648", "", "-", "+", "1 ", "x1", "2147483648", "-2147483649", "--1", "+-1", "007"] {
        assert_eq!(parse_i32(w), w.parse::<i32>().ok(), "word {w:?}");
    }
}

#[test]
fn spans_parse_within_bounds() {
    let line = chars_of("ab 123 -4 x");
    assert_eq!(parse_span(&line, 3, 6, 0, 1000), Some(123));
    assert_eq!(parse_span(&line, 3, 6, 0, 100), None);
    assert_eq!(parse_span(&line, 7, 9, -10, 10), Some(-4));
    assert_eq!(parse_span(&line, 7, 9, 0, 10), None);
    assert_eq!(parse_span(&line, 10, 11, 0, 10), None);
    assert!(span_is(&line, 0, 2, "ab"));
    assert!(!span_is(&line, 0, 3, "ab"));
}

#[test]
fn lower_casing_is_ascii_only() {
    assert_eq!(lower_string("PoIsOn Ä"), "poison Ä");
    assert_eq!(lower_chars("AbC"), vec!['a', 'b', 'c']);
    assert!(chars_are(&lower_chars("MELEE"), "melee"));
    assert!(eq_ignore_ascii_case("ShootEffect", "shooteffect"));
    assert!(!eq_ignore_ascii_case("shoot", "shooteffect"));
    assert!(!eq_ignore_ascii_case("Ä", "ä"));
}
