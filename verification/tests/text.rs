use git_delayed::text::{
    chars_of, decimal, is_decimal_digit, is_whitespace, parse_digits, same_text, spells_from,
    to_lower, trim_bounds,
};

#[test]
fn text_helpers() {
    assert_eq!(chars_of("aé€😀"), ['a', 'é', '€', '😀']);
    assert_eq!(chars_of(""), Vec::<char>::new());
    for c in ['\t', '\n', '\u{b}', '\u{c}', '\r', ' ', '\u{85}', '\u{a0}', '\u{1680}', '\u{2000}',
        '\u{200a}', '\u{2028}', '\u{2029}', '\u{202f}', '\u{205f}', '\u{3000}']
    {
        assert!(is_whitespace(c), "{:?}", c);
    }
    for c in ['a', '0', '\u{8}', '\u{e}', '\u{1f}', '\u{200b}', '\u{180e}', '\u{feff}', '_'] {
        assert!(!is_whitespace(c), "{:?}", c);
    }
    for code in 0u32..0x3100 {
        if let Some(c) = char::from_u32(code) {
            assert_eq!(is_whitespace(c), c.is_whitespace(), "{:?}", c);
            assert_eq!(is_decimal_digit(c), c.is_ascii_digit());
            assert_eq!(to_lower(c), c.to_ascii_lowercase());
        }
    }
    assert_eq!(decimal(0), "0");
    assert_eq!(decimal(7), "7");
    assert_eq!(decimal(10), "10");
    assert_eq!(decimal(1234567890), "1234567890");
    assert_eq!(decimal(u64::MAX), "18446744073709551615");
    let v = chars_of("x0042y");
    assert_eq!(parse_digits(&v, 1, 5, 100), Some(42));
    assert_eq!(parse_digits(&v, 1, 5, 42), Some(42));
    assert_eq!(parse_digits(&v, 1, 5, 41), None);
    assert_eq!(parse_digits(&v, 1, 1, 0), Some(0));
    assert_eq!(parse_digits(&v, 0, 5, 100), None);
    assert_eq!(parse_digits(&v, 1, 6, 100), None);
    assert_eq!(parse_digits(&chars_of("12\u{0663}"), 0, 3, 1000), None);
    let big = chars_of("18446744073709551615");
    assert_eq!(parse_digits(&big, 0, 20, u64::MAX), Some(u64::MAX));
    let bigger = chars_of("18446744073709551616");
    assert_eq!(parse_digits(&bigger, 0, 20, u64::MAX), None);
    assert!(spells_from(&chars_of("+5 HoUrS"), 3, "hours"));
    assert!(!spells_from(&chars_of("+5 HoUrS"), 3, "hour"));
    assert!(!spells_from(&chars_of("+5 HoUrS"), 2, "hours"));
    assert!(spells_from(&chars_of("abc"), 3, ""));
    assert_eq!(trim_bounds(&chars_of("  ab c \n")), (2, 6));
    assert_eq!(trim_bounds(&chars_of("abc")), (0, 3));
    let (start, end) = trim_bounds(&chars_of(" \t "));
    assert_eq!(start, end);
    assert!(same_text("abc", "abc"));
    assert!(!same_text("abc", "abd"));
    assert!(!same_text("abc", "ab"));
    assert!(same_text("", ""));
}
