use interval_info::decimal::{chars_of, decimal_string, parse_number, parse_range};

#[test]
fn decimal_string_matches_the_standard_text() {
    for n in (0u64..1200).chain([9999, 10000, 10001, 123456789, 1 << 32, u64::MAX - 1, u64::MAX]) {
        assert_eq!(decimal_string(n), n.to_string());
    }
}

#[test]
fn decimal_string_of_zero() {
    assert_eq!(decimal_string(0), "0");
}

#[test]
fn decimal_string_of_the_largest_number() {
    assert_eq!(decimal_string(u64::MAX), "18446744073709551615");
}

#[test]
fn parse_number_reads_digits() {
    assert_eq!(parse_number("0"), Some(0));
    assert_eq!(parse_number("7"), Some(7));
    assert_eq!(parse_number("1200"), Some(1200));
    assert_eq!(parse_number("18446744073709551615"), Some(u64::MAX));
}

#[test]
fn parse_number_accepts_one_plus_and_leading_zeros() {
    assert_eq!(parse_number("+5"), Some(5));
    assert_eq!(parse_number("007"), Some(7));
    assert_eq!(parse_number("+007"), Some(7));
    assert_eq!(parse_number("000000000000000000000000000000000001"), Some(1));
}

#[test]
fn parse_number_refuses_what_is_no_number() {
    for text in ["", "+", "-", "-5", "++5", "+-5", "5+", " 5", "5 ", "1_000", "1.5", "0x10", "a",
        "12a", "a12", "\u{663}", "1/2"]
    {
        assert_eq!(parse_number(text), None, "{:?}", text);
    }
}

#[test]
fn parse_number_refuses_what_does_not_fit() {
    assert_eq!(parse_number("18446744073709551616"), None);
    assert_eq!(parse_number("18446744073709551620"), None);
    assert_eq!(parse_number("99999999999999999999"), None);
    assert_eq!(parse_number("184467440737095516150"), None);
    assert_eq!(parse_number("18446744073709551616x"), None);
}

#[test]
fn parse_number_matches_the_standard_parser() {
    for text in ["", "0", "00", "+0", "-0", "+", "42", "+42", "4 2", "18446744073709551615",
        "18446744073709551616", "000018446744073709551615", "1e3", "\u{ff11}", "9999999999"]
    {
        assert_eq!(parse_number(text), text.parse::<u64>().ok(), "{:?}", text);
    }
}

#[test]
fn parse_number_reads_back_what_decimal_string_writes() {
    for n in (0u64..500).chain([u64::MAX, u64::MAX / 10, u64::MAX / 10 + 1, 1 << 63]) {
        assert_eq!(parse_number(&decimal_string(n)), Some(n));
    }
}

#[test]
fn parse_range_reads_a_part() {
    let chars = chars_of("12/345");
    assert_eq!(parse_range(&chars, 0, 2), Some(12));
    assert_eq!(parse_range(&chars, 3, 6), Some(345));
    assert_eq!(parse_range(&chars, 1, 2), Some(2));
    assert_eq!(parse_range(&chars, 0, 6), None);
    assert_eq!(parse_range(&chars, 2, 2), None);
    assert_eq!(parse_range(&chars, 6, 6), None);
}

#[test]
fn chars_of_gives_each_character() {
    assert_eq!(chars_of(""), Vec::<char>::new());
    assert_eq!(chars_of("3/2"), vec!['3', '/', '2']);
    assert_eq!(chars_of("W\u{fc}r"), vec!['W', '\u{fc}', 'r']);
}
