use interval_info::interval::Interval;

#[test]
fn new_keeps_both_terms() {
    let i = Interval::new(3, 2);
    assert_eq!(i.num, 3);
    assert_eq!(i.den, 2);
}

#[test]
fn new_checks_nothing() {
    let i = Interval::new(0, 0);
    assert_eq!(i.num, 0);
    assert_eq!(i.den, 0);
}

#[test]
fn reduce_takes_out_the_common_factor() {
    let mut i = Interval::new(6, 4);
    assert_eq!(i.reduce(), 2);
    assert_eq!(i, Interval::new(3, 2));
}

#[test]
fn reduce_returns_one_in_lowest_terms() {
    let mut i = Interval::new(3, 2);
    assert_eq!(i.reduce(), 1);
    assert_eq!(i, Interval::new(3, 2));
}

#[test]
fn reduce_twice_changes_nothing_more() {
    for (num, den) in [(6u64, 4u64), (360, 84), (1024, 768), (81, 80), (7, 7), (12, 18)] {
        let mut i = Interval::new(num, den);
        let first = i.reduce();
        let once = i;
        assert_eq!(first * once.num, num);
        assert_eq!(first * once.den, den);
        assert_eq!(i.reduce(), 1);
        assert_eq!(i, once);
        assert_eq!(gcd(once.num, once.den), 1);
    }
}

#[test]
fn reduce_returns_the_greatest_common_divisor() {
    for num in 1u64..40 {
        for den in 0u64..40 {
            let mut i = Interval::new(num, den);
            let g = gcd(num, den);
            assert_eq!(i.reduce(), g);
            assert_eq!(i, Interval::new(num / g, den / g));
        }
    }
}

#[test]
fn reduce_takes_out_a_repeated_factor() {
    let mut i = Interval::new(64, 48);
    assert_eq!(i.reduce(), 16);
    assert_eq!(i, Interval::new(4, 3));
}

#[test]
fn reduce_of_equal_terms_gives_unison() {
    let mut i = Interval::new(12, 12);
    assert_eq!(i.reduce(), 12);
    assert_eq!(i, Interval::new(1, 1));
}

#[test]
fn reduce_with_denominator_zero_takes_out_the_numerator() {
    let mut i = Interval::new(6, 0);
    assert_eq!(i.reduce(), 6);
    assert_eq!(i, Interval::new(1, 0));
}

#[test]
fn reduce_with_numerator_zero_changes_nothing() {
    let mut i = Interval::new(0, 5);
    assert_eq!(i.reduce(), 1);
    assert_eq!(i, Interval::new(0, 5));
}

#[test]
fn reduce_with_numerator_below_the_denominator() {
    let mut i = Interval::new(4, 6);
    assert_eq!(i.reduce(), 2);
    assert_eq!(i, Interval::new(2, 3));
}

#[test]
fn from_str_reads_both_sides() {
    assert_eq!(Interval::from_str("3/2"), Interval::new(3, 2));
    assert_eq!(Interval::from_str("6/4"), Interval::new(6, 4));
    assert_eq!(Interval::from_str("1024/729"), Interval::new(1024, 729));
}

#[test]
fn from_str_matches_the_standard_parser() {
    for text in ["3/2", "+3/+2", "03/002", "a/2", "3/b", "/", "", "7", "75", "3/2/1", "3 /2",
        "-3/2", "18446744073709551615/1", "18446744073709551616/1", "3/", "/2", "+/+", "1_0/2",
        "9/8 ", "\u{e9}/5", "5/\u{e9}", "\u{663}/2"]
    {
        let chars: Vec<char> = text.chars().collect();
        let pivot = chars.iter().position(|c| *c == '/').unwrap_or(chars.len());
        let left: String = chars[..pivot].iter().collect();
        let right: String = chars.iter().skip(pivot + 1).collect();
        let expected = Interval::new(left.parse::<u64>().unwrap_or(1),
            right.parse::<u64>().unwrap_or(1));
        assert_eq!(Interval::from_str(text), expected, "{:?}", text);
    }
}

#[test]
fn from_str_takes_a_side_that_is_no_number_as_one() {
    assert_eq!(Interval::from_str("x/2"), Interval::new(1, 2));
    assert_eq!(Interval::from_str("3/y"), Interval::new(3, 1));
    assert_eq!(Interval::from_str("/"), Interval::new(1, 1));
    assert_eq!(Interval::from_str("3/"), Interval::new(3, 1));
    assert_eq!(Interval::from_str("/2"), Interval::new(1, 2));
    assert_eq!(Interval::from_str("-3/2"), Interval::new(1, 2));
    assert_eq!(Interval::from_str("3 / 2"), Interval::new(1, 1));
}

#[test]
fn from_str_splits_at_the_first_slash() {
    assert_eq!(Interval::from_str("3/2/1"), Interval::new(3, 1));
    assert_eq!(Interval::from_str("3//2"), Interval::new(3, 1));
}

#[test]
fn from_str_without_slash_reads_a_numerator_over_one() {
    assert_eq!(Interval::from_str("7"), Interval::new(7, 1));
    assert_eq!(Interval::from_str("75"), Interval::new(75, 1));
    assert_eq!(Interval::from_str("+75"), Interval::new(75, 1));
}

#[test]
fn from_str_without_slash_and_without_number_gives_unison() {
    assert_eq!(Interval::from_str(""), Interval::new(1, 1));
    assert_eq!(Interval::from_str("x12"), Interval::new(1, 1));
    assert_eq!(Interval::from_str("7 5"), Interval::new(1, 1));
}

#[test]
fn is_valid_asks_for_two_positive_terms() {
    assert!(Interval::new(3, 2).is_valid());
    assert!(Interval::new(1, 1).is_valid());
    assert!(Interval::new(u64::MAX, u64::MAX).is_valid());
    assert!(!Interval::new(0, 2).is_valid());
    assert!(!Interval::new(3, 0).is_valid());
    assert!(!Interval::new(0, 0).is_valid());
}

#[test]
fn from_str_can_give_a_ratio_that_is_not_valid() {
    assert!(!Interval::from_str("3/0").is_valid());
    assert!(!Interval::from_str("0/5").is_valid());
    assert!(Interval::from_str("x/y").is_valid());
}

#[test]
fn from_str_takes_a_number_too_large_as_one() {
    assert_eq!(Interval::from_str("18446744073709551615/3"), Interval::new(u64::MAX, 3));
    assert_eq!(Interval::from_str("18446744073709551616/3"), Interval::new(1, 3));
    assert_eq!(Interval::from_str("3/99999999999999999999999"), Interval::new(3, 1));
}

#[test]
fn get_name_of_the_perfect_fifth() {
    assert_eq!(Interval::new(3, 2).get_name(), "perfect fifth");
}

#[test]
fn get_name_of_a_ratio_without_name() {
    assert_eq!(Interval::new(7, 2).get_name(), "Unknown");
}

#[test]
fn get_name_asks_for_lowest_terms() {
    assert_eq!(Interval::new(5, 4).get_name(), "major third");
    assert_eq!(Interval::new(10, 8).get_name(), "Unknown");
    assert_eq!(Interval::new(2, 3).get_name(), "Unknown");
}

#[test]
fn text_to_name_of_six_fourths() {
    let mut i = Interval::from_str("6/4");
    assert_eq!(i.reduce(), 2);
    assert_eq!(i, Interval::new(3, 2));
    assert_eq!(i.get_name(), "perfect fifth");
}

fn gcd(a: u64, b: u64) -> u64 {
    if b == 0 {
        a
    } else {
        gcd(b, a % b)
    }
}
