use interval_info::names::{lookup_name, NAMES, NAME_COUNT, UNKNOWN};

#[test]
fn name_of_the_perfect_fifth() {
    assert_eq!(lookup_name(3, 2), "perfect fifth");
}

#[test]
fn name_of_a_ratio_that_is_not_in_the_table() {
    assert_eq!(lookup_name(7, 2), "Unknown");
    assert_eq!(lookup_name(0, 0), UNKNOWN);
    assert_eq!(lookup_name(2, 3), UNKNOWN);
}

#[test]
fn names_of_the_rows_in_front() {
    assert_eq!(lookup_name(3, 1), "tritave, perfect twelfth, BP thirteenth");
    assert_eq!(lookup_name(4, 1), "double octave");
    assert_eq!(lookup_name(1, 1), "unison, perfect prime");
    assert_eq!(lookup_name(2, 1), "octave");
}

#[test]
fn names_of_some_rows() {
    assert_eq!(lookup_name(5, 4), "major third");
    assert_eq!(lookup_name(81, 80), "syntonic comma, Didymus comma");
    assert_eq!(lookup_name(393216, 390625), "W\u{fc}rschmidt's comma");
}

#[test]
fn name_of_the_last_row() {
    assert_eq!(lookup_name(450359962737049600, 450283905890997363), "monzisma");
}

#[test]
fn name_goes_by_the_terms_not_by_the_value() {
    assert_eq!(lookup_name(10, 8), UNKNOWN);
    assert_eq!(lookup_name(6, 4), UNKNOWN);
}

#[test]
fn every_row_is_found_under_its_name() {
    assert_eq!(NAMES.len(), NAME_COUNT);
    for (num, den, name) in NAMES {
        assert_eq!(lookup_name(num, den), name);
    }
}

#[test]
fn no_ratio_has_two_rows() {
    for (i, a) in NAMES.iter().enumerate() {
        for b in NAMES.iter().skip(i + 1) {
            assert!(a.0 != b.0 || a.1 != b.1);
        }
    }
}

#[test]
fn every_row_is_in_lowest_terms_and_at_least_one() {
    for (num, den, _) in NAMES {
        assert!(den >= 1 && num >= den);
        assert_eq!(gcd(num, den), 1);
    }
}

fn gcd(a: u64, b: u64) -> u64 {
    if b == 0 {
        a
    } else {
        gcd(b, a % b)
    }
}
