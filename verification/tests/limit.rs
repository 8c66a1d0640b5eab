use interval_info::limit::largest_prime_factor;

#[test]
fn limit_of_twelve_is_three() {
    assert_eq!(largest_prime_factor(12), 3);
}

#[test]
fn limit_of_one_is_one() {
    assert_eq!(largest_prime_factor(1), 1);
}

#[test]
fn limit_of_zero_is_one() {
    assert_eq!(largest_prime_factor(0), 1);
}

#[test]
fn limit_of_a_prime_is_the_prime() {
    for p in [2u64, 3, 5, 7, 11, 13, 97, 101, 7919, 65537] {
        assert_eq!(largest_prime_factor(p), p);
    }
}

#[test]
fn limit_of_a_prime_power_is_the_prime() {
    assert_eq!(largest_prime_factor(1024), 2);
    assert_eq!(largest_prime_factor(243), 3);
    assert_eq!(largest_prime_factor(2401), 7);
}

#[test]
fn limit_of_some_just_ratios() {
    assert_eq!(largest_prime_factor(15), 5);
    assert_eq!(largest_prime_factor(16), 2);
    assert_eq!(largest_prime_factor(360), 5);
    assert_eq!(largest_prime_factor(81), 3);
    assert_eq!(largest_prime_factor(80), 5);
    assert_eq!(largest_prime_factor(2 * 3 * 5 * 7 * 11 * 13), 13);
}

#[test]
fn limit_is_the_largest_prime_that_divides() {
    for n in 2u64..2000 {
        let limit = largest_prime_factor(n);
        assert!(is_prime(limit), "{}", n);
        assert_eq!(n % limit, 0, "{}", n);
        for q in limit + 1..=n {
            assert!(!(is_prime(q) && n % q == 0), "{} {}", n, q);
        }
    }
}

fn is_prime(p: u64) -> bool {
    p >= 2 && (2..p).all(|d| p % d != 0)
}
