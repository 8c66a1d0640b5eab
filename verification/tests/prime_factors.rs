use interval_info::limit::largest_prime_factor;
use interval_info::prime_factors::{IntPower, PrimeFactors};

#[test]
fn factors_of_360() {
    assert_eq!(PrimeFactors::init(360).to_string(), "2^3*3^2*5");
}

#[test]
fn factors_of_one() {
    assert_eq!(PrimeFactors::init(1).to_string(), "1");
}

#[test]
fn factors_of_zero_are_those_of_one() {
    assert_eq!(PrimeFactors::init(0).to_string(), "1");
}

#[test]
fn factors_of_a_prime() {
    assert_eq!(PrimeFactors::init(2).to_string(), "2");
    assert_eq!(PrimeFactors::init(97).to_string(), "97");
    assert_eq!(PrimeFactors::init(65537).to_string(), "65537");
}

#[test]
fn factors_of_a_prime_power() {
    assert_eq!(PrimeFactors::init(4).to_string(), "2^2");
    assert_eq!(PrimeFactors::init(1024).to_string(), "2^10");
    assert_eq!(PrimeFactors::init(243).to_string(), "3^5");
    assert_eq!(PrimeFactors::init(1 << 63).to_string(), "2^63");
}

#[test]
fn factors_of_some_just_ratios() {
    assert_eq!(PrimeFactors::init(6).to_string(), "2*3");
    assert_eq!(PrimeFactors::init(12).to_string(), "2^2*3");
    assert_eq!(PrimeFactors::init(15).to_string(), "3*5");
    assert_eq!(PrimeFactors::init(45).to_string(), "3^2*5");
    assert_eq!(PrimeFactors::init(2401).to_string(), "7^4");
    assert_eq!(PrimeFactors::init(32805).to_string(), "3^8*5");
}

#[test]
fn factors_fill_fifteen_places() {
    let n: u64 = 2 * 3 * 5 * 7 * 11 * 13 * 17 * 19 * 23 * 29 * 31 * 37 * 41 * 43 * 47;
    assert_eq!(PrimeFactors::init(n).to_string(), "2*3*5*7*11*13*17*19*23*29*31*37*41*43*47");
}

#[test]
fn factors_multiply_to_the_number() {
    for n in 1u64..3000 {
        let text = PrimeFactors::init(n).to_string();
        if n == 1 {
            assert_eq!(text, "1");
            continue;
        }
        let mut product: u64 = 1;
        let mut before: u64 = 1;
        for part in text.split('*') {
            let mut sides = part.split('^');
            let prime: u64 = sides.next().unwrap().parse().unwrap();
            let exponent: u32 = match sides.next() {
                Some(e) => e.parse().unwrap(),
                None => 1,
            };
            assert!(part.contains('^') == (exponent > 1), "{}", text);
            assert!(exponent >= 1, "{}", text);
            assert!(prime > before, "{}", text);
            assert!((2..prime).all(|d| prime % d != 0), "{}", text);
            product *= prime.pow(exponent);
            before = prime;
        }
        assert_eq!(product, n, "{}", text);
    }
}

#[test]
fn set_replaces_what_the_list_held() {
    let mut list = PrimeFactors::init(360);
    list.set(7);
    assert_eq!(list.to_string(), "7");
    list.set(1);
    assert_eq!(list.to_string(), "1");
    list.set(84);
    assert_eq!(list.to_string(), "2^2*3*7");
}

#[test]
fn new_list_stands_for_one() {
    assert_eq!(PrimeFactors::new().to_string(), "1");
}

#[test]
fn power_keeps_base_and_exponent() {
    let p = IntPower::new(3, 2);
    assert_eq!(p.num, 3);
    assert_eq!(p.pow, 2);
}

#[test]
fn power_as_text() {
    assert_eq!(IntPower::new(2, 3).to_string(), "2^3");
    assert_eq!(IntPower::new(3, 2).to_string(), "3^2");
    assert_eq!(IntPower::new(2, 63).to_string(), "2^63");
    assert_eq!(IntPower::new(18446744073709551557, 255).to_string(), "18446744073709551557^255");
}

#[test]
fn power_with_exponent_one_shows_the_base_alone() {
    assert_eq!(IntPower::new(5, 1).to_string(), "5");
    assert_eq!(IntPower::new(5, 0).to_string(), "5");
    assert_eq!(IntPower::new(0, 0).to_string(), "0");
}

#[test]
fn last_prime_of_the_factors_is_the_limit() {
    for n in 2u64..2000 {
        let text = PrimeFactors::init(n).to_string();
        let last = text.rsplit('*').next().unwrap();
        let prime: u64 = last.split('^').next().unwrap().parse().unwrap();
        assert_eq!(prime, largest_prime_factor(n), "{}", n);
    }
}
