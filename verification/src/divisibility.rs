//! Divisibility, primes and the greatest common divisor of natural numbers.
use vstd::arithmetic::div_mod::{
    lemma_fundamental_div_mod, lemma_mod_multiples_basic, lemma_mod_multiples_vanish,
    lemma_truncate_middle,
};
use vstd::prelude::*;

verus! {

/// `d` divides `n`: `n` is a multiple of the positive number `d`.
pub open spec fn divides(d: nat, n: nat) -> bool {
    d > 0 && n % d == 0
}

/// `p` is at least 2 and has no divisor strictly between 1 and itself.
pub open spec fn is_prime(p: nat) -> bool {
    p >= 2 && forall|d: nat| 2 <= d < p ==> !#[trigger] divides(d, p)
}

/// No number from 2 on divides both `a` and `b`.
pub open spec fn coprime(a: nat, b: nat) -> bool {
    forall|d: nat| d >= 2 && #[trigger] divides(d, a) ==> !divides(d, b)
}

/// The greatest common divisor, by Euclid's recurrence; `gcd(a, 0)` is `a`.
///
/// [`lemma_gcd_divides`] and [`lemma_gcd_greatest`] show that it is a
/// common divisor and that every common divisor divides it.
pub open spec fn gcd(a: nat, b: nat) -> nat
    decreases b,
{
    if b == 0 {
        a
    } else {
        gcd(b, a % b)
    }
}

/// Every multiple of a positive number is divisible by it.
pub proof fn lemma_multiple_divides(d: nat, k: nat)
    requires
        d > 0,
    ensures
        divides(d, k * d),
        divides(d, d * k),
{
    lemma_mod_multiples_basic(k as int, d as int);
    assert(d * k == k * d) by (nonlinear_arith);
}

/// A number is its divisor times the quotient.
pub proof fn lemma_divides_quotient(d: nat, n: nat)
    requires
        divides(d, n),
    ensures
        n == d * (n / d),
{
    lemma_fundamental_div_mod(n as int, d as int);
}

/// A divisor of a positive number is at most that number.
pub proof fn lemma_divides_bound(d: nat, n: nat)
    requires
        divides(d, n),
        n > 0,
    ensures
        d <= n,
{
    lemma_divides_quotient(d, n);
    let q = n / d;
    assert(d <= n) by (nonlinear_arith)
        requires
            n == d * q,
            n > 0,
            d > 0,
    ;
}

/// Divisibility is transitive.
pub proof fn lemma_divides_trans(a: nat, b: nat, c: nat)
    requires
        divides(a, b),
        divides(b, c),
    ensures
        divides(a, c),
{
    lemma_divides_quotient(a, b);
    lemma_divides_quotient(b, c);
    let k = (b / a) * (c / b);
    assert(c == k * a) by (nonlinear_arith)
        requires
            b == a * (b / a),
            c == b * (c / b),
            k == (b / a) * (c / b),
    ;
    lemma_multiple_divides(a, k);
}

/// A divisor of `b` divides `a` exactly when it divides the remainder of
/// `a` by `b`.
pub proof fn lemma_divides_remainder(d: nat, a: nat, b: nat)
    requires
        divides(d, b),
        b > 0,
    ensures
        divides(d, a) <==> divides(d, a % b),
{
    lemma_divides_quotient(d, b);
    lemma_fundamental_div_mod(a as int, b as int);
    let k = (b / d) * (a / b);
    assert(a == d * k + a % b) by (nonlinear_arith)
        requires
            b == d * (b / d),
            a == b * (a / b) + a % b,
            k == (b / d) * (a / b),
    ;
    lemma_mod_multiples_vanish(k as int, (a % b) as int, d as int);
}

/// A divisor of a number divides every multiple of it.
pub proof fn lemma_divides_multiple(d: nat, n: nat, k: nat)
    requires
        divides(d, n),
    ensures
        divides(d, n * k),
        divides(d, k * n),
{
    if n * k == 0 {
        assert(k * n == 0) by (nonlinear_arith)
            requires
                n * k == 0,
        ;
    } else {
        assert(n > 0 && k * n == n * k) by (nonlinear_arith)
            requires
                n * k != 0,
        ;
        lemma_multiple_divides(n, k);
        lemma_divides_trans(d, n, n * k);
    }
}

/// Unless both numbers are 0, their gcd is positive and divides both.
pub proof fn lemma_gcd_divides(a: nat, b: nat)
    requires
        a > 0 || b > 0,
    ensures
        gcd(a, b) > 0,
        divides(gcd(a, b), a),
        divides(gcd(a, b), b),
    decreases b,
{
    if b != 0 {
        lemma_gcd_divides(b, a % b);
        lemma_divides_remainder(gcd(a, b), a, b);
    }
}

/// Every common divisor of two numbers divides their gcd.
pub proof fn lemma_gcd_greatest(a: nat, b: nat, d: nat)
    requires
        divides(d, a),
        divides(d, b),
    ensures
        divides(d, gcd(a, b)),
    decreases b,
{
    if b != 0 {
        lemma_divides_remainder(d, a, b);
        lemma_gcd_greatest(b, a % b, d);
    }
}

/// A common factor can be taken out of a gcd.
pub proof fn lemma_gcd_scale(r: nat, a: nat, b: nat)
    requires
        r > 0,
    ensures
        gcd(r * a, r * b) == r * gcd(a, b),
    decreases b,
{
    if b == 0 {
        assert(r * b == 0) by (nonlinear_arith)
            requires
                b == 0,
        ;
    } else {
        lemma_truncate_middle(a as int, r as int, b as int);
        assert((r * a) % (r * b) == r * (a % b));
        lemma_gcd_scale(r, b, a % b);
    }
}

/// Coprime numbers, not both 0, have gcd 1.
pub proof fn lemma_coprime_gcd(a: nat, b: nat)
    requires
        coprime(a, b),
        a > 0 || b > 0,
    ensures
        gcd(a, b) == 1,
{
    lemma_gcd_divides(a, b);
}

/// Numbers with gcd 1 are coprime.
pub proof fn lemma_gcd_coprime(a: nat, b: nat)
    requires
        gcd(a, b) == 1,
    ensures
        coprime(a, b),
{
    assert forall|d: nat| d >= 2 && #[trigger] divides(d, a) implies !divides(d, b) by {
        if divides(d, b) {
            lemma_gcd_greatest(a, b, d);
            lemma_divides_bound(d, 1);
        }
    }
}

/// Euclid's lemma: a prime that divides a product divides one of its
/// factors.
pub proof fn lemma_prime_divides_product(p: nat, a: nat, b: nat)
    requires
        is_prime(p),
        divides(p, a * b),
    ensures
        divides(p, a) || divides(p, b),
{
    if !divides(p, a) && b > 0 {
        let g = gcd(p, a);
        lemma_gcd_divides(p, a);
        lemma_divides_bound(g, p);
        assert(g == 1) by {
            if g != 1 {
                assert(!(2 <= g < p)) by {
                    assert(divides(g, p));
                }
            }
        }
        lemma_gcd_scale(b, p, a);
        lemma_multiple_divides(p, b);
        assert(b * a == a * b && b * 1 == b) by (nonlinear_arith);
        lemma_gcd_greatest(b * p, b * a, p);
    }
}

/// A prime that divides a prime is that prime.
pub proof fn lemma_prime_divides_prime(p: nat, q: nat)
    requires
        is_prime(p),
        is_prime(q),
        divides(p, q),
    ensures
        p == q,
{
    lemma_divides_bound(p, q);
}

} // verus!
