//! The tuning limit of a number: its largest prime factor.
use crate::divisibility::{
    divides, is_prime, lemma_divides_bound, lemma_divides_multiple, lemma_divides_quotient,
    lemma_divides_trans, lemma_multiple_divides, lemma_prime_divides_prime,
    lemma_prime_divides_product,
};
use vstd::prelude::*;

verus! {

/// `p` is a prime factor of `n`, and no prime factor of `n` is larger.
pub open spec fn is_largest_prime_factor(p: nat, n: nat) -> bool {
    &&& is_prime(p)
    &&& divides(p, n)
    &&& forall|q: nat| is_prime(q) && #[trigger] divides(q, n) ==> q <= p
}

/// The largest prime factor of `n`; 1 for 0 and 1, which have none.
///
/// Found by trial division: the smallest divisor from 2 on is divided out
/// again and again, and the last one is the answer. For a prime `n` that
/// takes `n` steps.
pub fn largest_prime_factor(n: u64) -> (limit: u64)
    ensures
        n <= 1 ==> limit == 1,
        n >= 2 ==> is_largest_prime_factor(limit as nat, n as nat),
        is_prime(n as nat) ==> limit == n,
{
    let mut rest: u64 = n;
    let mut limit: u64 = 1;
    let mut factor: u64 = 2;
    while 1 < rest
        invariant
            factor >= 2,
            n >= 1 ==> divides(rest as nat, n as nat),
            n == 0 ==> rest == 0 && limit == 1,
            forall|d: nat| 2 <= d < factor ==> !#[trigger] divides(d, rest as nat),
            limit == 1 ==> rest == n,
            limit != 1 ==> is_prime(limit as nat) && divides(limit as nat, n as nat) && limit
                <= factor,
            forall|q: nat|
                is_prime(q) && #[trigger] divides(q, n as nat) ==> divides(q, rest as nat) || q
                    <= limit,
        decreases rest, rest - factor,
    {
        assert(factor <= rest) by {
            assert(divides(rest as nat, rest as nat));
        }
        if rest % factor == 0 {
            let ghost before = rest as nat;
            let ghost after = before / factor as nat;
            proof {
                let f = factor as nat;
                lemma_divides_quotient(f, before);
                assert(1 <= after < before) by (nonlinear_arith)
                    requires
                        before == f * after,
                        before >= 2,
                        f >= 2,
                ;
                lemma_multiple_divides(after, f);
                lemma_divides_trans(after, before, n as nat);
                assert(is_prime(f)) by {
                    assert forall|d: nat| 2 <= d < f implies !#[trigger] divides(d, f) by {
                        if divides(d, f) {
                            lemma_divides_trans(d, f, before);
                        }
                    }
                }
                lemma_divides_trans(f, before, n as nat);
                assert forall|d: nat| 2 <= d < f implies !#[trigger] divides(d, after) by {
                    if divides(d, after) {
                        lemma_divides_multiple(d, after, f);
                    }
                }
                assert forall|q: nat| is_prime(q) && #[trigger] divides(q, n as nat) implies divides(
                    q,
                    after,
                ) || q <= f by {
                    if divides(q, before) {
                        lemma_prime_divides_product(q, f, after);
                        if divides(q, f) {
                            lemma_prime_divides_prime(q, f);
                        }
                    }
                }
            }
            rest = rest / factor;
            limit = factor;
        } else {
            factor = factor + 1;
        }
    }
    proof {
        if n == 1 && limit != 1 {
            lemma_divides_bound(limit as nat, 1);
        }
        if n >= 2 {
            lemma_divides_bound(rest as nat, n as nat);
            assert forall|q: nat| is_prime(q) && #[trigger] divides(q, n as nat) implies q
                <= limit by {
                if divides(q, rest as nat) {
                    lemma_divides_bound(q, rest as nat);
                }
            }
            if is_prime(n as nat) {
                lemma_prime_divides_prime(limit as nat, n as nat);
            }
        }
    }
    limit
}

} // verus!
