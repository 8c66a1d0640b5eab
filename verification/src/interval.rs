//! A musical interval as a ratio of two frequencies.
use crate::divisibility::{
    coprime, divides, gcd, lemma_coprime_gcd, lemma_divides_bound, lemma_divides_multiple,
    lemma_divides_quotient, lemma_gcd_coprime, lemma_gcd_divides, lemma_gcd_scale,
};
use crate::decimal::{chars_of, parse_range, parse_unsigned};
use crate::names::{lookup_name, name_of};
use vstd::prelude::*;

verus! {

/// The ratio `num/den`. Nothing is checked when one is made: a ratio that
/// stands for a pitch has both terms positive, see [`Interval::valid`].
#[derive(Clone, Copy, Debug, PartialEq, Eq, Structural)]
pub struct Interval {
    pub num: u64,
    pub den: u64,
}

/// The first place from `from` on where the text holds `'/'`.
pub open spec fn first_slash(s: Seq<char>, from: int) -> Option<int>
    decreases s.len() - from,
{
    if from < 0 || from >= s.len() {
        None
    } else if s[from] == '/' {
        Some(from)
    } else {
        first_slash(s, from + 1)
    }
}

/// Where the text of a ratio splits: at its first `'/'`, and at its end
/// where it holds none, so that all of it is the numerator.
pub open spec fn split_point(s: Seq<char>) -> int {
    match first_slash(s, 0) {
        Some(i) => i,
        None => s.len() as int,
    }
}

/// The number that one side of the text stands for, and 1 where it stands
/// for none.
pub open spec fn number_or_one(s: Seq<char>) -> u64 {
    match parse_unsigned(s) {
        Some(n) => n,
        None => 1,
    }
}

/// What stands before the split point.
pub open spec fn numerator_text(s: Seq<char>) -> Seq<char> {
    s.subrange(0, split_point(s))
}

/// What stands behind the `'/'` at the split point; nothing where the text
/// holds none.
pub open spec fn denominator_text(s: Seq<char>) -> Seq<char> {
    if split_point(s) < s.len() {
        s.subrange(split_point(s) + 1, s.len() as int)
    } else {
        Seq::empty()
    }
}

/// The ratio that a text `"N/D"` stands for.
pub open spec fn ratio_of_text(s: Seq<char>) -> Interval {
    Interval { num: number_or_one(numerator_text(s)), den: number_or_one(denominator_text(s)) }
}

impl Interval {
    /// Both terms are positive.
    pub open spec fn valid(self) -> bool {
        self.num > 0 && self.den > 0
    }

    /// The factor that [`Interval::reduce`] takes out of both terms: their
    /// greatest common divisor, and 1 where the numerator is 0.
    pub open spec fn common_factor(self) -> nat {
        if self.num == 0 {
            1
        } else {
            gcd(self.num as nat, self.den as nat)
        }
    }

    /// The ratio with [`Interval::common_factor`] taken out of both terms.
    pub open spec fn reduced(self) -> Interval {
        Interval {
            num: (self.num as nat / self.common_factor()) as u64,
            den: (self.den as nat / self.common_factor()) as u64,
        }
    }

    /// The ratio `num/den`, as it is given.
    pub fn new(num: u64, den: u64) -> (i: Self)
        ensures
            i.num == num,
            i.den == den,
    {
        Self { num, den }
    }

    /// Whether both terms are positive, as they have to be for the ratio to
    /// stand for a pitch.
    pub fn is_valid(&self) -> (ok: bool)
        ensures
            ok == self.valid(),
    {
        self.num > 0 && self.den > 0
    }

    /// The name of this very ratio, term by term, or `"Unknown"`: reduce
    /// the interval first.
    pub fn get_name(&self) -> (name: &'static str)
        ensures
            name@ == name_of(self.num, self.den),
    {
        lookup_name(self.num, self.den)
    }

    /// Reads a ratio from a text `"N/D"`, split at its first `'/'`. A side
    /// that is missing or is no number counts as 1: nothing is refused. A
    /// text without `'/'` is a numerator alone, over 1.
    pub fn from_str(s: &str) -> (i: Self)
        ensures
            i == ratio_of_text(s@),
    {
        let chars = chars_of(s);
        let len = chars.len();
        let mut pivot: usize = 0;
        while pivot < len && chars[pivot] != '/'
            invariant
                pivot <= len == chars.len(),
                first_slash(chars@, 0) == first_slash(chars@, pivot as int),
            decreases len - pivot,
        {
            pivot = pivot + 1;
        }
        let num = match parse_range(&chars, 0, pivot) {
            Some(n) => n,
            None => 1,
        };
        let den = if pivot < len {
            match parse_range(&chars, pivot + 1, len) {
                Some(n) => n,
                None => 1,
            }
        } else {
            proof {
                assert(parse_unsigned(Seq::<char>::empty()) is None);
            }
            1
        };
        Self::new(num, den)
    }

    /// Brings the ratio to lowest terms and returns the factor taken out,
    /// 1 where it was in lowest terms already.
    ///
    /// Common factors are found by trial division, from 2 up to the
    /// numerator, so the time is linear in the numerator.
    pub fn reduce(&mut self) -> (factor: u64)
        ensures
            factor == old(self).common_factor(),
            *final(self) == old(self).reduced(),
    {
        let ghost start = *self;
        let mut reduced: u64 = 1;
        let mut factor: u64 = 2;
        while factor <= self.num
            invariant
                factor >= 2,
                reduced >= 1,
                start.num == reduced * self.num,
                start.den == reduced * self.den,
                start.num == 0 ==> reduced == 1,
                forall|d: nat|
                    2 <= d < factor && #[trigger] divides(d, self.num as nat) ==> !divides(
                        d,
                        self.den as nat,
                    ),
            ensures
                forall|d: nat|
                    2 <= d <= self.num && #[trigger] divides(d, self.num as nat) ==> !divides(
                        d,
                        self.den as nat,
                    ),
            decreases self.num, self.num + 1 - factor,
        {
            if self.num % factor == 0 && self.den % factor == 0 {
                let ghost num = self.num;
                let ghost den = self.den;
                proof {
                    lemma_divides_quotient(factor as nat, num as nat);
                    lemma_divides_quotient(factor as nat, den as nat);
                    let n = num as nat / factor as nat;
                    let m = den as nat / factor as nat;
                    assert(1 <= n < num && reduced * factor <= start.num && start.num == (
                    reduced * factor) * n) by (nonlinear_arith)
                        requires
                            num == factor * n,
                            num >= factor,
                            factor >= 2,
                            reduced >= 1,
                            start.num == reduced * num,
                    ;
                    assert(start.den == (reduced * factor) * m) by (nonlinear_arith)
                        requires
                            den == factor * m,
                            start.den == reduced * den,
                    ;
                    assert forall|d: nat|
                        2 <= d < factor && #[trigger] divides(d, n) implies !divides(d, m) by {
                        lemma_divides_multiple(d, n, factor as nat);
                        if divides(d, m) {
                            lemma_divides_multiple(d, m, factor as nat);
                        }
                    }
                }
                self.num = self.num / factor;
                self.den = self.den / factor;
                reduced = reduced * factor;
            } else {
                match factor.checked_add(1) {
                    Some(next) => {
                        factor = next;
                    },
                    None => {
                        break ;
                    },
                }
            }
        }
        proof {
            let n = self.num as nat;
            let m = self.den as nat;
            if start.num > 0 {
                assert(n > 0) by (nonlinear_arith)
                    requires
                        start.num == reduced * n,
                        start.num > 0,
                ;
                assert(coprime(n, m)) by {
                    assert forall|d: nat| d >= 2 && #[trigger] divides(d, n) implies !divides(
                        d,
                        m,
                    ) by {
                        lemma_divides_bound(d, n);
                    }
                }
                lemma_coprime_gcd(n, m);
                lemma_gcd_scale(reduced as nat, n, m);
                assert(reduced * 1 == reduced) by (nonlinear_arith);
                assert(gcd(start.num as nat, start.den as nat) == reduced);
            }
            let r = reduced as nat;
            assert(start.num as nat / r == n && start.den as nat / r == m) by (nonlinear_arith)
                requires
                    r >= 1,
                    start.num == r * n,
                    start.den == r * m,
            ;
        }
        reduced
    }
}

/// Reducing twice changes nothing the second time: a reduced ratio has
/// common factor 1 and is its own reduction.
pub proof fn lemma_reduce_idempotent(i: Interval)
    ensures
        i.reduced().common_factor() == 1,
        i.reduced().reduced() == i.reduced(),
{
    lemma_reduced_terms(i);
    let r = i.reduced();
    if r.num != 0 {
        lemma_reduced_coprime(i);
        lemma_coprime_gcd(r.num as nat, r.den as nat);
    }
}

/// With a positive numerator, the reduced ratio is in lowest terms: its
/// terms have gcd 1 and no common divisor from 2 on.
pub proof fn lemma_reduced_coprime(i: Interval)
    requires
        i.num > 0,
    ensures
        gcd(i.reduced().num as nat, i.reduced().den as nat) == 1,
        coprime(i.reduced().num as nat, i.reduced().den as nat),
{
    lemma_reduced_terms(i);
    let g = i.common_factor();
    let r = i.reduced();
    lemma_gcd_scale(g, r.num as nat, r.den as nat);
    assert(gcd(r.num as nat, r.den as nat) == 1) by (nonlinear_arith)
        requires
            g == g * gcd(r.num as nat, r.den as nat),
            g > 0,
    ;
    lemma_gcd_coprime(r.num as nat, r.den as nat);
}

/// The common factor is positive and, times the reduced terms, gives the
/// terms back; so reducing keeps the value of the ratio, and a valid ratio
/// stays valid.
pub proof fn lemma_reduced_terms(i: Interval)
    ensures
        i.common_factor() > 0,
        i.num == i.common_factor() * i.reduced().num,
        i.den == i.common_factor() * i.reduced().den,
        i.num > 0 ==> i.reduced().num > 0,
        i.valid() ==> i.reduced().valid(),
{
    let g = i.common_factor();
    if i.num != 0 {
        lemma_gcd_divides(i.num as nat, i.den as nat);
        lemma_divides_quotient(g, i.num as nat);
        lemma_divides_quotient(g, i.den as nat);
        lemma_divides_bound(g, i.num as nat);
        assert(i.den as nat / g <= i.den && i.num as nat / g <= i.num && i.num as nat / g > 0
            && (i.den > 0 ==> i.den as nat / g > 0)) by (nonlinear_arith)
            requires
                g > 0,
                i.num == g * (i.num as nat / g),
                i.den == g * (i.den as nat / g),
                i.num > 0,
        ;
    }
}

} // verus!
