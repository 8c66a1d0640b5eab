//! The prime factorization of a 64-bit number, held in a list of fixed
//! capacity.
use crate::decimal::{decimal, decimal_string};
use crate::limit::is_largest_prime_factor;
use crate::divisibility::{
    divides, is_prime, lemma_divides_bound, lemma_divides_multiple, lemma_divides_quotient,
    lemma_divides_trans, lemma_multiple_divides, lemma_prime_divides_prime,
    lemma_prime_divides_product,
};
use vstd::arithmetic::div_mod::lemma_mod_self_0;
use vstd::arithmetic::power::{lemma_pow_adds, lemma_pow_positive, pow};
use vstd::arithmetic::power2::{lemma2_to64, lemma_pow2, lemma_pow2_strictly_increases, pow2};
use vstd::prelude::*;

verus! {

/// The places of a list: one more than the 15 prime factors that a 64-bit
/// number has at most ([`lemma_few_primes`]), for the candidate divisor
/// that [`PrimeFactors::set`] keeps in the last place while it works.
pub const CAPACITY: usize = 16;

/// The power `num^pow`.
#[derive(Clone, Copy, Debug, PartialEq, Eq, Structural)]
pub struct IntPower {
    pub num: u64,
    pub pow: u8,
}

impl IntPower {
    /// The power `num^pow`, as it is given.
    pub fn new(num: u64, pow: u8) -> (p: Self)
        ensures
            p.num == num,
            p.pow == pow,
    {
        Self { num, pow }
    }

    /// The number that the power stands for.
    pub open spec fn value(self) -> int {
        pow(self.num as int, self.pow as nat)
    }

    /// The power as text: the base, and behind it `'^'` and the exponent
    /// where that is 2 or more.
    pub open spec fn text(self) -> Seq<char> {
        if self.pow > 1 {
            decimal(self.num as nat) + seq!['^'] + decimal(self.pow as nat)
        } else {
            decimal(self.num as nat)
        }
    }

    /// The power as text, such as `2^3`, or `5` for the first power of 5.
    pub fn to_string(&self) -> (s: String)
        ensures
            s@ == self.text(),
    {
        let mut s = decimal_string(self.num);
        if self.pow > 1 {
            proof {
                reveal_strlit("^");
            }
            s.append("^");
            let exponent = decimal_string(self.pow as u64);
            s.append(exponent.as_str());
            assert(s@ =~= self.text());
        }
        s
    }
}

/// A list of powers as text: the powers with `'*'` between them, and `"1"`
/// for the empty list.
pub open spec fn factors_text(s: Seq<IntPower>) -> Seq<char>
    decreases s.len(),
{
    if s.len() == 0 {
        seq!['1']
    } else if s.len() == 1 {
        s[0].text()
    } else {
        factors_text(s.drop_last()) + seq!['*'] + s.last().text()
    }
}

/// The product of the powers of a list; 1 for the empty list.
pub open spec fn product(s: Seq<IntPower>) -> int
    decreases s.len(),
{
    if s.len() == 0 {
        1
    } else {
        product(s.drop_last()) * s.last().value()
    }
}

/// Powers of primes with exponents from 1 on, the primes strictly
/// increasing, so that none occurs twice.
pub open spec fn prime_powers(s: Seq<IntPower>) -> bool {
    &&& forall|i: int| 0 <= i < s.len() ==> is_prime(#[trigger] s[i].num as nat) && s[i].pow >= 1
    &&& forall|i: int, j: int| 0 <= i < j < s.len() ==> #[trigger] s[i].num < #[trigger] s[j].num
}

/// `s` is the prime factorization of `n`. There is one at most,
/// see [`lemma_factorization_unique`].
pub open spec fn is_factorization(s: Seq<IntPower>, n: int) -> bool {
    prime_powers(s) && product(s) == n
}

/// The number that the list built for `num` multiplies to: `num` itself,
/// and 1 for 0, which has no factorization.
pub open spec fn factored(num: u64) -> int {
    if num == 0 {
        1
    } else {
        num as int
    }
}

/// A list of prime powers stays one when a power of a larger prime is put
/// at its end.
pub proof fn lemma_prime_powers_push(s: Seq<IntPower>, p: IntPower)
    requires
        prime_powers(s),
        is_prime(p.num as nat),
        p.pow >= 1,
        s.len() > 0 ==> s.last().num < p.num,
    ensures
        prime_powers(s.push(p)),
{
    let grown = s.push(p);
    assert forall|i: int| 0 <= i < grown.len() implies is_prime(#[trigger] grown[i].num as nat)
        && grown[i].pow >= 1 by {
        if i < s.len() {
            assert(grown[i] == s[i]);
        }
    }
    assert forall|i: int, j: int| 0 <= i < j < grown.len() implies #[trigger] grown[i].num
        < #[trigger] grown[j].num by {
        assert(grown[i] == s[i]);
        if j < s.len() {
            assert(grown[j] == s[j]);
        } else if i < s.len() - 1 {
            assert(s[i].num < s[s.len() - 1].num);
        }
    }
}

/// The product of a list with one more power at its end.
pub proof fn lemma_product_push(s: Seq<IntPower>, p: IntPower)
    ensures
        product(s.push(p)) == product(s) * p.value(),
{
    assert(s.push(p).drop_last() =~= s);
}

/// A product of powers of positive numbers is positive.
pub proof fn lemma_product_positive(s: Seq<IntPower>)
    requires
        forall|i: int| 0 <= i < s.len() ==> #[trigger] s[i].num >= 1,
    ensures
        product(s) >= 1,
    decreases s.len(),
{
    if s.len() > 0 {
        lemma_product_positive(s.drop_last());
        lemma_pow_positive(s.last().num as int, s.last().pow as nat);
        assert(product(s.drop_last()) * s.last().value() >= 1) by (nonlinear_arith)
            requires
                product(s.drop_last()) >= 1,
                s.last().value() >= 1,
        ;
    }
}

/// One more factor of the base.
proof fn lemma_pow_step(b: int, e: nat)
    ensures
        pow(b, e + 1) == b * pow(b, e),
{
    reveal(pow);
}

/// A power of a number from 2 on is at least the same power of 2.
proof fn lemma_pow_at_least_pow2(b: int, e: nat)
    requires
        b >= 2,
    ensures
        pow(b, e) >= pow2(e) >= 1,
    decreases e,
{
    reveal(pow);
    lemma_pow2(e);
    if e > 0 {
        lemma_pow_at_least_pow2(b, (e - 1) as nat);
        lemma_pow2((e - 1) as nat);
        assert(b * pow(b, (e - 1) as nat) >= 2 * pow(2, (e - 1) as nat)) by (nonlinear_arith)
            requires
                b >= 2,
                pow(b, (e - 1) as nat) >= pow(2, (e - 1) as nat) >= 1,
        ;
    }
}

/// A power with a positive exponent is at least its base.
proof fn lemma_pow_at_least_base(b: int, e: nat)
    requires
        b >= 1,
        e >= 1,
    ensures
        pow(b, e) >= b,
{
    reveal(pow);
    lemma_pow_positive(b, (e - 1) as nat);
    assert(b * pow(b, (e - 1) as nat) >= b) by (nonlinear_arith)
        requires
            b >= 1,
            pow(b, (e - 1) as nat) >= 1,
    ;
}

/// A power that fits in 64 bits, of a base from 2 on, has an exponent
/// below 64.
proof fn lemma_exponent_below_64(b: int, e: nat)
    requires
        b >= 2,
        pow(b, e) <= u64::MAX,
    ensures
        e < 64,
{
    lemma_pow_at_least_pow2(b, e);
    lemma2_to64();
    if e > 64 {
        lemma_pow2_strictly_increases(64, e);
    }
}

/// The least that the prime at place `i` of an increasing list can be:
/// the primes up to 47 in their order, and beyond them 49, the next number
/// that neither 2 nor 3 nor 5 divides.
pub open spec fn least_prime_at(i: nat) -> nat {
    if i == 0 {
        2
    } else if i == 1 {
        3
    } else if i == 2 {
        5
    } else if i == 3 {
        7
    } else if i == 4 {
        11
    } else if i == 5 {
        13
    } else if i == 6 {
        17
    } else if i == 7 {
        19
    } else if i == 8 {
        23
    } else if i == 9 {
        29
    } else if i == 10 {
        31
    } else if i == 11 {
        37
    } else if i == 12 {
        41
    } else if i == 13 {
        43
    } else if i == 14 {
        47
    } else {
        49
    }
}

/// The product of the first `k` values of [`least_prime_at`].
pub open spec fn least_product(k: nat) -> nat
    decreases k,
{
    if k == 0 {
        1
    } else {
        least_product((k - 1) as nat) * least_prime_at((k - 1) as nat)
    }
}

/// The prime at place `i` of a list of prime powers is at least
/// [`least_prime_at`] of `i`.
pub proof fn lemma_least_prime_at(s: Seq<IntPower>, i: int)
    requires
        prime_powers(s),
        0 <= i < s.len(),
    ensures
        s[i].num >= least_prime_at(i as nat),
    decreases i,
{
    let p = s[i].num as nat;
    if i > 0 {
        lemma_least_prime_at(s, i - 1);
        assert(s[i - 1].num < s[i].num);
        assert(!divides(2, p));
        if p > 3 {
            assert(!divides(3, p));
        }
        if p > 5 {
            assert(!divides(5, p));
        }
    }
}

/// The product of a list of prime powers is at least [`least_product`] of
/// its length.
pub proof fn lemma_least_product(s: Seq<IntPower>)
    requires
        prime_powers(s),
    ensures
        product(s) >= least_product(s.len()),
    decreases s.len(),
{
    if s.len() > 0 {
        let head = s.drop_last();
        lemma_least_product(head);
        lemma_least_prime_at(s, s.len() - 1);
        lemma_pow_at_least_base(s.last().num as int, s.last().pow as nat);
        assert(product(head) * s.last().value() >= least_product(head.len()) * least_prime_at(
            head.len(),
        )) by (nonlinear_arith)
            requires
                product(head) >= least_product(head.len()),
                s.last().value() >= least_prime_at(head.len()),
        ;
    }
}

/// One step of [`least_product`], on known values.
proof fn lemma_least_product_step(k: nat, below: nat, next: nat)
    requires
        least_product(k) == below,
        least_prime_at(k) == next,
    ensures
        least_product(k + 1) == below * next,
{
}

/// From 16 on, [`least_product`] does not fit in 64 bits.
proof fn lemma_least_product_overflows(k: nat)
    requires
        k >= 16,
    ensures
        least_product(k) > u64::MAX,
    decreases k,
{
    if k == 16 {
        lemma_least_product_16();
    } else {
        lemma_least_product_overflows((k - 1) as nat);
        assert(least_product((k - 1) as nat) * least_prime_at((k - 1) as nat) > u64::MAX)
            by (nonlinear_arith)
            requires
                least_product((k - 1) as nat) > u64::MAX,
                least_prime_at((k - 1) as nat) >= 1,
        ;
    }
}

/// A 64-bit number has 15 prime factors at most: the product of 16 or more
/// prime powers does not fit in 64 bits.
pub proof fn lemma_few_primes(s: Seq<IntPower>)
    requires
        prime_powers(s),
        product(s) <= u64::MAX,
    ensures
        s.len() <= 15,
{
    lemma_least_product(s);
    if s.len() >= 16 {
        lemma_least_product_overflows(s.len());
    }
}

/// The value of [`least_product`] at 16.
proof fn lemma_least_product_16()
    ensures
        least_product(16) == 30129599346836079090,
{
    assert(least_product(0) == 1);
    assert(least_product(0) == 1);
    lemma_least_product_step(0, 1, 2);
    lemma_least_product_step(1, 2, 3);
    lemma_least_product_step(2, 6, 5);
    lemma_least_product_step(3, 30, 7);
    lemma_least_product_step(4, 210, 11);
    lemma_least_product_step(5, 2310, 13);
    lemma_least_product_step(6, 30030, 17);
    lemma_least_product_step(7, 510510, 19);
    lemma_least_product_step(8, 9699690, 23);
    lemma_least_product_step(9, 223092870, 29);
    lemma_least_product_step(10, 6469693230, 31);
    lemma_least_product_step(11, 200560490130, 37);
    lemma_least_product_step(12, 7420738134810, 41);
    lemma_least_product_step(13, 304250263527210, 43);
    lemma_least_product_step(14, 13082761331670030, 47);
    lemma_least_product_step(15, 614889782588491410, 49);
}

/// A prime that divides a power of a positive number divides the number.
pub proof fn lemma_prime_divides_power(p: nat, b: nat, e: nat)
    requires
        is_prime(p),
        b >= 1,
        divides(p, pow(b as int, e) as nat),
    ensures
        divides(p, b),
    decreases e,
{
    reveal(pow);
    if e == 0 {
        lemma_divides_bound(p, 1);
    } else {
        let rest = pow(b as int, (e - 1) as nat);
        lemma_pow_positive(b as int, (e - 1) as nat);
        assert(pow(b as int, e) as nat == b * (rest as nat)) by (nonlinear_arith)
            requires
                pow(b as int, e) == b * rest,
                rest >= 1,
                b >= 1,
        ;
        lemma_prime_divides_product(p, b, rest as nat);
        if !divides(p, b) {
            lemma_prime_divides_power(p, b, (e - 1) as nat);
        }
    }
}

/// A prime that divides the product of a list of prime powers is one of
/// the primes of the list.
pub proof fn lemma_prime_of_product(s: Seq<IntPower>, p: nat) -> (i: int)
    requires
        prime_powers(s),
        is_prime(p),
        divides(p, product(s) as nat),
    ensures
        0 <= i < s.len(),
        s[i].num == p,
    decreases s.len(),
{
    if s.len() == 0 {
        lemma_divides_bound(p, 1);
        0
    } else {
        let head = s.drop_last();
        let last = s.last();
        lemma_product_positive(head);
        lemma_pow_positive(last.num as int, last.pow as nat);
        assert(product(s) as nat == (product(head) as nat) * (last.value() as nat))
            by (nonlinear_arith)
            requires
                product(s) == product(head) * last.value(),
                product(head) >= 1,
                last.value() >= 1,
        ;
        lemma_prime_divides_product(p, product(head) as nat, last.value() as nat);
        if divides(p, product(head) as nat) {
            lemma_prime_of_product(head, p)
        } else {
            lemma_prime_divides_power(p, last.num as nat, last.pow as nat);
            lemma_prime_divides_prime(p, last.num as nat);
            s.len() - 1
        }
    }
}

/// The prime of a power with a positive exponent divides the power.
proof fn lemma_base_divides_power(b: nat, e: nat)
    requires
        b >= 1,
        e >= 1,
    ensures
        divides(b, pow(b as int, e) as nat),
{
    reveal(pow);
    let rest = pow(b as int, (e - 1) as nat);
    lemma_pow_positive(b as int, (e - 1) as nat);
    assert(pow(b as int, e) as nat == b * (rest as nat)) by (nonlinear_arith)
        requires
            pow(b as int, e) == b * rest,
            rest >= 1,
            b >= 1,
    ;
    lemma_multiple_divides(b, rest as nat);
}

/// The last prime of a list of prime powers divides the product of the
/// list.
proof fn lemma_last_prime_divides(s: Seq<IntPower>)
    requires
        prime_powers(s),
        s.len() > 0,
    ensures
        divides(s.last().num as nat, product(s) as nat),
{
    let head = s.drop_last();
    let last = s.last();
    lemma_product_positive(head);
    lemma_pow_positive(last.num as int, last.pow as nat);
    lemma_base_divides_power(last.num as nat, last.pow as nat);
    assert(product(s) as nat == (last.value() as nat) * (product(head) as nat))
        by (nonlinear_arith)
        requires
            product(s) == product(head) * last.value(),
            product(head) >= 1,
            last.value() >= 1,
    ;
    lemma_divides_multiple(last.num as nat, last.value() as nat, product(head) as nat);
}

/// Two lists of prime powers with one product do not end with powers of
/// one prime that differ in the exponent.
proof fn lemma_last_exponent(a: Seq<IntPower>, b: Seq<IntPower>)
    requires
        prime_powers(a),
        prime_powers(b),
        a.len() > 0,
        b.len() > 0,
        product(a) == product(b),
        a.last().num == b.last().num,
    ensures
        a.last().pow >= b.last().pow,
{
    let p = a.last().num as int;
    let e = a.last().pow as nat;
    let f = b.last().pow as nat;
    if e < f {
        let more = (f - e) as nat;
        let x = product(a.drop_last());
        let y = product(b.drop_last());
        lemma_pow_adds(p, e, more);
        lemma_pow_positive(p, e);
        lemma_pow_positive(p, more);
        lemma_product_positive(a.drop_last());
        lemma_product_positive(b.drop_last());
        assert(x == pow(p, more) * y) by (nonlinear_arith)
            requires
                x * pow(p, e) == y * (pow(p, e) * pow(p, more)),
                pow(p, e) >= 1,
        ;
        lemma_base_divides_power(p as nat, more);
        lemma_divides_multiple(p as nat, pow(p, more) as nat, y as nat);
        assert(x as nat == (pow(p, more) as nat) * (y as nat)) by (nonlinear_arith)
            requires
                x == pow(p, more) * y,
                pow(p, more) >= 1,
                y >= 1,
        ;
        let i = lemma_prime_of_product(a.drop_last(), p as nat);
        assert(a[i].num < a[a.len() - 1].num);
    }
}

/// The prime factorization of a number is unique: two lists of prime powers
/// with the same product are the same list.
pub proof fn lemma_factorization_unique(a: Seq<IntPower>, b: Seq<IntPower>)
    requires
        prime_powers(a),
        prime_powers(b),
        product(a) == product(b),
    ensures
        a == b,
    decreases a.len(),
{
    if a.len() == 0 || b.len() == 0 {
        if a.len() > 0 {
            lemma_last_prime_divides(a);
            lemma_divides_bound(a.last().num as nat, 1);
        }
        if b.len() > 0 {
            lemma_last_prime_divides(b);
            lemma_divides_bound(b.last().num as nat, 1);
        }
        assert(a =~= b);
    } else {
        let p = a.last().num as nat;
        let q = b.last().num as nat;
        lemma_last_prime_divides(a);
        lemma_last_prime_divides(b);
        let i = lemma_prime_of_product(b, p);
        let j = lemma_prime_of_product(a, q);
        assert(p == q) by {
            assert(i == b.len() - 1 || b[i].num < b[b.len() - 1].num);
            assert(j == a.len() - 1 || a[j].num < a[a.len() - 1].num);
        }
        lemma_last_exponent(a, b);
        lemma_last_exponent(b, a);
        assert(a.last() == b.last());
        let v = a.last().value();
        lemma_pow_positive(p as int, a.last().pow as nat);
        assert(product(a.drop_last()) == product(b.drop_last())) by (nonlinear_arith)
            requires
                product(a.drop_last()) * v == product(b.drop_last()) * v,
                v >= 1,
        ;
        lemma_factorization_unique(a.drop_last(), b.drop_last());
        assert(a =~= a.drop_last().push(a.last()));
        assert(b =~= b.drop_last().push(b.last()));
    }
}

/// The last prime of the factorization of a number is its largest prime
/// factor: what [`largest_prime_factor`](crate::limit::largest_prime_factor)
/// returns for the number.
pub proof fn lemma_last_prime_is_limit(s: Seq<IntPower>, n: nat)
    requires
        is_factorization(s, n as int),
        s.len() > 0,
    ensures
        is_largest_prime_factor(s.last().num as nat, n),
{
    lemma_last_prime_divides(s);
    assert forall|q: nat| is_prime(q) && #[trigger] divides(q, n) implies q <= s.last().num by {
        let i = lemma_prime_of_product(s, q);
        assert(i == s.len() - 1 || s[i].num < s[s.len() - 1].num);
    }
}

/// A list of prime powers, `CAPACITY` at most.
pub struct PrimeFactors {
    len: u8,
    ar: [IntPower; 16],
}

impl View for PrimeFactors {
    type V = Seq<IntPower>;

    /// The powers that the list holds, in order.
    closed spec fn view(&self) -> Seq<IntPower> {
        self.ar@.take(self.len as int)
    }
}

impl PrimeFactors {
    #[verifier::type_invariant]
    spec fn within_capacity(self) -> bool {
        self.len <= CAPACITY
    }

    /// The empty list, which stands for 1.
    pub fn new() -> (list: Self)
        ensures
            list@ == Seq::<IntPower>::empty(),
    {
        Self { len: 0, ar: [IntPower::new(0, 0);16] }
    }

    /// The list as text, such as `2^3*3^2*5`.
    pub fn to_string(&self) -> (s: String)
        ensures
            s@ == factors_text(self@),
    {
        proof {
            use_type_invariant(self);
            reveal_strlit("1");
            reveal_strlit("*");
        }
        if self.len == 0 {
            let one = String::from_str("1");
            assert(one@ =~= seq!['1']);
            return one;
        }
        let mut s = self.ar[0].to_string();
        for c in 1..self.len
            invariant
                self.len <= CAPACITY,
                s@ == factors_text(self.ar@.take(c as int)),
        {
            proof {
                reveal_strlit("*");
            }
            s.append("*");
            let power = self.ar[c as usize].to_string();
            s.append(power.as_str());
            proof {
                let shown = self.ar@.take(c + 1);
                assert(shown.drop_last() =~= self.ar@.take(c as int));
                assert(shown.last() == self.ar[c as int]);
                assert(s@ =~= factors_text(shown));
            }
        }
        s
    }

    /// The prime factorization of `num`; the empty list for 0 as for 1.
    pub fn init(num: u64) -> (list: Self)
        ensures
            is_factorization(list@, factored(num)),
            list@.len() < CAPACITY,
    {
        let mut x = Self::new();
        x.set(num);
        x
    }

    /// Replaces the list by the prime factorization of `num`.
    ///
    /// The last place of the list holds the candidate divisor and how often
    /// it has been divided out so far. A candidate that no longer divides
    /// is kept if it was divided out at least once, and the next candidate
    /// moves to a new place; else the candidate is counted up in its place.
    pub fn set(&mut self, num: u64)
        ensures
            is_factorization(final(self)@, factored(num)),
            final(self)@.len() < CAPACITY,
    {
        let mut rest: u64 = num;
        self.len = 1;
        self.ar[0] = IntPower::new(2, 0);
        proof {
            let p = product(self.ar@.take(0));
            let v = self.ar[0].value();
            assert(p == 1) by {
                assert(self.ar@.take(0) =~= Seq::<IntPower>::empty());
            }
            assert(v == 1) by {
                reveal(pow);
            }
            assert(p * v * rest == num) by (nonlinear_arith)
                requires
                    p == 1,
                    v == 1,
                    rest == num,
            ;
        }
        while self.ar[(self.len - 1) as usize].num <= rest
            invariant
                1 <= self.len <= CAPACITY,
                self.ar[self.len - 1].num >= 2,
                prime_powers(self.ar@.take(self.len - 1)),
                self.len >= 2 ==> self.ar[self.len - 2].num < self.ar[self.len - 1].num,
                product(self.ar@.take(self.len - 1)) * self.ar[self.len - 1].value() * rest
                    == num,
                forall|d: nat|
                    2 <= d < self.ar[self.len - 1].num ==> !#[trigger] divides(d, rest as nat),
                self.ar[self.len - 1].pow > 0 ==> is_prime(self.ar[self.len - 1].num as nat),
                num == 0 ==> self.len == 1 && self.ar[0].pow == 0,
            decreases rest, rest - self.ar[self.len - 1].num,
        {
            let last: usize = (self.len - 1) as usize;
            let cur: IntPower = self.ar[last];
            let ghost closed = self.ar@.take(last as int);
            proof {
                lemma_product_positive(closed);
                lemma_pow_positive(cur.num as int, cur.pow as nat);
                assert(num != 0) by (nonlinear_arith)
                    requires
                        product(closed) * cur.value() * rest == num,
                        product(closed) >= 1,
                        cur.value() >= 1,
                        rest >= 2,
                ;
                if cur.num == rest {
                    lemma_mod_self_0(rest as int);
                }
            }
            if rest % cur.num == 0 {
                let ghost after = rest as nat / cur.num as nat;
                proof {
                    let c = cur.num as nat;
                    lemma_divides_quotient(c, rest as nat);
                    lemma_pow_step(c as int, cur.pow as nat);
                    let p = product(closed);
                    let v = cur.value();
                    assert(p * (c * v) * after == num && 1 <= c * v <= num && after < rest)
                        by (nonlinear_arith)
                        requires
                            p * v * rest == num,
                            rest == c * after,
                            p >= 1,
                            v >= 1,
                            rest >= 1,
                            c >= 2,
                    ;
                    lemma_exponent_below_64(c as int, (cur.pow + 1) as nat);
                    assert(is_prime(c)) by {
                        assert forall|d: nat| 2 <= d < c implies !#[trigger] divides(d, c) by {
                            if divides(d, c) {
                                lemma_divides_trans(d, c, rest as nat);
                            }
                        }
                    }
                    assert forall|d: nat| 2 <= d < c implies !#[trigger] divides(d, after) by {
                        if divides(d, after) {
                            lemma_divides_multiple(d, after, c);
                        }
                    }
                }
                rest = rest / cur.num;
                self.ar[last] = IntPower::new(cur.num, cur.pow + 1);
                proof {
                    assert(self.ar@.take(last as int) =~= closed);
                    assert(self.ar[last as int].value() == cur.num * cur.value());
                }
            } else if cur.pow > 0 {
                proof {
                    let grown = closed.push(cur);
                    assert(closed.len() > 0 ==> closed.last() == self.ar[self.len - 2]);
                    lemma_prime_powers_push(closed, cur);
                    lemma_product_push(closed, cur);
                    if self.len == CAPACITY {
                        assert(grown =~= self.ar@);
                        assert(product(grown) <= u64::MAX) by (nonlinear_arith)
                            requires
                                product(grown) * rest == num,
                                product(grown) >= 0,
                                rest >= 1,
                                num <= u64::MAX,
                        ;
                        lemma_few_primes(grown);
                    }
                    assert(!divides(cur.num as nat, rest as nat));
                    assert(pow((cur.num + 1) as int, 0) == 1) by {
                        reveal(pow);
                    }
                }
                self.ar[self.len as usize] = IntPower::new(cur.num + 1, 0);
                self.len += 1;
                proof {
                    let grown = closed.push(cur);
                    assert(self.ar@.take(self.len - 1) =~= grown);
                    let one = self.ar[self.len - 1].value();
                    assert(product(grown) * one * rest == num) by (nonlinear_arith)
                        requires
                            product(grown) == product(closed) * cur.value(),
                            product(closed) * cur.value() * rest == num,
                            one == 1,
                    ;
                }
            } else {
                proof {
                    assert(!divides(cur.num as nat, rest as nat));
                }
                self.ar[last] = IntPower::new(cur.num + 1, cur.pow);
                proof {
                    assert(self.ar@.take(last as int) =~= closed);
                    assert(self.ar[last as int].value() == cur.value()) by {
                        reveal(pow);
                    }
                }
            }
        }
        let ghost closed = self.ar@.take(self.len - 1);
        let ghost cur = self.ar[self.len - 1];
        proof {
            lemma_product_positive(closed);
            lemma_pow_positive(cur.num as int, cur.pow as nat);
            if num != 0 {
                assert(rest >= 1) by (nonlinear_arith)
                    requires
                        product(closed) * cur.value() * rest == num,
                        num >= 1,
                        rest >= 0,
                ;
                assert(rest == 1) by {
                    assert(divides(rest as nat, rest as nat));
                }
            }
            let wanted = factored(num);
            if cur.pow == 0 {
                assert(cur.value() == 1) by {
                    reveal(pow);
                }
                if num == 0 {
                    assert(closed =~= Seq::<IntPower>::empty());
                } else {
                    assert(product(closed) == num) by (nonlinear_arith)
                        requires
                            product(closed) * cur.value() * rest == num,
                            cur.value() == 1,
                            rest == 1,
                    ;
                }
                assert(is_factorization(closed, wanted));
                lemma_few_primes(closed);
            } else {
                let all = closed.push(cur);
                assert(self.ar@.take(self.len as int) =~= all);
                assert(closed.len() > 0 ==> closed.last() == self.ar[self.len - 2]);
                lemma_prime_powers_push(closed, cur);
                lemma_product_push(closed, cur);
                assert(product(all) == num) by (nonlinear_arith)
                    requires
                        product(all) == product(closed) * cur.value(),
                        product(closed) * cur.value() * rest == num,
                        rest == 1,
                ;
                assert(is_factorization(all, wanted));
                lemma_few_primes(all);
            }
        }
        if self.ar[(self.len - 1) as usize].pow == 0 {
            self.len -= 1;
        }
    }
}

} // verus!
