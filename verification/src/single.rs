//! Non-negative single-precision arithmetic on integers.
//!
//! A value is `mantissa * 2^exponent`. Every operation rounds its exact result to 24
//! significant bits, ties to the even mantissa, as IEEE 754 single precision does. The
//! exponent is not bounded: the values that the player computes stay far from the ends
//! of the range, or round to zero when they are turned into a whole number.

use vstd::arithmetic::power2::{lemma_pow2_adds, lemma_pow2_pos, lemma_pow2_unfold, pow2};
use vstd::prelude::*;

verus! {

pub const LOW_MANTISSA: u64 = 8388608;

pub const HIGH_MANTISSA: u64 = 16777216;

#[derive(Clone, Copy, Debug, PartialEq, Eq)]
pub struct Single {
    pub mantissa: u64,
    pub exponent: i32,
}

/// The whole number nearest to `n / d`, ties to even.
pub open spec fn half_even(n: nat, d: nat) -> nat {
    let q = n / d;
    let twice = 2 * (n % d);
    if twice > d || (twice == d && q % 2 == 1) {
        q + 1
    } else {
        q
    }
}

/// How far `n / d` is from having 24 bits before the point.
pub open spec fn scale_distance(n: nat, d: nat) -> nat {
    if n >= HIGH_MANTISSA * d {
        (n - d) as nat
    } else if n < LOW_MANTISSA * d {
        (LOW_MANTISSA * d - n) as nat
    } else {
        0
    }
}

/// `n / d * 2^e` rounded to 24 significant bits: mantissa and exponent.
pub open spec fn rounded(n: nat, d: nat, e: int) -> (nat, int)
    decreases scale_distance(n, d),
    when n > 0 && d > 0
{
    if n >= HIGH_MANTISSA * d {
        rounded(n, 2 * d, e + 1)
    } else if n < LOW_MANTISSA * d {
        rounded(2 * n, d, e - 1)
    } else {
        (half_even(n, d), e)
    }
}

impl Single {
    pub open spec fn pair(self) -> (nat, int) {
        (self.mantissa as nat, self.exponent as int)
    }

    pub open spec fn normal(self) -> bool {
        LOW_MANTISSA <= self.mantissa <= HIGH_MANTISSA
    }

    /// Zero, or 24 significant bits with an exponent of moderate size.
    pub open spec fn wf(self) -> bool {
        &&& self.mantissa == 0 || self.normal()
        &&& -1000 <= self.exponent <= 1000
    }
}

fn round(n: u64, d: u64, e: i32) -> (r: Single)
    requires
        n > 0,
        0 < d <= HIGH_MANTISSA,
        -600 <= e <= 600,
    ensures
        r.pair() == rounded(n as nat, d as nat, e as int),
        r.normal(),
        e - 48 <= r.exponent <= e + 64,
{
    let mut num: u128 = n as u128;
    let mut den: u128 = d as u128;
    let mut exp: i32 = e;
    proof {
        vstd::arithmetic::power2::lemma2_to64();
    }
    while num >= 16777216 * den
        invariant
            0 < num < 0x1_0000_0000_0000_0000,
            num == n,
            0 < den <= 0x1_0000_0000_0000_0000,
            0 < d <= HIGH_MANTISSA,
            -600 <= e <= 600,
            e <= exp <= e + 64,
            den >= pow2((exp - e) as nat),
            rounded(num as nat, den as nat, exp as int) == rounded(n as nat, d as nat, e as int),
            exp > e ==> num >= 8388608 * den,
            exp == e ==> den == d,
        decreases scale_distance(num as nat, den as nat),
    {
        proof {
            lemma_pow2_unfold((exp + 1 - e) as nat);
            if exp - e >= 64 {
                lemma_pow2_at_least_64((exp - e) as nat);
            }
        }
        den = 2 * den;
        exp += 1;
    }
    let ghost den0 = den;
    let ghost exp0 = exp;
    let ghost mut k: nat = 0;
    while num < 8388608 * den
        invariant
            0 < num < 16777216 * den,
            0 < den <= 0x1_0000_0000_0000_0000,
            exp0 > e ==> num >= 8388608 * den,
            exp0 == e ==> 0 < den <= HIGH_MANTISSA,
            -600 <= e <= 600,
            e <= exp0 <= e + 64,
            exp == exp0 - k,
            num >= pow2(k),
            rounded(num as nat, den as nat, exp as int) == rounded(n as nat, d as nat, e as int),
            k <= 48,
            exp0 > e ==> k == 0,
        decreases scale_distance(num as nat, den as nat),
    {
        proof {
            lemma_pow2_unfold(k + 1);
            if k >= 48 {
                lemma_pow2_at_least_48(k);
            }
            k = k + 1;
        }
        num = 2 * num;
        exp -= 1;
    }
    let q: u128 = num / den;
    let twice: u128 = 2 * (num % den);
    proof {
        lemma_quotient_bounds(num as int, den as int);
    }
    if twice > den || (twice == den && q % 2 == 1) {
        Single { mantissa: (q + 1) as u64, exponent: exp }
    } else {
        Single { mantissa: q as u64, exponent: exp }
    }
}

proof fn lemma_quotient_bounds(n: int, d: int)
    requires
        d > 0,
        LOW_MANTISSA * d <= n < HIGH_MANTISSA * d,
    ensures
        LOW_MANTISSA <= n / d < HIGH_MANTISSA,
{
    assert(8388608 <= n / d < 16777216) by (nonlinear_arith)
        requires
            d > 0,
            8388608 * d <= n < 16777216 * d,
    ;
}

proof fn lemma_pow2_at_least_64(k: nat)
    requires
        k >= 64,
    ensures
        pow2(k) >= 0x1_0000_0000_0000_0000,
{
    vstd::arithmetic::power2::lemma2_to64();
    lemma_pow2_adds((k - 64) as nat, 64);
    lemma_pow2_pos((k - 64) as nat);
    assert(pow2((k - 64) as nat) * pow2(64) >= pow2(64)) by (nonlinear_arith)
        requires
            pow2((k - 64) as nat) >= 1,
            pow2(64) >= 0,
    ;
}

proof fn lemma_pow2_at_least_48(k: nat)
    requires
        k >= 48,
    ensures
        pow2(k) >= 0x1_0000_0000_0000,
{
    vstd::arithmetic::power2::lemma2_to64();
    vstd::arithmetic::power2::lemma2_to64_rest();
    lemma_pow2_adds((k - 48) as nat, 48);
    lemma_pow2_pos((k - 48) as nat);
    assert(pow2((k - 48) as nat) * pow2(48) >= pow2(48)) by (nonlinear_arith)
        requires
            pow2((k - 48) as nat) >= 1,
            pow2(48) >= 0,
    ;
}

/// A whole number in single precision.
pub open spec fn single_of(n: nat) -> (nat, int) {
    if n == 0 {
        (0, 0)
    } else {
        rounded(n, 1, 0)
    }
}

/// The quotient of two singles.
pub open spec fn quotient(a: (nat, int), b: (nat, int)) -> (nat, int) {
    if a.0 == 0 {
        (0, 0)
    } else {
        rounded(a.0, b.0, a.1 - b.1)
    }
}

/// The product of two singles.
pub open spec fn product(a: (nat, int), b: (nat, int)) -> (nat, int) {
    if a.0 == 0 || b.0 == 0 {
        (0, 0)
    } else {
        rounded(a.0 * b.0, 1, a.1 + b.1)
    }
}

/// The whole number nearest to a single, ties away from zero.
pub open spec fn nearest_whole(a: (nat, int)) -> nat {
    if a.1 >= 0 {
        a.0 * pow2(a.1 as nat)
    } else {
        (a.0 + pow2((-a.1 - 1) as nat)) / pow2((-a.1) as nat)
    }
}

/// `a >= b`.
pub open spec fn at_least(a: (nat, int), b: (nat, int)) -> bool {
    if a.1 >= b.1 {
        a.0 * pow2((a.1 - b.1) as nat) >= b.0
    } else {
        a.0 >= b.0 * pow2((b.1 - a.1) as nat)
    }
}

impl Single {
    pub fn of(n: u64) -> (r: Single)
        ensures
            r.pair() == single_of(n as nat),
            n > 0 ==> r.normal(),
            n == 0 ==> r.mantissa == 0,
            -48 <= r.exponent <= 64,
    {
        if n == 0 {
            Single { mantissa: 0, exponent: 0 }
        } else {
            round(n, 1, 0)
        }
    }

    pub fn divided_by(self, other: Single) -> (r: Single)
        requires
            self.mantissa == 0 || self.normal(),
            other.normal(),
            -200 <= self.exponent <= 200,
            -200 <= other.exponent <= 200,
        ensures
            r.pair() == quotient(self.pair(), other.pair()),
            self.mantissa > 0 ==> r.normal(),
            self.mantissa == 0 ==> r.mantissa == 0,
            self.mantissa > 0 ==> self.exponent - other.exponent - 48 <= r.exponent
                <= self.exponent - other.exponent + 64,
            self.mantissa == 0 ==> r.exponent == 0,
    {
        if self.mantissa == 0 {
            Single { mantissa: 0, exponent: 0 }
        } else {
            round(self.mantissa, other.mantissa, self.exponent - other.exponent)
        }
    }

    pub fn times(self, other: Single) -> (r: Single)
        requires
            self.mantissa <= HIGH_MANTISSA,
            other.mantissa <= HIGH_MANTISSA,
            -300 <= self.exponent <= 300,
            -300 <= other.exponent <= 300,
        ensures
            r.pair() == product(self.pair(), other.pair()),
            self.mantissa > 0 && other.mantissa > 0 ==> r.normal(),
            self.mantissa == 0 || other.mantissa == 0 ==> r.mantissa == 0,
            -700 <= r.exponent <= 700,
    {
        if self.mantissa == 0 || other.mantissa == 0 {
            Single { mantissa: 0, exponent: 0 }
        } else {
            let a: u64 = self.mantissa;
            let b: u64 = other.mantissa;
            proof {
                assert(0 < a * b <= 0x1_0000_0000_0000) by (nonlinear_arith)
                    requires
                        0 < a <= 16777216,
                        0 < b <= 16777216,
                ;
            }
            round(a * b, 1, self.exponent + other.exponent)
        }
    }

    /// Saturates at the largest `u64`.
    pub fn nearest(self) -> (r: u64)
        requires
            self.mantissa <= HIGH_MANTISSA,
            -1000 <= self.exponent <= 1000,
        ensures
            nearest_whole(self.pair()) <= u64::MAX ==> r == nearest_whole(self.pair()),
            nearest_whole(self.pair()) > u64::MAX ==> r == u64::MAX,
    {
        let m: u64 = self.mantissa;
        proof {
            vstd::arithmetic::power2::lemma2_to64();
        }
        if m == 0 {
            proof {
                if self.exponent < 0 {
                    let k = (-self.exponent) as nat;
                    lemma_pow2_unfold(k);
                    lemma_pow2_pos((k - 1) as nat);
                    vstd::arithmetic::div_mod::lemma_basic_div(
                        pow2((k - 1) as nat) as int,
                        pow2(k) as int,
                    );
                } else {
                    assert(0 * pow2(self.exponent as nat) == 0);
                }
            }
            return 0;
        }
        if self.exponent >= 0 {
            if self.exponent >= 64 {
                proof {
                    let p = pow2(self.exponent as nat);
                    lemma_pow2_at_least_64(self.exponent as nat);
                    assert(m * p >= p) by (nonlinear_arith)
                        requires
                            m >= 1,
                            p >= 0,
                    ;
                }
                return u64::MAX;
            }
            let p: u128 = power_of_two(self.exponent as u32);
            proof {
                assert(0 <= m * p <= 16777216 * 0x1_0000_0000_0000_0000) by (nonlinear_arith)
                    requires
                        0 <= m <= 16777216,
                        0 <= p <= 0x1_0000_0000_0000_0000,
                ;
            }
            let whole: u128 = (m as u128) * p;
            if whole > 0xffff_ffff_ffff_ffff {
                u64::MAX
            } else {
                whole as u64
            }
        } else {
            let k: u32 = (-self.exponent) as u32;
            if k >= 26 {
                proof {
                    lemma_pow2_at_least_25((k - 1) as nat);
                    lemma_pow2_unfold(k as nat);
                    let half = pow2((k - 1) as nat);
                    vstd::arithmetic::div_mod::lemma_basic_div(
                        (m + half) as int,
                        pow2(k as nat) as int,
                    );
                }
                return 0;
            }
            let half: u128 = power_of_two(k - 1);
            let full: u128 = power_of_two(k);
            let sum: u128 = m as u128 + half;
            let whole: u128 = sum / full;
            proof {
                lemma_quotient_at_most(sum as int, full as int);
            }
            whole as u64
        }
    }

    pub fn at_least(self, other: Single) -> (r: bool)
        requires
            self.mantissa == 0 || self.normal(),
            other.normal(),
            -1000 <= self.exponent <= 1000,
            -1000 <= other.exponent <= 1000,
        ensures
            r == at_least(self.pair(), other.pair()),
    {
        let d: i32 = self.exponent - other.exponent;
        let a: u64 = self.mantissa;
        let b: u64 = other.mantissa;
        proof {
            vstd::arithmetic::power2::lemma2_to64();
        }
        if a == 0 {
            proof {
                if d < 0 {
                    lemma_pow2_pos((-d) as nat);
                    let p = pow2((-d) as nat);
                    assert(b * p > 0) by (nonlinear_arith)
                        requires
                            b > 0,
                            p > 0,
                    ;
                } else {
                    assert(0 * pow2(d as nat) == 0);
                }
            }
            false
        } else if d >= 2 {
            proof {
                lemma_pow2_at_least_4(d as nat);
                let p = pow2(d as nat);
                assert(a * p >= 8388608 * 4) by (nonlinear_arith)
                    requires
                        a >= 8388608,
                        p >= 4,
                ;
            }
            true
        } else if d <= -2 {
            proof {
                lemma_pow2_at_least_4((-d) as nat);
                let p = pow2((-d) as nat);
                assert(b * p >= 8388608 * 4) by (nonlinear_arith)
                    requires
                        b >= 8388608,
                        p >= 4,
                ;
            }
            false
        } else if d == 1 {
            assert(a * pow2(1) == 2 * a) by (nonlinear_arith)
                requires
                    pow2(1) == 2,
            ;
            2 * a >= b
        } else if d == 0 {
            assert(a * pow2(0) == a) by (nonlinear_arith)
                requires
                    pow2(0) == 1,
            ;
            a >= b
        } else {
            assert(b * pow2(1) == 2 * b) by (nonlinear_arith)
                requires
                    pow2(1) == 2,
            ;
            a >= 2 * b
        }
    }
}

proof fn lemma_quotient_at_most(n: int, d: int)
    requires
        n >= 0,
        d >= 1,
    ensures
        0 <= n / d <= n,
{
    assert(0 <= n / d <= n) by (nonlinear_arith)
        requires
            n >= 0,
            d >= 1,
    ;
}

proof fn lemma_pow2_at_least_25(k: nat)
    requires
        k >= 25,
    ensures
        pow2(k) >= 33554432,
{
    vstd::arithmetic::power2::lemma2_to64();
    if k > 25 {
        vstd::arithmetic::power2::lemma_pow2_strictly_increases(25, k);
    }
}

proof fn lemma_pow2_at_least_4(k: nat)
    requires
        k >= 2,
    ensures
        pow2(k) >= 4,
{
    vstd::arithmetic::power2::lemma2_to64();
    if k > 2 {
        vstd::arithmetic::power2::lemma_pow2_strictly_increases(2, k);
    }
}

fn power_of_two(k: u32) -> (r: u128)
    requires
        k <= 64,
    ensures
        r == pow2(k as nat),
        0 < r <= 0x1_0000_0000_0000_0000,
{
    let mut r: u128 = 1;
    let mut i: u32 = 0;
    proof {
        vstd::arithmetic::power2::lemma2_to64();
    }
    while i < k
        invariant
            i <= k <= 64,
            r == pow2(i as nat),
            0 < r <= 0x1_0000_0000_0000_0000,
        decreases k - i,
    {
        proof {
            lemma_pow2_unfold((i + 1) as nat);
            vstd::arithmetic::power2::lemma2_to64();
            if i + 1 < 64 {
                vstd::arithmetic::power2::lemma_pow2_strictly_increases((i + 1) as nat, 64);
            }
        }
        r = 2 * r;
        i += 1;
    }
    r
}

/// The place of a single in the order of all singles with 24 significant bits.
pub open spec fn rank(v: (nat, int)) -> int {
    v.1 * LOW_MANTISSA + v.0
}

proof fn lemma_half_even_grows(n1: nat, n2: nat, d: nat)
    requires
        d > 0,
        n1 <= n2,
    ensures
        half_even(n1, d) <= half_even(n2, d),
{
    let q1 = n1 / d;
    let q2 = n2 / d;
    vstd::arithmetic::div_mod::lemma_div_is_ordered(n1 as int, n2 as int, d as int);
    if q1 == q2 {
        vstd::arithmetic::div_mod::lemma_fundamental_div_mod(n1 as int, d as int);
        vstd::arithmetic::div_mod::lemma_fundamental_div_mod(n2 as int, d as int);
        assert(n1 % d <= n2 % d);
    }
}

proof fn lemma_half_even_scaled(n: nat, d: nat)
    requires
        d > 0,
    ensures
        half_even(2 * n, 2 * d) == half_even(n, d),
{
    vstd::arithmetic::div_mod::lemma_fundamental_div_mod(n as int, d as int);
    vstd::arithmetic::div_mod::lemma_mod_bound(n as int, d as int);
    let q = (n / d) as int;
    let r = (n % d) as int;
    assert(2 * n == q * (2 * d) + 2 * r) by (nonlinear_arith)
        requires
            n == d * q + r,
    ;
    vstd::arithmetic::div_mod::lemma_fundamental_div_mod_converse(
        2 * n as int,
        2 * d as int,
        q,
        2 * r,
    );
}

/// Rounding gives 24 significant bits, and moves the exponent up or down as the size asks.
pub proof fn lemma_rounded(n: nat, d: nat, e: int)
    requires
        n > 0,
        d > 0,
    ensures
        LOW_MANTISSA <= rounded(n, d, e).0 <= HIGH_MANTISSA,
        n < HIGH_MANTISSA * d ==> rounded(n, d, e).1 <= e,
        n >= LOW_MANTISSA * d ==> rounded(n, d, e).1 >= e,
        n < LOW_MANTISSA * d ==> rounded(n, d, e).1 < e,
        n >= HIGH_MANTISSA * d ==> rounded(n, d, e).1 > e,
    decreases scale_distance(n, d),
{
    if n >= HIGH_MANTISSA * d {
        lemma_rounded(n, 2 * d, e + 1);
    } else if n < LOW_MANTISSA * d {
        lemma_rounded(2 * n, d, e - 1);
    } else {
        lemma_quotient_bounds(n as int, d as int);
    }
}

/// Rounding keeps the order of numerators.
proof fn lemma_rounded_grows(n1: nat, n2: nat, d: nat, e: int)
    requires
        0 < n1 <= n2,
        d > 0,
    ensures
        rank(rounded(n1, d, e)) <= rank(rounded(n2, d, e)),
    decreases scale_distance(n1, d) + scale_distance(n2, d),
{
    lemma_rounded(n1, d, e);
    lemma_rounded(n2, d, e);
    if n1 >= HIGH_MANTISSA * d {
        lemma_rounded_grows(n1, n2, 2 * d, e + 1);
    } else if n2 < LOW_MANTISSA * d {
        lemma_rounded_grows(2 * n1, 2 * n2, d, e - 1);
    } else if n1 >= LOW_MANTISSA * d && n2 < HIGH_MANTISSA * d {
        lemma_half_even_grows(n1, n2, d);
    }
}

/// Doubling the numerator is raising the exponent.
proof fn lemma_rounded_scaled(n: nat, d: nat, e: int)
    requires
        n > 0,
        d > 0,
    ensures
        rounded(2 * n, d, e - 1) == rounded(n, d, e),
    decreases scale_distance(n, d),
{
    if n >= HIGH_MANTISSA * d {
        lemma_rounded_scaled(n, 2 * d, e + 1);
    } else if n >= LOW_MANTISSA * d {
        assert(rounded(2 * n, d, e - 1) == rounded(2 * n, 2 * d, e));
        lemma_half_even_scaled(n, d);
    }
}

proof fn lemma_rounded_shifted(n: nat, d: nat, e: int, k: nat)
    requires
        n > 0,
        d > 0,
    ensures
        rounded(n * pow2(k), d, e - k) == rounded(n, d, e),
        n * pow2(k) >= n,
        k > 0 ==> n * pow2(k) >= 2 * n,
    decreases k,
{
    if k == 0 {
        vstd::arithmetic::power2::lemma2_to64();
        assert(n * pow2(0) == n) by (nonlinear_arith)
            requires
                pow2(0) == 1,
        ;
    } else {
        lemma_rounded_shifted(n, d, e, (k - 1) as nat);
        lemma_pow2_unfold(k);
        let p = pow2((k - 1) as nat);
        assert(n * (2 * p) == 2 * (n * p)) by (nonlinear_arith);
        lemma_rounded_scaled(n * p, d, e - (k - 1));
    }
}

/// Division keeps the order of dividends.
proof fn lemma_quotient_grows(a: (nat, int), b: (nat, int), w: (nat, int))
    requires
        LOW_MANTISSA <= a.0 <= HIGH_MANTISSA,
        LOW_MANTISSA <= b.0 <= HIGH_MANTISSA,
        w.0 > 0,
        rank(a) <= rank(b),
    ensures
        rank(quotient(a, w)) <= rank(quotient(b, w)),
{
    if a.1 <= b.1 {
        let k = (b.1 - a.1) as nat;
        lemma_rounded_shifted(b.0, w.0, b.1 - w.1, k);
        lemma_rounded_grows(a.0, b.0 * pow2(k), w.0, a.1 - w.1);
    } else {
        lemma_rounded_scaled(a.0, w.0, a.1 - w.1);
        assert(a.1 == b.1 + 1);
        lemma_rounded_grows(2 * a.0, b.0, w.0, b.1 - w.1);
    }
}

/// Whole numbers keep their order in single precision, also when they are divided by the
/// same whole number.
pub proof fn fractions_keep_their_order(a: nat, b: nat, whole: nat)
    requires
        0 < a <= b,
        whole > 0,
    ensures
        rank(quotient(single_of(a), single_of(whole))) <= rank(
            quotient(single_of(b), single_of(whole)),
        ),
{
    lemma_rounded(a, 1, 0);
    lemma_rounded(b, 1, 0);
    lemma_rounded(whole, 1, 0);
    lemma_rounded_grows(a, b, 1, 0);
    lemma_quotient_grows(single_of(a), single_of(b), single_of(whole));
}

/// A whole number divided by itself is one.
pub proof fn whole_divided_by_itself(whole: nat)
    requires
        whole > 0,
    ensures
        quotient(single_of(whole), single_of(whole)) == (LOW_MANTISSA as nat, -23int),
{
    lemma_rounded(whole, 1, 0);
    let m = single_of(whole).0;
    vstd::arithmetic::power2::lemma2_to64();
    lemma_rounded_shifted(m, m, 0, 23);
    assert(m * pow2(23) == 8388608 * m) by (nonlinear_arith)
        requires
            pow2(23) == 8388608,
    ;
    vstd::arithmetic::div_mod::lemma_fundamental_div_mod_converse(
        8388608 * m as int,
        m as int,
        8388608,
        0,
    );
}

} // verus!
