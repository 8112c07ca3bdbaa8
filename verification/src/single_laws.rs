//! Laws of single precision: how far a rounded value may be off.

use crate::single::{
    half_even, lemma_rounded, nearest_whole, product, rounded, scale_distance, single_of,
};
use vstd::arithmetic::power2::{lemma2_to64, lemma_pow2_adds, lemma_pow2_pos, lemma_pow2_unfold, pow2};
use vstd::prelude::*;

verus! {

proof fn lemma_half_even_off(n: nat, d: nat)
    requires
        d > 0,
    ensures
        -(d as int) <= 2 * (half_even(n, d) * d - n) <= d,
{
    vstd::arithmetic::div_mod::lemma_fundamental_div_mod(n as int, d as int);
    vstd::arithmetic::div_mod::lemma_mod_bound(n as int, d as int);
    let q = n / d;
    let r = n % d;
    assert(q * d == d * q) by (nonlinear_arith);
    assert((q + 1) * d == d * q + d) by (nonlinear_arith);
}

/// A rounded value is off by at most half of its last place.
pub proof fn rounding_is_off_by_half_a_place(n: nat, d: nat, e: int)
    requires
        n > 0,
        d > 0,
    ensures
        rounded(n, d, e).1 >= e ==> {
            let scale = d * pow2((rounded(n, d, e).1 - e) as nat);
            -(scale as int) <= 2 * (rounded(n, d, e).0 * scale - n) <= scale
        },
        rounded(n, d, e).1 <= e ==> {
            let grown = n * pow2((e - rounded(n, d, e).1) as nat);
            -(d as int) <= 2 * (rounded(n, d, e).0 * d - grown) <= d
        },
    decreases scale_distance(n, d),
{
    lemma2_to64();
    lemma_rounded(n, d, e);
    if n >= 16777216 * d {
        let (m, f) = rounded(n, d, e);
        rounding_is_off_by_half_a_place(n, 2 * d, e + 1);
        lemma_rounded(n, 2 * d, e + 1);
        assert(rounded(n, 2 * d, e + 1) == (m, f));
        let k = (f - e) as nat;
        lemma_pow2_unfold(k);
        let p = pow2((k - 1) as nat);
        assert((2 * d) * p == d * (2 * p)) by (nonlinear_arith);
    } else if n < 8388608 * d {
        let (m, f) = rounded(n, d, e);
        rounding_is_off_by_half_a_place(2 * n, d, e - 1);
        lemma_rounded(2 * n, d, e - 1);
        assert(rounded(2 * n, d, e - 1) == (m, f));
        let k = (e - f) as nat;
        lemma_pow2_unfold(k);
        let p = pow2((k - 1) as nat);
        assert((2 * n) * p == n * (2 * p)) by (nonlinear_arith);
    } else {
        lemma_half_even_off(n, d);
        assert(d * pow2(0) == d) by (nonlinear_arith)
            requires
                pow2(0) == 1,
        ;
        assert(n * pow2(0) == n) by (nonlinear_arith)
            requires
                pow2(0) == 1,
        ;
    }
}

/// The nearest whole number is off by at most a half, and it is the value itself where that is
/// whole.
pub proof fn whole_numbers_are_near(a: (nat, int))
    ensures
        a.1 >= 0 ==> nearest_whole(a) == a.0 * pow2(a.1 as nat),
        a.1 < 0 ==> {
            let scale = pow2((-a.1) as nat);
            -(scale as int) < 2 * (nearest_whole(a) * scale - a.0) <= scale
        },
{
    if a.1 < 0 {
        let k = (-a.1) as nat;
        let scale = pow2(k);
        lemma_pow2_unfold(k);
        lemma_pow2_pos(k);
        let half = pow2((k - 1) as nat);
        let x = (a.0 + half) as int;
        vstd::arithmetic::div_mod::lemma_fundamental_div_mod(x, scale as int);
        vstd::arithmetic::div_mod::lemma_mod_bound(x, scale as int);
        let q = x / (scale as int);
        assert(q * scale == scale * q) by (nonlinear_arith);
        assert(nearest_whole(a) == q);
    }
}

proof fn lemma_small_place(p: int, scale: int, exact: int)
    requires
        p >= 8388608,
        scale >= 1,
        -scale <= 2 * (p * scale - exact) <= scale,
    ensures
        scale * 8388607 <= exact,
{
    assert(p * scale >= 8388608 * scale) by (nonlinear_arith)
        requires
            p >= 8388608,
            scale >= 1,
    ;
}

proof fn lemma_scaled_bound(x: int, bound: int, c: int)
    requires
        -bound <= x <= bound,
        c >= 0,
    ensures
        -(bound * c) <= x * c <= bound * c,
{
    assert(-(bound * c) <= x * c <= bound * c) by (nonlinear_arith)
        requires
            -bound <= x <= bound,
            c >= 0,
    ;
}

proof fn lemma_unscaled_bound(x: int, bound: int, c: int)
    requires
        -(bound * c) <= x * c <= bound * c,
        c >= 1,
    ensures
        -bound <= x <= bound,
{
    assert(-bound <= x <= bound) by (nonlinear_arith)
        requires
            -(bound * c) <= x * c <= bound * c,
            c >= 1,
    ;
}

/// A fraction `m / 2^g` of a whole number, computed in single precision and rounded, is off by
/// at most half, and one part in four millions of the fraction.
pub proof fn fractions_are_near(m: nat, g: nat, total: nat)
    requires
        8388608 <= m < 16777216,
        total > 0,
    ensures
        ({
            let whole = nearest_whole(product((m, -g), single_of(total)));
            let exact = m * total;
            -(pow2(g) * 2097152 + exact) <= 2 * (whole * pow2(g) - exact) * 2097152 <= pow2(g)
                * 2097152 + exact
        }),
{
    lemma2_to64();
    let t = single_of(total);
    lemma_rounded(total, 1, 0);
    rounding_is_off_by_half_a_place(total, 1, 0);
    let f = t.1;
    let both = m * t.0;
    assert(both >= 8388608 * 8388608) by (nonlinear_arith)
        requires
            m >= 8388608,
            t.0 >= 8388608,
            both == m * t.0,
    ;
    let r = product((m, -g), t);
    lemma_rounded(both, 1, f - g);
    rounding_is_off_by_half_a_place(both, 1, f - g);
    let p = r.0 as int;
    let k = (r.1 - (f - g)) as nat;
    let pk = pow2(k) as int;
    lemma_pow2_pos(k);
    assert(1 * pow2(k) == pow2(k)) by (nonlinear_arith);
    assert(-pk <= 2 * (p * pk - both) <= pk);
    lemma_small_place(p, pk, both as int);
    whole_numbers_are_near(r);
    let w = nearest_whole(r) as int;
    let d = pow2(g) as int;
    lemma_pow2_pos(g);
    let n = (m * total) as int;
    if f <= 0 {
        let a = (-f) as nat;
        let pa = pow2(a) as int;
        lemma_pow2_pos(a);
        // A whole number of at most 24 bits is exact.
        assert(t.0 * 1 == t.0) by (nonlinear_arith);
        assert(t.0 == total * pow2(a));
        assert(both == n * pa) by (nonlinear_arith)
            requires
                both == m * t.0,
                t.0 == total * pow2(a),
                pa == pow2(a),
                n == m * total,
        ;
        // `w * 2^(g + a)` is near `p * 2^k`.
        lemma_pow2_adds(g, a);
        let da = pow2(g + a) as int;
        assert(da == d * pa);
        if r.1 >= 0 {
            lemma_pow2_adds(r.1 as nat, (g + a) as nat);
            assert(r.1 as nat + (g + a) == k);
            assert(w * da == p * pk) by (nonlinear_arith)
                requires
                    w == p * pow2(r.1 as nat),
                    pow2(r.1 as nat) * da == pk,
            ;
        } else {
            let s = (-r.1) as nat;
            lemma_pow2_adds(s, k);
            assert(s + k == g + a);
            let ps = pow2(s) as int;
            lemma_scaled_bound(2 * (w * ps - p), ps, pk);
            assert(2 * (w * ps - p) * pk == 2 * (w * da - p * pk)) by (nonlinear_arith)
                requires
                    ps * pk == da,
            ;
        }
        assert(-da <= 2 * (w * da - p * pk) <= da);
        assert(-(da + pk) <= 2 * (w * da - n * pa) <= da + pk);
        assert(pk * 2097152 <= n * pa);
        let off = 2 * (w * d - n);
        assert(2 * (w * da - n * pa) == off * pa) by (nonlinear_arith)
            requires
                da == d * pa,
                off == 2 * (w * d - n),
        ;
        let bound = d * 2097152 + n;
        assert(off * 2097152 * pa == (off * pa) * 2097152) by (nonlinear_arith);
        assert(bound * pa == da * 2097152 + n * pa) by (nonlinear_arith)
            requires
                bound == d * 2097152 + n,
                da == d * pa,
        ;
        assert(-(bound * pa) <= (off * 2097152) * pa <= bound * pa);
        lemma_unscaled_bound(off * 2097152, bound, pa);
    } else {
        let fs = f as nat;
        let pf = pow2(fs) as int;
        lemma_pow2_pos(fs);
        assert(1 * pow2(fs) == pow2(fs)) by (nonlinear_arith);
        assert(-pf <= 2 * (t.0 * pf - total) <= pf);
        lemma_small_place(t.0 as int, pf, total as int);
        // `w * 2^g` is near `p * 2^(k + f)`.
        lemma_pow2_adds(k, fs);
        let pkf = pow2(k + fs) as int;
        assert(pkf == pk * pf);
        if r.1 >= 0 {
            lemma_pow2_adds(r.1 as nat, g);
            assert(r.1 as nat + g == k + fs);
            assert(w * d == p * pkf) by (nonlinear_arith)
                requires
                    w == p * pow2(r.1 as nat),
                    pow2(r.1 as nat) * d == pkf,
            ;
        } else {
            let s = (-r.1) as nat;
            lemma_pow2_adds(s, k + fs);
            assert(s + (k + fs) == g);
            let ps = pow2(s) as int;
            lemma_scaled_bound(2 * (w * ps - p), ps, pkf);
            assert(2 * (w * ps - p) * pkf == 2 * (w * d - p * pkf)) by (nonlinear_arith)
                requires
                    ps * pkf == d,
            ;
        }
        assert(-d <= 2 * (w * d - p * pkf) <= d);
        // `p * 2^(k + f)` is near `m * t * 2^f`.
        lemma_scaled_bound(2 * (p * pk - both), pk, pf);
        assert(2 * (p * pk - both) * pf == 2 * (p * pkf - both * pf)) by (nonlinear_arith)
            requires
                pkf == pk * pf,
        ;
        // `m * t * 2^f` is near `m * total`.
        lemma_scaled_bound(2 * (t.0 * pf - total), pf, m as int);
        assert(2 * (t.0 * pf - total) * m == 2 * (both * pf - n)) by (nonlinear_arith)
            requires
                both == m * t.0,
                n == m * total,
        ;
        let off = 2 * (w * d - n);
        let third = pf * m;
        assert(-(d + pkf + third) <= off <= d + pkf + third);
        assert(third * 8388607 <= n) by (nonlinear_arith)
            requires
                pf * 8388607 <= total,
                third == pf * m,
                n == m * total,
                m >= 0,
        ;
        assert(pkf * 8388607 <= both * pf) by (nonlinear_arith)
            requires
                pk * 8388607 <= both,
                pkf == pk * pf,
                pf >= 1,
        ;
        assert(2 * (both * pf) <= 2 * n + third);
        assert((pkf + third) * 2097152 <= n);
    }
}

} // verus!
