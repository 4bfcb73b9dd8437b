//! Scalar kernel for the fixed-point court coordinates.
//!
//! Every quantity in the game is an `i64` count of `1 / SCALE` of a court
//! unit.  The kernel provides the three operations the geometry needs:
//! truncating division (the rounding that turns an exact rational result
//! into a representable scalar), an exact integer square root, and
//! saturation to a symmetric range.

use vstd::prelude::*;

verus! {

use vstd::arithmetic::div_mod::lemma_div_nonincreasing;
use vstd::arithmetic::div_mod::lemma_div_pos_is_pos;
use vstd::arithmetic::div_mod::lemma_fundamental_div_mod;
use vstd::arithmetic::div_mod::lemma_mod_bound;
use vstd::arithmetic::div_mod::lemma_multiply_divide_le;

/// Fixed-point scale: number of scalar units in one court unit.
pub const SCALE: i64 = 20000;

/// Division truncated towards zero, the rounding of machine division,
/// for a positive divisor.  (Spec-level `/` on `int` is Euclidean, which
/// differs on negative dividends.)
pub open spec fn div_tz(a: int, d: int) -> int {
    if a >= 0 {
        a / d
    } else {
        -((-a) / d)
    }
}

/// Saturation of `x` to the range `[lo, hi]`.
pub open spec fn clamped(x: int, lo: int, hi: int) -> int {
    if x < lo {
        lo
    } else if x > hi {
        hi
    } else {
        x
    }
}

/// `r` is the integer square root of `n`: the largest integer whose
/// square does not exceed `n`.
pub open spec fn is_isqrt(n: int, r: int) -> bool {
    0 <= r && r * r <= n && n < (r + 1) * (r + 1)
}

/// The integer square root of a non-negative `n`.
pub open spec fn isqrt(n: int) -> int {
    choose|r: int| is_isqrt(n, r)
}

/// Every non-negative integer has an integer square root, and `isqrt`
/// denotes it.
pub proof fn lemma_isqrt_exists(n: int)
    requires
        n >= 0,
    ensures
        is_isqrt(n, isqrt(n)),
    decreases n,
{
    if n == 0 {
        assert(is_isqrt(0, 0));
    } else {
        lemma_isqrt_exists(n - 1);
        let r = isqrt(n - 1);
        if (r + 1) * (r + 1) <= n {
            assert(is_isqrt(n, r + 1)) by (nonlinear_arith)
                requires
                    is_isqrt(n - 1, r),
                    (r + 1) * (r + 1) <= n,
            ;
        } else {
            assert(is_isqrt(n, r));
        }
    }
}

/// The integer square root is unique.
pub proof fn lemma_isqrt_unique(n: int, r1: int, r2: int)
    by (nonlinear_arith)
    requires
        is_isqrt(n, r1),
        is_isqrt(n, r2),
    ensures
        r1 == r2,
{
}

/// Comparing an integer square root with a non-negative bound is the
/// same as comparing the radicand with the bound's square.
pub proof fn lemma_isqrt_lt_iff(n: int, r: int, b: int)
    by (nonlinear_arith)
    requires
        is_isqrt(n, r),
        b >= 0,
    ensures
        (r < b) <==> (n < b * b),
{
}

/// Truncating division brackets the exact quotient from below in
/// magnitude: `d * div_tz(a, d)` lies between `0` and `a`, within `d`
/// of `a`.
pub proof fn lemma_div_tz_bounds(a: int, d: int)
    requires
        d > 0,
    ensures
        a >= 0 ==> 0 <= d * div_tz(a, d) <= a && a < d * div_tz(a, d) + d,
        a < 0 ==> a <= d * div_tz(a, d) <= 0 && d * div_tz(a, d) - d < a,
{
    if a >= 0 {
        lemma_fundamental_div_mod(a, d);
        lemma_mod_bound(a, d);
        if a > 0 {
            lemma_div_pos_is_pos(a, d);
        }
        assert(d * (a / d) >= 0) by (nonlinear_arith)
            requires
                d > 0,
                a / d >= 0,
        ;
    } else {
        lemma_fundamental_div_mod(-a, d);
        lemma_mod_bound(-a, d);
        lemma_div_pos_is_pos(-a, d);
        assert(d * ((-a) / d) >= 0) by (nonlinear_arith)
            requires
                d > 0,
                (-a) / d >= 0,
        ;
        assert(d * div_tz(a, d) == -(d * ((-a) / d))) by (nonlinear_arith)
            requires
                a < 0,
                d > 0,
                div_tz(a, d) == -((-a) / d),
        ;
    }
}

/// The magnitude of a truncated quotient never exceeds the dividend's.
pub proof fn lemma_div_tz_mag(a: int, d: int)
    requires
        d >= 1,
    ensures
        a >= 0 ==> 0 <= div_tz(a, d) <= a,
        a < 0 ==> a <= div_tz(a, d) <= 0,
{
    if a >= 0 {
        lemma_div_nonincreasing(a, d);
        lemma_div_pos_is_pos(a, d);
    } else {
        lemma_div_nonincreasing(-a, d);
        lemma_div_pos_is_pos(-a, d);
    }
}

/// Scaling by a proper fraction `q / dd` (with `0 <= q <= dd`) and
/// truncating keeps the result between `0` and `c`.
pub proof fn lemma_div_tz_between(c: int, q: int, dd: int)
    requires
        0 <= q <= dd,
        dd > 0,
    ensures
        c >= 0 ==> 0 <= div_tz(c * q, dd) <= c,
        c < 0 ==> c <= div_tz(c * q, dd) <= 0,
{
    if c >= 0 {
        assert(0 <= c * q <= dd * c) by (nonlinear_arith)
            requires
                c >= 0,
                0 <= q <= dd,
        ;
        if c * q > 0 {
            lemma_div_pos_is_pos(c * q, dd);
        }
        lemma_multiply_divide_le(c * q, dd, c);
    } else {
        assert(dd * c <= c * q <= 0) by (nonlinear_arith)
            requires
                c < 0,
                0 <= q <= dd,
        ;
        let p = -(c * q);
        assert(div_tz(c * q, dd) == if c * q == 0 { c * q / dd } else { -(p / dd) });
        if c * q == 0 {
            lemma_div_tz_mag(0, dd);
        } else {
            lemma_div_pos_is_pos(p, dd);
            assert(p <= dd * (-c)) by (nonlinear_arith)
                requires
                    p == -(c * q),
                    dd * c <= c * q,
            ;
            lemma_multiply_divide_le(p, dd, -c);
        }
    }
}

/// A bound on the dividend, in multiples of the divisor, bounds the
/// truncated quotient.
pub proof fn lemma_div_tz_le_bound(a: int, d: int, b: int)
    requires
        d > 0,
        b >= 0,
        -(b * d) <= a <= b * d,
    ensures
        -b <= div_tz(a, d) <= b,
{
    assert(b * d == d * b) by (nonlinear_arith);
    if a >= 0 {
        lemma_div_pos_is_pos(a, d);
        lemma_multiply_divide_le(a, d, b);
    } else {
        lemma_div_pos_is_pos(-a, d);
        lemma_multiply_divide_le(-a, d, b);
    }
}

/// Truncating division of `a` by a positive `d`, total on all `i64`
/// dividends above `i64::MIN`.
///
/// This is exactly what `a / d` computes for machine integers; going
/// through `checked_div` keeps the verified code free of panicking
/// operations.
pub fn div_trunc(a: i64, d: i64) -> (q: i64)
    requires
        d > 0,
        a > i64::MIN,
    ensures
        q == div_tz(a as int, d as int),
{
    proof {
        lemma_div_tz_mag(a as int, d as int);
    }
    let r: Option<i64> = a.checked_div(d);
    r.unwrap()
}

/// `a * b / d`, truncated towards zero, for a positive `d`.
pub fn mul_div(a: i64, b: i64, d: i64) -> (q: i64)
    requires
        d > 0,
        -0x7fff_ffff_ffff_ffff <= a * b <= 0x7fff_ffff_ffff_ffff,
    ensures
        q == div_tz(a * b, d as int),
{
    let p: i64 = a.checked_mul(b).unwrap();
    div_trunc(p, d)
}

/// The integer square root of a non-negative `i64`.
pub fn isqrt_i64(n: i64) -> (r: i64)
    requires
        n >= 0,
    ensures
        is_isqrt(n as int, r as int),
        r == isqrt(n as int),
{
    let mut lo: i64 = 0;
    let mut hi: i64 = 3037000500;
    assert((hi as int) * (hi as int) > n as int) by (nonlinear_arith)
        requires
            hi == 3037000500i64,
            n <= 0x7fff_ffff_ffff_ffff,
    ;
    while hi - lo > 1
        invariant
            0 <= lo < hi <= 3037000500,
            (lo as int) * (lo as int) <= n as int,
            n < (hi as int) * (hi as int),
        decreases hi - lo,
    {
        let mid: i64 = lo + (hi - lo) / 2;
        assert(lo < mid < hi);
        if mid <= n / mid {
            proof {
                assert((mid as int) * (mid as int) <= n as int) by (nonlinear_arith)
                    requires
                        0 < mid,
                        mid <= n / mid,
                        n >= 0,
                ;
            }
            lo = mid;
        } else {
            proof {
                assert(n < (mid as int) * (mid as int)) by (nonlinear_arith)
                    requires
                        0 < mid,
                        n / mid < mid,
                        n >= 0,
                ;
            }
            hi = mid;
        }
    }
    proof {
        assert(is_isqrt(n as int, lo as int));
        lemma_isqrt_exists(n as int);
        lemma_isqrt_unique(n as int, lo as int, isqrt(n as int));
    }
    lo
}

/// Saturation of `x` to `[lo, hi]`.
pub fn clamp_i64(x: i64, lo: i64, hi: i64) -> (r: i64)
    requires
        lo <= hi,
    ensures
        r == clamped(x as int, lo as int, hi as int),
{
    if x < lo {
        lo
    } else if x > hi {
        hi
    } else {
        x
    }
}

} // verus!
