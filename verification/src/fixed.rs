//! Fixed-point scalars.
//!
//! Every quantity of the simulation (a coordinate, a speed, an acceleration, a
//! span of time) is an integer count of thousandths of its unit. This module
//! holds the two roundings on which the rest is built: division toward zero and
//! the square root rounded up.

use vstd::prelude::*;

verus! {

/// Number of fixed-point steps in one unit.
pub const SCALE: i64 = 1000;

/// Largest distance from the origin at which a vector is accepted as input.
pub const COORD_LIMIT: i64 = 1_000_000_000_000;

/// Absolute value.
pub open spec fn abs(a: int) -> int {
    if a >= 0 {
        a
    } else {
        -a
    }
}

/// The quotient `a / d`, rounded toward zero.
pub open spec fn quot(a: int, d: int) -> int {
    if a >= 0 {
        a / d
    } else {
        -((-a) / d)
    }
}

/// `r` is the least natural number whose square reaches `n`.
pub open spec fn is_sqrt_ceil(n: int, r: int) -> bool {
    &&& r >= 0
    &&& r * r >= n
    &&& (r == 0 || (r - 1) * (r - 1) < n)
}

/// The square root of `n`, rounded up; 0 for `n <= 0`.
pub open spec fn sqrt_ceil(n: int) -> int {
    choose|r: int| is_sqrt_ceil(n, r)
}

/// `a` lies between `lo` and `hi`, or is moved to the nearer of them.
pub open spec fn clamp(a: int, lo: int, hi: int) -> int {
    if a < lo {
        lo
    } else if a > hi {
        hi
    } else {
        a
    }
}

/// The lesser of two numbers.
pub open spec fn min(a: int, b: int) -> int {
    if a <= b {
        a
    } else {
        b
    }
}

/// The greater of two numbers.
pub open spec fn max(a: int, b: int) -> int {
    if a >= b {
        a
    } else {
        b
    }
}

proof fn lemma_square_monotonic(a: int, b: int)
    by (nonlinear_arith)
    requires
        0 <= a <= b,
    ensures
        a * a <= b * b,
{
}

/// Some number is the rounded-up square root of `n`.
proof fn lemma_sqrt_ceil_exists(n: int) -> (r: int)
    ensures
        is_sqrt_ceil(n, r),
    decreases n,
{
    if n <= 0 {
        0
    } else {
        let p = lemma_sqrt_ceil_exists(n - 1);
        if p * p >= n {
            assert(p != 0);
            p
        } else {
            assert((p + 1) * (p + 1) >= n) by (nonlinear_arith)
                requires
                    p >= 0,
                    p * p >= n - 1,
            ;
            p + 1
        }
    }
}

/// `sqrt_ceil(n)` is the least natural number whose square reaches `n`.
pub proof fn lemma_sqrt_ceil(n: int)
    ensures
        is_sqrt_ceil(n, sqrt_ceil(n)),
{
    let r = lemma_sqrt_ceil_exists(n);
    assert(is_sqrt_ceil(n, r));
}

/// Only one number is the rounded-up square root of `n`.
pub proof fn lemma_sqrt_ceil_unique(n: int, r: int)
    requires
        is_sqrt_ceil(n, r),
    ensures
        sqrt_ceil(n) == r,
{
    lemma_sqrt_ceil(n);
    let s = sqrt_ceil(n);
    if s < r {
        lemma_square_monotonic(s, r - 1);
    } else if r < s {
        lemma_square_monotonic(r, s - 1);
    }
}

/// A number whose square reaches `n` is at least the rounded-up root of `n`.
pub proof fn lemma_sqrt_ceil_le(n: int, b: int)
    requires
        0 <= b,
        n <= b * b,
    ensures
        sqrt_ceil(n) <= b,
{
    lemma_sqrt_ceil(n);
    let s = sqrt_ceil(n);
    if s > b {
        lemma_square_monotonic(b, s - 1);
    }
}

/// The rounded-up root exceeds `b` exactly when `n` exceeds the square of `b`.
pub proof fn lemma_sqrt_ceil_gt(n: int, b: int)
    requires
        0 <= b,
    ensures
        sqrt_ceil(n) > b <==> n > b * b,
{
    lemma_sqrt_ceil(n);
    let s = sqrt_ceil(n);
    if n <= b * b {
        lemma_sqrt_ceil_le(n, b);
    } else if s <= b {
        lemma_square_monotonic(s, b);
    }
}

/// The rounded-up root is zero exactly when `n` is not positive.
pub proof fn lemma_sqrt_ceil_zero(n: int)
    ensures
        sqrt_ceil(n) == 0 <==> n <= 0,
{
    lemma_sqrt_ceil(n);
    assert(0 * 0 == 0) by (nonlinear_arith);
    if n <= 0 {
        lemma_sqrt_ceil_unique(n, 0);
    }
}

/// The square root of `n`, rounded up.
pub fn isqrt_ceil(n: u128) -> (r: u128)
    ensures
        r == sqrt_ceil(n as int),
        r <= 0x1_0000_0000_0000_0000,
{
    let mut lo: u128 = 0;
    let mut hi: u128 = 0x1_0000_0000_0000_0000;
    assert(hi * hi >= n) by (nonlinear_arith)
        requires
            hi == 0x1_0000_0000_0000_0000,
            n <= u128::MAX,
    ;
    while lo < hi
        invariant
            lo <= hi <= 0x1_0000_0000_0000_0000,
            hi * hi >= n,
            lo == 0 || (lo - 1) * (lo - 1) < n,
        decreases hi - lo,
    {
        let mid: u128 = lo + (hi - lo) / 2;
        assert(mid * mid <= u128::MAX) by (nonlinear_arith)
            requires
                mid <= 0xFFFF_FFFF_FFFF_FFFF,
        ;
        if mid * mid >= n {
            hi = mid;
        } else {
            lo = mid + 1;
        }
    }
    proof {
        lemma_sqrt_ceil_unique(n as int, lo as int);
    }
    lo
}

/// The magnitude of `a`.
pub fn magnitude(a: i128) -> (m: u128)
    ensures
        m == abs(a as int),
{
    if a >= 0 {
        a as u128
    } else if a == i128::MIN {
        0x8000_0000_0000_0000_0000_0000_0000_0000
    } else {
        (-a) as u128
    }
}

/// `a / d`, rounded toward zero.
pub fn div_toward_zero(a: i128, d: i128) -> (q: i128)
    requires
        d > 0,
    ensures
        q == quot(a as int, d as int),
        abs(q as int) <= abs(a as int),
{
    let m: u128 = magnitude(a);
    let du: u128 = d as u128;
    let qm: u128 = m / du;
    proof {
        lemma_quot_small(a as int, d as int);
    }
    if a >= 0 {
        qm as i128
    } else if qm == 0x8000_0000_0000_0000_0000_0000_0000_0000 {
        i128::MIN
    } else {
        -(qm as i128)
    }
}

/// Rounding toward zero never leaves the quotient longer than the dividend.
pub proof fn lemma_quot_small(a: int, d: int)
    requires
        d > 0,
    ensures
        abs(quot(a, d)) <= abs(a),
        abs(quot(a, d)) == abs(a) / d,
        a >= 0 ==> quot(a, d) >= 0,
        a <= 0 ==> quot(a, d) <= 0,
{
    let m = abs(a);
    assert(0 <= m / d <= m) by (nonlinear_arith)
        requires
            m >= 0,
            d > 0,
    ;
}

/// The quotient times the divisor does not pass the dividend in magnitude.
pub proof fn lemma_quot_bound(a: int, d: int)
    requires
        d > 0,
    ensures
        abs(quot(a, d)) * d <= abs(a),
        abs(a) < abs(quot(a, d)) * d + d,
{
    let m = abs(a);
    lemma_quot_small(a, d);
    assert((m / d) * d <= m && m < (m / d) * d + d) by (nonlinear_arith)
        requires
            m >= 0,
            d > 0,
    ;
}

/// The quotient is zero exactly where the dividend is shorter than the
/// divisor.
pub proof fn lemma_quot_zero(a: int, d: int)
    requires
        d > 0,
    ensures
        quot(a, d) == 0 <==> abs(a) < d,
{
    let m = abs(a);
    assert(m / d == 0 <==> m < d) by (nonlinear_arith)
        requires
            m >= 0,
            d > 0,
    ;
}

/// Dividing the negated dividend negates the quotient.
pub proof fn lemma_quot_neg(a: int, d: int)
    requires
        d > 0,
    ensures
        quot(-a, d) == -quot(a, d),
{
    if a == 0 {
        assert(0int / d == 0) by (nonlinear_arith)
            requires
                d > 0,
        ;
    }
}

/// A multiple of the divisor is divided exactly.
pub proof fn lemma_quot_exact(k: int, d: int)
    requires
        d > 0,
    ensures
        quot(k * d, d) == k,
{
    if k >= 0 {
        assert(k * d >= 0 && (k * d) / d == k) by (nonlinear_arith)
            requires
                k >= 0,
                d > 0,
        ;
    } else {
        assert(k * d < 0 && (-(k * d)) / d == -k) by (nonlinear_arith)
            requires
                k < 0,
                d > 0,
        ;
    }
}

} // verus!
