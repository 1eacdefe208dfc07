//! Saturating fixed-point scalar arithmetic over `i64`.
//!
//! A scalar holds a real quantity scaled by one million, so one unit of
//! length is `1_000_000` micro-units.  Every operation is total: results
//! that would leave the `i64` range saturate, and a zero divisor yields a
//! saturated quotient by the sign of the dividend (the analogue of an
//! infinite quotient).  Each executable operation is pinned exactly to a
//! specification function over mathematical integers.

use vstd::prelude::*;

verus! {

/// One unit of length, expressed in micro-units: the fixed-point scale.
pub const FX_ONE: i64 = 1_000_000;

/// Absolute value over mathematical integers.
pub open spec fn iabs(x: int) -> int {
    if x < 0 { -x } else { x }
}

/// Saturation of a mathematical integer into the `i64` range.
pub open spec fn sat64(x: int) -> int {
    if x > i64::MAX as int {
        i64::MAX as int
    } else if x < i64::MIN as int {
        i64::MIN as int
    } else {
        x
    }
}

/// Division truncated toward zero (the rounding of hardware division),
/// as opposed to the euclidean `/` of specification arithmetic.
pub open spec fn tdiv(a: int, b: int) -> int
    recommends
        b != 0,
{
    if (a < 0) == (b < 0) {
        iabs(a) / iabs(b)
    } else {
        -(iabs(a) / iabs(b))
    }
}

/// Saturating fixed-point addition.
pub open spec fn spec_fx_add(a: int, b: int) -> int {
    sat64(a + b)
}

/// Saturating fixed-point subtraction.
pub open spec fn spec_fx_sub(a: int, b: int) -> int {
    sat64(a - b)
}

/// Saturating fixed-point multiplication: the integer product carries the
/// square of the scale, so it is rescaled by one million, truncated toward
/// zero.
pub open spec fn spec_fx_mul(a: int, b: int) -> int {
    sat64(tdiv(a * b, 1_000_000))
}

/// Saturating fixed-point division.  A zero divisor saturates by the sign
/// of the dividend, the analogue of an infinite quotient; a zero dividend
/// over a zero divisor is zero.
pub open spec fn spec_fx_div(a: int, b: int) -> int {
    if b == 0 {
        if a > 0 {
            i64::MAX as int
        } else if a < 0 {
            i64::MIN as int
        } else {
            0
        }
    } else {
        sat64(tdiv(a * 1_000_000, b))
    }
}

/// Floor of the square root of a natural number.
pub open spec fn spec_isqrt(n: nat) -> nat
    decreases n,
{
    if n == 0 {
        0
    } else {
        let r = 2 * spec_isqrt(n / 4);
        if (r + 1) * (r + 1) <= n {
            r + 1
        } else {
            r
        }
    }
}

/// `spec_isqrt` is the floor of the square root: it is the unique `r`
/// with `r * r <= n < (r + 1) * (r + 1)`.
pub proof fn lemma_isqrt_bounds(n: nat)
    ensures
        (spec_isqrt(n) as int) * (spec_isqrt(n) as int) <= n as int,
        (n as int) < ((spec_isqrt(n) as int) + 1) * ((spec_isqrt(n) as int) + 1),
    decreases n,
{
    if n == 0 {
        assert(spec_isqrt(n) == 0);
        assert((spec_isqrt(n) as int) * (spec_isqrt(n) as int) <= n as int);
        assert((n as int) < ((spec_isqrt(n) as int) + 1) * ((spec_isqrt(n) as int) + 1));
    } else {
        lemma_isqrt_bounds(n / 4);
        let r0 = spec_isqrt(n / 4) as int;
        let r = 2 * r0;
        let m = n as int;
        assert(r0 >= 0);
        assert(r * r >= 0 && (r + 1) * (r + 1) >= 0 && (r + 2) * (r + 2) >= 0)
            by (nonlinear_arith)
            requires
                r >= 0;
        assert(4 * (m / 4) <= m && m <= 4 * (m / 4) + 3);
        assert((n / 4) as int == m / 4);
        assert(r * r <= 4 * (m / 4)) by (nonlinear_arith)
            requires
                r == 2 * r0,
                r0 * r0 <= m / 4;
        if (spec_isqrt(n) as int) == r + 1 {
            assert(((r + 1) * (r + 1)) <= m);
            assert(m < (r + 2) * (r + 2)) by (nonlinear_arith)
                requires
                    r == 2 * r0,
                    m / 4 < (r0 + 1) * (r0 + 1),
                    m <= 4 * (m / 4) + 3;
        } else {
            assert(spec_isqrt(n) as int == r);
            assert(m < (r + 1) * (r + 1));
        }
        assert((spec_isqrt(n) as int) * (spec_isqrt(n) as int) <= n as int);
        assert((n as int) < ((spec_isqrt(n) as int) + 1) * ((spec_isqrt(n) as int) + 1));
    }
}

/// Fixed-point square root: the floor of the square root of a
/// non-negative micro-unit scalar, again in micro-units.
pub open spec fn spec_fx_sqrt(a: int) -> int
    recommends
        a >= 0,
{
    if a >= 0 {
        spec_isqrt((a * 1_000_000) as nat) as int
    } else {
        0
    }
}

/// Clamp into `[lo, hi]`, taking the minimum with `hi` first, so that an
/// inverted interval yields `lo`.
pub open spec fn spec_clamp(x: int, lo: int, hi: int) -> int {
    let m = if x < hi { x } else { hi };
    if m < lo {
        lo
    } else {
        m
    }
}

/// Saturate a 128-bit value into an `i64`.
fn sat_i128(x: i128) -> (r: i64)
    ensures
        r as int == sat64(x as int),
{
    if x > i64::MAX as i128 {
        i64::MAX
    } else if x < i64::MIN as i128 {
        i64::MIN
    } else {
        x as i64
    }
}

/// Truncating division of a 128-bit value by a positive divisor.
fn tdiv_i128(a: i128, b: i128) -> (r: i128)
    requires
        b > 0,
        a > i128::MIN,
    ensures
        r as int == tdiv(a as int, b as int),
{
    if a >= 0 {
        let q: u128 = (a as u128) / (b as u128);
        assert(q <= a as u128);
        q as i128
    } else {
        let m: u128 = (-a) as u128;
        let q: u128 = m / (b as u128);
        assert(q <= m);
        -(q as i128)
    }
}

/// Saturating fixed-point addition of two micro-unit scalars.
pub fn fx_add(a: i64, b: i64) -> (r: i64)
    ensures
        r as int == spec_fx_add(a as int, b as int),
{
    sat_i128(a as i128 + b as i128)
}

/// Saturating fixed-point subtraction of two micro-unit scalars.
pub fn fx_sub(a: i64, b: i64) -> (r: i64)
    ensures
        r as int == spec_fx_sub(a as int, b as int),
{
    sat_i128(a as i128 - b as i128)
}

/// Saturating fixed-point multiplication of two micro-unit scalars.
pub fn fx_mul(a: i64, b: i64) -> (r: i64)
    ensures
        r as int == spec_fx_mul(a as int, b as int),
{
    proof {
        assert((a as int) * (b as int) < i128::MAX as int && (a as int) * (b as int)
            > i128::MIN as int) by (nonlinear_arith);
    }
    let p: i128 = (a as i128) * (b as i128);
    sat_i128(tdiv_i128(p, 1_000_000))
}

/// Saturating fixed-point division of two micro-unit scalars.
pub fn fx_div(a: i64, b: i64) -> (r: i64)
    ensures
        r as int == spec_fx_div(a as int, b as int),
{
    if b == 0 {
        if a > 0 {
            i64::MAX
        } else if a < 0 {
            i64::MIN
        } else {
            0
        }
    } else if b > 0 {
        sat_i128(tdiv_i128((a as i128) * 1_000_000, b as i128))
    } else {
        let n: i128 = (a as i128) * 1_000_000;
        assert(tdiv(-(n as int), -(b as int)) == tdiv(n as int, b as int));
        sat_i128(tdiv_i128(-n, -(b as i128)))
    }
}

/// Floor of the square root of a 128-bit natural, computed by halving the
/// number of bits recursively.
pub fn isqrt_u128(n: u128) -> (r: u128)
    requires
        n < 0xFFFFFFFFFFFFFFFE0000000000000001,
    ensures
        r as nat == spec_isqrt(n as nat),
    decreases n,
{
    if n == 0 {
        0
    } else {
        let r0 = isqrt_u128(n / 4);
        proof {
            lemma_isqrt_bounds(n as nat / 4);
            assert(r0 < 0x8000000000000000) by (nonlinear_arith)
                requires
                    (r0 as nat) * (r0 as nat) <= n as nat / 4,
                    (n as nat) / 4 < 0x40000000000000000000000000000000;
        }
        let r = 2 * r0;
        proof {
            assert((r as int) * (r as int) <= 4 * ((n as int) / 4)) by (nonlinear_arith)
                requires
                    r as int == 2 * (r0 as int),
                    (r0 as int) * (r0 as int) <= (n as int) / 4;
            assert(r as int <= 0xFFFFFFFFFFFFFFFE) by (nonlinear_arith)
                requires
                    (r as int) * (r as int) <= n as int,
                    (n as int) < 0xFFFFFFFFFFFFFFFE0000000000000001,
                    r as int >= 0;
            assert((r as int + 1) * (r as int + 1) <= u128::MAX as int) by (nonlinear_arith)
                requires
                    0 <= r as int <= 0xFFFFFFFFFFFFFFFE;
        }
        if (r + 1) * (r + 1) <= n {
            r + 1
        } else {
            r
        }
    }
}

/// Fixed-point square root of a non-negative micro-unit scalar.
pub fn fx_sqrt(a: i64) -> (r: i64)
    requires
        a >= 0,
    ensures
        r as int == spec_fx_sqrt(a as int),
{
    let n: u128 = (a as u128) * 1_000_000;
    let r = isqrt_u128(n);
    proof {
        lemma_isqrt_bounds(n as nat);
        assert(r < 0x8000000000000000) by (nonlinear_arith)
            requires
                (r as nat) * (r as nat) <= n as nat,
                (n as nat) < 0x10000000000000000000000000;
    }
    r as i64
}

/// Clamp a micro-unit scalar into `[lo, hi]`.
pub fn clamp(x: i64, lo: i64, hi: i64) -> (r: i64)
    ensures
        r as int == spec_clamp(x as int, lo as int, hi as int),
{
    let m: i64 = if x < hi { x } else { hi };
    if m < lo {
        lo
    } else {
        m
    }
}

} // verus!
