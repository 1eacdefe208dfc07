//! Three-component vectors of micro-unit scalars, with the exact
//! euclidean norm: the squares are summed without rescaling, so the
//! norm is the floor of the true length in micro-units.

use crate::fixed::{
    fx_add, fx_div, fx_mul, fx_sub, isqrt_u128, lemma_isqrt_bounds, sat64, spec_fx_add,
    spec_fx_div, spec_fx_mul, spec_fx_sub, spec_isqrt,
};
use vstd::prelude::*;

verus! {

/// A vector of three micro-unit scalars.
#[derive(Clone, Copy, PartialEq, Eq, Structural, Debug)]
pub struct V3 {
    pub x: i64,
    pub y: i64,
    pub z: i64,
}

/// Component-wise saturating addition.
pub open spec fn spec_v3_add(a: V3, b: V3) -> V3 {
    V3 {
        x: spec_fx_add(a.x as int, b.x as int) as i64,
        y: spec_fx_add(a.y as int, b.y as int) as i64,
        z: spec_fx_add(a.z as int, b.z as int) as i64,
    }
}

/// Component-wise saturating subtraction.
pub open spec fn spec_v3_sub(a: V3, b: V3) -> V3 {
    V3 {
        x: spec_fx_sub(a.x as int, b.x as int) as i64,
        y: spec_fx_sub(a.y as int, b.y as int) as i64,
        z: spec_fx_sub(a.z as int, b.z as int) as i64,
    }
}

/// The vector scaled by a fixed-point factor, component by component.
pub open spec fn spec_v3_scale(k: int, a: V3) -> V3 {
    V3 {
        x: spec_fx_mul(k, a.x as int) as i64,
        y: spec_fx_mul(k, a.y as int) as i64,
        z: spec_fx_mul(k, a.z as int) as i64,
    }
}

/// The fixed-point dot product: three rescaled products, summed with
/// saturation, left to right.
pub open spec fn spec_v3_dot(a: V3, b: V3) -> int {
    spec_fx_add(
        spec_fx_add(
            spec_fx_mul(a.x as int, b.x as int),
            spec_fx_mul(a.y as int, b.y as int),
        ),
        spec_fx_mul(a.z as int, b.z as int),
    )
}

/// The exact squared length in squared micro-units (no rescaling).
pub open spec fn spec_v3_norm2(a: V3) -> int {
    (a.x as int) * (a.x as int) + (a.y as int) * (a.y as int) + (a.z as int) * (a.z as int)
}

/// The euclidean length in micro-units: the floor of the square root of
/// the exact squared length, saturated into `i64`.
pub open spec fn spec_v3_norm(a: V3) -> int {
    sat64(spec_isqrt(spec_v3_norm2(a) as nat) as int)
}

/// The vector divided by its own length, component by component; the
/// zero vector stays zero.
pub open spec fn spec_v3_normalize(a: V3) -> V3 {
    let d = spec_v3_norm(a);
    V3 {
        x: spec_fx_div(a.x as int, d) as i64,
        y: spec_fx_div(a.y as int, d) as i64,
        z: spec_fx_div(a.z as int, d) as i64,
    }
}

/// Component-wise saturating vector addition.
pub fn v3_add(a: V3, b: V3) -> (r: V3)
    ensures
        r == spec_v3_add(a, b),
{
    V3 { x: fx_add(a.x, b.x), y: fx_add(a.y, b.y), z: fx_add(a.z, b.z) }
}

/// Component-wise saturating vector subtraction.
pub fn v3_sub(a: V3, b: V3) -> (r: V3)
    ensures
        r == spec_v3_sub(a, b),
{
    V3 { x: fx_sub(a.x, b.x), y: fx_sub(a.y, b.y), z: fx_sub(a.z, b.z) }
}

/// The vector scaled by a fixed-point factor.
pub fn v3_scale(k: i64, a: V3) -> (r: V3)
    ensures
        r == spec_v3_scale(k as int, a),
{
    V3 { x: fx_mul(k, a.x), y: fx_mul(k, a.y), z: fx_mul(k, a.z) }
}

/// The fixed-point dot product of two vectors.
pub fn v3_dot(a: V3, b: V3) -> (r: i64)
    ensures
        r as int == spec_v3_dot(a, b),
{
    fx_add(fx_add(fx_mul(a.x, b.x), fx_mul(a.y, b.y)), fx_mul(a.z, b.z))
}

/// The square of a scalar, exactly, as an unsigned 128-bit value.
fn square_u128(v: i64) -> (r: u128)
    ensures
        r as int == (v as int) * (v as int),
        r <= 0x40000000000000000000000000000000,
{
    proof {
        assert((v as int) * (v as int) >= 0 && (v as int) * (v as int)
            <= 0x40000000000000000000000000000000) by (nonlinear_arith)
            requires
                i64::MIN as int <= v as int <= i64::MAX as int;
    }
    let w: i128 = (v as i128) * (v as i128);
    w as u128
}

/// The euclidean length of a vector, in micro-units.
pub fn v3_norm(a: V3) -> (r: i64)
    ensures
        r as int == spec_v3_norm(a),
{
    let s: u128 = square_u128(a.x) + square_u128(a.y) + square_u128(a.z);
    let q: u128 = isqrt_u128(s);
    proof {
        lemma_isqrt_bounds(s as nat);
        assert(q < 0x20000000000000000) by (nonlinear_arith)
            requires
                (q as nat) * (q as nat) <= s as nat,
                (s as nat) <= 0xC0000000000000000000000000000000;
    }
    if q > i64::MAX as u128 {
        i64::MAX
    } else {
        q as i64
    }
}

/// The vector divided by its own euclidean length; the zero vector
/// stays zero.
pub fn v3_normalize(a: V3) -> (r: V3)
    ensures
        r == spec_v3_normalize(a),
{
    let d: i64 = v3_norm(a);
    V3 { x: fx_div(a.x, d), y: fx_div(a.y, d), z: fx_div(a.z, d) }
}

} // verus!
