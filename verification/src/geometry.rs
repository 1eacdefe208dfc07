//! The unit-sphere mesh handed to a renderer: a latitude/longitude
//! lattice of vertex positions and the triangle indices that stitch
//! it, all in micro-unit fixed point.
//!
//! The sine is Bhaskara's rational approximation on `[0, pi]`, odd-
//! extended to `[0, 2 pi]`; the cosine is the sine of the angle
//! shifted by a quarter turn.  The contract pins every vertex and
//! every index to its closed formula.

use crate::fixed::{fx_add, fx_div, fx_mul, fx_sub, spec_fx_add, spec_fx_div, spec_fx_mul,
    spec_fx_sub};
use vstd::prelude::*;

verus! {

/// Half a turn, in micro-radians.
pub const PI_FX: i64 = 3_141_593;

/// A full turn, in micro-radians.
pub const TWO_PI_FX: i64 = 6_283_186;

/// A quarter turn, in micro-radians.
pub const HALF_PI_FX: i64 = 1_570_796;

/// Five times the square of half a turn: the denominator constant of
/// Bhaskara's approximation.
pub const FIVE_PI_SQ_FX: i64 = 49_348_022;

/// Rings of the latitude/longitude lattice.
pub const RINGS: u32 = 20;

/// Slices of the latitude/longitude lattice.
pub const SLICES: u32 = 20;

/// The latitude step: half a turn over one less than the ring count
/// (exactly, in micro-radians).
pub const LAT_STEP_FX: i64 = 165_347;

/// The longitude step: a full turn over the slice count, truncated to
/// micro-radians.
pub const LNG_STEP_FX: i64 = 314_159;

/// Bhaskara's rational sine on `[0, half a turn]`:
/// `16 x (pi - x) / (5 pi^2 - 4 x (pi - x))`, in fixed point.
pub open spec fn spec_bhaskara(x: int) -> int {
    let t = spec_fx_mul(x, spec_fx_sub(PI_FX as int, x));
    spec_fx_div(
        spec_fx_mul(16_000_000, t),
        spec_fx_sub(FIVE_PI_SQ_FX as int, spec_fx_mul(4_000_000, t)),
    )
}

/// The approximate sine of an angle in `[0, a full turn]`: Bhaskara's
/// formula on the first half turn, its negation on the second.
pub open spec fn spec_sin_fx(x: int) -> int {
    if x <= PI_FX as int {
        spec_bhaskara(x)
    } else {
        spec_fx_sub(0, spec_bhaskara(x - PI_FX as int))
    }
}

/// The approximate cosine: the sine of the angle shifted a quarter
/// turn, wrapped into the full-turn range.
pub open spec fn spec_cos_fx(x: int) -> int {
    let c = x + HALF_PI_FX as int;
    if c >= TWO_PI_FX as int {
        spec_sin_fx(c - TWO_PI_FX as int)
    } else {
        spec_sin_fx(c)
    }
}

/// The approximate sine of an angle in `[0, a full turn]`.
pub fn sin_fx(x: i64) -> (r: i64)
    requires
        0 <= x <= TWO_PI_FX,
    ensures
        r as int == spec_sin_fx(x as int),
{
    if x <= PI_FX {
        bhaskara(x)
    } else {
        fx_sub(0, bhaskara(x - PI_FX))
    }
}

/// The approximate cosine of an angle in `[0, a full turn]`.
pub fn cos_fx(x: i64) -> (r: i64)
    requires
        0 <= x <= TWO_PI_FX,
    ensures
        r as int == spec_cos_fx(x as int),
{
    let c: i64 = x + HALF_PI_FX;
    if c >= TWO_PI_FX {
        sin_fx(c - TWO_PI_FX)
    } else {
        sin_fx(c)
    }
}

/// Bhaskara's rational sine on the first half turn.
fn bhaskara(x: i64) -> (r: i64)
    requires
        0 <= x <= PI_FX,
    ensures
        r as int == spec_bhaskara(x as int),
{
    let t: i64 = fx_mul(x, fx_sub(PI_FX, x));
    fx_div(fx_mul(16_000_000, t), fx_sub(FIVE_PI_SQ_FX, fx_mul(4_000_000, t)))
}

/// The latitude angle of ring `i` (exact: the step divides half a
/// turn evenly).
pub open spec fn spec_theta(i: int) -> int {
    spec_fx_mul(i * 1_000_000, LAT_STEP_FX as int)
}

/// The longitude angle of slice `j`.
pub open spec fn spec_phi(j: int) -> int {
    spec_fx_mul(j * 1_000_000, LNG_STEP_FX as int)
}

/// The three position components of lattice vertex `(i, j)`: a point
/// of the unit sphere.
pub open spec fn spec_vertex_x(i: int, j: int) -> int {
    spec_fx_mul(spec_sin_fx(spec_theta(i)), spec_cos_fx(spec_phi(j)))
}

pub open spec fn spec_vertex_y(i: int, j: int) -> int {
    spec_fx_mul(spec_sin_fx(spec_theta(i)), spec_sin_fx(spec_phi(j)))
}

pub open spec fn spec_vertex_z(i: int, j: int) -> int {
    spec_cos_fx(spec_theta(i))
}

/// A triangle mesh: flat micro-unit vertex positions, three per
/// vertex, and vertex indices, three per triangle.
pub struct Geometry {
    pub positions: Vec<i64>,
    pub triangles: Vec<u32>,
}

/// The six indices of quad `q` of the sphere lattice (two triangles
/// between ring `i = q / SLICES` and ring `i + 1`, wrapping around the
/// last slice).
pub open spec fn spec_quad_index(q: int, w: int) -> int {
    let i = q / 20;
    let j = q % 20;
    if w == 0 {
        i * 20 + j
    } else if w == 1 {
        (i + 1) * 20 + j
    } else if w == 2 {
        i * 20 + (j + 1) % 20
    } else if w == 3 {
        i * 20 + (j + 1) % 20
    } else if w == 4 {
        (i + 1) * 20 + j
    } else {
        (i + 1) * 20 + (j + 1) % 20
    }
}

/// The unit-sphere mesh: one vertex per lattice point, two triangles
/// per lattice quad.
pub fn make_sphere() -> (g: Geometry)
    ensures
        g.positions@.len() == 1200,
        g.triangles@.len() == 2280,
        forall|v: int|
            0 <= v < 400 ==> {
                let i = v / 20;
                let j = v % 20;
                (#[trigger] g.positions@[3 * v]) as int == spec_vertex_x(i, j)
                    && g.positions@[3 * v + 1] as int == spec_vertex_y(i, j)
                    && g.positions@[3 * v + 2] as int == spec_vertex_z(i, j)
            },
        forall|q: int, w: int|
            0 <= q < 380 && 0 <= w < 6 ==> (#[trigger] g.triangles@[6 * q + w]) as int
                == spec_quad_index(q, w),
{
    let mut positions: Vec<i64> = Vec::new();
    let mut v: usize = 0;
    while v < 400
        invariant
            v <= 400,
            positions@.len() == 3 * v as int,
            forall|k: int|
                0 <= k < v as int ==> {
                    let i = k / 20;
                    let j = k % 20;
                    (#[trigger] positions@[3 * k]) as int == spec_vertex_x(i, j)
                        && positions@[3 * k + 1] as int == spec_vertex_y(i, j)
                        && positions@[3 * k + 2] as int == spec_vertex_z(i, j)
                },
        decreases 400 - v,
    {
        let i: usize = v / 20;
        let j: usize = v % 20;
        let theta: i64 = fx_mul((i as i64) * 1_000_000, LAT_STEP_FX);
        let phi: i64 = fx_mul((j as i64) * 1_000_000, LNG_STEP_FX);
        proof {
            lemma_angle_ranges(i as int, j as int);
        }
        let st = sin_fx(theta);
        let ct = cos_fx(theta);
        let sp = sin_fx(phi);
        let cp = cos_fx(phi);
        positions.push(fx_mul(st, cp));
        positions.push(fx_mul(st, sp));
        positions.push(ct);
        v = v + 1;
    }
    let mut triangles: Vec<u32> = Vec::new();
    let mut q: usize = 0;
    while q < 380
        invariant
            q <= 380,
            triangles@.len() == 6 * q as int,
            forall|k: int, w: int|
                0 <= k < q as int && 0 <= w < 6 ==> (#[trigger] triangles@[6 * k + w]) as int
                    == spec_quad_index(k, w),
        decreases 380 - q,
    {
        let i: u32 = (q as u32) / 20;
        let j: u32 = (q as u32) % 20;
        triangles.push(i * 20 + j);
        triangles.push((i + 1) * 20 + j);
        triangles.push(i * 20 + (j + 1) % 20);
        triangles.push(i * 20 + (j + 1) % 20);
        triangles.push((i + 1) * 20 + j);
        triangles.push((i + 1) * 20 + (j + 1) % 20);
        q = q + 1;
    }
    Geometry { positions, triangles }
}

/// The lattice angles stay inside the full-turn range the sine and
/// cosine ask for.
proof fn lemma_angle_ranges(i: int, j: int)
    requires
        0 <= i < 20,
        0 <= j < 20,
    ensures
        0 <= spec_fx_mul(i * 1_000_000, LAT_STEP_FX as int) <= TWO_PI_FX as int,
        0 <= spec_fx_mul(j * 1_000_000, LNG_STEP_FX as int) <= TWO_PI_FX as int,
        spec_fx_mul(i * 1_000_000, LAT_STEP_FX as int) == i * 165_347,
        spec_fx_mul(j * 1_000_000, LNG_STEP_FX as int) == j * 314_159,
{
    assert((i * 1_000_000) * 165_347 == (i * 165_347) * 1_000_000) by (nonlinear_arith);
    assert((j * 1_000_000) * 314_159 == (j * 314_159) * 1_000_000) by (nonlinear_arith);
    assert(0 <= i * 165_347 <= 19 * 165_347) by (nonlinear_arith)
        requires
            0 <= i < 20;
    assert(0 <= j * 314_159 <= 19 * 314_159) by (nonlinear_arith)
        requires
            0 <= j < 20;
    crate::grid::lemma_tdiv_nonneg((i * 165_347) * 1_000_000, 1_000_000);
    crate::grid::lemma_tdiv_nonneg((j * 314_159) * 1_000_000, 1_000_000);
    assert(((i * 165_347) * 1_000_000) / 1_000_000 == i * 165_347) by (nonlinear_arith);
    assert(((j * 314_159) * 1_000_000) / 1_000_000 == j * 314_159) by (nonlinear_arith);
}

} // verus!
