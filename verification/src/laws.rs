//! The laws of the simulation that hold of every input, each stated
//! over the same specification functions the public contracts use and
//! proved once and for all.

use crate::collision::spec_collide;
use crate::fixed::{
    iabs, lemma_isqrt_bounds, sat64, spec_clamp, spec_fx_div, spec_fx_mul, spec_isqrt, tdiv,
};
use crate::particle::Particle;
use crate::grid::spec_candidates;
use crate::simulation::{
    lemma_collide_seq_preserves, spec_advance_particles, spec_dragged, spec_drag_coef,
    spec_gen_particles, spec_integrate_position, spec_integrate_velocity, spec_min_radius,
    spec_sweep, spec_sweep_step, spec_walled,
};
use crate::vec3::{spec_v3_dot, spec_v3_norm, spec_v3_norm2, spec_v3_normalize, V3};
use vstd::prelude::*;

verus! {

/// The derived smallest radius follows an inverse square root law:
/// for a particle count that is the perfect square `k * k`, it is
/// exactly `600_000 / k` micro-units, so quadrupling the count halves
/// the radius range.
pub proof fn lemma_radius_scaling(k: int)
    requires
        1 <= k,
        k * k <= u32::MAX as int,
    ensures
        spec_min_radius((k * k) as u32) == 600_000int / k,
{
    let count = (k * k) as u32;
    let m = ((count as int) * 1_000_000) * 1_000_000;
    let e = k * 1_000_000;
    assert(m == e * e) by (nonlinear_arith)
        requires
            count as int == k * k,
            e == k * 1_000_000,
            m == ((count as int) * 1_000_000) * 1_000_000;
    let s = spec_isqrt(m as nat) as int;
    lemma_isqrt_bounds(m as nat);
    assert(m < (e + 1) * (e + 1)) by (nonlinear_arith)
        requires
            m == e * e,
            e >= 1;
    assert(s == e) by (nonlinear_arith)
        requires
            s * s <= m,
            m < (s + 1) * (s + 1),
            m == e * e,
            m < (e + 1) * (e + 1),
            s >= 0,
            e >= 1;
    assert(iabs(600_000_000_000) == 600_000_000_000 && iabs(s) == s);
    assert(tdiv(600_000_000_000, s) == 600_000_000_000int / s);
    assert(600_000_000_000int / (k * 1_000_000) == (600_000_000_000int / 1_000_000) / k) by {
        vstd::arithmetic::div_mod::lemma_div_denominator(600_000_000_000int, 1_000_000, k);
    }
    assert(0 <= 600_000_000_000int / (k * 1_000_000) <= 600_000) by (nonlinear_arith)
        requires
            1 <= k;
    assert(sat64(tdiv(600_000_000_000, s)) == tdiv(600_000_000_000, s));
}

/// With a zero frame delta the position phase only clamps: the centre
/// is clamped into the box and everything else is untouched.
pub proof fn lemma_integrate_position_zero_dt(p: Particle)
    ensures
        spec_integrate_position(p, 0).position.x as int == spec_clamp(
            p.position.x as int,
            -2_000_000,
            2_000_000,
        ),
        spec_integrate_position(p, 0).position.y as int == spec_clamp(
            p.position.y as int,
            -2_000_000,
            2_000_000,
        ),
        spec_integrate_position(p, 0).position.z as int == spec_clamp(
            p.position.z as int,
            -2_000_000,
            2_000_000,
        ),
        spec_integrate_position(p, 0).velocity == p.velocity,
        spec_integrate_position(p, 0).radius == p.radius,
        spec_integrate_position(p, 0).mass == p.mass,
        spec_integrate_position(p, 0).color == p.color,
{
    assert(tdiv(0 * (p.velocity.x as int), 1_000_000) == 0);
    assert(tdiv(0 * (p.velocity.y as int), 1_000_000) == 0);
    assert(tdiv(0 * (p.velocity.z as int), 1_000_000) == 0);
}

/// With a zero frame delta the velocity phase applies neither gravity
/// nor drag: each component only passes its wall check.
pub proof fn lemma_integrate_velocity_zero_dt(p: Particle)
    ensures
        spec_integrate_velocity(p, 0).velocity.x as int == spec_walled(
            p.position.x as int,
            p.radius as int,
            p.velocity.x as int,
        ),
        spec_integrate_velocity(p, 0).velocity.y as int == spec_walled(
            p.position.y as int,
            p.radius as int,
            p.velocity.y as int,
        ),
        spec_integrate_velocity(p, 0).velocity.z as int == spec_walled(
            p.position.z as int,
            p.radius as int,
            p.velocity.z as int,
        ),
        spec_integrate_velocity(p, 0).position == p.position,
{
    let k = spec_drag_coef(p);
    assert(tdiv(-9_806_650 * 0, 1_000_000) == 0);
    assert(tdiv(spec_fx_mul(k, p.velocity.x as int) * 0, 1_000_000) == 0);
    assert(tdiv(spec_fx_mul(k, p.velocity.y as int) * 0, 1_000_000) == 0);
    let vz = p.velocity.z as int;
    assert(tdiv(spec_fx_mul(k, vz) * 0, 1_000_000) == 0);
}

/// A particle resting exactly against the positive wall of an axis
/// with outward post-drag velocity has that component reflected and
/// scaled by the wall restitution.
pub proof fn lemma_wall_reflection(p: Particle, dt: i64)
    requires
        2_000_000 - p.position.x as int <= p.radius as int,
        spec_dragged(spec_drag_coef(p), p.velocity.x as int, dt) > 0,
    ensures
        spec_integrate_velocity(p, dt).velocity.x as int == spec_fx_mul(
            -600_000,
            spec_dragged(spec_drag_coef(p), p.velocity.x as int, dt),
        ),
{
}

/// The collision sweep never moves a particle: positions, radii,
/// masses and colours are exactly those it started from.
pub proof fn lemma_sweep_preserves(
    ps: Seq<Particle>,
    cells: Seq<Seq<usize>>,
    gs: int,
    dim: int,
    i: int,
    n: int,
)
    ensures
        spec_sweep(ps, cells, gs, dim, i, n).len() == ps.len(),
        forall|k: int|
            0 <= k < ps.len() ==> {
                let q = #[trigger] spec_sweep(ps, cells, gs, dim, i, n)[k];
                q.position == ps[k].position && q.radius == ps[k].radius && q.mass
                    == ps[k].mass && q.color == ps[k].color
            },
    decreases n - i,
{
    if i < 0 || i >= n {
    } else {
        lemma_collide_seq_preserves(ps, i, spec_candidates(ps[i], cells, gs, dim));
        lemma_sweep_preserves(spec_sweep_step(ps, cells, gs, dim, i), cells, gs, dim, i + 1, n);
    }
}

/// The first frame after a reset has a zero delta, and a zero delta
/// moves nothing: every particle ends exactly at its clamped starting
/// centre (collisions in that frame touch only velocities).
pub proof fn lemma_first_frame_positions(ps: Seq<Particle>, max_radius: i64)
    ensures
        spec_advance_particles(ps, max_radius, 0).len() == ps.len(),
        forall|k: int|
            0 <= k < ps.len() ==> {
                let q = #[trigger] spec_advance_particles(ps, max_radius, 0)[k];
                q.position.x as int == spec_clamp(ps[k].position.x as int, -2_000_000, 2_000_000)
                    && q.position.y as int == spec_clamp(
                    ps[k].position.y as int,
                    -2_000_000,
                    2_000_000,
                ) && q.position.z as int == spec_clamp(
                    ps[k].position.z as int,
                    -2_000_000,
                    2_000_000,
                )
            },
{
    let ps1 = ps.map_values(|p: Particle| spec_integrate_position(p, 0));
    let ps2 = ps1.map_values(|p: Particle| spec_integrate_velocity(p, 0));
    assert forall|k: int| 0 <= k < ps.len() implies {
        ps2[k].position.x as int == spec_clamp(ps[k].position.x as int, -2_000_000, 2_000_000)
            && ps2[k].position.y as int == spec_clamp(
            ps[k].position.y as int,
            -2_000_000,
            2_000_000,
        ) && ps2[k].position.z as int == spec_clamp(
            ps[k].position.z as int,
            -2_000_000,
            2_000_000,
        )
    } by {
        lemma_integrate_position_zero_dt(ps[k]);
        lemma_integrate_velocity_zero_dt(ps1[k]);
    }
    if ps2.len() == 0 {
    } else {
        let gs = crate::fixed::spec_fx_add(max_radius as int, max_radius as int);
        let dim = crate::grid::spec_grid_dim(gs);
        let cells = crate::grid::spec_buckets(ps2, gs, dim, ps2.len() as int);
        lemma_sweep_preserves(ps2, cells, gs, dim, 0, ps2.len() as int);
    }
}

/// Determinism: one frame is a function of the particle collection,
/// the largest radius and the frame delta alone, and a reset's
/// particles are a function of the seed, the count and the radius
/// range alone.  Two equal states fed equal inputs agree bit for bit.
pub proof fn lemma_determinism(
    ps1: Seq<Particle>,
    ps2: Seq<Particle>,
    max_radius: i64,
    dt: i64,
    seed: u64,
    count: int,
    min_r: i64,
    max_r: i64,
)
    requires
        ps1 == ps2,
    ensures
        spec_advance_particles(ps1, max_radius, dt) == spec_advance_particles(
            ps2,
            max_radius,
            dt,
        ),
        spec_gen_particles(seed, count, min_r, max_r) == spec_gen_particles(
            seed,
            count,
            min_r,
            max_r,
        ),
{
}

/// A product with a factor no larger than one in magnitude shrinks:
/// the rescaled product stays within the other factor's magnitude.
pub proof fn lemma_fx_mul_contracts(a: int, f: int)
    requires
        -1_000_000 <= f <= 1_000_000,
        i64::MIN as int <= a <= i64::MAX as int,
    ensures
        iabs(spec_fx_mul(a, f)) <= iabs(a),
{
    assert(iabs(a * f) == iabs(a) * iabs(f)) by (nonlinear_arith);
    assert(iabs(a) * iabs(f) <= iabs(a) * 1_000_000) by (nonlinear_arith)
        requires
            iabs(f) <= 1_000_000,
            iabs(a) >= 0;
    assert(tdiv(a * f, 1_000_000) == if a * f >= 0 {
        iabs(a * f) / 1_000_000
    } else {
        -(iabs(a * f) / 1_000_000)
    });
    assert(iabs(a * f) / 1_000_000 <= (iabs(a) * 1_000_000) / 1_000_000) by (nonlinear_arith)
        requires
            0 <= iabs(a * f) <= iabs(a) * 1_000_000;
    assert((iabs(a) * 1_000_000) / 1_000_000 == iabs(a)) by (nonlinear_arith);
}

/// A normalized vector is a unit vector in fixed point: every
/// component magnitude is at most one (one million micro-units).
pub proof fn lemma_normalize_unit(a: V3)
    ensures
        iabs(spec_v3_normalize(a).x as int) <= 1_000_000,
        iabs(spec_v3_normalize(a).y as int) <= 1_000_000,
        iabs(spec_v3_normalize(a).z as int) <= 1_000_000,
{
    let n2 = spec_v3_norm2(a);
    lemma_isqrt_bounds(n2 as nat);
    let s = spec_isqrt(n2 as nat) as int;
    let d = spec_v3_norm(a);
    assert((a.x as int) * (a.x as int) >= 0 && (a.y as int) * (a.y as int) >= 0 && (
    a.z as int) * (a.z as int) >= 0) by (nonlinear_arith);
    lemma_normalize_component(a.x as int, n2, s, d);
    lemma_normalize_component(a.y as int, n2, s, d);
    lemma_normalize_component(a.z as int, n2, s, d);
}

/// One component of a normalization stays within the unit magnitude.
proof fn lemma_normalize_component(c: int, n2: int, s: int, d: int)
    requires
        i64::MIN as int <= c <= i64::MAX as int,
        c * c <= n2,
        s * s <= n2 < (s + 1) * (s + 1),
        s >= 0,
        d == sat64(s),
    ensures
        iabs(spec_fx_div(c, d)) <= 1_000_000,
{
    if d == 0 {
        assert(s == 0);
        assert(n2 < (s + 1) * (s + 1));
        assert(n2 < 1) by (nonlinear_arith)
            requires
                s == 0,
                n2 < (s + 1) * (s + 1);
        assert(c == 0) by (nonlinear_arith)
            requires
                c * c <= n2,
                n2 < 1;
    } else {
        assert(d >= 1);
        if s <= i64::MAX as int {
            assert(d == s);
            assert(-s <= c && c <= s) by (nonlinear_arith)
                requires
                    c * c <= n2,
                    n2 < (s + 1) * (s + 1),
                    s >= 0;
            assert(iabs(c) <= d);
            assert((iabs(c) * 1_000_000) / d <= 1_000_000) by (nonlinear_arith)
                requires
                    0 <= iabs(c) <= d,
                    d >= 1;
        } else {
            assert(d == i64::MAX as int);
            assert(iabs(c) <= d + 1);
            assert(iabs(c) * 1_000_000 <= d * 1_000_000 + 1_000_000) by (nonlinear_arith)
                requires
                    0 <= iabs(c) <= d + 1;
            assert((d * 1_000_000 + 1_000_000) / d == 1_000_000 + 1_000_000int / d) by (nonlinear_arith)
                requires
                    d >= 2_000_000;
            assert(1_000_000int / d == 0) by (nonlinear_arith)
                requires
                    d >= 2_000_000;
            assert((iabs(c) * 1_000_000) / d <= (d * 1_000_000 + 1_000_000) / d) by {
                vstd::arithmetic::div_mod::lemma_div_is_ordered(
                    iabs(c) * 1_000_000,
                    d * 1_000_000 + 1_000_000,
                    d,
                );
            }
        }
        assert(iabs(c * 1_000_000) == iabs(c) * 1_000_000);
        assert(tdiv(c * 1_000_000, d) == if c >= 0 {
            (iabs(c) * 1_000_000) / d
        } else {
            -((iabs(c) * 1_000_000) / d)
        });
    }
}

/// Colliding two particles of equal mass conserves momentum exactly:
/// the two velocity updates cancel component by component, whatever
/// the geometry (for distinct particles within moderate speeds; a
/// no-op resolution conserves trivially).
pub proof fn lemma_equal_mass_momentum(ps: Seq<Particle>, i: int, j: int)
    requires
        0 <= i < ps.len(),
        0 <= j < ps.len(),
        i != j,
        ps[i].mass == ps[j].mass,
        1 <= ps[i].mass as int <= 0x2000000000000000,
        iabs(ps[i].velocity.x as int) <= 1_000_000_000_000,
        iabs(ps[i].velocity.y as int) <= 1_000_000_000_000,
        iabs(ps[i].velocity.z as int) <= 1_000_000_000_000,
        iabs(ps[j].velocity.x as int) <= 1_000_000_000_000,
        iabs(ps[j].velocity.y as int) <= 1_000_000_000_000,
        iabs(ps[j].velocity.z as int) <= 1_000_000_000_000,
    ensures
        ({
            let r = spec_collide(ps, i, j);
            r[i].velocity.x as int + r[j].velocity.x as int == ps[i].velocity.x as int
                + ps[j].velocity.x as int && r[i].velocity.y as int + r[j].velocity.y as int
                == ps[i].velocity.y as int + ps[j].velocity.y as int && r[i].velocity.z as int
                + r[j].velocity.z as int == ps[i].velocity.z as int + ps[j].velocity.z as int
        }),
{
    let p1 = ps[i];
    let p2 = ps[j];
    let d0 = crate::vec3::spec_v3_sub(p2.position, p1.position);
    let dist = spec_v3_norm(d0);
    if dist > crate::fixed::spec_fx_add(p1.radius as int, p2.radius as int) {
    } else {
        let d = spec_v3_normalize(d0);
        let s1 = spec_v3_dot(p1.velocity, d);
        let s2 = spec_v3_dot(p2.velocity, d);
        let sc = crate::fixed::spec_fx_sub(s1, s2);
        if sc <= 0 {
        } else {
            let m = p1.mass as int;
            let msum = crate::fixed::spec_fx_add(m, m);
            assert(msum == 2 * m);
            assert(iabs(m * 1_000_000) == m * 1_000_000);
            assert(tdiv(m * 1_000_000, 2 * m) == (m * 1_000_000) / (2 * m));
            assert((m * 1_000_000) / (2 * m) == 500_000) by {
                assert(m * 1_000_000 == (2 * m) * 500_000) by (nonlinear_arith);
                vstd::arithmetic::div_mod::lemma_div_multiples_vanish(500_000, 2 * m);
            }
            let w = spec_fx_div(m, msum);
            assert(w == 500_000);
            lemma_normalize_unit(d0);
            lemma_dot_bound(p1.velocity, d);
            lemma_dot_bound(p2.velocity, d);
            assert(iabs(sc) <= 6_000_000_000_000);
            let k = spec_fx_mul(spec_fx_mul(w, 1_900_000), sc);
            assert(spec_fx_mul(w, 1_900_000) == 950_000);
            lemma_fx_mul_contracts(sc, 950_000);
            assert(950_000 * sc == sc * 950_000) by (nonlinear_arith);
            assert(spec_fx_mul(950_000, sc) == spec_fx_mul(sc, 950_000));
            assert(iabs(k) <= 6_000_000_000_000);
            lemma_fx_mul_contracts(k, d.x as int);
            lemma_fx_mul_contracts(k, d.y as int);
            lemma_fx_mul_contracts(k, d.z as int);
        }
    }
}

/// The fixed-point dot product of a velocity with a unit vector is
/// bounded by the sum of the component magnitudes.
proof fn lemma_dot_bound(v: V3, d: V3)
    requires
        iabs(d.x as int) <= 1_000_000,
        iabs(d.y as int) <= 1_000_000,
        iabs(d.z as int) <= 1_000_000,
        iabs(v.x as int) <= 1_000_000_000_000,
        iabs(v.y as int) <= 1_000_000_000_000,
        iabs(v.z as int) <= 1_000_000_000_000,
    ensures
        iabs(spec_v3_dot(v, d)) <= 3_000_000_000_000,
{
    lemma_fx_mul_contracts(v.x as int, d.x as int);
    lemma_fx_mul_contracts(v.y as int, d.y as int);
    lemma_fx_mul_contracts(v.z as int, d.z as int);
}

/// The floor square root of a perfect square is its root.
pub proof fn lemma_isqrt_square(e: int)
    requires
        0 <= e,
    ensures
        spec_isqrt((e * e) as nat) as int == e,
{
    let m = e * e;
    assert(m >= 0) by (nonlinear_arith)
        requires
            e >= 0,
            m == e * e;
    lemma_isqrt_bounds(m as nat);
    let s = spec_isqrt(m as nat) as int;
    assert(m < (e + 1) * (e + 1)) by (nonlinear_arith)
        requires
            m == e * e,
            e >= 0;
    assert(s == e) by (nonlinear_arith)
        requires
            s * s <= m,
            m < (s + 1) * (s + 1),
            m == e * e,
            m < (e + 1) * (e + 1),
            s >= 0,
            e >= 0;
}

/// Scaling by exactly one is the identity.
pub proof fn lemma_fx_mul_one(a: int)
    requires
        i64::MIN as int <= a <= i64::MAX as int,
    ensures
        spec_fx_mul(a, 1_000_000) == a,
{
    assert(iabs(a * 1_000_000) == iabs(a) * 1_000_000);
    assert((iabs(a) * 1_000_000) / 1_000_000 == iabs(a)) by (nonlinear_arith);
}

/// An overlapping, approaching head-on pair of equal masses separates:
/// after resolution the closing speed along the line of centres is
/// zero or below.  A closing speed under three micro-units can survive
/// the fixed-point truncation unchanged and is left out.
pub proof fn lemma_head_on_collision_separates(ps: Seq<Particle>, i: int, j: int)
    requires
        0 <= i < ps.len(),
        0 <= j < ps.len(),
        i != j,
        ps[i].mass == ps[j].mass,
        1 <= ps[i].mass as int <= 0x2000000000000000,
        0 <= ps[i].radius <= 2_400_000,
        0 <= ps[j].radius <= 2_400_000,
        -2_000_000 <= ps[i].position.x <= 2_000_000,
        -2_000_000 <= ps[j].position.x <= 2_000_000,
        ps[j].position.y == ps[i].position.y,
        ps[j].position.z == ps[i].position.z,
        (ps[i].position.x as int) < ps[j].position.x as int,
        (ps[j].position.x as int) - ps[i].position.x as int <= ps[i].radius as int
            + ps[j].radius as int,
        iabs(ps[i].velocity.x as int) <= 1_000_000_000_000,
        iabs(ps[j].velocity.x as int) <= 1_000_000_000_000,
        (ps[i].velocity.x as int) - ps[j].velocity.x as int >= 3,
    ensures
        ({
            let r = spec_collide(ps, i, j);
            (r[i].velocity.x as int) - r[j].velocity.x as int <= 0
        }),
{
    let p1 = ps[i];
    let p2 = ps[j];
    let dx = (p2.position.x as int) - p1.position.x as int;
    let d0 = crate::vec3::spec_v3_sub(p2.position, p1.position);
    assert(d0.x as int == dx && d0.y == 0 && d0.z == 0);
    assert(spec_v3_norm2(d0) == dx * dx) by (nonlinear_arith)
        requires
            d0.x as int == dx,
            d0.y == 0,
            d0.z == 0,
            spec_v3_norm2(d0) == (d0.x as int) * (d0.x as int) + (d0.y as int) * (
            d0.y as int) + (d0.z as int) * (d0.z as int);
    lemma_isqrt_square(dx);
    let dist = spec_v3_norm(d0);
    assert(dist == dx);
    assert(dist <= crate::fixed::spec_fx_add(p1.radius as int, p2.radius as int));
    let d = spec_v3_normalize(d0);
    assert(iabs(dx * 1_000_000) == dx * 1_000_000);
    assert((dx * 1_000_000) / dx == 1_000_000) by {
        assert(dx * 1_000_000 == 1_000_000 * dx) by (nonlinear_arith);
        vstd::arithmetic::div_mod::lemma_div_multiples_vanish(1_000_000, dx);
    }
    assert(d.x as int == 1_000_000);
    assert(d.y == 0 && d.z == 0);
    lemma_fx_mul_one(p1.velocity.x as int);
    lemma_fx_mul_one(p2.velocity.x as int);
    assert(tdiv((p1.velocity.y as int) * 0, 1_000_000) == 0);
    assert(tdiv((p1.velocity.z as int) * 0, 1_000_000) == 0);
    assert(tdiv((p2.velocity.y as int) * 0, 1_000_000) == 0);
    assert(tdiv((p2.velocity.z as int) * 0, 1_000_000) == 0);
    let s1 = spec_v3_dot(p1.velocity, d);
    let s2 = spec_v3_dot(p2.velocity, d);
    assert(s1 == p1.velocity.x as int);
    assert(s2 == p2.velocity.x as int);
    let sc = crate::fixed::spec_fx_sub(s1, s2);
    let scv = (p1.velocity.x as int) - p2.velocity.x as int;
    assert(sc == scv);
    assert(sc > 0);
    let m = p1.mass as int;
    let msum = crate::fixed::spec_fx_add(m, m);
    assert(msum == 2 * m);
    assert(iabs(m * 1_000_000) == m * 1_000_000);
    assert(tdiv(m * 1_000_000, 2 * m) == (m * 1_000_000) / (2 * m));
    assert((m * 1_000_000) / (2 * m) == 500_000) by {
        assert(m * 1_000_000 == (2 * m) * 500_000) by (nonlinear_arith);
        vstd::arithmetic::div_mod::lemma_div_multiples_vanish(500_000, 2 * m);
    }
    let w = spec_fx_div(m, msum);
    assert(w == 500_000);
    assert(spec_fx_mul(w, 1_900_000) == 950_000);
    let kk = spec_fx_mul(spec_fx_mul(w, 1_900_000), sc);
    assert(iabs(950_000 * scv) == 950_000 * scv) by (nonlinear_arith)
        requires
            scv >= 3;
    let q = (950_000 * scv) / 1_000_000;
    assert(tdiv(950_000 * scv, 1_000_000) == q);
    assert(0 <= q <= 950_000 * scv) by (nonlinear_arith)
        requires
            scv >= 3,
            q == (950_000 * scv) / 1_000_000;
    assert(950_000 * scv <= 1_900_000_000_000_000_000) by (nonlinear_arith)
        requires
            scv <= 2_000_000_000_000;
    assert(q <= 1_900_000_000_000) by (nonlinear_arith)
        requires
            0 <= q,
            q * 1_000_000 <= 950_000 * scv + 999_999,
            950_000 * scv <= 1_900_000_000_000_000_000;
    assert(kk == q);
    lemma_fx_mul_one(kk);
    assert(tdiv(kk * 0, 1_000_000) == 0);
    // the truncated impulse still at least halves the closing speed
    assert(2 * q >= scv) by (nonlinear_arith)
        requires
            scv >= 3,
            q * 1_000_000 + 1_000_000 > 950_000 * scv;
    let r = spec_collide(ps, i, j);
    assert(r[i].velocity.x as int == (p1.velocity.x as int) - kk);
    assert(r[j].velocity.x as int == (p2.velocity.x as int) + kk);
}

/// Counts up to 3600 derive a smallest radius of at least a hundredth
/// of a unit; there the fixed-point cube of every radius is positive
/// on its own, so the mass floor never engages and every mass is the
/// exact cube.
pub proof fn lemma_min_radius_small_counts(count: u32)
    requires
        1 <= count <= 3600,
    ensures
        spec_min_radius(count) >= 10_000,
{
    let m = ((count as int) * 1_000_000) * 1_000_000;
    let s = spec_isqrt(m as nat) as int;
    lemma_isqrt_bounds(m as nat);
    assert(m <= 3_600_000_000_000_000);
    assert(s <= 60_000_000) by (nonlinear_arith)
        requires
            s * s <= m,
            m <= 3_600_000_000_000_000,
            s >= 0;
    assert(s >= 1_000_000) by (nonlinear_arith)
        requires
            m < (s + 1) * (s + 1),
            m >= 1_000_000_000_000,
            s >= 0;
    assert(iabs(600_000_000_000) == 600_000_000_000 && iabs(s) == s);
    assert(tdiv(600_000_000_000, s) == 600_000_000_000int / s);
    assert(10_000 <= 600_000_000_000int / s <= 600_000) by (nonlinear_arith)
        requires
            1_000_000 <= s <= 60_000_000;
}

/// For a radius of at least a hundredth of a unit the cube is itself
/// positive, so the mass floor never engages: the derived mass is the
/// exact fixed-point cube.
pub proof fn lemma_mass_positive(r: i64)
    requires
        10_000 <= r,
    ensures
        spec_fx_mul(spec_fx_mul(r as int, r as int), r as int) >= 1,
        crate::particle::spec_mass_of(r as int) == spec_fx_mul(
            spec_fx_mul(r as int, r as int),
            r as int,
        ),
{
    let rr = (r as int) * (r as int);
    assert(100_000_000 <= rr) by (nonlinear_arith)
        requires
            10_000 <= r as int,
            rr == (r as int) * (r as int);
    assert(iabs(rr) == rr);
    assert(tdiv(rr, 1_000_000) == rr / 1_000_000);
    assert(100 <= rr / 1_000_000 <= rr) by (nonlinear_arith)
        requires
            100_000_000 <= rr;
    let q = spec_fx_mul(r as int, r as int);
    assert(q >= 100);
    let p = q * (r as int);
    assert(1_000_000 <= p) by (nonlinear_arith)
        requires
            q >= 100,
            r as int >= 10_000,
            p == q * (r as int);
    assert(iabs(p) == p);
    assert(tdiv(p, 1_000_000) == p / 1_000_000);
    assert(1 <= p / 1_000_000) by (nonlinear_arith)
        requires
            1_000_000 <= p;
    assert(0 <= p / 1_000_000 <= p) by (nonlinear_arith)
        requires
            0 <= p;
}

} // verus!
