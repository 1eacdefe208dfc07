//! A single rigid sphere's kinematic and visual state, and its
//! randomized construction.
//!
//! Construction draws twelve fractions from the generator, in a fixed
//! order: the radius fraction; a scale and three direction components
//! for the position; the same four for the velocity; and three colour
//! channels.  A direction is a vector of three fractions shifted to be
//! centred on zero and then normalized — deliberately not uniform over
//! the sphere (it leans toward the cube diagonals), which is kept as
//! given behaviour.

use crate::fixed::{
    fx_add, fx_mul, fx_sub, spec_fx_add, spec_fx_mul, spec_fx_sub, tdiv,
};
use crate::rng::{spec_lcg_next, spec_unit_from, Lcg};
use crate::vec3::{spec_v3_normalize, spec_v3_scale, v3_normalize, v3_scale, V3};
use crate::BOX_SIZE_FX;
use vstd::prelude::*;

verus! {

/// One rigid sphere: world-space centre and velocity, fixed radius and
/// mass (the cube of the radius, floored at one micro-unit), and a
/// cosmetic colour.
#[derive(Clone, Copy, PartialEq, Eq, Structural, Debug)]
pub struct Particle {
    pub position: V3,
    pub velocity: V3,
    pub radius: i64,
    pub mass: i64,
    pub color: V3,
}

/// One draw: the advanced generator state and the fraction it yields.
pub open spec fn spec_draw(s: u64) -> (int, u64) {
    let s1 = spec_lcg_next(s);
    (spec_unit_from(s1), s1)
}

/// A fraction re-centred on zero: the component of an unnormalized
/// direction.
pub open spec fn spec_centered(u: int) -> i64 {
    (u - 500_000) as i64
}

/// The mass a radius derives: the fixed-point cube, floored at one
/// micro-unit so that mass stays positive even where the cube of a
/// radius below a hundredth of a unit truncates to zero.
pub open spec fn spec_mass_of(radius: int) -> int {
    let c = spec_fx_mul(spec_fx_mul(radius, radius), radius);
    if c < 1 {
        1
    } else {
        c
    }
}

/// The particle constructed from the twelve fractions drawn from state
/// `s`, paired with the generator state left behind.
pub open spec fn spec_particle_random(min_radius: i64, max_radius: i64, s: u64) -> (
    Particle,
    u64,
) {
    let (u1, s1) = spec_draw(s);
    let (u2, s2) = spec_draw(s1);
    let (u3, s3) = spec_draw(s2);
    let (u4, s4) = spec_draw(s3);
    let (u5, s5) = spec_draw(s4);
    let (u6, s6) = spec_draw(s5);
    let (u7, s7) = spec_draw(s6);
    let (u8r, s8) = spec_draw(s7);
    let (u9, s9) = spec_draw(s8);
    let (u10, s10) = spec_draw(s9);
    let (u11, s11) = spec_draw(s10);
    let (u12, s12) = spec_draw(s11);
    let radius = spec_fx_add(
        min_radius as int,
        spec_fx_mul(spec_fx_sub(max_radius as int, min_radius as int), u1),
    ) as i64;
    let pos_dir = spec_v3_normalize(
        V3 { x: spec_centered(u3), y: spec_centered(u4), z: spec_centered(u5) },
    );
    let pos_scale = spec_fx_mul(spec_fx_mul(u2, 500_000), BOX_SIZE_FX as int);
    let vel_dir = spec_v3_normalize(
        V3 { x: spec_centered(u7), y: spec_centered(u8r), z: spec_centered(u9) },
    );
    let vel_scale = spec_fx_mul(spec_fx_mul(u6, 5_000_000), BOX_SIZE_FX as int);
    let p = Particle {
        position: spec_v3_scale(pos_scale, pos_dir),
        velocity: spec_v3_scale(vel_scale, vel_dir),
        radius,
        mass: spec_mass_of(radius as int) as i64,
        color: V3 { x: u10 as i64, y: u11 as i64, z: u12 as i64 },
    };
    (p, s12)
}

impl Particle {
    /// A freshly randomized particle: radius uniform in
    /// `[min_radius, max_radius]`, mass derived from the radius, position
    /// and velocity along freshly drawn directions, colour channels in
    /// the unit range.
    pub fn random(min_radius: i64, max_radius: i64, rng: &mut Lcg) -> (p: Particle)
        ensures
            p == spec_particle_random(min_radius, max_radius, old(rng).state).0,
            final (rng).state == spec_particle_random(min_radius, max_radius, old(rng).state).1,
            min_radius >= 0 && min_radius <= max_radius ==> min_radius <= p.radius
                <= max_radius,
            p.mass as int == spec_mass_of(p.radius as int),
            p.mass >= 1,
            0 <= p.color.x < 1_000_000 && 0 <= p.color.y < 1_000_000 && 0 <= p.color.z
                < 1_000_000,
    {
        let u1: i64 = rng.next_unit();
        let u2: i64 = rng.next_unit();
        let u3: i64 = rng.next_unit();
        let u4: i64 = rng.next_unit();
        let u5: i64 = rng.next_unit();
        let u6: i64 = rng.next_unit();
        let u7: i64 = rng.next_unit();
        let u8r: i64 = rng.next_unit();
        let u9: i64 = rng.next_unit();
        let u10: i64 = rng.next_unit();
        let u11: i64 = rng.next_unit();
        let u12: i64 = rng.next_unit();
        let diff: i64 = fx_sub(max_radius, min_radius);
        let frac: i64 = fx_mul(diff, u1);
        let radius: i64 = fx_add(min_radius, frac);
        proof {
            if min_radius >= 0 && min_radius <= max_radius {
                lemma_frac_in_range(diff as int, u1 as int);
            }
        }
        let pos_dir: V3 = v3_normalize(
            V3 { x: u3 - 500_000, y: u4 - 500_000, z: u5 - 500_000 },
        );
        let pos_scale: i64 = fx_mul(fx_mul(u2, 500_000), BOX_SIZE_FX);
        let vel_dir: V3 = v3_normalize(
            V3 { x: u7 - 500_000, y: u8r - 500_000, z: u9 - 500_000 },
        );
        let vel_scale: i64 = fx_mul(fx_mul(u6, 5_000_000), BOX_SIZE_FX);
        let cube: i64 = fx_mul(fx_mul(radius, radius), radius);
        let mass: i64 = if cube < 1 {
            1
        } else {
            cube
        };
        Particle {
            position: v3_scale(pos_scale, pos_dir),
            velocity: v3_scale(vel_scale, vel_dir),
            radius,
            mass,
            color: V3 { x: u10, y: u11, z: u12 },
        }
    }
}

/// A uniform draw from `[min, max]`: the low end plus the span scaled
/// by a fresh unit fraction.
pub fn rand_range(min: i64, max: i64, rng: &mut Lcg) -> (r: i64)
    ensures
        final (rng).state == spec_lcg_next(old(rng).state),
        r as int == spec_fx_add(
            min as int,
            spec_fx_mul(spec_fx_sub(max as int, min as int), spec_unit_from(final (rng).state)),
        ),
        min >= 0 && min <= max ==> min <= r <= max,
{
    let u: i64 = rng.next_unit();
    let diff: i64 = fx_sub(max, min);
    let frac: i64 = fx_mul(diff, u);
    proof {
        if min >= 0 && min <= max {
            lemma_frac_in_range(diff as int, u as int);
        }
    }
    fx_add(min, frac)
}

/// A non-negative scalar scaled by a unit fraction stays within
/// `[0, a]`: the radius drawn from a well-ordered range stays inside it.
pub proof fn lemma_frac_in_range(a: int, f: int)
    requires
        0 <= a <= i64::MAX as int,
        0 <= f < 1_000_000,
    ensures
        0 <= spec_fx_mul(a, f) <= a,
{
    assert(0 <= a * f && a * f <= a * 1_000_000) by (nonlinear_arith)
        requires
            0 <= a,
            0 <= f < 1_000_000;
    assert(tdiv(a * f, 1_000_000) == (a * f) / 1_000_000);
    assert((a * f) / 1_000_000 <= (a * 1_000_000) / 1_000_000) by (nonlinear_arith)
        requires
            0 <= a * f <= a * 1_000_000;
    assert((a * 1_000_000) / 1_000_000 == a) by (nonlinear_arith);
}

} // verus!
