//! Pairwise impulse-based collision resolution.
//!
//! Two particles exchange a mass-weighted impulse along the line of
//! their centres when they overlap and are approaching; otherwise the
//! pair is left untouched.  Resolving the same pair twice in one frame
//! is therefore harmless: except at the one-micro-unit truncation
//! floor, where a tiny closing speed can survive a truncated impulse
//! and absorb a second equally tiny one, the second pass sees a
//! non-approaching pair and changes nothing.  Positions are never
//! corrected: penetration is resolved purely by velocity change over
//! subsequent frames.

use crate::fixed::{
    fx_add, fx_div, fx_mul, fx_sub, spec_fx_add, spec_fx_div, spec_fx_mul, spec_fx_sub,
};
use crate::particle::Particle;
use crate::vec3::{
    spec_v3_add, spec_v3_dot, spec_v3_norm, spec_v3_normalize, spec_v3_scale, spec_v3_sub,
    v3_add, v3_dot, v3_norm, v3_normalize, v3_scale, v3_sub,
};
use crate::ONE_PLUS_E_SPHERE_FX;
use vstd::prelude::*;

verus! {

/// The particle sequence after resolving the pair `(i, j)`: identical
/// to `ps` when the pair denotes one particle twice, lies out of
/// bounds, does not overlap, or is not approaching; otherwise the two
/// velocities change by opposite mass-weighted impulses along the
/// contact normal and everything else is kept.
pub open spec fn spec_collide(ps: Seq<Particle>, i: int, j: int) -> Seq<Particle> {
    if !(0 <= i < ps.len() && 0 <= j < ps.len()) || i == j {
        ps
    } else {
        let p1 = ps[i];
        let p2 = ps[j];
        let d0 = spec_v3_sub(p2.position, p1.position);
        let dist = spec_v3_norm(d0);
        if dist > spec_fx_add(p1.radius as int, p2.radius as int) {
            ps
        } else {
            let d = spec_v3_normalize(d0);
            let s1 = spec_v3_dot(p1.velocity, d);
            let s2 = spec_v3_dot(p2.velocity, d);
            let sc = spec_fx_sub(s1, s2);
            if sc <= 0 {
                ps
            } else {
                let msum = spec_fx_add(p1.mass as int, p2.mass as int);
                let w1 = spec_fx_div(p2.mass as int, msum);
                let w2 = spec_fx_div(p1.mass as int, msum);
                let k1 = spec_fx_mul(spec_fx_mul(w1, ONE_PLUS_E_SPHERE_FX as int), sc);
                let k2 = spec_fx_mul(spec_fx_mul(w2, ONE_PLUS_E_SPHERE_FX as int), sc);
                let q1 = Particle {
                    velocity: spec_v3_sub(p1.velocity, spec_v3_scale(k1, d)),
                    ..p1
                };
                let q2 = Particle {
                    velocity: spec_v3_add(p2.velocity, spec_v3_scale(k2, d)),
                    ..p2
                };
                ps.update(i, q1).update(j, q2)
            }
        }
    }
}

/// Resolving a pair touches at most the two velocities: the length of
/// the sequence, every position, radius, mass and colour, and every
/// other particle are kept as they were.
pub proof fn lemma_collide_preserves(ps: Seq<Particle>, i: int, j: int)
    ensures
        spec_collide(ps, i, j).len() == ps.len(),
        forall|k: int|
            0 <= k < ps.len() ==> {
                let q = #[trigger] spec_collide(ps, i, j)[k];
                q.position == ps[k].position && q.radius == ps[k].radius && q.mass
                    == ps[k].mass && q.color == ps[k].color
            },
        forall|k: int|
            0 <= k < ps.len() && k != i && k != j ==> #[trigger] spec_collide(ps, i, j)[k]
                == ps[k],
{
}

/// Resolve the pair `(i, j)` in place.  A pair given as one index
/// twice is a no-op, as is a separated or receding pair.
pub fn collide(ps: &mut Vec<Particle>, i: usize, j: usize)
    requires
        i < old(ps).len(),
        j < old(ps).len(),
    ensures
        final (ps)@ == spec_collide(old(ps)@, i as int, j as int),
        i == j ==> final (ps)@ == old(ps)@,
{
    if i == j {
        return ;
    }
    let p1 = ps[i];
    let p2 = ps[j];
    let d0 = v3_sub(p2.position, p1.position);
    let dist = v3_norm(d0);
    if dist > fx_add(p1.radius, p2.radius) {
        return ;
    }
    let d = v3_normalize(d0);
    let s1 = v3_dot(p1.velocity, d);
    let s2 = v3_dot(p2.velocity, d);
    let sc = fx_sub(s1, s2);
    if sc <= 0 {
        return ;
    }
    let msum = fx_add(p1.mass, p2.mass);
    let w1 = fx_div(p2.mass, msum);
    let w2 = fx_div(p1.mass, msum);
    let k1 = fx_mul(fx_mul(w1, ONE_PLUS_E_SPHERE_FX), sc);
    let k2 = fx_mul(fx_mul(w2, ONE_PLUS_E_SPHERE_FX), sc);
    let q1 = Particle { velocity: v3_sub(p1.velocity, v3_scale(k1, d)), ..p1 };
    let q2 = Particle { velocity: v3_add(p2.velocity, v3_scale(k2, d)), ..p2 };
    ps.set(i, q1);
    ps.set(j, q2);
}

} // verus!
