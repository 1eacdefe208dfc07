//! The simulation: per-frame integration, broad-phase partitioning and
//! collision resolution over the particle collection.
//!
//! One frame runs four phases in order: position integration with a
//! hard clamp into the box; velocity integration (gravity, drag, wall
//! bounces); a fresh bucket grid over the clamped positions; and
//! pairwise resolution of every particle against the contents of its
//! neighbour cells.  A pair may be visited twice, once from each side;
//! away from the one-micro-unit truncation floor the second visit sees
//! a non-approaching pair and changes nothing (a closing speed of a
//! few micro-units can survive a truncated impulse and absorb a
//! second, equally bounded one).

use crate::clock::{spec_clock_advance, Clock};
use crate::collision::{collide, lemma_collide_preserves, spec_collide};
use crate::fixed::{
    fx_add, fx_div, fx_mul, fx_sqrt, fx_sub, spec_fx_add, spec_clamp, spec_fx_div,
    spec_fx_mul, spec_fx_sqrt, spec_fx_sub, spec_isqrt, lemma_isqrt_bounds, tdiv, iabs,
};
use crate::grid::{
    build_grid, bucket_views, candidates_of, grid_dim, lemma_buckets_props, lemma_flat_range,
    spec_buckets, spec_candidates, spec_cell_coord, spec_cell_count, spec_grid_dim,
    spec_neighbor_cells, spec_concat_buckets,
};
use crate::particle::{spec_mass_of, spec_particle_random, Particle};
use crate::rng::Lcg;
use crate::vec3::{spec_v3_add, spec_v3_scale, v3_add, v3_scale, V3};
use crate::{C_AIR_FX, E_WALL_FX, GRAVITY_FX, HALF_BOX_FX};
use vstd::prelude::*;

verus! {

/// A particle after position integration: the centre moves by velocity
/// times the frame delta and is clamped into the box axis by axis; the
/// velocity is untouched by this phase, a deliberate simplification
/// that can hold fast particles at a wall for a frame.
pub open spec fn spec_integrate_position(p: Particle, dt: i64) -> Particle {
    let moved = spec_v3_add(p.position, spec_v3_scale(dt as int, p.velocity));
    Particle {
        position: V3 {
            x: spec_clamp(moved.x as int, -2_000_000, 2_000_000) as i64,
            y: spec_clamp(moved.y as int, -2_000_000, 2_000_000) as i64,
            z: spec_clamp(moved.z as int, -2_000_000, 2_000_000) as i64,
        },
        ..p
    }
}

/// The drag factor of a particle: the air constant times the squared
/// radius over the mass (for an exact cube mass, one over the radius).
pub open spec fn spec_drag_coef(p: Particle) -> int {
    spec_fx_mul(
        C_AIR_FX as int,
        spec_fx_div(spec_fx_mul(p.radius as int, p.radius as int), p.mass as int),
    )
}

/// One velocity component after drag.
pub open spec fn spec_dragged(k: int, v: int, dt: i64) -> int {
    spec_fx_sub(v, spec_fx_mul(spec_fx_mul(k, v), dt as int))
}

/// One velocity component after the wall check of its axis: touching
/// or past a wall and moving further into it, the component is
/// reflected and scaled by the wall restitution.
pub open spec fn spec_walled(pos: int, radius: int, v: int) -> int {
    if (2_000_000 - pos <= radius && v > 0) || (pos + 2_000_000 <= radius && v < 0) {
        spec_fx_mul(-(E_WALL_FX as int), v)
    } else {
        v
    }
}

/// A particle after velocity integration: gravity pulls the z
/// component down, drag damps all three, and each axis is then checked
/// against its pair of walls independently.
pub open spec fn spec_integrate_velocity(p: Particle, dt: i64) -> Particle {
    let vz = spec_fx_add(
        p.velocity.z as int,
        spec_fx_mul(-(GRAVITY_FX as int), dt as int),
    );
    let k = spec_drag_coef(p);
    let dx = spec_dragged(k, p.velocity.x as int, dt);
    let dy = spec_dragged(k, p.velocity.y as int, dt);
    let dz = spec_dragged(k, vz, dt);
    Particle {
        velocity: V3 {
            x: spec_walled(p.position.x as int, p.radius as int, dx) as i64,
            y: spec_walled(p.position.y as int, p.radius as int, dy) as i64,
            z: spec_walled(p.position.z as int, p.radius as int, dz) as i64,
        },
        ..p
    }
}

/// Whether every particle centre lies inside the box.
pub open spec fn all_in_box(ps: Seq<Particle>) -> bool {
    forall|i: int|
        0 <= i < ps.len() ==> {
            let p = #[trigger] ps[i];
            -2_000_000 <= p.position.x <= 2_000_000 && -2_000_000 <= p.position.y
                <= 2_000_000 && -2_000_000 <= p.position.z <= 2_000_000
        }
}

/// Integrate every position in place.
pub fn integrate_positions(ps: &mut Vec<Particle>, dt: i64)
    ensures
        final (ps)@.len() == old(ps)@.len(),
        forall|i: int|
            0 <= i < old(ps)@.len() ==> final (ps)@[i] == spec_integrate_position(
                #[trigger] old(ps)@[i],
                dt,
            ),
        all_in_box(final (ps)@),
{
    let mut i: usize = 0;
    while i < ps.len()
        invariant
            i <= ps@.len(),
            ps@.len() == old(ps)@.len(),
            forall|k: int|
                0 <= k < i ==> ps@[k] == spec_integrate_position(#[trigger] old(ps)@[k], dt),
            forall|k: int| i <= k < ps@.len() ==> ps@[k] == #[trigger] old(ps)@[k],
        decreases ps@.len() - i,
    {
        let p = ps[i];
        let moved = v3_add(p.position, v3_scale(dt, p.velocity));
        let q = Particle {
            position: V3 {
                x: crate::fixed::clamp(moved.x, -2_000_000, 2_000_000),
                y: crate::fixed::clamp(moved.y, -2_000_000, 2_000_000),
                z: crate::fixed::clamp(moved.z, -2_000_000, 2_000_000),
            },
            ..p
        };
        ps.set(i, q);
        i = i + 1;
    }
    proof {
        assert forall|k: int| 0 <= k < ps@.len() implies {
            let p = #[trigger] ps@[k];
            -2_000_000 <= p.position.x <= 2_000_000 && -2_000_000 <= p.position.y
                <= 2_000_000 && -2_000_000 <= p.position.z <= 2_000_000
        } by {
            assert(ps@[k] == spec_integrate_position(old(ps)@[k], dt));
        }
    }
}

/// Integrate every velocity in place; positions are untouched.
pub fn integrate_velocities(ps: &mut Vec<Particle>, dt: i64)
    requires
        all_in_box(old(ps)@),
    ensures
        final (ps)@.len() == old(ps)@.len(),
        forall|i: int|
            0 <= i < old(ps)@.len() ==> final (ps)@[i] == spec_integrate_velocity(
                #[trigger] old(ps)@[i],
                dt,
            ),
        all_in_box(final (ps)@),
{
    let mut i: usize = 0;
    while i < ps.len()
        invariant
            i <= ps@.len(),
            ps@.len() == old(ps)@.len(),
            all_in_box(old(ps)@),
            forall|k: int|
                0 <= k < i ==> ps@[k] == spec_integrate_velocity(#[trigger] old(ps)@[k], dt),
            forall|k: int| i <= k < ps@.len() ==> ps@[k] == #[trigger] old(ps)@[k],
        decreases ps@.len() - i,
    {
        let p = ps[i];
        proof {
            assert(p == old(ps)@[i as int]);
        }
        let vz = fx_add(p.velocity.z, fx_mul(-GRAVITY_FX, dt));
        let k = fx_mul(C_AIR_FX, fx_div(fx_mul(p.radius, p.radius), p.mass));
        let dx = fx_sub(p.velocity.x, fx_mul(fx_mul(k, p.velocity.x), dt));
        let dy = fx_sub(p.velocity.y, fx_mul(fx_mul(k, p.velocity.y), dt));
        let dz = fx_sub(vz, fx_mul(fx_mul(k, vz), dt));
        let wx: i64 = if (HALF_BOX_FX - p.position.x <= p.radius && dx > 0) || (p.position.x
            + HALF_BOX_FX <= p.radius && dx < 0) {
            fx_mul(-E_WALL_FX, dx)
        } else {
            dx
        };
        let wy: i64 = if (HALF_BOX_FX - p.position.y <= p.radius && dy > 0) || (p.position.y
            + HALF_BOX_FX <= p.radius && dy < 0) {
            fx_mul(-E_WALL_FX, dy)
        } else {
            dy
        };
        let wz: i64 = if (HALF_BOX_FX - p.position.z <= p.radius && dz > 0) || (p.position.z
            + HALF_BOX_FX <= p.radius && dz < 0) {
            fx_mul(-E_WALL_FX, dz)
        } else {
            dz
        };
        let q = Particle { velocity: V3 { x: wx, y: wy, z: wz }, ..p };
        ps.set(i, q);
        i = i + 1;
    }
    proof {
        assert forall|k: int| 0 <= k < ps@.len() implies {
            let p = #[trigger] ps@[k];
            -2_000_000 <= p.position.x <= 2_000_000 && -2_000_000 <= p.position.y
                <= 2_000_000 && -2_000_000 <= p.position.z <= 2_000_000
        } by {
            assert(ps@[k] == spec_integrate_velocity(old(ps)@[k], dt));
            assert(ps@[k].position == old(ps)@[k].position);
        }
    }
}

/// The particles after particle `i` has been resolved against the
/// candidate list `cs`, left to right.
pub open spec fn spec_collide_seq(ps: Seq<Particle>, i: int, cs: Seq<usize>) -> Seq<Particle>
    decreases cs.len(),
{
    if cs.len() == 0 {
        ps
    } else {
        spec_collide_seq(spec_collide(ps, i, cs[0] as int), i, cs.drop_first())
    }
}

/// Resolving one particle against a list of candidates keeps the
/// length and everything but velocities.
pub proof fn lemma_collide_seq_preserves(ps: Seq<Particle>, i: int, cs: Seq<usize>)
    ensures
        spec_collide_seq(ps, i, cs).len() == ps.len(),
        forall|k: int|
            0 <= k < ps.len() ==> {
                let q = #[trigger] spec_collide_seq(ps, i, cs)[k];
                q.position == ps[k].position && q.radius == ps[k].radius && q.mass
                    == ps[k].mass && q.color == ps[k].color
            },
    decreases cs.len(),
{
    if cs.len() == 0 {
    } else {
        lemma_collide_preserves(ps, i, cs[0] as int);
        lemma_collide_seq_preserves(spec_collide(ps, i, cs[0] as int), i, cs.drop_first());
    }
}

/// One step of the sweep: particle `i` resolved against the contents
/// of its neighbour cells.
pub open spec fn spec_sweep_step(
    ps: Seq<Particle>,
    cells: Seq<Seq<usize>>,
    gs: int,
    dim: int,
    i: int,
) -> Seq<Particle> {
    spec_collide_seq(ps, i, spec_candidates(ps[i], cells, gs, dim))
}

/// The particles after the sweep has run from particle `i` to the end
/// (`n` is the particle count, which the sweep preserves).
pub open spec fn spec_sweep(
    ps: Seq<Particle>,
    cells: Seq<Seq<usize>>,
    gs: int,
    dim: int,
    i: int,
    n: int,
) -> Seq<Particle>
    decreases n - i,
{
    if i < 0 || i >= n {
        ps
    } else {
        spec_sweep(spec_sweep_step(ps, cells, gs, dim, i), cells, gs, dim, i + 1, n)
    }
}

/// Every index listed among the neighbour cells lies within the grid.
pub proof fn lemma_neighbor_cells_range(ci: int, cj: int, ck: int, dim: int, t: int)
    requires
        0 <= ci < dim,
        0 <= cj < dim,
        0 <= ck < dim,
    ensures
        forall|u: int|
            0 <= u < spec_neighbor_cells(ci, cj, ck, dim, t).len() ==> 0 <= (
            #[trigger] spec_neighbor_cells(ci, cj, ck, dim, t)[u]) < spec_cell_count(dim),
    decreases 27 - t,
{
    if t < 0 || t >= 27 {
    } else {
        lemma_neighbor_cells_range(ci, cj, ck, dim, t + 1);
        let gi = ci + t / 9 - 1;
        let gj = cj + (t / 3) % 3 - 1;
        let gk = ck + t % 3 - 1;
        let rest = spec_neighbor_cells(ci, cj, ck, dim, t + 1);
        let whole = spec_neighbor_cells(ci, cj, ck, dim, t);
        if 0 <= gi < dim && 0 <= gj < dim && 0 <= gk < dim {
            lemma_flat_range(gi, gj, gk, dim);
            assert forall|u: int| 0 <= u < whole.len() implies 0 <= (#[trigger] whole[u])
                < spec_cell_count(dim) by {
                if u > 0 {
                    assert(whole[u] == rest[u - 1]);
                }
            }
        } else {
            assert(whole == rest);
        }
    }
}

/// Concatenating buckets whose entries lie below `n` yields entries
/// below `n`.
pub proof fn lemma_concat_buckets_bound(
    cells: Seq<Seq<usize>>,
    cl: Seq<int>,
    n: int,
)
    requires
        forall|u: int| 0 <= u < cl.len() ==> 0 <= #[trigger] cl[u] < cells.len(),
        forall|c: int, t: int|
            0 <= c < cells.len() && 0 <= t < cells[c].len() ==> ((#[trigger] cells[c][t]) as int)
                < n,
    ensures
        forall|u: int|
            0 <= u < spec_concat_buckets(cells, cl).len() ==> ((#[trigger] spec_concat_buckets(
                cells,
                cl,
            )[u]) as int) < n,
    decreases cl.len(),
{
    if cl.len() == 0 {
    } else {
        assert(forall|u: int|
            0 <= u < cl.drop_first().len() ==> 0 <= #[trigger] cl.drop_first()[u]
                < cells.len());
        lemma_concat_buckets_bound(cells, cl.drop_first(), n);
        let head = cells[cl[0]];
        let rest = spec_concat_buckets(cells, cl.drop_first());
        let whole = spec_concat_buckets(cells, cl);
        assert(whole == head + rest);
        assert forall|u: int| 0 <= u < whole.len() implies ((#[trigger] whole[u]) as int)
            < n by {
            if u < head.len() {
                assert(whole[u] == head[u]);
                assert(0 <= cl[0] < cells.len());
            } else {
                assert(whole[u] == rest[u - head.len()]);
            }
        }
    }
}

/// Every candidate of an in-grid particle is the index of a placed
/// particle.
pub proof fn lemma_candidates_bound(
    p: Particle,
    cells: Seq<Seq<usize>>,
    gs: int,
    dim: int,
    n: int,
)
    requires
        dim >= 1,
        cells.len() == spec_cell_count(dim),
        forall|c: int, t: int|
            0 <= c < cells.len() && 0 <= t < cells[c].len() ==> ((#[trigger] cells[c][t]) as int)
                < n,
    ensures
        forall|u: int|
            0 <= u < spec_candidates(p, cells, gs, dim).len() ==> ((#[trigger] spec_candidates(
                p,
                cells,
                gs,
                dim,
            )[u]) as int) < n,
{
    let ci = spec_cell_coord(p.position.x as int, gs, dim);
    let cj = spec_cell_coord(p.position.y as int, gs, dim);
    let ck = spec_cell_coord(p.position.z as int, gs, dim);
    lemma_neighbor_cells_range(ci, cj, ck, dim, 0);
    lemma_concat_buckets_bound(cells, spec_neighbor_cells(ci, cj, ck, dim, 0), n);
}

/// The smallest radius a reset derives from a particle count: a fixed
/// fraction of the box over the square root of the count.
pub open spec fn spec_min_radius(count: u32) -> int {
    spec_fx_div(600_000, spec_fx_sqrt((count as int) * 1_000_000))
}

/// For every positive count the derived smallest radius lies in
/// `[9, 600_000]` micro-units.
pub proof fn lemma_min_radius_bounds(count: u32)
    requires
        count >= 1,
    ensures
        9 <= spec_min_radius(count) <= 600_000,
{
    let m = ((count as int) * 1_000_000) * 1_000_000;
    let s = spec_isqrt(m as nat) as int;
    lemma_isqrt_bounds(m as nat);
    assert(m >= 1_000_000_000_000);
    assert(m <= 4_294_967_295_000_000_000_000);
    assert(s >= 1_000_000) by (nonlinear_arith)
        requires
            m < (s + 1) * (s + 1),
            m >= 1_000_000_000_000,
            s >= 0;
    assert(s <= 65_535_999_999) by (nonlinear_arith)
        requires
            s * s <= m,
            m <= 4_294_967_295_000_000_000_000,
            s >= 0;
    assert(iabs(600_000_000_000) == 600_000_000_000 && iabs(s) == s);
    assert(tdiv(600_000_000_000, s) == 600_000_000_000int / s);
    assert(9 <= 600_000_000_000int / s <= 600_000) by (nonlinear_arith)
        requires
            1_000_000 <= s <= 65_535_999_999;
}

/// The particles generated by `k` draws from state `s`, paired with
/// the state left behind.
pub open spec fn spec_gen_particles(s: u64, k: int, min_radius: i64, max_radius: i64) -> (
    Seq<Particle>,
    u64,
)
    decreases k,
{
    if k <= 0 {
        (Seq::empty(), s)
    } else {
        let (ps, s1) = spec_gen_particles(s, k - 1, min_radius, max_radius);
        let (p, s2) = spec_particle_random(min_radius, max_radius, s1);
        (ps.push(p), s2)
    }
}

/// The average frame rate a clock yields, in micro-units: the frame
/// count over the elapsed time, with the fallback of sixty whenever
/// no time has elapsed (there the true ratio would not be finite).
pub open spec fn spec_fps(c: Clock) -> int {
    if c.total_time == 0 {
        60_000_000
    } else {
        spec_fx_div((c.total_frames as int) * 1_000_000, c.total_time as int)
    }
}

/// Draw `count` fresh particles from the random source, in order.
pub fn generate_particles(count: u32, min_radius: i64, max_radius: i64, rng: &mut Lcg) -> (out:
    Vec<Particle>)
    requires
        0 <= min_radius <= max_radius,
    ensures
        (out@, final (rng).state) == spec_gen_particles(
            old(rng).state,
            count as int,
            min_radius,
            max_radius,
        ),
        out@.len() == count,
        forall|k: int|
            0 <= k < count as int ==> {
                let p = #[trigger] out@[k];
                min_radius <= p.radius <= max_radius && p.mass as int == spec_mass_of(p.radius as int) && p.mass >= 1
            },
{
    let ghost s0 = rng.state;
    let mut out: Vec<Particle> = Vec::new();
    let mut i: u32 = 0;
    while i < count
        invariant
            i <= count,
            0 <= min_radius <= max_radius,
            out@.len() == i as int,
            (out@, rng.state) == spec_gen_particles(s0, i as int, min_radius, max_radius),
            forall|k: int|
                0 <= k < i as int ==> {
                    let p = #[trigger] out@[k];
                    min_radius <= p.radius <= max_radius && p.mass as int == spec_mass_of(
                        p.radius as int,
                    ) && p.mass >= 1
                },
        decreases count - i,
    {
        let p = Particle::random(min_radius, max_radius, rng);
        out.push(p);
        i = i + 1;
    }
    out
}

/// The simulation: the particle collection, the count it was reset to,
/// the radius range derived from that count, the frame clock and the
/// random source.  External code reads particles and the frame rate;
/// all mutation goes through `reset`, `repeat` and `advance`.
pub struct Simulation {
    pub particles: Vec<Particle>,
    pub particle_count: u32,
    pub min_radius: i64,
    pub max_radius: i64,
    pub clock: Clock,
    pub rng: Lcg,
}

impl Simulation {
    /// Well-formedness: the collection length matches the stored
    /// count, and a non-empty simulation carries the radius range its
    /// count derives.
    pub open spec fn wf(self) -> bool {
        self.particles@.len() == self.particle_count && (self.particles@.len() > 0
            ==> 9 <= self.min_radius <= 600_000 && self.max_radius as int == 4 * (
        self.min_radius as int))
    }

    /// An empty simulation seeded for reproducible runs.
    pub fn new_seeded(seed: u64) -> (r: Simulation)
        ensures
            r.wf(),
            r.particles@.len() == 0,
            r.particle_count == 0,
            r.min_radius == 0 && r.max_radius == 0,
            r.clock == (Clock { prev_time: 0i64, total_time: 0i64, total_frames: 0u32 }),
            r.rng.state == seed,
    {
        Simulation {
            particles: Vec::new(),
            particle_count: 0,
            min_radius: 0,
            max_radius: 0,
            clock: Clock::new(),
            rng: Lcg::new(seed),
        }
    }

    /// An empty simulation with a fixed default seed.
    pub fn new() -> (r: Simulation)
        ensures
            r.wf(),
            r.particles@.len() == 0,
            r.particle_count == 0,
            r.min_radius == 0 && r.max_radius == 0,
            r.clock == (Clock { prev_time: 0i64, total_time: 0i64, total_frames: 0u32 }),
            r.rng.state == 0x9E3779B97F4A7C15u64,
    {
        Simulation::new_seeded(0x9E3779B97F4A7C15)
    }

    /// The average frame rate, in micro-units: the counted frames
    /// over the elapsed time, and exactly sixty whenever no time has
    /// elapsed — on a fresh reset, and also when frames were counted
    /// at repeated timestamps, where the ratio has no finite value.
    pub fn fps(&self) -> (r: i64)
        ensures
            r as int == spec_fps(self.clock),
    {
        if self.clock.total_time == 0 {
            60_000_000
        } else {
            let frames: i64 = (self.clock.total_frames as i64) * 1_000_000;
            fx_div(frames, self.clock.total_time)
        }
    }

    /// Re-initialize: store the count, derive the radius range from
    /// it, replace every particle with a freshly randomized one, and
    /// reset the clock.  A count of zero yields an empty, static
    /// simulation.
    #[verifier::rlimit(100)]
    pub fn reset(&mut self, particle_count: u32)
        ensures
            final (self).wf(),
            final (self).particle_count == particle_count,
            final (self).min_radius as int == spec_min_radius(particle_count),
            final (self).max_radius as int == spec_fx_mul(
                4_000_000,
                spec_min_radius(particle_count),
            ),
            final (self).clock == (Clock {
                prev_time: 0i64,
                total_time: 0i64,
                total_frames: 0u32,
            }),
            final (self).particles@ == spec_gen_particles(
                old(self).rng.state,
                particle_count as int,
                final (self).min_radius,
                final (self).max_radius,
            ).0,
            final (self).rng.state == spec_gen_particles(
                old(self).rng.state,
                particle_count as int,
                final (self).min_radius,
                final (self).max_radius,
            ).1,
            final (self).particles@.len() == particle_count,
            forall|i: int|
                0 <= i < particle_count as int ==> {
                    let p = #[trigger] final (self).particles@[i];
                    final (self).min_radius <= p.radius <= final (self).max_radius
                        && p.mass as int == spec_mass_of(p.radius as int) && p.mass >= 1
                },
    {
        self.particle_count = particle_count;
        let count_fx: i64 = (particle_count as i64) * 1_000_000;
        let root: i64 = fx_sqrt(count_fx);
        self.min_radius = fx_div(600_000, root);
        self.max_radius = fx_mul(4_000_000, self.min_radius);
        proof {
            if particle_count >= 1 {
                lemma_min_radius_bounds(particle_count);
                crate::grid::lemma_tdiv_nonneg(4_000_000 * (self.min_radius as int), 1_000_000);
                assert((4_000_000 * (self.min_radius as int)) / 1_000_000 == 4 * (
                self.min_radius as int)) by (nonlinear_arith)
                    requires
                        1 <= self.min_radius <= 600_000;
            }
        }
        self.particles = generate_particles(
            particle_count,
            self.min_radius,
            self.max_radius,
            &mut self.rng,
        );
        self.clock.reset();
    }

    /// Re-randomize with the count of the previous reset.
    pub fn repeat(&mut self)
        ensures
            final (self).wf(),
            final (self).particle_count == old(self).particle_count,
            final (self).min_radius as int == spec_min_radius(old(self).particle_count),
            final (self).max_radius as int == spec_fx_mul(
                4_000_000,
                spec_min_radius(old(self).particle_count),
            ),
            final (self).clock == (Clock {
                prev_time: 0i64,
                total_time: 0i64,
                total_frames: 0u32,
            }),
            final (self).particles@ == spec_gen_particles(
                old(self).rng.state,
                old(self).particle_count as int,
                final (self).min_radius,
                final (self).max_radius,
            ).0,
            final (self).rng.state == spec_gen_particles(
                old(self).rng.state,
                old(self).particle_count as int,
                final (self).min_radius,
                final (self).max_radius,
            ).1,
    {
        let count = self.particle_count;
        self.reset(count);
    }

    /// One frame: derive the delta from the timestamp, integrate
    /// positions and velocities, rebuild the grid over the clamped
    /// positions, and resolve every particle against the contents of
    /// its neighbour cells, in index order.
    #[verifier::rlimit(100)]
    pub fn advance(&mut self, timestamp: i64)
        requires
            old(self).wf(),
        ensures
            final (self).wf(),
            final (self).particle_count == old(self).particle_count,
            final (self).min_radius == old(self).min_radius,
            final (self).max_radius == old(self).max_radius,
            final (self).rng == old(self).rng,
            final (self).clock == spec_clock_advance(old(self).clock, timestamp).0,
            final (self).particles@ == spec_advance_particles(
                old(self).particles@,
                old(self).max_radius,
                spec_clock_advance(old(self).clock, timestamp).1,
            ),
    {
        let dt = self.clock.advance(timestamp);
        integrate_positions(&mut self.particles, dt);
        integrate_velocities(&mut self.particles, dt);
        proof {
            assert(self.particles@ =~= old(
                self,
            ).particles@.map_values(|p: Particle| spec_integrate_position(p, dt)).map_values(
                |p: Particle| spec_integrate_velocity(p, dt),
            ));
        }
        if self.particles.len() > 0 {
            let gs: i64 = fx_add(self.max_radius, self.max_radius);
            let dim: usize = grid_dim(gs);
            let cells = build_grid(&self.particles, gs, dim);
            let ghost ps2 = self.particles@;
            let ghost bv = bucket_views(cells@);
            let ghost n = self.particles@.len() as int;
            proof {
                lemma_buckets_props(ps2, gs as int, dim as int, n);
            }
            let mut i: usize = 0;
            while i < self.particles.len()
                invariant
                    self.particle_count == old(self).particle_count,
                    self.min_radius == old(self).min_radius,
                    self.max_radius == old(self).max_radius,
                    self.rng == old(self).rng,
                    self.clock == spec_clock_advance(old(self).clock, timestamp).0,
                    gs >= 1,
                    1 <= dim <= 1024,
                    i <= n,
                    n == ps2.len(),
                    self.particles@.len() == n,
                    cells@.len() == spec_cell_count(dim as int),
                    bv == bucket_views(cells@),
                    bv == spec_buckets(ps2, gs as int, dim as int, n),
                    forall|c: int, t: int|
                        0 <= c < bv.len() && 0 <= t < bv[c].len() ==> ((#[trigger] bv[c][t]) as int)
                            < n,
                    forall|k: int|
                        0 <= k < n ==> {
                            let q = #[trigger] self.particles@[k];
                            q.position == ps2[k].position && q.radius == ps2[k].radius
                                && q.mass == ps2[k].mass && q.color == ps2[k].color
                        },
                    all_in_box(ps2),
                    spec_sweep(self.particles@, bv, gs as int, dim as int, i as int, n)
                        == spec_sweep(ps2, bv, gs as int, dim as int, 0, n),
                decreases n - i,
            {
                let p = self.particles[i];
                let cands = candidates_of(&p, &cells, gs, dim);
                proof {
                    lemma_candidates_bound(p, bv, gs as int, dim as int, n);
                }
                let ghost inner0 = self.particles@;
                proof {
                    assert(cands@.skip(0) =~= cands@);
                }
                let mut t: usize = 0;
                while t < cands.len()
                    invariant
                        self.particle_count == old(self).particle_count,
                        self.min_radius == old(self).min_radius,
                        self.max_radius == old(self).max_radius,
                        self.rng == old(self).rng,
                        self.clock == spec_clock_advance(old(self).clock, timestamp).0,
                        t <= cands@.len(),
                        i < n,
                        self.particles@.len() == n,
                        n == ps2.len(),
                        inner0.len() == n,
                        forall|u: int|
                            0 <= u < cands@.len() ==> ((#[trigger] cands@[u]) as int) < n,
                        forall|k: int|
                            0 <= k < n ==> {
                                let q = #[trigger] self.particles@[k];
                                q.position == inner0[k].position && q.radius == inner0[k].radius
                                    && q.mass == inner0[k].mass && q.color == inner0[k].color
                            },
                        spec_collide_seq(self.particles@, i as int, cands@.skip(t as int))
                            == spec_collide_seq(inner0, i as int, cands@),
                    decreases cands@.len() - t,
                {
                    let j = cands[t];
                    let ghost before = self.particles@;
                    collide(&mut self.particles, i, j);
                    proof {
                        lemma_collide_preserves(before, i as int, j as int);
                        assert(cands@.skip(t as int).drop_first() =~= cands@.skip(
                            t as int + 1,
                        ));
                        assert(cands@.skip(t as int)[0] == cands@[t as int]);
                    }
                    t = t + 1;
                }
                proof {
                    assert(cands@.skip(cands@.len() as int) =~= Seq::<usize>::empty());
                    assert(self.particles@ == spec_collide_seq(inner0, i as int, cands@));
                    assert(cands@ == spec_candidates(inner0[i as int], bv, gs as int, dim as int));
                    assert(self.particles@ == spec_sweep_step(inner0, bv, gs as int, dim as int, i as int));
                }
                i = i + 1;
            }
        }
    }
}

/// The particle collection after one whole frame of delta `dt`: the
/// two integration phases, then the collision sweep over the grid of
/// cell edge twice the largest radius.
pub open spec fn spec_advance_particles(ps: Seq<Particle>, max_radius: i64, dt: i64) -> Seq<
    Particle,
> {
    let ps2 = ps.map_values(|p: Particle| spec_integrate_position(p, dt)).map_values(
        |p: Particle| spec_integrate_velocity(p, dt),
    );
    if ps2.len() == 0 {
        ps2
    } else {
        let gs = spec_fx_add(max_radius as int, max_radius as int);
        let dim = spec_grid_dim(gs);
        let cells = spec_buckets(ps2, gs, dim, ps2.len() as int);
        spec_sweep(ps2, cells, gs, dim, 0, ps2.len() as int)
    }
}

} // verus!
