//! The uniform bucket grid of the collision broad-phase.
//!
//! The box is cut into equal cubic cells, each particle is placed in
//! the bucket of the cell holding its centre, and a particle's
//! collision candidates are the contents of its own cell and of the
//! up-to 26 surrounding cells.  The grid is rebuilt from scratch every
//! frame.  The number of cells per axis is capped; beyond the cap the
//! outermost cells merge, which only widens neighbourhoods.

use crate::fixed::{fx_add, fx_div, iabs, spec_fx_add, spec_fx_div, tdiv};
use crate::particle::Particle;
use crate::{BOX_SIZE_FX, HALF_BOX_FX};
use vstd::prelude::*;

verus! {

/// Hard upper bound on the number of cells per axis, so that the cell
/// array stays small on any platform.
pub const GRID_DIM_CAP: i64 = 1024;

/// A non-negative dividend over a positive divisor: truncation agrees
/// with euclidean division and the quotient stays within `[0, a]`.
pub proof fn lemma_tdiv_nonneg(a: int, b: int)
    requires
        0 <= a,
        1 <= b,
    ensures
        tdiv(a, b) == a / b,
        0 <= a / b <= a,
{
    assert(iabs(a) == a && iabs(b) == b);
    assert(0 <= a / b <= a) by (nonlinear_arith)
        requires
            0 <= a,
            1 <= b;
}

/// Cells per axis for a cell edge `gs`: one more than the number of
/// whole cells that fit across the box, capped.
pub open spec fn spec_grid_dim(gs: int) -> int
    recommends
        gs >= 1,
{
    let d = spec_fx_div(BOX_SIZE_FX as int, gs) / 1_000_000 + 1;
    if d > GRID_DIM_CAP as int {
        GRID_DIM_CAP as int
    } else {
        d
    }
}

/// Cells per axis for a cell edge `gs`.
pub fn grid_dim(gs: i64) -> (d: usize)
    requires
        gs >= 1,
    ensures
        d as int == spec_grid_dim(gs as int),
        1 <= d <= 1024,
{
    let q: i64 = fx_div(BOX_SIZE_FX, gs);
    proof {
        lemma_tdiv_nonneg(4_000_000_000_000, gs as int);
    }
    let w: u64 = (q as u64) / 1_000_000;
    let d64: u64 = w + 1;
    let dc: u64 = if d64 > 1024 {
        1024
    } else {
        d64
    };
    dc as usize
}

/// Cell coordinate of a position component: the number of whole cells
/// between the component and the low wall, clamped into `[0, dim)`.
pub open spec fn spec_cell_coord(x: int, gs: int, dim: int) -> int
    recommends
        gs >= 1,
        dim >= 1,
{
    let c = spec_fx_div(x + 2_000_000, gs) / 1_000_000;
    if c < 0 {
        0
    } else if c >= dim {
        dim - 1
    } else {
        c
    }
}

/// Cell coordinate of an in-box position component.
pub fn cell_coord(x: i64, gs: i64, dim: usize) -> (c: usize)
    requires
        gs >= 1,
        1 <= dim <= 1024,
        -2_000_000 <= x <= 2_000_000,
    ensures
        c as int == spec_cell_coord(x as int, gs as int, dim as int),
        c < dim,
{
    let sh: i64 = fx_add(x, HALF_BOX_FX);
    let q: i64 = fx_div(sh, gs);
    proof {
        lemma_tdiv_nonneg((sh as int) * 1_000_000, gs as int);
    }
    let w: u64 = (q as u64) / 1_000_000;
    if w >= dim as u64 {
        dim - 1
    } else {
        w as usize
    }
}

/// The number of cells of the whole grid.
pub open spec fn spec_cell_count(dim: int) -> int {
    dim * dim * dim
}

/// The flat index of the cell `(a, b, c)`.
pub open spec fn spec_flat(a: int, b: int, c: int, dim: int) -> int {
    (a * dim + b) * dim + c
}

/// The flat index lies within the cell count whenever the coordinates
/// lie within the axis.
pub proof fn lemma_flat_range(a: int, b: int, c: int, dim: int)
    requires
        0 <= a < dim,
        0 <= b < dim,
        0 <= c < dim,
    ensures
        0 <= spec_flat(a, b, c, dim) < spec_cell_count(dim),
{
    assert(0 <= (a * dim + b) * dim + c < dim * dim * dim) by (nonlinear_arith)
        requires
            0 <= a < dim,
            0 <= b < dim,
            0 <= c < dim;
}

/// The flat index of a cell, as a machine integer.
pub fn flat_cell(a: usize, b: usize, c: usize, dim: usize) -> (f: usize)
    requires
        a < dim,
        b < dim,
        c < dim,
        dim <= 1024,
    ensures
        f as int == spec_flat(a as int, b as int, c as int, dim as int),
        f < spec_cell_count(dim as int),
{
    proof {
        lemma_flat_range(a as int, b as int, c as int, dim as int);
        assert((a as int) * (dim as int) <= 1023 * 1024 && ((a as int) * (dim as int)
            + b as int) * (dim as int) + (c as int) < 1024 * 1024 * 1024) by (nonlinear_arith)
            requires
                (a as int) < dim as int,
                (b as int) < dim as int,
                (c as int) < dim as int,
                dim as int <= 1024;
        assert(spec_cell_count(dim as int) <= 1024 * 1024 * 1024) by (nonlinear_arith)
            requires
                0 < dim as int <= 1024;
    }
    (a * dim + b) * dim + c
}

/// The flat cell index of a particle's centre.
pub open spec fn spec_cell_of(p: Particle, gs: int, dim: int) -> int {
    spec_flat(
        spec_cell_coord(p.position.x as int, gs, dim),
        spec_cell_coord(p.position.y as int, gs, dim),
        spec_cell_coord(p.position.z as int, gs, dim),
        dim,
    )
}

/// The cell of a particle's centre always lies within the grid.
pub proof fn lemma_cell_of_range(p: Particle, gs: int, dim: int)
    requires
        dim >= 1,
    ensures
        0 <= spec_cell_of(p, gs, dim) < spec_cell_count(dim),
{
    lemma_flat_range(
        spec_cell_coord(p.position.x as int, gs, dim),
        spec_cell_coord(p.position.y as int, gs, dim),
        spec_cell_coord(p.position.z as int, gs, dim),
        dim,
    );
}

/// The view of each bucket of a cell array.
pub open spec fn bucket_views(cells: Seq<Vec<usize>>) -> Seq<Seq<usize>> {
    Seq::new(cells.len(), |i: int| cells[i]@)
}

/// The buckets after the first `k` particles have been placed, each in
/// the single cell holding its centre, in index order.
pub open spec fn spec_buckets(ps: Seq<Particle>, gs: int, dim: int, k: int) -> Seq<Seq<usize>>
    decreases k,
{
    if k <= 0 {
        Seq::new(spec_cell_count(dim) as nat, |c: int| Seq::<usize>::empty())
    } else {
        let g = spec_buckets(ps, gs, dim, k - 1);
        let c = spec_cell_of(ps[k - 1], gs, dim);
        g.update(c, g[c].push((k - 1) as usize))
    }
}

/// A partial grid spans every cell, and its buckets hold only indices
/// of particles already placed.
pub proof fn lemma_buckets_props(ps: Seq<Particle>, gs: int, dim: int, k: int)
    requires
        dim >= 1,
    ensures
        spec_buckets(ps, gs, dim, k).len() == spec_cell_count(dim),
        forall|c: int, t: int|
            0 <= c < spec_cell_count(dim) && 0 <= t < spec_buckets(ps, gs, dim, k)[c].len()
                ==> ((#[trigger] spec_buckets(ps, gs, dim, k)[c][t]) as int) < k,
    decreases k,
{
    lemma_cell_of_range(ps[k - 1], gs, dim);
    if k <= 0 {
        assert(spec_cell_count(dim) >= 1) by (nonlinear_arith)
            requires
                dim >= 1;
    } else {
        lemma_buckets_props(ps, gs, dim, k - 1);
    }
}

/// Build the grid of one frame: every particle in-box, one bucket
/// entry per particle.
pub fn build_grid(ps: &Vec<Particle>, gs: i64, dim: usize) -> (cells: Vec<Vec<usize>>)
    requires
        gs >= 1,
        1 <= dim <= 1024,
        forall|i: int|
            0 <= i < ps@.len() ==> {
                let p = #[trigger] ps@[i];
                -2_000_000 <= p.position.x <= 2_000_000 && -2_000_000 <= p.position.y
                    <= 2_000_000 && -2_000_000 <= p.position.z <= 2_000_000
            },
    ensures
        bucket_views(cells@) == spec_buckets(ps@, gs as int, dim as int, ps@.len() as int),
        cells@.len() == spec_cell_count(dim as int),
{
    proof {
        assert(spec_cell_count(dim as int) <= 1024 * 1024 * 1024) by (nonlinear_arith)
            requires
                0 < dim as int <= 1024;
    }
    let n_cells: usize = flat_cell(dim - 1, dim - 1, dim - 1, dim) + 1;
    proof {
        assert(((dim - 1) * dim + (dim - 1)) * dim + (dim - 1) + 1 == dim * dim * dim)
            by (nonlinear_arith)
            requires
                dim >= 1;
    }
    let mut cells: Vec<Vec<usize>> = Vec::new();
    while cells.len() < n_cells
        invariant
            cells@.len() <= n_cells,
            n_cells as int == spec_cell_count(dim as int),
            forall|c: int| 0 <= c < cells@.len() ==> (#[trigger] cells@[c])@ == Seq::<
                usize,
            >::empty(),
        decreases n_cells - cells@.len(),
    {
        cells.push(Vec::new());
    }
    proof {
        assert(bucket_views(cells@) =~= spec_buckets(ps@, gs as int, dim as int, 0));
    }
    let mut i: usize = 0;
    while i < ps.len()
        invariant
            gs >= 1,
            1 <= dim <= 1024,
            i <= ps@.len(),
            cells@.len() == spec_cell_count(dim as int),
            bucket_views(cells@) == spec_buckets(ps@, gs as int, dim as int, i as int),
            forall|k: int|
                0 <= k < ps@.len() ==> {
                    let p = #[trigger] ps@[k];
                    -2_000_000 <= p.position.x <= 2_000_000 && -2_000_000 <= p.position.y
                        <= 2_000_000 && -2_000_000 <= p.position.z <= 2_000_000
                },
        decreases ps@.len() - i,
    {
        let p = ps[i];
        let ca = cell_coord(p.position.x, gs, dim);
        let cb = cell_coord(p.position.y, gs, dim);
        let cc = cell_coord(p.position.z, gs, dim);
        let f = flat_cell(ca, cb, cc, dim);
        let ghost before = cells@;
        cells[f].push(i);
        proof {
            assert(bucket_views(cells@) =~= spec_buckets(
                ps@,
                gs as int,
                dim as int,
                i as int + 1,
            ));
        }
        i = i + 1;
    }
    cells
}

/// The flat indices of the up-to-27 neighbour cells of `(ci, cj, ck)`
/// from offset number `t` on: offsets ascend one axis at a time, and a
/// neighbour outside the grid is skipped.
pub open spec fn spec_neighbor_cells(ci: int, cj: int, ck: int, dim: int, t: int) -> Seq<int>
    decreases 27 - t,
{
    if t < 0 || t >= 27 {
        Seq::empty()
    } else {
        let gi = ci + t / 9 - 1;
        let gj = cj + (t / 3) % 3 - 1;
        let gk = ck + t % 3 - 1;
        let rest = spec_neighbor_cells(ci, cj, ck, dim, t + 1);
        if 0 <= gi < dim && 0 <= gj < dim && 0 <= gk < dim {
            seq![spec_flat(gi, gj, gk, dim)] + rest
        } else {
            rest
        }
    }
}

/// Concatenation of the buckets of the listed cells.
pub open spec fn spec_concat_buckets(cells: Seq<Seq<usize>>, cl: Seq<int>) -> Seq<usize>
    decreases cl.len(),
{
    if cl.len() == 0 {
        Seq::empty()
    } else {
        cells[cl[0]] + spec_concat_buckets(cells, cl.drop_first())
    }
}

/// The collision candidates of a particle: the contents of the
/// neighbour cells of its own cell, in cell order then bucket order.
pub open spec fn spec_candidates(p: Particle, cells: Seq<Seq<usize>>, gs: int, dim: int) -> Seq<
    usize,
> {
    spec_concat_buckets(
        cells,
        spec_neighbor_cells(
            spec_cell_coord(p.position.x as int, gs, dim),
            spec_cell_coord(p.position.y as int, gs, dim),
            spec_cell_coord(p.position.z as int, gs, dim),
            dim,
            0,
        ),
    )
}

/// Collect the collision candidates of an in-box particle.
pub fn candidates_of(p: &Particle, cells: &Vec<Vec<usize>>, gs: i64, dim: usize) -> (cs: Vec<
    usize,
>)
    requires
        gs >= 1,
        1 <= dim <= 1024,
        cells@.len() == spec_cell_count(dim as int),
        -2_000_000 <= p.position.x <= 2_000_000,
        -2_000_000 <= p.position.y <= 2_000_000,
        -2_000_000 <= p.position.z <= 2_000_000,
    ensures
        cs@ == spec_candidates(*p, bucket_views(cells@), gs as int, dim as int),
{
    let ci = cell_coord(p.position.x, gs, dim);
    let cj = cell_coord(p.position.y, gs, dim);
    let ck = cell_coord(p.position.z, gs, dim);
    let ghost bv = bucket_views(cells@);
    let mut cs: Vec<usize> = Vec::new();
    let mut t: usize = 0;
    while t < 27
        invariant
            gs >= 1,
            1 <= dim <= 1024,
            t <= 27,
            ci < dim && cj < dim && ck < dim,
            ci as int == spec_cell_coord(p.position.x as int, gs as int, dim as int),
            cj as int == spec_cell_coord(p.position.y as int, gs as int, dim as int),
            ck as int == spec_cell_coord(p.position.z as int, gs as int, dim as int),
            cells@.len() == spec_cell_count(dim as int),
            bv == bucket_views(cells@),
            cs@ + spec_neighbor_candidates_from(ci as int, cj as int, ck as int, bv, dim as int, t as int)
                == spec_neighbor_candidates_from(ci as int, cj as int, ck as int, bv, dim as int, 0),
        decreases 27 - t,
    {
        let off_i: i64 = (t / 9) as i64 - 1;
        let off_j: i64 = ((t / 3) % 3) as i64 - 1;
        let off_k: i64 = (t % 3) as i64 - 1;
        let gi: i64 = ci as i64 + off_i;
        let gj: i64 = cj as i64 + off_j;
        let gk: i64 = ck as i64 + off_k;
        if 0 <= gi && gi < dim as i64 && 0 <= gj && gj < dim as i64 && 0 <= gk && gk
            < dim as i64 {
            let f = flat_cell(gi as usize, gj as usize, gk as usize, dim);
            let bucket = &cells[f];
            let ghost base = cs@;
            let mut u: usize = 0;
            while u < bucket.len()
                invariant
                    u <= bucket@.len(),
                    f < cells@.len(),
                    bucket@ == cells@[f as int]@,
                    cs@ == base + bucket@.take(u as int),
                decreases bucket@.len() - u,
            {
                let x = bucket[u];
                cs.push(x);
                proof {
                    assert(cs@ =~= base + bucket@.take(u as int + 1));
                }
                u = u + 1;
            }
            proof {
                assert(bucket@.take(bucket@.len() as int) =~= bucket@);
                assert(cs@ =~= base + bv[f as int]);
                lemma_concat_step(
                    ci as int, cj as int, ck as int, bv, dim as int, t as int,
                );
                assert(cs@ + spec_neighbor_candidates_from(
                    ci as int, cj as int, ck as int, bv, dim as int, t as int + 1,
                ) =~= base + spec_neighbor_candidates_from(
                    ci as int, cj as int, ck as int, bv, dim as int, t as int,
                ));
            }
        } else {
            proof {
                lemma_concat_step(
                    ci as int, cj as int, ck as int, bv, dim as int, t as int,
                );
            }
        }
        t = t + 1;
    }
    proof {
        assert(cs@ =~= cs@ + spec_neighbor_candidates_from(
            ci as int, cj as int, ck as int, bv, dim as int, 27,
        ));
    }
    cs
}

/// The candidates contributed by the neighbour cells from offset `t`
/// on.
pub open spec fn spec_neighbor_candidates_from(
    ci: int,
    cj: int,
    ck: int,
    cells: Seq<Seq<usize>>,
    dim: int,
    t: int,
) -> Seq<usize> {
    spec_concat_buckets(cells, spec_neighbor_cells(ci, cj, ck, dim, t))
}

/// Peeling one offset off the neighbour walk: either the cell is in
/// range and its bucket is prepended, or nothing is.
pub proof fn lemma_concat_step(
    ci: int,
    cj: int,
    ck: int,
    cells: Seq<Seq<usize>>,
    dim: int,
    t: int,
)
    requires
        0 <= t < 27,
        0 <= ci < dim,
        0 <= cj < dim,
        0 <= ck < dim,
        cells.len() == spec_cell_count(dim),
    ensures
        ({
            let gi = ci + t / 9 - 1;
            let gj = cj + (t / 3) % 3 - 1;
            let gk = ck + t % 3 - 1;
            if 0 <= gi < dim && 0 <= gj < dim && 0 <= gk < dim {
                spec_neighbor_candidates_from(ci, cj, ck, cells, dim, t) == cells[spec_flat(
                    gi, gj, gk, dim,
                )] + spec_neighbor_candidates_from(ci, cj, ck, cells, dim, t + 1)
            } else {
                spec_neighbor_candidates_from(ci, cj, ck, cells, dim, t)
                    == spec_neighbor_candidates_from(ci, cj, ck, cells, dim, t + 1)
            }
        }),
{
    let gi = ci + t / 9 - 1;
    let gj = cj + (t / 3) % 3 - 1;
    let gk = ck + t % 3 - 1;
    let rest = spec_neighbor_cells(ci, cj, ck, dim, t + 1);
    if 0 <= gi < dim && 0 <= gj < dim && 0 <= gk < dim {
        let f = spec_flat(gi, gj, gk, dim);
        lemma_flat_range(gi, gj, gk, dim);
        assert(spec_neighbor_cells(ci, cj, ck, dim, t) == seq![f] + rest);
        assert((seq![f] + rest).drop_first() =~= rest);
        assert((seq![f] + rest)[0] == f);
        assert(spec_concat_buckets(cells, seq![f] + rest) == cells[f]
            + spec_concat_buckets(cells, rest));
    } else {
        assert(spec_neighbor_cells(ci, cj, ck, dim, t) == rest);
    }
}

} // verus!
