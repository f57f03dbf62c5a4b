//! A dense grid of square cells over a square simulation area; the cell of a
//! point is found by integer division, and cells are numbered row by row.
pub mod cell;
pub mod spatial_grid;

use vstd::prelude::*;
use cell::{Cell, others, not_of};

verus! {

/// `a / b` rounded toward zero, as Rust's integer division computes it.
pub open spec fn trunc_div(a: int, b: int) -> int {
    if a >= 0 {
        if b > 0 {
            a / b
        } else {
            -(a / -b)
        }
    } else {
        if b > 0 {
            -((-a) / b)
        } else {
            (-a) / (-b)
        }
    }
}

/// Rust's `a / b` on `i32`, which panics when `b` is 0 or the quotient
/// overflows.
fn div_toward_zero(a: i32, b: i32) -> (r: i32)
    requires
        b != 0,
        !(a == i32::MIN && b == -1),
    ensures
        r == trunc_div(a as int, b as int),
{
    let ua: u64 = if a < 0 { (-(a as i64)) as u64 } else { a as u64 };
    let ub: u64 = if b < 0 { (-(b as i64)) as u64 } else { b as u64 };
    let q: u64 = ua / ub;
    proof {
        vstd::arithmetic::div_mod::lemma_div_is_ordered_by_denominator(ua as int, 1, ub as int);
        if ub == 1 {
            assert(q == ua);
        } else {
            vstd::arithmetic::div_mod::lemma_div_is_ordered_by_denominator(ua as int, 2, ub as int);
        }
    }
    if (a < 0) != (b < 0) {
        (-(q as i64)) as i32
    } else {
        q as i32
    }
}

/// Index of the cell in row `row` and column `col` of a grid `n` cells wide.
pub open spec fn row_major(row: int, col: int, n: int) -> int {
    row * n + col
}

/// Indices, as `usize`, of the cells in rows `r0 .. r0 + nr` and columns
/// `c0 .. c0 + nc` of a grid `n` cells wide, row by row, each row from its
/// lowest column up.
pub open spec fn rows_indices(r0: int, nr: nat, c0: int, nc: nat, n: int) -> Seq<usize>
    decreases nr,
{
    if nr == 0 {
        Seq::empty()
    } else {
        rows_indices(r0, (nr - 1) as nat, c0, nc, n) + Seq::new(
            nc,
            |j: int| row_major(r0 + nr - 1, c0 + j, n) as usize,
        )
    }
}

/// Number of values in `lo..=hi`.
pub open spec fn count(lo: i32, hi: i32) -> nat {
    if lo <= hi {
        (hi - lo + 1) as nat
    } else {
        0
    }
}

/// The entries of the cells at `inds`, in that order, other than those of
/// entity `ignore`.
pub open spec fn collect_others<P>(cells: Seq<Seq<(P, u64)>>, inds: Seq<usize>, ignore: u64) -> Seq<(P, u64)>
    decreases inds.len(),
{
    if inds.len() == 0 {
        Seq::empty()
    } else {
        collect_others(cells, inds.drop_last(), ignore) + others(cells[inds.last() as int], ignore)
    }
}

/// A dense grid of `ncells_side` by `ncells_side` cells, each `cell_size`
/// units wide, over a simulation area `sim_size` units wide. Each entry pairs
/// a position with the id of the entity at it.
pub struct DenseGrid<P> {
    pub cell_size: i32,
    pub sim_size: i32,
    pub ncells_side: i32,
    pub cells: Vec<Cell<(P, u64)>>,
}

impl<P> DenseGrid<P> {
    /// The entries of each cell, by cell index.
    pub open spec fn cells_view(&self) -> Seq<Seq<(P, u64)>> {
        self.cells@.map_values(|c: Cell<(P, u64)>| c@)
    }

    /// The grid has one cell per row and column: `ncells_side` squared.
    pub open spec fn wf(&self) -> bool {
        self.cells@.len() == self.ncells_side * self.ncells_side
    }

    /// A grid of empty cells: `sim_size / cell_size` (rounded toward zero)
    /// cells along a side.
    pub fn new(cell_size: i32, sim_size: i32) -> (g: Self)
        requires
            cell_size != 0,
            !(sim_size == i32::MIN && cell_size == -1),
            trunc_div(sim_size as int, cell_size as int) * trunc_div(sim_size as int, cell_size as int)
                <= i32::MAX,
        ensures
            g.cell_size == cell_size,
            g.sim_size == sim_size,
            g.ncells_side == trunc_div(sim_size as int, cell_size as int),
            g.wf(),
            g.cells_view() =~= Seq::new(
                (g.ncells_side * g.ncells_side) as nat,
                |i: int| Seq::<(P, u64)>::empty(),
            ),
    {
        let ncells_side = div_toward_zero(sim_size, cell_size);
        proof {
            vstd::arithmetic::mul::lemma_mul_nonnegative(
                if ncells_side >= 0 { ncells_side as int } else { -ncells_side },
                if ncells_side >= 0 { ncells_side as int } else { -ncells_side },
            );
            assert(ncells_side * ncells_side >= 0) by (nonlinear_arith);
        }
        let total = ncells_side * ncells_side;
        let mut cells: Vec<Cell<(P, u64)>> = Vec::new();
        let mut i: i32 = 0;
        while i < total
            invariant
                0 <= i <= total,
                cells@.len() == i,
                forall|k: int| 0 <= k < i ==> (#[trigger] cells@[k])@ == Seq::<(P, u64)>::empty(),
            decreases total - i,
        {
            cells.push(Cell::default());
            i = i + 1;
        }
        let g = DenseGrid { cell_size, sim_size, cells, ncells_side };
        assert(g.cells_view() =~= Seq::new(total as nat, |i: int| Seq::<(P, u64)>::empty()));
        g
    }

    /// The cell index of the point (`x`, `y`): its row `y / cell_size` times
    /// the number of cells per side, plus its column `x / cell_size`, both
    /// quotients rounded toward zero.
    pub open spec fn flat_index(&self, x: i32, y: i32) -> int {
        row_major(
            trunc_div(y as int, self.cell_size as int),
            trunc_div(x as int, self.cell_size as int),
            self.ncells_side as int,
        )
    }

    /// The computation of `flat_ind` does not overflow.
    pub open spec fn flat_ind_defined(&self, x: i32, y: i32) -> bool {
        &&& self.cell_size != 0
        &&& !(y == i32::MIN && self.cell_size == -1)
        &&& !(x == i32::MIN && self.cell_size == -1)
        &&& i32::MIN <= trunc_div(y as int, self.cell_size as int) * self.ncells_side <= i32::MAX
        &&& i32::MIN <= self.flat_index(x, y) <= i32::MAX
    }

    /// The cell index of the point (`x`, `y`).
    pub fn flat_ind(&self, x: i32, y: i32) -> (i: i32)
        requires
            self.flat_ind_defined(x, y),
        ensures
            i == self.flat_index(x, y),
    {
        let r = div_toward_zero(y, self.cell_size);
        let c = div_toward_zero(x, self.cell_size);
        r * self.ncells_side + c
    }

    /// Adds the entity `entity` at `pos` to the cell of the point (`x`, `y`).
    pub fn insert(&mut self, x: i32, y: i32, pos: P, entity: u64)
        requires
            old(self).flat_ind_defined(x, y),
            0 <= old(self).flat_index(x, y) < old(self).cells@.len(),
        ensures
            final(self).cell_size == old(self).cell_size,
            final(self).sim_size == old(self).sim_size,
            final(self).ncells_side == old(self).ncells_side,
            final(self).cells@.len() == old(self).cells@.len(),
            old(self).wf() ==> final(self).wf(),
            final(self).cells_view() == old(self).cells_view().update(
                old(self).flat_index(x, y),
                old(self).cells_view()[old(self).flat_index(x, y)].push((pos, entity)),
            ),
    {
        let ind = self.flat_ind(x, y);
        self.cells[ind as usize].insert((pos, entity));
        assert(self.cells_view() =~= old(self).cells_view().update(
            ind as int,
            old(self).cells_view()[ind as int].push((pos, entity)),
        ));
    }

    /// Empties every cell.
    pub fn clear(&mut self)
        ensures
            final(self).cell_size == old(self).cell_size,
            final(self).sim_size == old(self).sim_size,
            final(self).ncells_side == old(self).ncells_side,
            final(self).cells@.len() == old(self).cells@.len(),
            old(self).wf() ==> final(self).wf(),
            final(self).cells_view() =~= Seq::new(
                old(self).cells@.len(),
                |i: int| Seq::<(P, u64)>::empty(),
            ),
    {
        let n = self.cells.len();
        let mut i: usize = 0;
        while i < n
            invariant
                i <= n,
                n == self.cells@.len(),
                self.cells@.len() == old(self).cells@.len(),
                self.cell_size == old(self).cell_size,
                self.sim_size == old(self).sim_size,
                self.ncells_side == old(self).ncells_side,
                forall|k: int| 0 <= k < i ==> (#[trigger] self.cells@[k])@ == Seq::<(P, u64)>::empty(),
            decreases n - i,
        {
            self.cells[i].clear();
            i = i + 1;
        }
    }

    /// No cell index of the block of rows `rmin..=rmax` and columns
    /// `cmin..=cmax` overflows `i32`.
    pub open spec fn block_defined(&self, rmin: i32, rmax: i32, cmin: i32, cmax: i32) -> bool {
        forall|r: int, c: int|
            rmin <= r <= rmax && cmin <= c <= cmax ==> {
                &&& i32::MIN <= r * self.ncells_side <= i32::MAX
                &&& i32::MIN <= #[trigger] row_major(r, c, self.ncells_side as int) <= i32::MAX
            }
    }

    /// Indices of the cells in rows `rmin..=rmax` and columns `cmin..=cmax`,
    /// row by row, each row from its lowest column up.
    pub fn cell_range(&self, rmin: i32, rmax: i32, cmin: i32, cmax: i32) -> (r: Vec<usize>)
        requires
            self.block_defined(rmin, rmax, cmin, cmax),
        ensures
            r@ == rows_indices(
                rmin as int,
                count(rmin, rmax),
                cmin as int,
                count(cmin, cmax),
                self.ncells_side as int,
            ),
    {
        let shift = self.ncells_side;
        let nr: u64 = if rmin <= rmax { (rmax as i64 - rmin as i64) as u64 + 1 } else { 0 };
        let nc: u64 = if cmin <= cmax { (cmax as i64 - cmin as i64) as u64 + 1 } else { 0 };
        let mut out: Vec<usize> = Vec::new();
        let mut i: u64 = 0;
        while i < nr
            invariant
                nr == count(rmin, rmax),
                nc == count(cmin, cmax),
                i <= nr,
                shift == self.ncells_side,
                self.block_defined(rmin, rmax, cmin, cmax),
                out@ == rows_indices(rmin as int, i as nat, cmin as int, nc as nat, shift as int),
            decreases nr - i,
        {
            let r = (rmin as i64 + i as i64) as i32;
            let ghost row = Seq::new(nc as nat, |j: int| row_major(r as int, cmin + j, shift as int) as usize);
            let mut j: u64 = 0;
            while j < nc
                invariant
                    nr == count(rmin, rmax),
                    nc == count(cmin, cmax),
                    i < nr,
                    j <= nc,
                    r == rmin + i,
                    shift == self.ncells_side,
                    self.block_defined(rmin, rmax, cmin, cmax),
                    row == Seq::new(nc as nat, |j: int| row_major(r as int, cmin + j, shift as int) as usize),
                    out@ == rows_indices(rmin as int, i as nat, cmin as int, nc as nat, shift as int)
                        + row.take(j as int),
                decreases nc - j,
            {
                let c = (cmin as i64 + j as i64) as i32;
                assert(i32::MIN <= row_major(r as int, c as int, shift as int) <= i32::MAX);
                out.push(#[verifier::truncate] ((r * shift + c) as usize));
                assert(row.take(j + 1) =~= row.take(j as int).push(row[j as int]));
                j = j + 1;
            }
            assert(row.take(nc as int) =~= row);
            assert(rows_indices(rmin as int, (i + 1) as nat, cmin as int, nc as nat, shift as int)
                == rows_indices(rmin as int, i as nat, cmin as int, nc as nat, shift as int) + row);
            i = i + 1;
        }
        out
    }
}

impl<P: Copy> DenseGrid<P> {
    /// The entries of the cells in rows `rmin..=rmax` and columns
    /// `cmin..=cmax`, in the order of `cell_range`, other than those of
    /// entity `ignore`.
    pub fn query(&self, rmin: i32, rmax: i32, cmin: i32, cmax: i32, ignore: u64) -> (hits: Vec<(P, u64)>)
        requires
            self.block_defined(rmin, rmax, cmin, cmax),
            forall|k: int|
                0 <= k < rows_indices(
                    rmin as int,
                    count(rmin, rmax),
                    cmin as int,
                    count(cmin, cmax),
                    self.ncells_side as int,
                ).len() ==> (#[trigger] rows_indices(
                    rmin as int,
                    count(rmin, rmax),
                    cmin as int,
                    count(cmin, cmax),
                    self.ncells_side as int,
                )[k] as int) < self.cells@.len(),
        ensures
            hits@ == collect_others(
                self.cells_view(),
                rows_indices(
                    rmin as int,
                    count(rmin, rmax),
                    cmin as int,
                    count(cmin, cmax),
                    self.ncells_side as int,
                ),
                ignore,
            ),
    {
        let inds = self.cell_range(rmin, rmax, cmin, cmax);
        let mut hits: Vec<(P, u64)> = Vec::new();
        let mut k: usize = 0;
        while k < inds.len()
            invariant
                k <= inds@.len(),
                forall|k: int| 0 <= k < inds@.len() ==> (#[trigger] inds@[k] as int) < self.cells@.len(),
                hits@ == collect_others(self.cells_view(), inds@.take(k as int), ignore),
            decreases inds@.len() - k,
        {
            let ind = inds[k];
            assert(inds@.take(k + 1).drop_last() =~= inds@.take(k as int));
            let ents = self.cells[ind].unlock_unsafe();
            let ghost before = hits@;
            let mut j: usize = 0;
            while j < ents.len()
                invariant
                    j <= ents@.len(),
                    hits@ == before + others(ents@.take(j as int), ignore),
                decreases ents@.len() - j,
            {
                let e = ents[j];
                assert(ents@.take(j + 1) =~= ents@.take(j as int).push(e));
                proof {
                    ents@.take(j as int).lemma_filter_push(e, not_of::<P>(ignore));
                }
                if e.1 != ignore {
                    hits.push(e);
                }
                j = j + 1;
            }
            assert(ents@.take(ents@.len() as int) =~= ents@);
            k = k + 1;
        }
        assert(inds@.take(inds@.len() as int) =~= inds@);
        hits
    }
}

/// Every point of a grid's area lies in one of its cells: with a positive
/// cell size, a point whose coordinates lie in `0 .. ncells_side * cell_size`
/// has a cell index within the cells, and computing it does not overflow.
pub proof fn lemma_point_in_area<P>(g: &DenseGrid<P>, x: i32, y: i32)
    requires
        g.cell_size > 0,
        g.ncells_side > 0,
        g.ncells_side * g.ncells_side <= i32::MAX,
        g.wf(),
        0 <= x < g.ncells_side * g.cell_size,
        0 <= y < g.ncells_side * g.cell_size,
    ensures
        g.flat_ind_defined(x, y),
        0 <= g.flat_index(x, y) < g.cells@.len(),
        g.flat_index(x, y) == (y / g.cell_size) * g.ncells_side + x / g.cell_size,
{
    let n = g.ncells_side as int;
    let cs = g.cell_size as int;
    let yi = y as int;
    let xi = x as int;
    let r = yi / cs;
    let c = xi / cs;
    assert(0 <= r < n) by (nonlinear_arith)
        requires
            0 <= yi < n * cs,
            cs > 0,
            r == yi / cs,
    ;
    assert(0 <= c < n) by (nonlinear_arith)
        requires
            0 <= xi < n * cs,
            cs > 0,
            c == xi / cs,
    ;
    assert(0 <= r * n + c < n * n) by (nonlinear_arith)
        requires
            0 <= r < n,
            0 <= c < n,
    ;
    assert(0 <= r * n <= r * n + c) by (nonlinear_arith)
        requires
            0 <= r < n,
            0 <= c < n,
    ;
}

proof fn lemma_rows_contains(r0: int, nr: nat, c0: int, nc: nat, n: int, i: nat, j: nat)
    requires
        i < nr,
        j < nc,
    ensures
        rows_indices(r0, nr, c0, nc, n).contains(row_major(r0 + i, c0 + j, n) as usize),
    decreases nr,
{
    let b = rows_indices(r0, nr, c0, nc, n);
    let prev = rows_indices(r0, (nr - 1) as nat, c0, nc, n);
    if i + 1 == nr {
        assert(b[prev.len() + j as int] == row_major(r0 + i, c0 + j, n) as usize);
    } else {
        lemma_rows_contains(r0, (nr - 1) as nat, c0, nc, n, i, j);
        let k = choose|k: int| 0 <= k < prev.len() && prev[k] == row_major(r0 + i, c0 + j, n) as usize;
        assert(b[k] == prev[k]);
    }
}

/// The cells of the block of rows `r0 .. r0 + nr` and columns `c0 .. c0 + nc`
/// are listed each once, row by row: there are `nr * nc` of them, and the
/// `k`-th is the cell in row `r0 + k / nc` and column `c0 + k % nc`.
pub proof fn lemma_rows_indices_shape(r0: int, nr: nat, c0: int, nc: nat, n: int)
    ensures
        rows_indices(r0, nr, c0, nc, n).len() == nr * nc,
        forall|k: int|
            0 <= k < nr * nc ==> #[trigger] rows_indices(r0, nr, c0, nc, n)[k]
                == row_major(r0 + k / (nc as int), c0 + k % (nc as int), n) as usize,
    decreases nr,
{
    if nr > 0 {
        let b = rows_indices(r0, nr, c0, nc, n);
        let prev = rows_indices(r0, (nr - 1) as nat, c0, nc, n);
        lemma_rows_indices_shape(r0, (nr - 1) as nat, c0, nc, n);
        let q = (nr - 1) as int;
        let pn: nat = (nr - 1) as nat;
        assert(pn * nc == q * nc);
        assert(prev.len() == q * nc);
        assert(b.len() == prev.len() + nc);
        assert(nr * nc == q * nc + nc) by (nonlinear_arith)
            requires
                q == nr - 1,
        ;
        assert(b.len() == nr * nc);
        assert forall|k: int| 0 <= k < nr * nc implies #[trigger] b[k]
            == row_major(r0 + k / (nc as int), c0 + k % (nc as int), n) as usize by {
            if k < q * nc {
                assert(b[k] == prev[k]);
                assert(prev[k] == row_major(r0 + k / (nc as int), c0 + k % (nc as int), n) as usize);
            } else {
                let j = k - q * nc;
                vstd::arithmetic::div_mod::lemma_fundamental_div_mod_converse(k, nc as int, q, j);
                assert(b[k] == row_major(r0 + nr - 1, c0 + j, n) as usize);
            }
        }
    } else {
        assert(nr * nc == 0) by (nonlinear_arith)
            requires
                nr == 0,
        ;
    }
}

proof fn lemma_collect_contains<P>(cells: Seq<Seq<(P, u64)>>, inds: Seq<usize>, ignore: u64, k: int, e: (P, u64))
    requires
        0 <= k < inds.len(),
        cells[inds[k] as int].contains(e),
        e.1 != ignore,
    ensures
        collect_others(cells, inds, ignore).contains(e),
    decreases inds.len(),
{
    let g = collect_others(cells, inds, ignore);
    let prev = collect_others(cells, inds.drop_last(), ignore);
    if k == inds.len() - 1 {
        let c = cells[inds[k] as int];
        broadcast use vstd::seq_lib::group_filter_ensures;
        assert(others(c, ignore).contains(e));
        let m2 = choose|m2: int| 0 <= m2 < others(c, ignore).len() && others(c, ignore)[m2] == e;
        assert(g[prev.len() + m2] == e);
    } else {
        lemma_collect_contains(cells, inds.drop_last(), ignore, k, e);
        let m = choose|m: int| 0 <= m < prev.len() && prev[m] == e;
        assert(g[m] == e);
    }
}

/// What is inserted at a point is found again by any query whose rows and
/// columns hold that point's cell, unless the query ignores its entity.
pub proof fn lemma_insert_then_query<P>(
    g: &DenseGrid<P>,
    x: i32,
    y: i32,
    pos: P,
    entity: u64,
    rmin: i32,
    rmax: i32,
    cmin: i32,
    cmax: i32,
    ignore: u64,
)
    requires
        g.flat_ind_defined(x, y),
        0 <= g.flat_index(x, y) < g.cells@.len(),
        rmin <= trunc_div(y as int, g.cell_size as int) <= rmax,
        cmin <= trunc_div(x as int, g.cell_size as int) <= cmax,
        entity != ignore,
    ensures
        ({
            let i = g.flat_index(x, y);
            collect_others(
                g.cells_view().update(i, g.cells_view()[i].push((pos, entity))),
                rows_indices(
                    rmin as int,
                    count(rmin, rmax),
                    cmin as int,
                    count(cmin, cmax),
                    g.ncells_side as int,
                ),
                ignore,
            ).contains((pos, entity))
        }),
{
    let i = g.flat_index(x, y);
    let cells = g.cells_view().update(i, g.cells_view()[i].push((pos, entity)));
    let r = trunc_div(y as int, g.cell_size as int);
    let c = trunc_div(x as int, g.cell_size as int);
    let n = g.ncells_side as int;
    lemma_rows_contains(rmin as int, count(rmin, rmax), cmin as int, count(cmin, cmax), n, (r - rmin) as nat, (c - cmin) as nat);
    let inds = rows_indices(rmin as int, count(rmin, rmax), cmin as int, count(cmin, cmax), n);
    let k = choose|k: int| 0 <= k < inds.len() && inds[k] == row_major(r, c, n) as usize;
    assert(inds[k] as int == i);
    assert(cells[i][cells[i].len() - 1] == (pos, entity));
    lemma_collect_contains(cells, inds, ignore, k, (pos, entity));
}

} // verus!
