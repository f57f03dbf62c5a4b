//! A dense grid over a square of power-of-two side, split into square cells
//! of power-of-two side. Cell coordinates are found by shifting, and a cell's
//! index packs its row above its column.
use vstd::prelude::*;
use vstd::arithmetic::power2::{pow2, lemma_pow2_pos, lemma_pow2_strictly_increases, lemma2_to64};
use vstd::bits::lemma_u32_shr_is_div;
use vstd::std_specs::bits::{u32_leading_zeros, axiom_u32_leading_zeros};

verus! {

/// `x` is a power of two.
pub open spec fn is_power_of_two(x: nat) -> bool {
    exists|e: nat| #[trigger] pow2(e) == x
}

/// The exponent of the largest power of two that is at most `x`.
pub open spec fn is_floor_log2(x: nat, e: nat) -> bool {
    pow2(e) <= x < pow2(e + 1)
}

proof fn lemma_floor_log2_unique(x: nat, e1: nat, e2: nat)
    requires
        is_floor_log2(x, e1),
        is_floor_log2(x, e2),
    ensures
        e1 == e2,
{
    if e1 < e2 {
        if e1 + 1 < e2 {
            lemma_pow2_strictly_increases(e1 + 1, e2);
        }
    } else if e2 < e1 {
        if e2 + 1 < e1 {
            lemma_pow2_strictly_increases(e2 + 1, e1);
        }
    }
}

proof fn lemma_pow2_floor_log2(e: nat)
    ensures
        is_floor_log2(pow2(e), e),
{
    lemma_pow2_strictly_increases(e, e + 1);
}

/// Base-2 logarithm of `x`, rounded down.
fn log_2(x: u32) -> (r: u32)
    requires
        x > 0,
    ensures
        r < 32,
        is_floor_log2(x as nat, r as nat),
{
    proof {
        axiom_u32_leading_zeros(x);
    }
    let lz = x.leading_zeros();
    let r = 32 - lz - 1;
    proof {
        assert(lz < 32);
        assert((x >> r) & 1u32 != 0u32);
        assert(((x >> r) & 1u32 != 0u32) ==> (x >> r) >= 1u32) by (bit_vector);
        lemma_u32_shr_is_div(x, r);
        lemma_pow2_pos(r as nat);
        assert(x as nat / pow2(r as nat) >= 1);
        assert(x as nat >= pow2(r as nat)) by {
            if (x as nat) < pow2(r as nat) {
                vstd::arithmetic::div_mod::lemma_basic_div(x as int, pow2(r as nat) as int);
            }
        }
        if r < 31 {
            assert(x >> ((r + 1) as u32) == 0);
            lemma_u32_shr_is_div(x, (r + 1) as u32);
            lemma_pow2_pos((r + 1) as nat);
            assert(x as nat / pow2((r + 1) as nat) == 0);
            assert((x as nat) < pow2((r + 1) as nat)) by {
                if x as nat >= pow2((r + 1) as nat) {
                    vstd::arithmetic::div_mod::lemma_div_is_ordered(
                        pow2((r + 1) as nat) as int,
                        x as int,
                        pow2((r + 1) as nat) as int,
                    );
                    vstd::arithmetic::div_mod::lemma_div_by_self(pow2((r + 1) as nat) as int);
                }
            }
        } else {
            lemma2_to64();
            assert(pow2(32) == 0x1_0000_0000);
        }
    }
    r
}

} // verus!

verus! {

use super::cell::{Cell, others, not_of};

/// Index of the cell at cell column `cx` and cell row `cy` of a grid
/// `pow2(side_shift)` cells wide: the row shifted above the column, in 32 bits.
pub open spec fn pack(cx: u32, cy: u32, side_shift: u32) -> u32 {
    (cy << side_shift) | cx
}

/// Index of the cell that holds the point (`x`, `y`).
pub open spec fn cell_index(x: u32, y: u32, cell_shift: u32, side_shift: u32) -> u32 {
    pack(x >> cell_shift, y >> cell_shift, side_shift)
}

/// Number of values in `lo..=hi`.
pub open spec fn span(lo: u32, hi: u32) -> nat {
    if lo <= hi {
        (hi - lo + 1) as nat
    } else {
        0
    }
}

/// Indices of the cells in column `cx`, rows `cy0` up to `cy0 + ny - 1`.
pub open spec fn column_indices(cx: u32, cy0: u32, ny: nat, side_shift: u32) -> Seq<u32> {
    Seq::new(ny, |j: int| pack(cx, (cy0 + j) as u32, side_shift))
}

/// Indices of the cells in columns `cx0 .. cx0 + nx` and rows `cy0 .. cy0 + ny`,
/// column by column, each column from its lowest row up.
pub open spec fn block_indices(cx0: u32, cy0: u32, nx: nat, ny: nat, side_shift: u32) -> Seq<u32>
    decreases nx,
{
    if nx == 0 {
        Seq::empty()
    } else {
        block_indices(cx0, cy0, (nx - 1) as nat, ny, side_shift) + column_indices(
            (cx0 + nx - 1) as u32,
            cy0,
            ny,
            side_shift,
        )
    }
}

/// The entries of the cell at `ind` whose entity is not `ignore`; none when
/// there is no such cell.
pub open spec fn cell_others<P>(cells: Seq<Seq<(P, u64)>>, ind: u32, ignore: u64) -> Seq<(P, u64)> {
    if (ind as int) < cells.len() {
        others(cells[ind as int], ignore)
    } else {
        Seq::empty()
    }
}

/// The entries of the cells at `inds`, in that order, other than those of
/// entity `ignore`.
pub open spec fn gather<P>(cells: Seq<Seq<(P, u64)>>, inds: Seq<u32>, ignore: u64) -> Seq<(P, u64)>
    decreases inds.len(),
{
    if inds.len() == 0 {
        Seq::empty()
    } else {
        gather(cells, inds.drop_last(), ignore) + cell_others(cells, inds.last(), ignore)
    }
}

/// A dense grid of `pow2(side_shift)` by `pow2(side_shift)` cells, each
/// `pow2(cell_shift)` units wide. Each entry pairs a position with the id of
/// the entity at it.
pub struct DenseGrid<P> {
    /// log2(ncells_side)
    log2_side: u32,
    /// log2(cell_size)
    log2_cell: u32,
    cells: Vec<Cell<(P, u64)>>,
}

impl<P> DenseGrid<P> {
    /// Base-2 logarithm of the cell size.
    pub closed spec fn cell_shift(&self) -> u32 {
        self.log2_cell
    }

    /// Base-2 logarithm of the number of cells along a side.
    pub closed spec fn side_shift(&self) -> u32 {
        self.log2_side
    }

    /// The entries of each cell, by cell index.
    pub closed spec fn cells(&self) -> Seq<Seq<(P, u64)>> {
        self.cells@.map_values(|c: Cell<(P, u64)>| c@)
    }

    /// The shifts fit in 32 bits and there is one cell per row and column.
    pub closed spec fn wf(&self) -> bool {
        &&& self.log2_cell < 32
        &&& self.log2_side < 32
        &&& self.cells@.len() == pow2(self.log2_side as nat) * pow2(self.log2_side as nat)
        &&& pow2(self.log2_side as nat) * pow2(self.log2_side as nat) <= u32::MAX
    }

    /// What a well-formed grid guarantees.
    pub proof fn lemma_wf(&self)
        requires
            self.wf(),
        ensures
            self.cell_shift() < 32,
            self.side_shift() < 32,
            self.cells().len() == pow2(self.side_shift() as nat) * pow2(self.side_shift() as nat),
            pow2(self.side_shift() as nat) * pow2(self.side_shift() as nat) <= u32::MAX,
    {
    }

    /// A grid over a square `side_len` units wide, of cells `cell_size` units
    /// wide; every cell is empty.
    pub fn new(cell_size: u32, side_len: u32) -> (g: Self)
        requires
            is_power_of_two(side_len as nat),
            is_power_of_two(cell_size as nat),
            cell_size <= side_len,
            (side_len / cell_size) * (side_len / cell_size) <= u32::MAX,
        ensures
            g.wf(),
            pow2(g.cell_shift() as nat) == cell_size,
            pow2(g.side_shift() as nat) == side_len / cell_size,
            g.cells() =~= Seq::new(
                ((side_len / cell_size) * (side_len / cell_size)) as nat,
                |i: int| Seq::<(P, u64)>::empty(),
            ),
    {
        let ghost es = choose|e: nat| pow2(e) == side_len as nat;
        let ghost ec = choose|e: nat| pow2(e) == cell_size as nat;
        proof {
            lemma_pow2_pos(ec);
            if es < ec {
                lemma_pow2_strictly_increases(es, ec);
            }
            vstd::arithmetic::power2::lemma_pow2_subtracts(ec, es);
        }
        let ncells_side = side_len / cell_size;
        proof {
            assert(ncells_side as nat == pow2((es - ec) as nat));
            lemma_pow2_pos((es - ec) as nat);
            lemma_pow2_floor_log2((es - ec) as nat);
            lemma_pow2_floor_log2(ec);
        }
        let log2_side = log_2(ncells_side);
        let log2_cell = log_2(cell_size);
        proof {
            lemma_floor_log2_unique(ncells_side as nat, log2_side as nat, (es - ec) as nat);
            lemma_floor_log2_unique(cell_size as nat, log2_cell as nat, ec);
        }
        let count = ncells_side * ncells_side;
        let mut cells: Vec<Cell<(P, u64)>> = Vec::new();
        let mut i: u32 = 0;
        while i < count
            invariant
                i <= count,
                cells@.len() == i,
                forall|k: int| 0 <= k < i ==> (#[trigger] cells@[k])@ == Seq::<(P, u64)>::empty(),
            decreases count - i,
        {
            cells.push(Cell::default());
            i = i + 1;
        }
        let g = DenseGrid { log2_side, log2_cell, cells };
        assert(g.cells() =~= Seq::new(count as nat, |i: int| Seq::<(P, u64)>::empty()));
        g
    }

    /// Index of the cell that holds the point (`x`, `y`).
    pub fn flat_ind(&self, x: u32, y: u32) -> (i: usize)
        requires
            self.wf(),
        ensures
            i == cell_index(x, y, self.cell_shift(), self.side_shift()),
    {
        let cx = x >> self.log2_cell;
        let cy = y >> self.log2_cell;
        ((cy << self.log2_side) | cx) as usize
    }

    /// Adds the entity `entity` at `pos` to the cell that holds the point
    /// (`x`, `y`).
    pub fn insert(&mut self, x: u32, y: u32, pos: P, entity: u64)
        requires
            old(self).wf(),
            (cell_index(x, y, old(self).cell_shift(), old(self).side_shift()) as int) < old(self).cells().len(),
        ensures
            final(self).wf(),
            final(self).cell_shift() == old(self).cell_shift(),
            final(self).side_shift() == old(self).side_shift(),
            final(self).cells() == old(self).cells().update(
                cell_index(x, y, old(self).cell_shift(), old(self).side_shift()) as int,
                old(self).cells()[cell_index(x, y, old(self).cell_shift(), old(self).side_shift()) as int].push((pos, entity)),
            ),
    {
        let ind = self.flat_ind(x, y);
        self.cells[ind].insert((pos, entity));
        assert(self.cells() =~= old(self).cells().update(ind as int, old(self).cells()[ind as int].push((pos, entity))));
    }

    /// Empties every cell.
    pub fn clear(&mut self)
        requires
            old(self).wf(),
        ensures
            final(self).wf(),
            final(self).cell_shift() == old(self).cell_shift(),
            final(self).side_shift() == old(self).side_shift(),
            final(self).cells() =~= Seq::new(old(self).cells().len(), |i: int| Seq::<(P, u64)>::empty()),
    {
        let n = self.cells.len();
        let mut i: usize = 0;
        while i < n
            invariant
                i <= n,
                n == self.cells@.len(),
                self.cells@.len() == old(self).cells@.len(),
                self.log2_cell == old(self).log2_cell,
                self.log2_side == old(self).log2_side,
                forall|k: int| 0 <= k < i ==> (#[trigger] self.cells@[k])@ == Seq::<(P, u64)>::empty(),
            decreases n - i,
        {
            self.cells[i].clear();
            i = i + 1;
        }
    }

    /// Indices of the cells that the rectangle from (`lo_x`, `lo_y`) to
    /// (`hi_x`, `hi_y`) covers, column by column, each column from its lowest
    /// row up.
    pub fn cell_range(&self, lo_x: u32, lo_y: u32, hi_x: u32, hi_y: u32) -> (r: Vec<u32>)
        requires
            self.wf(),
        ensures
            r@ == block_indices(
                lo_x >> self.cell_shift(),
                lo_y >> self.cell_shift(),
                span(lo_x >> self.cell_shift(), hi_x >> self.cell_shift()),
                span(lo_y >> self.cell_shift(), hi_y >> self.cell_shift()),
                self.side_shift(),
            ),
    {
        let x1 = lo_x >> self.log2_cell;
        let y1 = lo_y >> self.log2_cell;
        let x2 = hi_x >> self.log2_cell;
        let y2 = hi_y >> self.log2_cell;
        let shift = self.log2_side;
        let nx: u64 = if x1 <= x2 { (x2 - x1) as u64 + 1 } else { 0 };
        let ny: u64 = if y1 <= y2 { (y2 - y1) as u64 + 1 } else { 0 };
        let mut r: Vec<u32> = Vec::new();
        let mut i: u64 = 0;
        while i < nx
            invariant
                nx == span(x1, x2),
                ny == span(y1, y2),
                i <= nx,
                shift < 32,
                r@ == block_indices(x1, y1, i as nat, ny as nat, shift),
            decreases nx - i,
        {
            let x = (x1 as u64 + i) as u32;
            let mut j: u64 = 0;
            while j < ny
                invariant
                    nx == span(x1, x2),
                    ny == span(y1, y2),
                    i < nx,
                    j <= ny,
                    shift < 32,
                    x == x1 + i,
                    r@ == block_indices(x1, y1, i as nat, ny as nat, shift)
                        + column_indices(x, y1, ny as nat, shift).take(j as int),
                decreases ny - j,
            {
                let y = (y1 as u64 + j) as u32;
                r.push((y << shift) | x);
                assert(column_indices(x, y1, ny as nat, shift).take(j + 1) =~= column_indices(
                    x,
                    y1,
                    ny as nat,
                    shift,
                ).take(j as int).push(pack(x, y, shift)));
                j = j + 1;
            }
            assert(column_indices(x, y1, ny as nat, shift).take(ny as int) =~= column_indices(
                x,
                y1,
                ny as nat,
                shift,
            ));
            i = i + 1;
        }
        r
    }
}

impl<P: Copy> DenseGrid<P> {
    /// The entries of the cells that the rectangle from (`lo_x`, `lo_y`) to
    /// (`hi_x`, `hi_y`) covers, in the order of `cell_range`, other than those
    /// of entity `ignore`. Indices past the last cell are skipped.
    pub fn query(&self, lo_x: u32, lo_y: u32, hi_x: u32, hi_y: u32, ignore: u64) -> (hits: Vec<(P, u64)>)
        requires
            self.wf(),
        ensures
            hits@ == gather(
                self.cells(),
                block_indices(
                    lo_x >> self.cell_shift(),
                    lo_y >> self.cell_shift(),
                    span(lo_x >> self.cell_shift(), hi_x >> self.cell_shift()),
                    span(lo_y >> self.cell_shift(), hi_y >> self.cell_shift()),
                    self.side_shift(),
                ),
                ignore,
            ),
    {
        let inds = self.cell_range(lo_x, lo_y, hi_x, hi_y);
        let mut hits: Vec<(P, u64)> = Vec::new();
        let mut k: usize = 0;
        while k < inds.len()
            invariant
                k <= inds@.len(),
                hits@ == gather(self.cells(), inds@.take(k as int), ignore),
            decreases inds@.len() - k,
        {
            let ind = inds[k];
            assert(inds@.take(k + 1).drop_last() =~= inds@.take(k as int));
            if (ind as usize) < self.cells.len() {
                let ents = self.cells[ind as usize].unlock_unsafe();
                let ghost before = hits@;
                let mut j: usize = 0;
                while j < ents.len()
                    invariant
                        j <= ents@.len(),
                        hits@ == before + others(ents@.take(j as int), ignore),
                    decreases ents@.len() - j,
                {
                    let e = ents[j];
                    assert(ents@.take(j + 1) =~= ents@.take(j as int).push(e));
                    proof {
                        ents@.take(j as int).lemma_filter_push(e, not_of::<P>(ignore));
                    }
                    if e.1 != ignore {
                        hits.push(e);
                    }
                    j = j + 1;
                }
                assert(ents@.take(ents@.len() as int) =~= ents@);
            }
            k = k + 1;
        }
        assert(inds@.take(inds@.len() as int) =~= inds@);
        hits
    }
}

proof fn lemma_shr_bound(x: u32, s: u32, n: nat)
    requires
        s < 32,
        (x as nat) < pow2(s as nat) * n,
    ensures
        ((x >> s) as nat) < n,
{
    lemma_u32_shr_is_div(x, s);
    lemma_pow2_pos(s as nat);
    if (x as nat) / pow2(s as nat) >= n {
        vstd::arithmetic::div_mod::lemma_fundamental_div_mod(x as int, pow2(s as nat) as int);
        vstd::arithmetic::mul::lemma_mul_inequality(
            n as int,
            (x as nat / pow2(s as nat)) as int,
            pow2(s as nat) as int,
        );
        vstd::arithmetic::mul::lemma_mul_is_commutative(n as int, pow2(s as nat) as int);
        vstd::arithmetic::mul::lemma_mul_is_commutative(
            (x as nat / pow2(s as nat)) as int,
            pow2(s as nat) as int,
        );
    }
}

/// Packing a column below `pow2(s)` and a row below `pow2(s)` gives
/// `row * pow2(s) + column`.
pub proof fn lemma_pack_value(cx: u32, cy: u32, s: u32)
    requires
        s < 32,
        (cx as nat) < pow2(s as nat),
        (cy as nat) < pow2(s as nat),
        pow2(s as nat) * pow2(s as nat) <= u32::MAX,
    ensures
        pack(cx, cy, s) as int == cy * pow2(s as nat) + cx,
        (pack(cx, cy, s) as int) < pow2(s as nat) * pow2(s as nat),
{
    vstd::bits::lemma_u32_pow2_no_overflow(s as nat);
    vstd::bits::lemma_u32_shl_is_mul(1u32, s);
    assert((1u32 << s) as nat == pow2(s as nat));
    vstd::arithmetic::mul::lemma_mul_inequality(cy as int, (pow2(s as nat) - 1) as int, pow2(s as nat) as int);
    assert(cy * pow2(s as nat) <= (pow2(s as nat) - 1) * pow2(s as nat));
    assert((pow2(s as nat) - 1) * pow2(s as nat) == pow2(s as nat) * pow2(s as nat) - pow2(s as nat)) by (nonlinear_arith);
    vstd::bits::lemma_u32_shl_is_mul(cy, s);
    assert(s < 32 && cx < (1u32 << s) ==> ((cy << s) | cx) == ((cy << s) + cx) as u32) by (bit_vector);
}

/// Every point of the square that a grid covers lies in one of its cells, at
/// index `row * cells_per_side + column`.
pub proof fn lemma_point_in_grid<P>(g: &DenseGrid<P>, x: u32, y: u32)
    requires
        g.wf(),
        (x as nat) < pow2(g.cell_shift() as nat) * pow2(g.side_shift() as nat),
        (y as nat) < pow2(g.cell_shift() as nat) * pow2(g.side_shift() as nat),
    ensures
        cell_index(x, y, g.cell_shift(), g.side_shift()) as int
            == (y >> g.cell_shift()) * pow2(g.side_shift() as nat) + (x >> g.cell_shift()),
        (cell_index(x, y, g.cell_shift(), g.side_shift()) as int) < g.cells().len(),
{
    lemma_shr_bound(x, g.cell_shift(), pow2(g.side_shift() as nat));
    lemma_shr_bound(y, g.cell_shift(), pow2(g.side_shift() as nat));
    lemma_pack_value(x >> g.cell_shift(), y >> g.cell_shift(), g.side_shift());
}

proof fn lemma_block_contains(cx0: u32, cy0: u32, nx: nat, ny: nat, s: u32, i: nat, j: nat)
    requires
        i < nx,
        j < ny,
        cx0 + nx - 1 <= u32::MAX,
    ensures
        block_indices(cx0, cy0, nx, ny, s).contains(pack((cx0 + i) as u32, (cy0 + j) as u32, s)),
    decreases nx,
{
    let b = block_indices(cx0, cy0, nx, ny, s);
    let prev = block_indices(cx0, cy0, (nx - 1) as nat, ny, s);
    let col = column_indices((cx0 + nx - 1) as u32, cy0, ny, s);
    if i + 1 == nx {
        assert(b[prev.len() + j as int] == col[j as int]);
    } else {
        lemma_block_contains(cx0, cy0, (nx - 1) as nat, ny, s, i, j);
        let k = choose|k: int| 0 <= k < prev.len() && prev[k] == pack((cx0 + i) as u32, (cy0 + j) as u32, s);
        assert(b[k] == prev[k]);
    }
}

proof fn lemma_gather_contains<P>(cells: Seq<Seq<(P, u64)>>, inds: Seq<u32>, ignore: u64, k: int, e: (P, u64))
    requires
        0 <= k < inds.len(),
        (inds[k] as int) < cells.len(),
        cells[inds[k] as int].contains(e),
        e.1 != ignore,
    ensures
        gather(cells, inds, ignore).contains(e),
    decreases inds.len(),
{
    let g = gather(cells, inds, ignore);
    let prev = gather(cells, inds.drop_last(), ignore);
    if k == inds.len() - 1 {
        let c = cells[inds[k] as int];
        broadcast use vstd::seq_lib::group_filter_ensures;
        let m = choose|m: int| 0 <= m < c.len() && c[m] == e;
        assert(others(c, ignore).contains(e));
        let m2 = choose|m2: int| 0 <= m2 < others(c, ignore).len() && others(c, ignore)[m2] == e;
        assert(g[prev.len() + m2] == e);
    } else {
        lemma_gather_contains(cells, inds.drop_last(), ignore, k, e);
        let m = choose|m: int| 0 <= m < prev.len() && prev[m] == e;
        assert(g[m] == e);
    }
}

/// What is inserted at a point is found again by any query whose rectangle
/// holds that point, unless the query ignores its entity.
pub proof fn lemma_insert_then_query<P>(
    g: &DenseGrid<P>,
    x: u32,
    y: u32,
    pos: P,
    entity: u64,
    lo_x: u32,
    lo_y: u32,
    hi_x: u32,
    hi_y: u32,
    ignore: u64,
)
    requires
        g.wf(),
        (cell_index(x, y, g.cell_shift(), g.side_shift()) as int) < g.cells().len(),
        lo_x <= x <= hi_x,
        lo_y <= y <= hi_y,
        entity != ignore,
    ensures
        ({
            let i = cell_index(x, y, g.cell_shift(), g.side_shift()) as int;
            let cs = g.cell_shift();
            gather(
                g.cells().update(i, g.cells()[i].push((pos, entity))),
                block_indices(
                    lo_x >> cs,
                    lo_y >> cs,
                    span(lo_x >> cs, hi_x >> cs),
                    span(lo_y >> cs, hi_y >> cs),
                    g.side_shift(),
                ),
                ignore,
            ).contains((pos, entity))
        }),
{
    let i = cell_index(x, y, g.cell_shift(), g.side_shift()) as int;
    let cs = g.cell_shift();
    let cells = g.cells().update(i, g.cells()[i].push((pos, entity)));
    assert(lo_x <= x <= hi_x ==> (lo_x >> cs) <= (x >> cs) <= (hi_x >> cs)) by (bit_vector);
    assert(lo_y <= y <= hi_y ==> (lo_y >> cs) <= (y >> cs) <= (hi_y >> cs)) by (bit_vector);
    let cx0 = lo_x >> cs;
    let cy0 = lo_y >> cs;
    let nx = span(lo_x >> cs, hi_x >> cs);
    let ny = span(lo_y >> cs, hi_y >> cs);
    let bi = ((x >> cs) - cx0) as nat;
    let bj = ((y >> cs) - cy0) as nat;
    lemma_block_contains(cx0, cy0, nx, ny, g.side_shift(), bi, bj);
    let inds = block_indices(cx0, cy0, nx, ny, g.side_shift());
    let k = choose|k: int| 0 <= k < inds.len() && inds[k] == pack((cx0 + bi) as u32, (cy0 + bj) as u32, g.side_shift());
    assert(inds[k] as int == i);
    assert(cells[i][cells[i].len() - 1] == (pos, entity));
    lemma_gather_contains(cells, inds, ignore, k, (pos, entity));
}

} // verus!
