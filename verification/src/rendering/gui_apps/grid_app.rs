//! The panel that plots the simulation's bounding box and the lines of its
//! spatial grid.
use vstd::prelude::*;
use crate::simulation::physics::spatial_grid::DenseGrid;

verus! {

/// The plot of the simulation area and its spatial grid, shown unless hidden.
pub struct GridApp {
    pub visible: bool,
}

impl Default for GridApp {
    fn default() -> (g: Self)
        ensures
            g.visible,
    {
        Self { visible: true }
    }
}

/// Offsets from the origin of the lines between the cells of a grid:
/// `i * cell_size` for `i` in `1..ncells_side`. Both the vertical and the
/// horizontal lines are drawn at these offsets.
pub fn grid_line_offsets<P>(grid: &DenseGrid<P>) -> (v: Vec<i32>)
    requires
        forall|i: int| 1 <= i < grid.ncells_side ==> i32::MIN <= #[trigger] (i * grid.cell_size) <= i32::MAX,
    ensures
        v@.len() == if grid.ncells_side > 1 { grid.ncells_side - 1 } else { 0 },
        forall|k: int| 0 <= k < v@.len() ==> #[trigger] v@[k] == (k + 1) * grid.cell_size,
{
    let mut v: Vec<i32> = Vec::new();
    let mut i: i32 = 1;
    while i < grid.ncells_side
        invariant
            1 <= i,
            i <= grid.ncells_side || grid.ncells_side < 1,
            grid.ncells_side < 1 ==> i == 1,
            v@.len() == i - 1,
            forall|i: int| 1 <= i < grid.ncells_side ==> i32::MIN <= #[trigger] (i * grid.cell_size) <= i32::MAX,
            forall|k: int| 0 <= k < v@.len() ==> #[trigger] v@[k] == (k + 1) * grid.cell_size,
        decreases grid.ncells_side - i,
    {
        assert(i32::MIN <= i * grid.cell_size <= i32::MAX);
        v.push(i * grid.cell_size);
        i = i + 1;
    }
    v
}

} // verus!
