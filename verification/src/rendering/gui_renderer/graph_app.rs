//! The panel that plots the simulation's bounding box.
use vstd::prelude::*;

verus! {

/// The plot of the simulation area, shown unless hidden.
pub struct GridApp {
    pub visible: bool,
}

impl Default for GridApp {
    fn default() -> (g: Self)
        ensures
            g.visible,
    {
        Self { visible: true }
    }
}

} // verus!
