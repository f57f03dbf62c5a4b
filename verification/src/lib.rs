//! Verified core of the Petri cell simulation: input state tracking, spatial
//! grids, timing statistics and the bookkeeping that the renderer and the GUI
//! read from the simulation.
pub mod rendering;
pub mod timing;
pub mod simulation;
pub mod driver;
pub mod glass;
