pub mod collision_structures;
pub mod spatial_grid;
