pub mod physics;
pub mod simulation;
pub mod time;
