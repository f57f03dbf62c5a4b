pub mod driver;
pub mod stats;
