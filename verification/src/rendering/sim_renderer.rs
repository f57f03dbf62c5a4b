pub mod vertex;
