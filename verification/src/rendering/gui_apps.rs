pub mod grid_app;
