pub mod sim_renderer;
