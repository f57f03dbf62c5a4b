pub mod display;
pub mod gui_apps;
pub mod gui_renderer;
pub mod render_driver;
pub mod sim_renderer;
