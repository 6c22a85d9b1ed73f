pub mod app;
pub mod drivers;
pub mod intent;
pub mod panel;
pub mod render;
pub mod state;
