pub mod input;
pub mod render;
