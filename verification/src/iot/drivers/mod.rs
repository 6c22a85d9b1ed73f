pub mod board;
pub mod input;
pub mod light;
