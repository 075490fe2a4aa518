pub mod board;
mod chance;
pub mod decoration;
pub mod game;
pub mod high_score;
pub mod line;
