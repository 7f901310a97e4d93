pub mod board;
pub mod constants;
pub mod laws;
pub mod pieces;
pub mod rules;
pub mod utils;
