pub mod board;
pub mod moves;
pub mod zobrist;
pub mod move_input;
pub mod game;
