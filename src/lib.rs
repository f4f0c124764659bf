pub mod bits;
pub mod board;
pub mod movegen;
pub mod moves;
pub mod eval;
pub mod table;
pub mod search;
pub mod player;
pub mod game;
