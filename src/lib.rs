//! A 5x5 tile-merging puzzle board whose tiles are multiples of five.
pub mod board;
pub mod lemmas;
pub mod model;
mod random;
mod text;

pub use board::Gameboard;
pub use model::{Direction, CELLS, MAX_SPAWN, MAX_TOTAL, SIZE};
