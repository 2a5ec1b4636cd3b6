//! The simulation core of a falling-block puzzle game: the board of locked
//! cells, the falling piece, and the rules that move, turn, lock and clear.

pub mod board;
pub mod catalog;
pub mod clearing;
pub mod game;
pub mod geometry;
pub mod laws;
pub mod layout;
pub mod pacing;
pub mod palette;
pub mod piece;
pub mod sampling;
