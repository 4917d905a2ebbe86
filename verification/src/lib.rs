//! Rule engine for a falling-block puzzle game: the board grid, the active
//! piece, legality tests, movement, rotation with wall kicks, row clearing,
//! and the repetition-limited draw of the next piece.

pub mod board;
pub mod generator;
pub mod session;
pub mod shapes;
pub mod tetrimino;
