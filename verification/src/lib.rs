//! Playfield kernel of a falling-block puzzle game: the grid, the active
//! piece, collision testing, piece placement, and completed-row clearing.

pub mod board;
pub mod clearing;
pub mod patterns;
pub mod tetromino;
