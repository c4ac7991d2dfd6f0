//! The board of a sliding-tile puzzle: grid dimensions, the mapping from grid
//! cells to physical coordinates, and the choice of the starting tiles.
//!
//! Physical lengths are whole numbers of render units: with a tile side of 40
//! and a spacer of 10 every length and every cell centre is an integer, so the
//! library computes in `i32` and a renderer converts at its edge.

pub mod board;
pub mod cells;
pub mod game;
pub mod layout;
pub mod placement;
pub mod tile;
