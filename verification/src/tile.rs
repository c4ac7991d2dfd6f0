//! The records that describe a placed tile.

use vstd::prelude::*;

verus! {

/// A grid cell, by its zero-based coordinates.
#[derive(Clone, Copy, Debug, PartialEq, Eq, Structural)]
pub struct Position {
    pub x: u8,
    pub y: u8,
}

impl Position {
    /// The cell at column `x` and row `y`.
    pub fn new(x: &u8, y: &u8) -> (position: Position)
        ensures
            position.x == *x,
            position.y == *y,
    {
        Position { x: *x, y: *y }
    }

    /// Whether the cell belongs to a board with `size` cells per side.
    pub open spec fn within(self, size: int) -> bool {
        self.x < size && self.y < size
    }
}

/// The number shown on a tile.
#[derive(Clone, Copy, Debug, PartialEq, Eq, Structural)]
pub struct Points {
    pub value: u32,
}

impl Points {
    /// A tile label with the given number.
    pub fn new(value: u32) -> (points: Points)
        ensures
            points.value == value,
    {
        Points { value }
    }
}

} // verus!
