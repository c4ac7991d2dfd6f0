//! Board dimensions and the conversion from grid coordinates to physical ones.

use vstd::prelude::*;

verus! {

/// Side length of one tile.
pub const TILE_SIZE: i32 = 40;

/// Gap between two neighbouring tiles, and between an outer tile and the
/// board's edge.
pub const TILE_SPACER: i32 = 10;

/// Largest number of cells per side. Grid coordinates are `u8`, so a wider
/// board could not address its last cells.
pub const MAX_SIZE: u32 = 255;

/// Why an operation on a board was refused.
#[derive(Clone, Copy, Debug, PartialEq, Eq, Structural)]
pub enum BoardError {
    /// The requested number of cells per side is zero or above [`MAX_SIZE`].
    InvalidDimension,
    /// A grid coordinate is not below the board's number of cells per side.
    OutOfBounds,
    /// The board has fewer cells than there are starting tiles to place.
    InsufficientCells,
}

/// Whether `size` cells per side make a board.
pub open spec fn valid_dimension(size: int) -> bool {
    1 <= size <= MAX_SIZE
}

/// Footprint, along one axis, of a board with `size` cells per side: the
/// tiles and the spacers between and around them.
pub open spec fn physical_size_of(size: int) -> int {
    size * TILE_SIZE + (size + 1) * TILE_SPACER
}

/// Physical coordinate from which cells are laid out: half the footprint to
/// the negative side of the origin, moved in by half a tile.
pub open spec fn offset_of(size: int) -> int {
    -(physical_size_of(size) / 2) + TILE_SIZE / 2
}

/// Physical coordinate, along one axis, of the centre of cell `pos` on a
/// board with `size` cells per side.
pub open spec fn cell_center(size: int, pos: int) -> int {
    offset_of(size) + pos * TILE_SIZE + (pos + 1) * TILE_SPACER
}

/// A square grid of cells with its physical footprint.
#[derive(Clone, Copy, Debug, PartialEq, Eq, Structural)]
pub struct Board {
    size: u8,
    physical_size: i32,
}

impl Board {
    #[verifier::type_invariant]
    spec fn well_formed(self) -> bool {
        &&& self.size >= 1
        &&& self.physical_size == physical_size_of(self.size as int)
    }

    /// Number of cells per side.
    pub closed spec fn spec_dimension(&self) -> u8 {
        self.size
    }

    /// Stored footprint along one axis.
    pub closed spec fn spec_physical_size(&self) -> i32 {
        self.physical_size
    }

    /// A board with `size` cells per side.
    pub fn new(size: u32) -> (r: Result<Board, BoardError>)
        ensures
            valid_dimension(size as int) ==> (r matches Ok(b) && b.dimension() == size
                && b.physical_size() == physical_size_of(size as int)),
            !valid_dimension(size as int) ==> r == Err::<Board, BoardError>(
                BoardError::InvalidDimension,
            ),
    {
        if size == 0 || size > MAX_SIZE {
            return Err(BoardError::InvalidDimension);
        }
        let side: i32 = size as i32;
        let physical_size: i32 = side * TILE_SIZE + (side + 1) * TILE_SPACER;
        Ok(Board { size: size as u8, physical_size })
    }

    /// Number of cells per side.
    #[verifier::when_used_as_spec(spec_dimension)]
    pub fn dimension(&self) -> (d: u8)
        ensures
            d == self.dimension(),
            valid_dimension(d as int),
    {
        proof {
            use_type_invariant(self);
        }
        self.size
    }

    /// Footprint of the board along one axis.
    #[verifier::when_used_as_spec(spec_physical_size)]
    pub fn physical_size(&self) -> (p: i32)
        ensures
            p == self.physical_size(),
            p == physical_size_of(self.dimension() as int),
    {
        proof {
            use_type_invariant(self);
        }
        self.physical_size
    }

    /// Footprint of the board as a width and a height, which are equal.
    pub fn size(&self) -> (extent: (i32, i32))
        ensures
            extent.0 == physical_size_of(self.dimension() as int),
            extent.1 == physical_size_of(self.dimension() as int),
    {
        proof {
            use_type_invariant(self);
        }
        (self.physical_size, self.physical_size)
    }

    /// Physical coordinate of the centre of cell `pos` along one axis. Both
    /// axes convert alike.
    pub fn cell_position_to_physical(&self, pos: u8) -> (r: Result<i32, BoardError>)
        ensures
            pos < self.dimension() ==> (r matches Ok(c) && c == cell_center(
                self.dimension() as int,
                pos as int,
            )),
            pos >= self.dimension() ==> r == Err::<i32, BoardError>(BoardError::OutOfBounds),
    {
        if pos >= self.dimension() {
            return Err(BoardError::OutOfBounds);
        }
        Ok(self.center_of(pos))
    }

    /// Physical coordinate of the centre of a cell that is known to lie on
    /// the board.
    pub(crate) fn center_of(&self, pos: u8) -> (c: i32)
        requires
            pos < self.dimension(),
        ensures
            c == cell_center(self.dimension() as int, pos as int),
    {
        proof {
            use_type_invariant(self);
        }
        let offset: i32 = -(self.physical_size / 2) + TILE_SIZE / 2;
        let along: i32 = pos as i32;
        offset + along * TILE_SIZE + (along + 1) * TILE_SPACER
    }
}

/// The footprint is an even number of units, so halving it in whole numbers
/// loses nothing: twice the half is the footprint again.
pub proof fn physical_size_halves_exactly(size: int)
    ensures
        physical_size_of(size) % 2 == 0,
        2 * (physical_size_of(size) / 2) == physical_size_of(size),
{
    assert(physical_size_of(size) == 2 * (25 * size + 5));
}

/// Of two cells on one axis, the one with the larger grid coordinate has the
/// larger physical coordinate; neighbours are a tile and a spacer apart.
pub proof fn cell_center_strictly_increasing(size: int, pos: int, next: int)
    requires
        pos < next,
    ensures
        cell_center(size, pos) < cell_center(size, next),
        cell_center(size, pos + 1) - cell_center(size, pos) == TILE_SIZE + TILE_SPACER,
{
}

/// The board is centred on the origin: a cell and its mirror image on the
/// same axis lie at opposite coordinates. In particular the first and the
/// last cell's coordinates add up to zero.
pub proof fn board_is_centered(size: int, pos: int)
    ensures
        cell_center(size, pos) + cell_center(size, size - 1 - pos) == 0,
        cell_center(size, 0) + cell_center(size, size - 1) == 0,
{
    physical_size_halves_exactly(size);
}

/// Every cell of a board lies inside the board's footprint, at least a spacer
/// and half a tile away from either edge.
pub proof fn cell_center_within_footprint(size: int, pos: int)
    requires
        0 <= pos < size,
    ensures
        -(physical_size_of(size) / 2) + TILE_SPACER + TILE_SIZE / 2 <= cell_center(size, pos),
        cell_center(size, pos) <= physical_size_of(size) / 2 - TILE_SPACER - TILE_SIZE / 2,
{
    physical_size_halves_exactly(size);
}

} // verus!
