//! Where the squares of a board are drawn.

use vstd::prelude::*;

use crate::board::cell_center;
use crate::board::Board;
use crate::board::BoardError;
use crate::board::TILE_SIZE;
use crate::cells::all_cells;
use crate::cells::cell_at_is_within;
use crate::cells::grid_cells;
use crate::tile::Position;

verus! {

/// A rectangle to draw: the physical coordinates of its centre and its
/// extent.
#[derive(Clone, Copy, Debug, PartialEq, Eq, Structural)]
pub struct Placement {
    pub x: i32,
    pub y: i32,
    pub width: i32,
    pub height: i32,
}

impl Placement {
    /// Whether this is the tile-sized square on cell (`x`, `y`) of a board
    /// with `size` cells per side.
    pub open spec fn is_tile_at(self, size: int, x: int, y: int) -> bool {
        &&& self.x == cell_center(size, x)
        &&& self.y == cell_center(size, y)
        &&& self.width == TILE_SIZE
        &&& self.height == TILE_SIZE
    }
}

/// The square of a cell that is known to lie on the board.
fn placement_of(board: &Board, x: u8, y: u8) -> (placement: Placement)
    requires
        x < board.dimension(),
        y < board.dimension(),
    ensures
        placement.is_tile_at(board.dimension() as int, x as int, y as int),
{
    Placement {
        x: board.center_of(x),
        y: board.center_of(y),
        width: TILE_SIZE,
        height: TILE_SIZE,
    }
}

/// The square in which the tile at `position` is drawn: centred on the cell on
/// both axes, one tile wide and high.
pub fn tile_placement(board: &Board, position: &Position) -> (r: Result<Placement, BoardError>)
    ensures
        position.within(board.dimension() as int) ==> (r matches Ok(placement)
            && placement.is_tile_at(
            board.dimension() as int,
            position.x as int,
            position.y as int,
        )),
        !position.within(board.dimension() as int) ==> r == Err::<Placement, BoardError>(
            BoardError::OutOfBounds,
        ),
{
    if position.x >= board.dimension() || position.y >= board.dimension() {
        return Err(BoardError::OutOfBounds);
    }
    Ok(placement_of(board, position.x, position.y))
}

/// The squares of all cells of the board, in the order of
/// [`all_cells`]: the backdrop on which tiles are laid.
pub fn cell_placements(board: &Board) -> (placements: Vec<Placement>)
    ensures
        placements@.len() == all_cells(board.dimension() as int).len(),
        forall|k: int|
            0 <= k < placements@.len() ==> (#[trigger] placements@[k]).is_tile_at(
                board.dimension() as int,
                all_cells(board.dimension() as int)[k].0 as int,
                all_cells(board.dimension() as int)[k].1 as int,
            ),
{
    let cells = grid_cells(board);
    let ghost size = board.dimension() as int;
    let mut placements: Vec<Placement> = Vec::new();
    let mut k: usize = 0;
    while k < cells.len()
        invariant
            size == board.dimension(),
            cells@ == all_cells(size),
            k <= cells.len(),
            placements@.len() == k,
            forall|j: int|
                0 <= j < k ==> (#[trigger] placements@[j]).is_tile_at(
                    size,
                    cells@[j].0 as int,
                    cells@[j].1 as int,
                ),
        decreases cells.len() - k,
    {
        let cell: (u8, u8) = cells[k];
        proof {
            assert(size * size >= 0) by (nonlinear_arith);
            cell_at_is_within(size, k as int);
        }
        placements.push(placement_of(board, cell.0, cell.1));
        k = k + 1;
    }
    placements
}

} // verus!
