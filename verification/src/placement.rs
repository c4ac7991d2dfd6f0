//! The choice of the cells on which a new game starts.

use rand::seq::IteratorRandom;
use vstd::prelude::*;

use crate::board::valid_dimension;
use crate::board::Board;
use crate::board::BoardError;
use crate::cells::all_cells;
use crate::cells::cell_at_is_injective;
use crate::cells::cell_at_is_within;
use crate::cells::grid_cells;
use crate::tile::Points;
use crate::tile::Position;

verus! {

/// The generator from which the starting cells are drawn. Seed it for a
/// reproducible game.
#[verifier::external_type_specification]
#[verifier::external_body]
pub struct ExStdRng(rand::rngs::StdRng);

/// Number of tiles on the board when a game begins.
pub const STARTING_TILES: usize = 2;

/// Number shown on each starting tile.
pub const STARTING_VALUE: u32 = 2;

/// `picked` takes its items from `pool` at the places `places`, no place
/// twice.
pub open spec fn selects(places: Seq<int>, picked: Seq<(u8, u8)>, pool: Seq<(u8, u8)>) -> bool {
    &&& places.len() == picked.len()
    &&& forall|j: int|
        0 <= j < places.len() ==> 0 <= #[trigger] places[j] < pool.len() && picked[j]
            == pool[places[j]]
    &&& forall|j: int, k: int|
        0 <= j < k < places.len() ==> #[trigger] places[j] != #[trigger] places[k]
}

/// `picked` is drawn from `pool` without replacement: its items stand at
/// pairwise different places of `pool`.
pub open spec fn is_selection(picked: Seq<(u8, u8)>, pool: Seq<(u8, u8)>) -> bool {
    exists|places: Seq<int>| selects(places, picked, pool)
}

/// The tile that starts on `cell`.
pub open spec fn starting_tile(cell: (u8, u8)) -> (Position, Points) {
    (Position { x: cell.0, y: cell.1 }, Points { value: STARTING_VALUE })
}

/// What holds of the tiles with which a game on a board of `size` cells per
/// side starts: their number, their label, that each lies on the board and
/// that no two share a cell.
pub open spec fn is_starting_set(size: int, tiles: Seq<(Position, Points)>) -> bool {
    &&& tiles.len() == STARTING_TILES
    &&& forall|i: int|
        0 <= i < tiles.len() ==> (#[trigger] tiles[i]).0.within(size) && tiles[i].1.value
            == STARTING_VALUE
    &&& forall|i: int, j: int|
        0 <= i < j < tiles.len() ==> (#[trigger] tiles[i]).0 != (#[trigger] tiles[j]).0
}

/// Cells drawn without replacement from the cells of a board lie on the board
/// and are pairwise different.
pub proof fn selection_of_cells_is_distinct(size: int, picked: Seq<(u8, u8)>)
    requires
        valid_dimension(size),
        is_selection(picked, all_cells(size)),
    ensures
        forall|j: int| 0 <= j < picked.len() ==> (#[trigger] picked[j]).0 < size && picked[j].1 < size,
        forall|j: int, k: int|
            0 <= j < k < picked.len() ==> #[trigger] picked[j] != #[trigger] picked[k],
{
    let pool = all_cells(size);
    let places = choose|places: Seq<int>| selects(places, picked, pool);
    assert(size * size >= 0) by (nonlinear_arith);
    assert forall|j: int| 0 <= j < picked.len() implies (#[trigger] picked[j]).0 < size
        && picked[j].1 < size by {
        cell_at_is_within(size, places[j]);
    }
    assert forall|j: int, k: int| 0 <= j < k < picked.len() implies #[trigger] picked[j]
        != #[trigger] picked[k] by {
        cell_at_is_injective(size, places[j], places[k]);
    }
}

/// `IteratorRandom::choose_multiple` on the items of `pool`. It fills a
/// reservoir with the first `amount` items and then lets each later item
/// replace a random slot or none, so each slot ends up with an item from a
/// place of `pool` that no other slot holds. Which places, and in which
/// order, depends on `rng`. With `amount` items at hand the result has
/// `amount` items.
#[verifier::external_body]
fn choose_multiple(pool: Vec<(u8, u8)>, rng: &mut rand::rngs::StdRng, amount: usize) -> (picked:
    Vec<(u8, u8)>)
    requires
        amount <= pool@.len(),
    ensures
        picked@.len() == amount,
        is_selection(picked@, pool@),
{
    pool.into_iter().choose_multiple(rng, amount)
}

/// The starting tiles on the cells `picked`, in the same order.
pub fn starting_tiles(picked: &Vec<(u8, u8)>) -> (tiles: Vec<(Position, Points)>)
    ensures
        tiles@ == picked@.map_values(|cell: (u8, u8)| starting_tile(cell)),
{
    let mut tiles: Vec<(Position, Points)> = Vec::new();
    let mut i: usize = 0;
    while i < picked.len()
        invariant
            i <= picked.len(),
            tiles@ == picked@.take(i as int).map_values(|cell: (u8, u8)| starting_tile(cell)),
        decreases picked.len() - i,
    {
        let cell: (u8, u8) = picked[i];
        let position = Position::new(&cell.0, &cell.1);
        tiles.push((position, Points::new(STARTING_VALUE)));
        i = i + 1;
        assert(tiles@ =~= picked@.take(i as int).map_values(|cell: (u8, u8)| starting_tile(cell)));
    }
    assert(picked@.take(i as int) =~= picked@);
    tiles
}

/// Draws the cells of the starting tiles from `rng` and labels them.
///
/// A board with fewer cells than starting tiles is refused, and `rng` is then
/// left as it was. On any other board the call succeeds, whatever `rng`
/// yields.
pub fn place_starting_tiles(board: &Board, rng: &mut rand::rngs::StdRng) -> (r: Result<
    Vec<(Position, Points)>,
    BoardError,
>)
    ensures
        board.dimension() * board.dimension() < STARTING_TILES ==> r == Err::<
            Vec<(Position, Points)>,
            BoardError,
        >(BoardError::InsufficientCells) && *final(rng) == *old(rng),
        board.dimension() * board.dimension() >= STARTING_TILES ==> (r matches Ok(tiles)
            && is_starting_set(board.dimension() as int, tiles@)),
{
    let cells = grid_cells(board);
    if cells.len() < STARTING_TILES {
        return Err(BoardError::InsufficientCells);
    }
    let picked = choose_multiple(cells, rng, STARTING_TILES);
    let tiles = starting_tiles(&picked);
    proof {
        selection_of_cells_is_distinct(board.dimension() as int, picked@);
    }
    Ok(tiles)
}

} // verus!
