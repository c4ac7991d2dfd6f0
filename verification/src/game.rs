//! The state of a game at its start: one board and the tiles on it.

use vstd::prelude::*;

use crate::board::valid_dimension;
use crate::board::Board;
use crate::board::BoardError;
use crate::placement::is_starting_set;
use crate::placement::place_starting_tiles;
use crate::placement::STARTING_TILES;
use crate::tile::Points;
use crate::tile::Position;

verus! {

/// A board together with the tiles that lie on it, each on a cell of its own.
#[derive(Debug)]
pub struct GameState {
    board: Board,
    tiles: Vec<(Position, Points)>,
}

impl GameState {
    #[verifier::type_invariant]
    spec fn well_formed(self) -> bool {
        is_starting_set(self.board.dimension() as int, self.tiles@)
    }

    /// The board of the game.
    pub closed spec fn spec_board(&self) -> &Board {
        &self.board
    }

    /// The tiles of the game.
    pub closed spec fn spec_tiles(&self) -> &Vec<(Position, Points)> {
        &self.tiles
    }

    /// Builds a board with `size` cells per side and places the starting
    /// tiles on it. Where either step is refused, `rng` is left as it was.
    pub fn start(size: u32, rng: &mut rand::rngs::StdRng) -> (r: Result<GameState, BoardError>)
        ensures
            !valid_dimension(size as int) ==> (r matches Err(e) && e
                == BoardError::InvalidDimension && *final(rng) == *old(rng)),
            valid_dimension(size as int) && size * size < STARTING_TILES ==> (r matches Err(e)
                && e == BoardError::InsufficientCells && *final(rng) == *old(rng)),
            valid_dimension(size as int) && size * size >= STARTING_TILES ==> (r matches Ok(
                state,
            ) && state.board().dimension() == size && is_starting_set(
                size as int,
                state.tiles()@,
            )),
    {
        let board = match Board::new(size) {
            Ok(board) => board,
            Err(e) => {
                return Err(e);
            },
        };
        match place_starting_tiles(&board, rng) {
            Ok(tiles) => Ok(GameState { board, tiles }),
            Err(e) => Err(e),
        }
    }

    /// The board of the game.
    #[verifier::when_used_as_spec(spec_board)]
    pub fn board(&self) -> (board: &Board)
        ensures
            board == self.board(),
    {
        &self.board
    }

    /// The tiles of the game: a starting set for its board.
    #[verifier::when_used_as_spec(spec_tiles)]
    pub fn tiles(&self) -> (tiles: &Vec<(Position, Points)>)
        ensures
            tiles == self.tiles(),
            is_starting_set(self.board().dimension() as int, tiles@),
    {
        proof {
            use_type_invariant(self);
        }
        &self.tiles
    }

    /// The label of the tile on `position`, if a tile lies there.
    pub fn tile_at(&self, position: &Position) -> (r: Option<Points>)
        ensures
            match r {
                Some(points) => self.tiles()@.contains((*position, points)),
                None => forall|i: int|
                    0 <= i < self.tiles()@.len() ==> (#[trigger] self.tiles()@[i]).0 != *position,
            },
    {
        let mut i: usize = 0;
        while i < self.tiles.len()
            invariant
                i <= self.tiles.len(),
                forall|j: int| 0 <= j < i ==> (#[trigger] self.tiles@[j]).0 != *position,
            decreases self.tiles.len() - i,
        {
            let tile: (Position, Points) = self.tiles[i];
            if tile.0 == *position {
                assert(self.tiles@[i as int] == (*position, tile.1));
                return Some(tile.1);
            }
            i = i + 1;
        }
        None
    }
}

} // verus!
