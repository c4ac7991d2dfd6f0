use rand::rngs::StdRng;
use rand::SeedableRng;
use tile_board::board::BoardError;
use tile_board::game::GameState;
use tile_board::tile::Points;
use tile_board::tile::Position;

fn started(size: u32, seed: u64) -> GameState {
    let mut rng = StdRng::seed_from_u64(seed);
    match GameState::start(size, &mut rng) {
        Ok(state) => state,
        Err(e) => panic!("a game on a board of {} was refused: {:?}", size, e),
    }
}

#[test]
fn game_of_four_starts_with_two_tiles() {
    for seed in 0..50u64 {
        let state = started(4, seed);
        assert_eq!(state.board().dimension(), 4);
        assert_eq!(state.board().physical_size(), 210);
        let tiles = state.tiles();
        assert_eq!(tiles.len(), 2);
        assert_ne!(tiles[0].0, tiles[1].0);
        for (position, points) in tiles.iter() {
            assert!(position.x < 4 && position.y < 4);
            assert_eq!(points.value, 2);
        }
    }
}

#[test]
fn game_without_cells_is_an_invalid_dimension() {
    let mut rng = StdRng::seed_from_u64(3);
    let before = rng.clone();
    assert_eq!(GameState::start(0, &mut rng).err(), Some(BoardError::InvalidDimension));
    assert_eq!(GameState::start(256, &mut rng).err(), Some(BoardError::InvalidDimension));
    assert_eq!(rng, before);
}

#[test]
fn game_of_one_cell_has_too_few_cells() {
    let mut rng = StdRng::seed_from_u64(3);
    let before = rng.clone();
    assert_eq!(GameState::start(1, &mut rng).err(), Some(BoardError::InsufficientCells));
    assert_eq!(rng, before);
}

#[test]
fn tile_at_finds_the_tiles_and_nothing_else() {
    for seed in 0..50u64 {
        let state = started(3, seed);
        let mut found = 0;
        for x in 0..3u8 {
            for y in 0..3u8 {
                let here = Position { x, y };
                let listed = state.tiles().iter().any(|(position, _)| *position == here);
                match state.tile_at(&here) {
                    Some(points) => {
                        assert!(listed);
                        assert_eq!(points, Points { value: 2 });
                        found += 1;
                    }
                    None => assert!(!listed),
                }
            }
        }
        assert_eq!(found, 2);
    }
}

#[test]
fn tile_at_off_the_board_is_none() {
    let state = started(4, 11);
    assert_eq!(state.tile_at(&Position { x: 4, y: 0 }), None);
    assert_eq!(state.tile_at(&Position { x: 200, y: 200 }), None);
}

#[test]
fn same_seed_starts_the_same_game() {
    let first = started(4, 2048);
    let second = started(4, 2048);
    assert_eq!(first.tiles(), second.tiles());
    assert_eq!(first.board(), second.board());
}
