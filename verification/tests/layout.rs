use tile_board::board::Board;
use tile_board::board::BoardError;
use tile_board::cells::grid_cells;
use tile_board::layout::cell_placements;
use tile_board::layout::tile_placement;
use tile_board::layout::Placement;
use tile_board::tile::Position;

fn board(size: u32) -> Board {
    match Board::new(size) {
        Ok(board) => board,
        Err(e) => panic!("a board of {} cells per side was refused: {:?}", size, e),
    }
}

#[test]
fn tile_on_a_corner_of_a_board_of_four() {
    let b = board(4);
    assert_eq!(
        tile_placement(&b, &Position { x: 0, y: 3 }),
        Ok(Placement { x: -75, y: 75, width: 40, height: 40 })
    );
    assert_eq!(
        tile_placement(&b, &Position { x: 2, y: 1 }),
        Ok(Placement { x: 25, y: -25, width: 40, height: 40 })
    );
}

#[test]
fn tile_placement_agrees_with_the_axis_conversion() {
    let b = board(7);
    for x in 0..7u8 {
        for y in 0..7u8 {
            let placement = tile_placement(&b, &Position { x, y });
            let expected = match (b.cell_position_to_physical(x), b.cell_position_to_physical(y)) {
                (Ok(px), Ok(py)) => Placement { x: px, y: py, width: 40, height: 40 },
                other => panic!("cells of the board were refused: {:?}", other),
            };
            assert_eq!(placement, Ok(expected));
        }
    }
}

#[test]
fn tile_off_the_board_is_out_of_bounds() {
    let b = board(4);
    assert_eq!(tile_placement(&b, &Position { x: 4, y: 0 }), Err(BoardError::OutOfBounds));
    assert_eq!(tile_placement(&b, &Position { x: 0, y: 4 }), Err(BoardError::OutOfBounds));
    assert_eq!(tile_placement(&b, &Position { x: 255, y: 255 }), Err(BoardError::OutOfBounds));
}

#[test]
fn squares_of_a_board_of_two() {
    let tile = |x: i32, y: i32| Placement { x, y, width: 40, height: 40 };
    assert_eq!(
        cell_placements(&board(2)),
        vec![tile(-25, -25), tile(-25, 25), tile(25, -25), tile(25, 25)]
    );
}

#[test]
fn squares_of_a_board_of_one() {
    assert_eq!(cell_placements(&board(1)), vec![Placement { x: 0, y: 0, width: 40, height: 40 }]);
}

#[test]
fn squares_follow_the_cells() {
    for size in [3u32, 4, 16, 255] {
        let b = board(size);
        let cells = grid_cells(&b);
        let squares = cell_placements(&b);
        assert_eq!(squares.len(), cells.len());
        for (cell, square) in cells.iter().zip(squares.iter()) {
            let at = Position { x: cell.0, y: cell.1 };
            assert_eq!(tile_placement(&b, &at), Ok(*square));
        }
    }
}

#[test]
fn squares_do_not_overlap() {
    let squares = cell_placements(&board(4));
    for (i, a) in squares.iter().enumerate() {
        for b in squares.iter().skip(i + 1) {
            let apart_x = (a.x - b.x).abs() >= 50;
            let apart_y = (a.y - b.y).abs() >= 50;
            assert!(apart_x || apart_y);
        }
    }
}
