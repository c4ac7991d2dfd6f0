use tile_board::board::Board;
use tile_board::cells::grid_cells;

fn cells_of(size: u32) -> Vec<(u8, u8)> {
    match Board::new(size) {
        Ok(board) => grid_cells(&board),
        Err(e) => panic!("a board of {} cells per side was refused: {:?}", size, e),
    }
}

#[test]
fn cells_of_a_board_of_one() {
    assert_eq!(cells_of(1), vec![(0, 0)]);
}

#[test]
fn cells_of_a_board_of_two_in_order() {
    assert_eq!(cells_of(2), vec![(0, 0), (0, 1), (1, 0), (1, 1)]);
}

#[test]
fn cells_of_a_board_of_four() {
    let cells = cells_of(4);
    assert_eq!(cells.len(), 16);
    assert_eq!(cells[0], (0, 0));
    assert_eq!(cells[3], (0, 3));
    assert_eq!(cells[4], (1, 0));
    assert_eq!(cells[6], (1, 2));
    assert_eq!(cells[15], (3, 3));
}

#[test]
fn kth_cell_is_quotient_and_remainder() {
    for size in [1u32, 2, 3, 4, 7, 16, 255] {
        let cells = cells_of(size);
        assert_eq!(cells.len() as u32, size * size);
        for (k, cell) in cells.iter().enumerate() {
            let k = k as u32;
            assert_eq!((u32::from(cell.0), u32::from(cell.1)), (k / size, k % size));
        }
    }
}

#[test]
fn every_cell_occurs_once() {
    let size = 9u32;
    let cells = cells_of(size);
    for x in 0..size {
        for y in 0..size {
            let wanted = (x as u8, y as u8);
            assert_eq!(cells.iter().filter(|c| **c == wanted).count(), 1);
            assert_eq!(cells[(x * size + y) as usize], wanted);
        }
    }
}
