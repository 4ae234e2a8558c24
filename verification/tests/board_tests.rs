use tetris_core::board::Board;
use tetris_core::board::BOARD_HEIGHT;
use tetris_core::board::BOARD_WIDTH;
use tetris_core::board::EMPTY_SQUARE;

#[test]
fn new_board_is_empty_and_sized() {
    let b = Board::new();
    assert_eq!(b.state.len(), BOARD_WIDTH * BOARD_HEIGHT);
    for v in &b.state {
        assert_eq!(*v, EMPTY_SQUARE);
    }
}

#[test]
fn set_and_read_cells() {
    let mut b = Board::new();
    b.set_cell(3, 0, 2);
    b.set_cell(9, 19, 6);
    assert_eq!(b.cell(3, 0), 2);
    assert_eq!(b.cell(9, 19), 6);
    assert_eq!(b.cell(0, 0), EMPTY_SQUARE);
}

#[test]
fn line_filled_detection() {
    let mut b = Board::new();
    for x in 0..BOARD_WIDTH {
        b.set_cell(x, 4, 1);
    }
    assert!(b.is_line_filled(4));
    assert!(!b.is_line_filled(3));
    b.set_cell(7, 4, EMPTY_SQUARE);
    assert!(!b.is_line_filled(4));
}

#[test]
fn clear_line_shifts_rows_down() {
    let mut b = Board::new();
    // Row 0 gets kind 0, row 1 is full of kind 1, rows 2 and 3 hold a
    // single marker each.
    b.set_cell(0, 0, 0);
    for x in 0..BOARD_WIDTH {
        b.set_cell(x, 1, 1);
    }
    b.set_cell(5, 2, 2);
    b.set_cell(6, 3, 3);
    b.clear_line(1);
    // Length is unchanged, the row below stays, the rows above moved
    // down one, and the top row is empty.
    assert_eq!(b.state.len(), BOARD_WIDTH * BOARD_HEIGHT);
    assert_eq!(b.cell(0, 0), 0);
    assert_eq!(b.cell(5, 1), 2);
    assert_eq!(b.cell(6, 2), 3);
    assert_eq!(b.cell(6, 3), EMPTY_SQUARE);
    for x in 0..BOARD_WIDTH {
        assert_eq!(b.cell(x, BOARD_HEIGHT - 1), EMPTY_SQUARE);
    }
}

#[test]
fn reset_empties_every_cell() {
    let mut b = Board::new();
    for x in 0..BOARD_WIDTH {
        b.set_cell(x, 10, 4);
    }
    b.reset();
    for v in &b.state {
        assert_eq!(*v, EMPTY_SQUARE);
    }
}
