use tetris_core::board::Board;
use tetris_core::board::EMPTY_SQUARE;
use tetris_core::piece::Piece;
use tetris_core::piece::PieceKind;
use tetris_core::piece::Position;
use tetris_core::piece::kind_points;
use tetris_core::resolver::can_move;
use tetris_core::resolver::get_tile;
use tetris_core::resolver::in_bounds;
use tetris_core::resolver::in_stage;
use tetris_core::resolver::piece_is_visible;
use tetris_core::resolver::try_drop;

fn piece_at(kind: PieceKind, x: i64, y_milli: i64) -> Piece {
    Piece { kind, points: kind_points(kind), pos: Position { x, y_milli } }
}

#[test]
fn stage_has_walls_and_floor_but_no_ceiling() {
    assert!(in_stage(0, 0));
    assert!(in_stage(9, 0));
    assert!(in_stage(5, 1000));
    assert!(!in_stage(-1, 5));
    assert!(!in_stage(10, 5));
    assert!(!in_stage(5, -1));
}

#[test]
fn bounds_add_the_ceiling() {
    assert!(in_bounds(0, 0));
    assert!(in_bounds(9, 19));
    assert!(!in_bounds(9, 20));
    assert!(!in_bounds(10, 19));
    assert!(!in_bounds(-1, 0));
}

#[test]
fn get_tile_reads_the_visible_board_only() {
    let mut b = Board::new();
    b.set_cell(4, 7, 3);
    assert_eq!(get_tile(&b, 4, 7), Some(3));
    assert_eq!(get_tile(&b, 0, 0), Some(EMPTY_SQUARE));
    assert_eq!(get_tile(&b, 4, 20), None);
    assert_eq!(get_tile(&b, -1, 7), None);
}

#[test]
fn occupied_target_cell_blocks_a_move() {
    let mut b = Board::new();
    // The O piece at (5, 5000) covers columns 4..=5, rows 4..=5.
    b.set_cell(4, 3, 1);
    let p = piece_at(PieceKind::O, 5, 5000);
    assert!(can_move(&b, &p, 0, 0));
    assert!(!can_move(&b, &p, 0, -1));
    assert!(can_move(&b, &p, 1, -1));
    assert!(can_move(&b, &p, -1, 0));
}

#[test]
fn walls_and_floor_block_moves() {
    let b = Board::new();
    let p = piece_at(PieceKind::O, 1, 1000);
    // Cells cover columns 0..=1, rows 0..=1.
    assert!(!can_move(&b, &p, -1, 0));
    assert!(!can_move(&b, &p, 0, -1));
    assert!(can_move(&b, &p, 1, 0));
}

#[test]
fn cells_above_the_ceiling_do_not_block() {
    let b = Board::new();
    let p = piece_at(PieceKind::O, 5, 22000);
    // All cells sit above the visible board; moving sideways is fine.
    assert!(can_move(&b, &p, 0, 0));
    assert!(can_move(&b, &p, 1, 0));
    assert!(can_move(&b, &p, 0, -1));
}

#[test]
fn visibility_requires_a_cell_on_the_board() {
    let above = piece_at(PieceKind::O, 5, 22000);
    assert!(!piece_is_visible(&above));
    let edge = piece_at(PieceKind::O, 5, 20000);
    // Its lower cells sit on row 19, inside the board.
    assert!(piece_is_visible(&edge));
    let low = piece_at(PieceKind::O, 5, 5000);
    assert!(piece_is_visible(&low));
}

#[test]
fn unobstructed_drop_from_spawn_hits_the_floor() {
    // An O piece from spawn height on an empty board: a large distance
    // is cut short at the floor, after descending exactly the rows
    // between the spawn row and the resting row.
    let b = Board::new();
    let p = piece_at(PieceKind::O, 5, 22000);
    let r = try_drop(&b, &p, 30000);
    assert!(r.hit);
    assert_eq!(r.rows, 21);
    assert_eq!(r.y_milli, 1000);
}

#[test]
fn drop_stops_on_the_stack_not_under_it() {
    let mut b = Board::new();
    b.set_cell(4, 5, 2);
    let p = piece_at(PieceKind::O, 5, 22000);
    let r = try_drop(&b, &p, 30000);
    // The lower cells come to rest on row 6, just above the obstacle.
    assert!(r.hit);
    assert_eq!(r.y_milli, 7000);
    assert_eq!(r.rows, 15);
}

#[test]
fn short_drop_without_obstruction_moves_the_full_distance() {
    let b = Board::new();
    let p = piece_at(PieceKind::O, 5, 22000);
    let r = try_drop(&b, &p, 2500);
    assert!(!r.hit);
    assert_eq!(r.y_milli, 19500);
    assert_eq!(r.rows, 3);
}

#[test]
fn sub_row_drop_counts_no_rows() {
    let b = Board::new();
    let p = piece_at(PieceKind::O, 5, 22900);
    let r = try_drop(&b, &p, 800);
    assert!(!r.hit);
    assert_eq!(r.y_milli, 22100);
    assert_eq!(r.rows, 0);
}
