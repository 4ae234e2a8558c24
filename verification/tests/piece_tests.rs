use tetris_core::piece::Piece;
use tetris_core::piece::PieceKind;
use tetris_core::piece::Position;
use tetris_core::piece::Rotation;
use tetris_core::piece::kind_color;
use tetris_core::piece::kind_index;
use tetris_core::piece::kind_points;

fn piece_at(kind: PieceKind, x: i64, y_milli: i64) -> Piece {
    Piece { kind, points: kind_points(kind), pos: Position { x, y_milli } }
}

#[test]
fn opposite_swaps_directions() {
    assert_eq!(Rotation::Clockwise.opposite(), Rotation::Counterclockwise);
    assert_eq!(Rotation::Counterclockwise.opposite(), Rotation::Clockwise);
}

#[test]
fn kind_indices_are_distinct() {
    let kinds = [
        PieceKind::I,
        PieceKind::J,
        PieceKind::L,
        PieceKind::O,
        PieceKind::S,
        PieceKind::T,
        PieceKind::Z,
    ];
    for (i, k) in kinds.iter().enumerate() {
        assert_eq!(kind_index(*k), i);
    }
}

#[test]
fn kind_colors_match_palette() {
    assert_eq!(kind_color(PieceKind::I), (0, 255, 255));
    assert_eq!(kind_color(PieceKind::Z), (255, 0, 0));
    assert_eq!(kind_color(PieceKind::L), (255, 168, 0));
}

#[test]
fn four_clockwise_rotations_restore_offsets() {
    for kind in [
        PieceKind::I,
        PieceKind::J,
        PieceKind::L,
        PieceKind::O,
        PieceKind::S,
        PieceKind::T,
        PieceKind::Z,
    ] {
        let mut p = piece_at(kind, 5, 10000);
        let original = p.points;
        for _ in 0..4 {
            p.rotate(Rotation::Clockwise);
        }
        assert_eq!(p.points, original, "four turns must restore {kind:?}");
    }
}

#[test]
fn clockwise_then_counterclockwise_restores_offsets() {
    for kind in [
        PieceKind::I,
        PieceKind::J,
        PieceKind::L,
        PieceKind::O,
        PieceKind::S,
        PieceKind::T,
        PieceKind::Z,
    ] {
        let mut p = piece_at(kind, 5, 10000);
        let original = p.points;
        p.rotate(Rotation::Clockwise);
        p.rotate(Rotation::Counterclockwise);
        assert_eq!(p.points, original, "a turn and its inverse must restore {kind:?}");
    }
}

#[test]
fn o_piece_cells_floor_half_offsets() {
    // The O piece's half-cell offsets floor to a 2-by-2 block whose top
    // row is the pivot row.
    let p = piece_at(PieceKind::O, 5, 22000);
    let cells = p.grid_points();
    let mut got: Vec<(i64, i64)> = cells.iter().map(|c| (c.x, c.y)).collect();
    got.sort();
    assert_eq!(got, vec![(4, 21), (4, 22), (5, 21), (5, 22)]);
}

#[test]
fn rotated_i_piece_stands_in_one_column() {
    let mut p = piece_at(PieceKind::I, 9, 22000);
    p.rotate(Rotation::Clockwise);
    let cells = p.grid_points();
    let mut got: Vec<(i64, i64)> = cells.iter().map(|c| (c.x, c.y)).collect();
    got.sort();
    assert_eq!(got, vec![(9, 20), (9, 21), (9, 22), (9, 23)]);
}
