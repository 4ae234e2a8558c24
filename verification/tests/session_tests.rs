use tetris_core::board::BOARD_HEIGHT;
use tetris_core::board::BOARD_WIDTH;
use tetris_core::board::EMPTY_SQUARE;
use tetris_core::piece::Piece;
use tetris_core::piece::PieceKind;
use tetris_core::piece::Position;
use tetris_core::piece::Rotation;
use tetris_core::piece::kind_index;
use tetris_core::piece::kind_points;
use tetris_core::session::GameSession;
use tetris_core::session::GameState;
use tetris_core::session::Intents;

fn piece_at(kind: PieceKind, x: i64, y_milli: i64) -> Piece {
    Piece { kind, points: kind_points(kind), pos: Position { x, y_milli } }
}

/// An I piece rotated upright: one column, four rows.
fn upright_i(x: i64, y_milli: i64) -> Piece {
    let mut p = piece_at(PieceKind::I, x, y_milli);
    p.rotate(Rotation::Clockwise);
    p
}

fn playing_session() -> GameSession {
    let mut s = GameSession::new();
    s.state = GameState::Playing;
    s
}

#[test]
fn begin_starts_a_fresh_game() {
    let mut s = GameSession::new();
    assert_eq!(s.state, GameState::Title);
    let idle = s.tick(&Intents::default(), 16);
    assert_eq!(idle, 0);
    assert_eq!(s.state, GameState::Title);
    let begin = Intents { begin: true, ..Intents::default() };
    s.tick(&begin, 16);
    assert_eq!(s.state, GameState::Playing);
    assert_eq!(s.scoring.score(), 0);
    assert!(s.active.is_none());
}

#[test]
fn first_playing_tick_spawns_a_centered_piece() {
    let mut s = playing_session();
    s.tick(&Intents::default(), 0);
    let p = s.active.expect("a piece must spawn");
    assert_eq!(p.pos.x, (BOARD_WIDTH / 2) as i64);
    assert_eq!(p.pos.y_milli, (BOARD_HEIGHT as i64 + 2) * 1000);
    assert!(!s.bag.pieces.is_empty());
}

#[test]
fn restart_returns_to_the_title() {
    let mut s = GameSession::new();
    s.state = GameState::GameOver;
    s.tick(&Intents::default(), 16);
    assert_eq!(s.state, GameState::GameOver);
    let restart = Intents { restart: true, ..Intents::default() };
    s.tick(&restart, 16);
    assert_eq!(s.state, GameState::Title);
}

#[test]
fn horizontal_intent_moves_one_column() {
    let mut s = playing_session();
    s.active = Some(piece_at(PieceKind::O, 5, 10000));
    let right = Intents { move_right: true, ..Intents::default() };
    s.tick(&right, 0);
    assert_eq!(s.active.unwrap().pos.x, 6);
    let left = Intents { move_left: true, ..Intents::default() };
    s.tick(&left, 0);
    assert_eq!(s.active.unwrap().pos.x, 5);
    let both = Intents { move_left: true, move_right: true, ..Intents::default() };
    s.tick(&both, 0);
    assert_eq!(s.active.unwrap().pos.x, 5);
}

#[test]
fn the_wall_blocks_horizontal_movement() {
    let mut s = playing_session();
    // The O piece at column 9 occupies columns 8 and 9.
    s.active = Some(piece_at(PieceKind::O, 9, 10000));
    let right = Intents { move_right: true, ..Intents::default() };
    s.tick(&right, 0);
    assert_eq!(s.active.unwrap().pos.x, 9);
}

#[test]
fn a_colliding_rotation_is_reverted() {
    let mut s = playing_session();
    // An upright I at the left wall cannot lie down: its horizontal
    // form would reach two columns past the wall.
    let p = upright_i(0, 10000);
    let points_before = p.points;
    s.active = Some(p);
    let rotate = Intents { rotate_cw: true, ..Intents::default() };
    s.tick(&rotate, 0);
    assert_eq!(s.active.unwrap().points, points_before);
}

#[test]
fn a_free_rotation_is_kept() {
    let mut s = playing_session();
    let p = piece_at(PieceKind::T, 5, 10000);
    let points_before = p.points;
    s.active = Some(p);
    let rotate = Intents { rotate_cw: true, ..Intents::default() };
    s.tick(&rotate, 0);
    assert_ne!(s.active.unwrap().points, points_before);
}

#[test]
fn completing_a_row_clears_exactly_one_line() {
    let mut s = playing_session();
    for x in 0..BOARD_WIDTH - 1 {
        s.board.set_cell(x, 0, kind_index(PieceKind::L));
    }
    // An upright I over the gap column: it lands filling (9, 0).
    s.active = Some(upright_i(9, 22000));
    let hard = Intents { hard_drop: true, ..Intents::default() };
    let cleared = s.tick(&hard, 16);
    assert_eq!(cleared, 1);
    assert_eq!(s.scoring.lines(), 1);
    // The board keeps its full size after the clear.
    assert_eq!(s.board.state.len(), BOARD_WIDTH * BOARD_HEIGHT);
    // 20 rows descended at 2 points each, plus 100 times level + 1.
    assert_eq!(s.scoring.score(), 40 + 100);
    // The rest of the piece shifted down one row: column 9 holds three
    // cells on rows 0..=2, and the completed row's filling is gone.
    assert_eq!(s.board.cell(9, 0), kind_index(PieceKind::I));
    assert_eq!(s.board.cell(9, 1), kind_index(PieceKind::I));
    assert_eq!(s.board.cell(9, 2), kind_index(PieceKind::I));
    assert_eq!(s.board.cell(0, 0), EMPTY_SQUARE);
    assert!(s.active.is_none());
}

#[test]
fn four_simultaneous_rows_clear_in_one_placement() {
    let mut s = playing_session();
    for y in 0..4 {
        for x in 0..BOARD_WIDTH - 1 {
            s.board.set_cell(x, y, kind_index(PieceKind::J));
        }
    }
    s.active = Some(upright_i(9, 22000));
    let hard = Intents { hard_drop: true, ..Intents::default() };
    let cleared = s.tick(&hard, 16);
    assert_eq!(cleared, 4);
    assert_eq!(s.scoring.lines(), 4);
    assert_eq!(s.scoring.score(), 40 + 800);
    // All four rows cleared; nothing is left anywhere.
    for v in &s.board.state {
        assert_eq!(*v, EMPTY_SQUARE);
    }
    assert_eq!(s.state, GameState::Playing);
}

#[test]
fn landing_above_the_board_ends_the_game() {
    let mut s = playing_session();
    // A single occupied cell at the top of column 9 props the piece up
    // so that it rests entirely above the visible board.
    s.board.set_cell(9, BOARD_HEIGHT - 1, kind_index(PieceKind::S));
    s.active = Some(upright_i(9, 22000));
    let hard = Intents { hard_drop: true, ..Intents::default() };
    let cleared = s.tick(&hard, 16);
    assert_eq!(cleared, 0);
    assert_eq!(s.state, GameState::GameOver);
    // No line-clear processing and no commit happened.
    assert_eq!(s.scoring.score(), 0);
    assert_eq!(s.scoring.lines(), 0);
    let occupied = s
        .board
        .state
        .iter()
        .filter(|v| **v != EMPTY_SQUARE)
        .count();
    assert_eq!(occupied, 1);
    assert!(s.active.is_none());
}

#[test]
fn soft_drop_scores_nothing_while_the_piece_is_off_screen() {
    let mut s = playing_session();
    s.active = Some(piece_at(PieceKind::O, 5, 22000));
    let soft = Intents { soft_drop: true, ..Intents::default() };
    s.tick(&soft, 100);
    assert_eq!(s.scoring.score(), 0);
}

#[test]
fn soft_drop_scores_one_point_per_row_once_visible() {
    let mut s = playing_session();
    // The O piece at rows 9 and 10 is visible; a long soft drop lands
    // it on the floor, 9 rows down.
    s.active = Some(piece_at(PieceKind::O, 5, 10000));
    let soft = Intents { soft_drop: true, ..Intents::default() };
    let cleared = s.tick(&soft, 1000);
    assert_eq!(cleared, 0);
    assert_eq!(s.scoring.score(), 9);
    assert_eq!(s.scoring.lines(), 0);
    assert!(s.active.is_none());
    assert_eq!(s.board.cell(4, 0), kind_index(PieceKind::O));
    assert_eq!(s.board.cell(5, 1), kind_index(PieceKind::O));
}

#[test]
fn hard_drop_scores_two_points_per_row() {
    let mut s = playing_session();
    s.active = Some(piece_at(PieceKind::O, 5, 22000));
    let hard = Intents { hard_drop: true, ..Intents::default() };
    s.tick(&hard, 16);
    // 21 rows from the spawn row to the floor, at 2 points each.
    assert_eq!(s.scoring.score(), 42);
    assert!(s.active.is_none());
}

#[test]
fn plain_gravity_scores_nothing() {
    let mut s = playing_session();
    s.active = Some(piece_at(PieceKind::O, 5, 10000));
    s.tick(&Intents::default(), 1000);
    // One and a half cells of plain gravity: no points for descent.
    assert_eq!(s.scoring.score(), 0);
    let p = s.active.unwrap();
    assert_eq!(p.pos.y_milli, 8500);
}
