//! The game session: the Title → Playing → GameOver state machine that
//! owns the board, the bag, the scoring and the active piece. Each tick
//! applies the player's discrete intents in a fixed order — spawn if
//! needed, one horizontal step, one rotation, gravity — and, when the
//! piece lands, commits it, clears full rows from the top down, scores
//! them, and reports how many cleared.

use crate::board::BOARD_HEIGHT;
use crate::board::Board;
use crate::board::EMPTY_SQUARE;
use crate::board::board_wf;
use crate::board::cell_index;
use crate::board::clear_spec;
use crate::board::line_filled;
use crate::piece::Offset;
use crate::piece::Piece;
use crate::piece::PieceKind;
use crate::piece::Position;
use crate::piece::Rotation;
use crate::piece::kind_index;
use crate::piece::kind_points;
use crate::piece::lemma_kind_points_wf;
use crate::piece::lemma_piece_rotation_cycle;
use crate::piece::offset_wf;
use crate::piece::piece_wf;
use crate::piece::spec_cell_x;
use crate::piece::spec_cell_y;
use crate::piece::spec_grid_y;
use crate::piece::spec_kind_index;
use crate::piece::spec_kind_points;
use crate::piece::spec_rotate_points;
use crate::resolver::DropResult;
use crate::resolver::can_move;
use crate::resolver::lemma_first_block_props;
use crate::resolver::lemma_grid_shift;
use crate::resolver::piece_is_visible;
use crate::resolver::spec_blocked;
use crate::resolver::spec_can_move;
use crate::resolver::spec_drop_diff;
use crate::resolver::spec_first_block;
use crate::resolver::spec_in_stage;
use crate::resolver::spec_piece_visible;
use crate::resolver::spec_point_free;
use crate::resolver::spec_try_drop;
use crate::resolver::try_drop;
use crate::score::Scoring;
use crate::score::sat_add;
use crate::score::spec_clear_base;
use crate::shuffle_bag::ShuffleBag;
use crate::shuffle_bag::bag_step;
use vstd::arithmetic::div_mod::lemma_div_is_ordered;
use vstd::prelude::*;

verus! {

/// Gravity at level zero, in thousandths of a cell per second.
pub const FALL_SPEED_START_MILLI: u64 = 1500;

/// Extra gravity per level, in thousandths of a cell per second.
pub const FALL_SPEED_ACCEL_MILLI: u64 = 150;

/// Extra speed while a soft drop is held, in thousandths of a cell per
/// second.
pub const SOFT_DROP_SPEED_MILLI: u64 = 10000;

/// The distance a hard drop asks for, in thousandths of a cell: thirty
/// rows, enough to cross the whole stage from the spawn height.
pub const HARD_DROP_MILLI: u64 = 30000;

/// The spawn column: the middle of the board.
pub const SPAWN_X: i64 = 5;

/// The spawn height in thousandths of a cell: two rows above the
/// visible board, so a new piece falls into view.
pub const SPAWN_Y_MILLI: i64 = 22000;

/// The session's phase.
#[derive(Clone, Copy, PartialEq, Eq, Structural, Debug)]
pub enum GameState {
    Title,
    Playing,
    GameOver,
}

/// How the active piece is being pushed down during a tick.
#[derive(Clone, Copy, PartialEq, Eq, Structural, Debug)]
pub enum DropType {
    Normal,
    Soft,
    Hard,
}

/// The player's discrete intents for one tick.
#[derive(Clone, Copy, PartialEq, Eq, Structural, Debug, Default)]
pub struct Intents {
    pub move_left: bool,
    pub move_right: bool,
    pub rotate_cw: bool,
    pub rotate_ccw: bool,
    pub soft_drop: bool,
    pub hard_drop: bool,
    pub begin: bool,
    pub restart: bool,
}

/// One game: phase, board, sequencer, scoring and the active piece.
#[derive(Clone, Debug)]
pub struct GameSession {
    pub state: GameState,
    pub board: Board,
    pub bag: ShuffleBag,
    pub scoring: Scoring,
    pub active: Option<Piece>,
}

/// What the session keeps true of an active piece: well-formed offsets,
/// every cell inside the stage, and a position within the narrow band
/// between just below the floor and the spawn height.
pub open spec fn active_piece_ok(p: Piece) -> bool {
    &&& piece_wf(p)
    &&& forall|j: int| 0 <= j < 4
        ==> spec_in_stage(#[trigger] spec_cell_x(p.pos, p.points@, j), spec_cell_y(p.pos, p.points@, j))
    &&& -2000 <= p.pos.y_milli <= SPAWN_Y_MILLI
    &&& -2 <= p.pos.x <= 12
}

/// An all-empty, well-formed board.
pub open spec fn board_empty(b: Seq<usize>) -> bool {
    &&& board_wf(b)
    &&& forall|i: int| 0 <= i < b.len() ==> #[trigger] b[i] == EMPTY_SQUARE
}

/// Two optional pieces with the same kind, offsets and position.
pub open spec fn same_piece(a: Option<Piece>, b: Option<Piece>) -> bool {
    match (a, b) {
        (Option::None, Option::None) => true,
        (Option::Some(p), Option::Some(q)) => {
            &&& q.kind == p.kind
            &&& q.points@ == p.points@
            &&& q.pos == p.pos
        },
        _ => false,
    }
}

/// Everything but the active piece is the same.
pub open spec fn same_except_piece(s0: GameSession, s1: GameSession) -> bool {
    &&& s1.state == s0.state
    &&& s1.board.state@ == s0.board.state@
    &&& s1.bag.pieces@ == s0.bag.pieces@
    &&& s1.scoring == s0.scoring
}

/// Nothing observable changed.
pub open spec fn unchanged_session(s0: GameSession, s1: GameSession) -> bool {
    &&& same_except_piece(s0, s1)
    &&& same_piece(s0.active, s1.active)
}

impl GameSession {
    pub open spec fn inv(&self) -> bool {
        &&& self.board.wf()
        &&& match self.active {
            Option::Some(p) => self.state == GameState::Playing && active_piece_ok(p),
            Option::None => true,
        }
    }

    /// A fresh session at the title screen: empty board, empty bag,
    /// zero score, no active piece.
    pub fn new() -> (r: GameSession)
        ensures
            r.inv(),
            r.state == GameState::Title,
            r.active is None,
            r.scoring.score == 0 && r.scoring.lines == 0,
            r.bag.pieces@.len() == 0,
            board_empty(r.board.state@),
    {
        GameSession {
            state: GameState::Title,
            board: Board::new(),
            bag: ShuffleBag::new(),
            scoring: Scoring::new(),
            active: None,
        }
    }
}

/// A freshly begun game: playing, with everything reset and no piece
/// spawned yet.
pub open spec fn fresh_playing(s: GameSession) -> bool {
    &&& s.state == GameState::Playing
    &&& board_empty(s.board.state@)
    &&& s.bag.pieces@.len() == 0
    &&& s.scoring.score == 0 && s.scoring.lines == 0
    &&& s.active is None
}

/// The title screen: a begin intent starts play afresh; anything else
/// changes nothing.
pub open spec fn title_rel(s0: GameSession, s1: GameSession, i: Intents) -> bool {
    if i.begin {
        fresh_playing(s1)
    } else {
        unchanged_session(s0, s1)
    }
}

/// Game over: a restart intent returns to the title screen, keeping
/// the final board and score on display until play begins again;
/// anything else changes nothing.
pub open spec fn game_over_rel(s0: GameSession, s1: GameSession, i: Intents) -> bool {
    if i.restart {
        &&& s1.state == GameState::Title
        &&& s1.board.state@ == s0.board.state@
        &&& s1.bag.pieces@ == s0.bag.pieces@
        &&& s1.scoring == s0.scoring
        &&& s1.active is None
    } else {
        unchanged_session(s0, s1)
    }
}

/// Spawning: when no piece is active, one kind is drawn from the bag
/// and the new piece appears with its canonical offsets, centered, two
/// rows above the board; otherwise nothing changes.
pub open spec fn spawn_rel(s0: GameSession, s1: GameSession) -> bool {
    match s0.active {
        Option::Some(_) => unchanged_session(s0, s1),
        Option::None => match s1.active {
            Option::Some(p) => {
                &&& bag_step(s0.bag.pieces@, s1.bag.pieces@, p.kind)
                &&& p.points@ == spec_kind_points(p.kind)
                &&& p.pos == (Position { x: SPAWN_X, y_milli: SPAWN_Y_MILLI })
                &&& s1.board.state@ == s0.board.state@
                &&& s1.scoring == s0.scoring
                &&& s1.state == s0.state
            },
            Option::None => false,
        },
    }
}

/// The net horizontal intent: right minus left, so both at once cancel.
pub open spec fn spec_hor(i: Intents) -> int {
    (if i.move_right {
        1int
    } else {
        0int
    }) - (if i.move_left {
        1int
    } else {
        0int
    })
}

/// One horizontal step: with a single direction intended and no
/// collision one column over, the piece moves that column; otherwise
/// everything stays.
pub open spec fn horiz_rel(s0: GameSession, s1: GameSession, i: Intents) -> bool {
    match (s0.active, s1.active) {
        (Option::Some(p), Option::Some(q)) => {
            let hor = spec_hor(i);
            &&& same_except_piece(s0, s1)
            &&& q.kind == p.kind
            &&& q.points@ == p.points@
            &&& if hor != 0 && spec_can_move(s0.board.state@, p.pos, p.points@, hor, 0) {
                q.pos == (Position { x: (p.pos.x + hor) as i64, y_milli: p.pos.y_milli })
            } else {
                q.pos == p.pos
            }
        },
        _ => false,
    }
}

/// The net rotation intent; both directions at once cancel.
pub open spec fn spec_rot(i: Intents) -> Option<Rotation> {
    if i.rotate_cw && !i.rotate_ccw {
        Some(Rotation::Clockwise)
    } else if i.rotate_ccw && !i.rotate_cw {
        Some(Rotation::Counterclockwise)
    } else {
        None::<Rotation>
    }
}

/// One rotation step: the intended rotation is applied, and if the
/// rotated piece collides with anything it is rotated straight back,
/// leaving the offsets exactly as they were. No wall kick is tried.
pub open spec fn rot_rel(s0: GameSession, s1: GameSession, i: Intents) -> bool {
    match (s0.active, s1.active) {
        (Option::Some(p), Option::Some(q)) => {
            &&& same_except_piece(s0, s1)
            &&& q.kind == p.kind
            &&& q.pos == p.pos
            &&& match spec_rot(i) {
                Option::None => q.points@ == p.points@,
                Option::Some(dir) => {
                    let rp = spec_rotate_points(dir, p.points@);
                    if spec_can_move(s0.board.state@, p.pos, rp, 0, 0) {
                        q.points@ == rp
                    } else {
                        q.points@ == p.points@
                    }
                },
            }
        },
        _ => false,
    }
}

/// How the piece is being pushed down: a held soft drop counts only
/// while the piece is visible; otherwise a hard drop fires if asked;
/// otherwise plain gravity.
pub open spec fn spec_drop_type(pos: Position, ps: Seq<Offset>, i: Intents) -> DropType {
    if i.soft_drop && spec_piece_visible(pos, ps) {
        DropType::Soft
    } else if i.hard_drop {
        DropType::Hard
    } else {
        DropType::Normal
    }
}

pub open spec fn min2(a: int, b: int) -> int {
    if a <= b {
        a
    } else {
        b
    }
}

/// Gravity speed at a level, in thousandths of a cell per second: the
/// base speed plus one step per level, capped high enough that a tick
/// of one millisecond still asks for the full hard-drop distance, so
/// the cap is never observable through `spec_fall_milli`.
pub open spec fn spec_speed_milli(level: int) -> int {
    if FALL_SPEED_START_MILLI + FALL_SPEED_ACCEL_MILLI * level > 30000000 {
        30000000int
    } else {
        FALL_SPEED_START_MILLI + FALL_SPEED_ACCEL_MILLI * level
    }
}

/// The distance one tick's gravity asks for, in thousandths of a cell:
/// the level's speed — plus the soft-drop bonus while one is held —
/// scaled by the elapsed milliseconds, never more than the hard-drop
/// distance (which collision with the floor would cap anyway); a hard
/// drop asks for the full hard-drop distance at once.
pub open spec fn spec_fall_milli(level: int, dt_ms: u64, dtype: DropType) -> int {
    match dtype {
        DropType::Hard => HARD_DROP_MILLI as int,
        DropType::Soft => min2(
            (spec_speed_milli(level) + SOFT_DROP_SPEED_MILLI) * dt_ms / 1000,
            HARD_DROP_MILLI as int,
        ),
        DropType::Normal => min2(
            spec_speed_milli(level) * dt_ms / 1000,
            HARD_DROP_MILLI as int,
        ),
    }
}

/// Soft drops earn one point per whole row descended, hard drops two;
/// plain gravity earns nothing.
pub open spec fn spec_drop_score(sc: Scoring, dtype: DropType, rows: int) -> Scoring {
    if rows == 0 {
        sc
    } else {
        match dtype {
            DropType::Normal => sc,
            DropType::Soft => Scoring {
                score: sat_add(sc.score as int, rows) as usize,
                lines: sc.lines,
            },
            DropType::Hard => Scoring {
                score: sat_add(sc.score as int, 2 * rows) as usize,
                lines: sc.lines,
            },
        }
    }
}

/// The gravity step: the drop distance for this tick's drop type is
/// resolved against the board, the piece descends to the position the
/// resolver returns, and whole rows descended are scored for soft and
/// hard drops.
pub open spec fn grav_rel(
    s0: GameSession,
    s1: GameSession,
    i: Intents,
    dt_ms: u64,
    dr: DropResult,
) -> bool {
    match (s0.active, s1.active) {
        (Option::Some(p), Option::Some(q)) => {
            let dtype = spec_drop_type(p.pos, p.points@, i);
            let fall = spec_fall_milli(s0.scoring.lines as int / 10, dt_ms, dtype);
            &&& dr == spec_try_drop(s0.board.state@, p.pos, p.points@, fall)
            &&& q.kind == p.kind
            &&& q.points@ == p.points@
            &&& q.pos == (Position { x: p.pos.x, y_milli: dr.y_milli })
            &&& s1.board.state@ == s0.board.state@
            &&& s1.bag.pieces@ == s0.bag.pieces@
            &&& s1.state == s0.state
            &&& s1.scoring == spec_drop_score(s0.scoring, dtype, dr.rows as int)
        },
        _ => false,
    }
}

/// A landed cell lies at or above the top of the visible board: the
/// stack has overflowed.
pub open spec fn spec_overflowed(pos: Position, ps: Seq<Offset>) -> bool {
    exists|j: int| 0 <= j < 4 && #[trigger] spec_cell_y(pos, ps, j) >= BOARD_HEIGHT
}

/// The board with the piece's four cells committed under its kind
/// index, in point order.
pub open spec fn spec_commit(b: Seq<usize>, pos: Position, ps: Seq<Offset>, k: PieceKind) -> Seq<
    usize,
> {
    b.update(cell_index(spec_cell_x(pos, ps, 0), spec_cell_y(pos, ps, 0)), spec_kind_index(k))
        .update(cell_index(spec_cell_x(pos, ps, 1), spec_cell_y(pos, ps, 1)), spec_kind_index(k))
        .update(cell_index(spec_cell_x(pos, ps, 2), spec_cell_y(pos, ps, 2)), spec_kind_index(k))
        .update(cell_index(spec_cell_x(pos, ps, 3), spec_cell_y(pos, ps, 3)), spec_kind_index(k))
}

/// The piece has a cell on row r.
pub open spec fn spec_touches(pos: Position, ps: Seq<Offset>, r: int) -> bool {
    exists|j: int| 0 <= j < 4 && #[trigger] spec_cell_y(pos, ps, j) == r
}

/// Sweep rows from `row` down to 0, highest first so clearing never
/// disturbs a row still to be examined: each row the piece touches
/// that is fully filled is cleared, and the cleared rows are counted.
pub open spec fn spec_clear_rows(b: Seq<usize>, pos: Position, ps: Seq<Offset>, row: int) -> (
    Seq<usize>,
    int,
)
    decreases row + 1,
{
    if row < 0 {
        (b, 0int)
    } else {
        if spec_touches(pos, ps, row) && line_filled(b, row) {
            let rest = spec_clear_rows(clear_spec(b, row), pos, ps, row - 1);
            (rest.0, rest.1 + 1)
        } else {
            spec_clear_rows(b, pos, ps, row - 1)
        }
    }
}

/// What `Scoring::line_clears` does, written over values.
pub open spec fn spec_line_score(sc: Scoring, lines: int) -> Scoring {
    if lines == 0 {
        sc
    } else {
        Scoring {
            score: sat_add(
                sc.score as int,
                if spec_clear_base(lines) * (sc.lines as int / 10 + 1) > usize::MAX {
                    usize::MAX as int
                } else {
                    spec_clear_base(lines) * (sc.lines as int / 10 + 1)
                },
            ) as usize,
            lines: sat_add(sc.lines as int, lines) as usize,
        }
    }
}

/// Placement: if any landed cell lies at or above the visible board's
/// top, the session ends — nothing is committed, nothing cleared and
/// nothing scored. Otherwise the four cells are committed, the touched
/// rows that are full are cleared from the top down, the clear count is
/// scored, and play continues without an active piece.
pub open spec fn place_rel(s0: GameSession, s1: GameSession, cleared: usize) -> bool {
    match s0.active {
        Option::Some(p) => {
            if spec_overflowed(p.pos, p.points@) {
                &&& s1.state == GameState::GameOver
                &&& s1.active is None
                &&& s1.board.state@ == s0.board.state@
                &&& s1.bag.pieces@ == s0.bag.pieces@
                &&& s1.scoring == s0.scoring
                &&& cleared == 0
            } else {
                let committed = spec_commit(s0.board.state@, p.pos, p.points@, p.kind);
                let swept = spec_clear_rows(committed, p.pos, p.points@, BOARD_HEIGHT - 1);
                &&& s1.state == GameState::Playing
                &&& s1.active is None
                &&& s1.board.state@ == swept.0
                &&& s1.bag.pieces@ == s0.bag.pieces@
                &&& cleared == swept.1
                &&& s1.scoring == spec_line_score(s0.scoring, swept.1)
            }
        },
        Option::None => false,
    }
}

/// One Playing tick, as the composition of its stages in their fixed
/// order: spawn if needed, at most one horizontal step, at most one
/// rotation, gravity with drop scoring, and — only if the piece hit —
/// placement with line clearing.
pub open spec fn playing_rel(
    s0: GameSession,
    s1: GameSession,
    i: Intents,
    dt_ms: u64,
    cleared: usize,
) -> bool {
    exists|sa: GameSession, sb: GameSession, sc: GameSession, sd: GameSession, dr: DropResult|
        #![trigger spawn_rel(s0, sa), horiz_rel(sa, sb, i), rot_rel(sb, sc, i), grav_rel(sc, sd, i, dt_ms, dr)]
        {
            &&& spawn_rel(s0, sa)
            &&& horiz_rel(sa, sb, i)
            &&& rot_rel(sb, sc, i)
            &&& grav_rel(sc, sd, i, dt_ms, dr)
            &&& if dr.hit {
                place_rel(sd, s1, cleared)
            } else {
                unchanged_session(sd, s1) && cleared == 0
            }
        }
}

/// The gravity distance for one tick of `dt_ms` milliseconds, for
/// plain gravity or a held soft drop.
fn fall_distance(level: usize, dt_ms: u64, soft: bool) -> (r: u64)
    ensures
        r as int == spec_fall_milli(
            level as int,
            dt_ms,
            if soft {
                DropType::Soft
            } else {
                DropType::Normal
            },
        ),
        r <= HARD_DROP_MILLI,
{
    proof {
        assert(150u128 * (level as u128) <= 150u128 * 0xffffffffffffffffu128) by (nonlinear_arith)
            requires
                level as u128 <= 0xffffffffffffffffu128,
        ;
    }
    let base: u128 = 1500u128 + 150u128 * (level as u128);
    let capped: u128 = if base > 30000000 {
        30000000
    } else {
        base
    };
    let speed: u128 = if soft {
        capped + 10000
    } else {
        capped
    };
    proof {
        assert(speed * (dt_ms as u128) <= 30010000u128 * 0xffffffffffffffffu128)
            by (nonlinear_arith)
            requires
                speed <= 30010000u128,
                dt_ms as u128 <= 0xffffffffffffffffu128,
        ;
    }
    let prod: u128 = speed * (dt_ms as u128);
    let fall: u128 = prod / 1000;
    if fall > 30000 {
        30000
    } else {
        fall as u64
    }
}

/// From cells inside the stage, the pivot row is at worst one below
/// the floor, so the vertical position is at worst one whole cell
/// below zero.
proof fn lemma_stage_y_lower(p: Piece)
    requires
        piece_wf(p),
        forall|j: int| 0 <= j < 4
            ==> spec_in_stage(#[trigger] spec_cell_x(p.pos, p.points@, j), spec_cell_y(p.pos, p.points@, j)),
    ensures
        p.pos.y_milli >= -1000,
{
    assert(spec_in_stage(spec_cell_x(p.pos, p.points@, 0), spec_cell_y(p.pos, p.points@, 0)));
    assert(offset_wf(p.points@[0]));
    assert(p.points@[0].y2 as int / 2 <= 1);
    assert(spec_grid_y(p.pos) >= -1);
    if p.pos.y_milli < -1000 {
        lemma_div_is_ordered(p.pos.y_milli as int, -1001, 1000);
        assert((-1001int) / 1000 == -2);
    }
}

/// From cells inside the stage, the pivot column stays close to the
/// board.
proof fn lemma_stage_x_band(p: Piece)
    requires
        piece_wf(p),
        forall|j: int| 0 <= j < 4
            ==> spec_in_stage(#[trigger] spec_cell_x(p.pos, p.points@, j), spec_cell_y(p.pos, p.points@, j)),
    ensures
        -2 <= p.pos.x <= 12,
{
    assert(spec_in_stage(spec_cell_x(p.pos, p.points@, 0), spec_cell_y(p.pos, p.points@, 0)));
    assert(offset_wf(p.points@[0]));
    assert(-2 <= p.points@[0].x2 as int / 2 <= 1);
}

/// A freshly spawned piece satisfies the session's piece invariant.
proof fn lemma_spawn_ok(p: Piece)
    requires
        p.points@ == spec_kind_points(p.kind),
        p.pos == (Position { x: SPAWN_X, y_milli: SPAWN_Y_MILLI }),
    ensures
        active_piece_ok(p),
{
    lemma_kind_points_wf(p.kind);
    assert(22000int / 1000 == 22);
    assert(spec_grid_y(p.pos) == 22);
    assert forall|j: int| 0 <= j < 4 implies spec_in_stage(
        #[trigger] spec_cell_x(p.pos, p.points@, j),
        spec_cell_y(p.pos, p.points@, j),
    ) by {
        assert(offset_wf(p.points@[j]));
    }
}

/// A legal one-column move keeps the piece invariant.
proof fn lemma_horiz_ok(b: Seq<usize>, p0: Piece, p1: Piece, hor: int)
    requires
        active_piece_ok(p0),
        -1 <= hor <= 1,
        spec_can_move(b, p0.pos, p0.points@, hor, 0),
        p1.points@ == p0.points@,
        p1.pos == (Position { x: (p0.pos.x + hor) as i64, y_milli: p0.pos.y_milli }),
    ensures
        active_piece_ok(p1),
{
    assert forall|j: int| 0 <= j < 4 implies spec_in_stage(
        #[trigger] spec_cell_x(p1.pos, p1.points@, j),
        spec_cell_y(p1.pos, p1.points@, j),
    ) by {
        assert(spec_point_free(b, p0.pos, p0.points@, hor, 0, j));
        assert(spec_cell_x(p1.pos, p1.points@, j) == spec_cell_x(p0.pos, p0.points@, j) + hor);
        assert(spec_cell_y(p1.pos, p1.points@, j) == spec_cell_y(p0.pos, p0.points@, j));
    }
    lemma_stage_x_band(p1);
}

/// A rotation that collides with nothing keeps the piece invariant;
/// the position does not change.
proof fn lemma_rot_ok(b: Seq<usize>, p0: Piece, p1: Piece)
    requires
        active_piece_ok(p0),
        piece_wf(p1),
        p1.pos == p0.pos,
        spec_can_move(b, p1.pos, p1.points@, 0, 0),
    ensures
        active_piece_ok(p1),
{
    assert forall|j: int| 0 <= j < 4 implies spec_in_stage(
        #[trigger] spec_cell_x(p1.pos, p1.points@, j),
        spec_cell_y(p1.pos, p1.points@, j),
    ) by {
        assert(spec_point_free(b, p1.pos, p1.points@, 0, 0, j));
    }
}

/// Gravity's result keeps the piece invariant: the resolver never
/// moves a piece past its first blocked row, so its cells stay inside
/// the stage and it only ever descends.
proof fn lemma_gravity_ok(b: Seq<usize>, p0: Piece, p1: Piece, fall: int, dr: DropResult)
    requires
        active_piece_ok(p0),
        0 <= fall <= 30000,
        dr == spec_try_drop(b, p0.pos, p0.points@, fall),
        p1.points@ == p0.points@,
        p1.pos == (Position { x: p0.pos.x, y_milli: dr.y_milli }),
    ensures
        active_piece_ok(p1),
        p1.pos.y_milli <= p0.pos.y_milli,
{
    let pos = p0.pos;
    let ps = p0.points@;
    let diff = spec_drop_diff(pos, fall);
    lemma_first_block_props(b, pos, ps, diff);
    lemma_div_is_ordered(pos.y_milli - fall, pos.y_milli as int, 1000);
    assert(diff >= 0);
    lemma_div_is_ordered(pos.y_milli as int, 22000, 1000);
    assert(22000int / 1000 == 22);
    lemma_div_is_ordered(-32000, pos.y_milli - fall, 1000);
    assert((-32000int) / 1000 == -32);
    assert(diff <= 54);
    let moved: int = if dr.hit {
        match spec_first_block(b, pos, ps, diff) {
            Option::Some(yb) => yb - 1,
            Option::None => 0int,
        }
    } else {
        diff
    };
    assert(0 <= moved <= diff);
    if moved >= 1 {
        assert(!spec_blocked(b, pos, ps, moved));
        assert(spec_can_move(b, pos, ps, 0, -moved));
    }
    if dr.hit {
        assert(dr.y_milli == pos.y_milli - moved * 1000);
        lemma_grid_shift(pos.y_milli as int, moved);
        assert(spec_grid_y(p1.pos) == spec_grid_y(pos) - moved);
    } else {
        assert(dr.y_milli == pos.y_milli - fall);
        assert(spec_grid_y(p1.pos) == spec_grid_y(pos) - moved);
    }
    assert forall|j: int| 0 <= j < 4 implies spec_in_stage(
        #[trigger] spec_cell_x(p1.pos, ps, j),
        spec_cell_y(p1.pos, ps, j),
    ) by {
        if moved >= 1 {
            assert(spec_point_free(b, pos, ps, 0, -moved, j));
        } else {
            assert(spec_in_stage(spec_cell_x(pos, ps, j), spec_cell_y(pos, ps, j)));
        }
        assert(spec_cell_y(p1.pos, ps, j) == spec_cell_y(pos, ps, j) - moved);
        assert(spec_cell_x(p1.pos, ps, j) == spec_cell_x(pos, ps, j));
    }
    lemma_stage_y_lower(p1);
    assert(active_piece_ok(p1));
}

impl GameSession {
    /// Commit the landed piece: either the stack overflows and the
    /// session ends, or the cells are written, full touched rows are
    /// cleared from the top down, and the clear count is scored.
    fn place_piece(&mut self, piece: Piece) -> (cleared: usize)
        requires
            old(self).inv(),
            old(self).state == GameState::Playing,
            active_piece_ok(piece),
            same_piece(old(self).active, Some(piece)),
        ensures
            final(self).inv(),
            place_rel(*old(self), *final(self), cleared),
    {
        let ghost pos = piece.pos;
        let ghost ps = piece.points@;
        let ghost b0 = self.board.state@;
        let cells = piece.grid_points();
        let h = BOARD_HEIGHT as i64;
        let overflow = cells[0].y >= h || cells[1].y >= h || cells[2].y >= h || cells[3].y >= h;
        proof {
            if overflow {
                if cells@[0].y >= h {
                    assert(spec_cell_y(pos, ps, 0) >= BOARD_HEIGHT);
                } else if cells@[1].y >= h {
                    assert(spec_cell_y(pos, ps, 1) >= BOARD_HEIGHT);
                } else if cells@[2].y >= h {
                    assert(spec_cell_y(pos, ps, 2) >= BOARD_HEIGHT);
                } else {
                    assert(spec_cell_y(pos, ps, 3) >= BOARD_HEIGHT);
                }
                assert(spec_overflowed(pos, ps));
            } else {
                assert forall|j: int| 0 <= j < 4 implies !(#[trigger] spec_cell_y(pos, ps, j)
                    >= BOARD_HEIGHT) by {
                    if j == 0 {
                    } else if j == 1 {
                    } else if j == 2 {
                    } else {
                        assert(j == 3);
                    }
                }
                assert(!spec_overflowed(pos, ps));
            }
        }
        if overflow {
            self.active = None;
            self.state = GameState::GameOver;
            return 0;
        }
        let idx = kind_index(piece.kind);
        proof {
            assert(spec_in_stage(spec_cell_x(pos, ps, 0), spec_cell_y(pos, ps, 0)));
            assert(spec_in_stage(spec_cell_x(pos, ps, 1), spec_cell_y(pos, ps, 1)));
            assert(spec_in_stage(spec_cell_x(pos, ps, 2), spec_cell_y(pos, ps, 2)));
            assert(spec_in_stage(spec_cell_x(pos, ps, 3), spec_cell_y(pos, ps, 3)));
        }
        self.board.set_cell(cells[0].x as usize, cells[0].y as usize, idx);
        self.board.set_cell(cells[1].x as usize, cells[1].y as usize, idx);
        self.board.set_cell(cells[2].x as usize, cells[2].y as usize, idx);
        self.board.set_cell(cells[3].x as usize, cells[3].y as usize, idx);
        proof {
            assert(self.board.state@ == spec_commit(b0, pos, ps, piece.kind));
        }
        let ghost committed = self.board.state@;
        let mut cleared: usize = 0;
        let mut row: usize = BOARD_HEIGHT;
        while row > 0
            invariant
                self.board.wf(),
                row <= BOARD_HEIGHT,
                cells@.len() == 4,
                forall|j: int| 0 <= j < 4
                    ==> (#[trigger] cells@[j]).y as int == spec_cell_y(pos, ps, j),
                spec_clear_rows(committed, pos, ps, BOARD_HEIGHT - 1).0 == spec_clear_rows(
                    self.board.state@,
                    pos,
                    ps,
                    row as int - 1,
                ).0,
                spec_clear_rows(committed, pos, ps, BOARD_HEIGHT - 1).1 == cleared
                    + spec_clear_rows(self.board.state@, pos, ps, row as int - 1).1,
                cleared + row <= BOARD_HEIGHT,
                self.state == old(self).state,
                self.bag.pieces@ == old(self).bag.pieces@,
                self.scoring == old(self).scoring,
                self.active == old(self).active,
            decreases row,
        {
            row = row - 1;
            let r64 = row as i64;
            let touched = cells[0].y == r64 || cells[1].y == r64 || cells[2].y == r64
                || cells[3].y == r64;
            proof {
                if touched {
                    if cells@[0].y == r64 {
                        assert(spec_cell_y(pos, ps, 0) == row as int);
                    } else if cells@[1].y == r64 {
                        assert(spec_cell_y(pos, ps, 1) == row as int);
                    } else if cells@[2].y == r64 {
                        assert(spec_cell_y(pos, ps, 2) == row as int);
                    } else {
                        assert(spec_cell_y(pos, ps, 3) == row as int);
                    }
                    assert(spec_touches(pos, ps, row as int));
                } else {
                    assert forall|j: int| 0 <= j < 4 implies !(#[trigger] spec_cell_y(pos, ps, j)
                        == row as int) by {
                        if j == 0 {
                        } else if j == 1 {
                        } else if j == 2 {
                        } else {
                            assert(j == 3);
                        }
                    }
                    assert(!spec_touches(pos, ps, row as int));
                }
            }
            if touched && self.board.is_line_filled(row) {
                self.board.clear_line(row);
                cleared = cleared + 1;
            }
        }
        proof {
            assert(spec_clear_rows(self.board.state@, pos, ps, -1)
                == (self.board.state@, 0int));
        }
        let ghost sweep = spec_clear_rows(committed, pos, ps, BOARD_HEIGHT - 1);
        proof {
            assert(sweep.0 == self.board.state@);
            assert(sweep.1 == cleared as int);
        }
        self.scoring.line_clears(cleared);
        proof {
            assert(self.scoring == spec_line_score(old(self).scoring, cleared as int));
        }
        self.active = None;
        cleared
    }

    /// One simulation tick. At the title, a begin intent starts play
    /// with a fresh board, bag and score. After a game over, a restart
    /// intent returns to the title. While playing, the tick spawns a
    /// piece if none is active, applies at most one horizontal step and
    /// one rotation (a colliding rotation is reverted), lets gravity
    /// act for `dt_ms` milliseconds — sped up by a held soft drop,
    /// replaced by a hard drop — and, when the piece lands, places it,
    /// clears full rows and scores them, or ends the session if the
    /// stack overflowed. Returns how many lines this tick cleared.
    pub fn tick(&mut self, intents: &Intents, dt_ms: u64) -> (cleared: usize)
        requires
            old(self).inv(),
        ensures
            final(self).inv(),
            old(self).state == GameState::Title ==> cleared == 0 && title_rel(
                *old(self),
                *final(self),
                *intents,
            ),
            old(self).state == GameState::GameOver ==> cleared == 0 && game_over_rel(
                *old(self),
                *final(self),
                *intents,
            ),
            old(self).state == GameState::Playing ==> playing_rel(
                *old(self),
                *final(self),
                *intents,
                dt_ms,
                cleared,
            ),
    {
        match self.state {
            GameState::Title => {
                if intents.begin {
                    self.board.reset();
                    self.bag = ShuffleBag::new();
                    self.scoring = Scoring::new();
                    self.active = None;
                    self.state = GameState::Playing;
                }
                0
            },
            GameState::GameOver => {
                if intents.restart {
                    self.state = GameState::Title;
                }
                0
            },
            GameState::Playing => self.tick_playing(intents, dt_ms),
        }
    }

    /// The Playing tick: spawn, horizontal step, rotation, gravity,
    /// and placement when the piece lands.
    fn tick_playing(&mut self, intents: &Intents, dt_ms: u64) -> (cleared: usize)
        requires
            old(self).inv(),
            old(self).state == GameState::Playing,
        ensures
            final(self).inv(),
            playing_rel(*old(self), *final(self), *intents, dt_ms, cleared),
    {
        let ghost s0 = *self;
        // Spawn a piece when none is active.
        if self.active.is_none() {
            let k = self.bag.get_piece();
            let pts = kind_points(k);
            let piece = Piece {
                kind: k,
                points: pts,
                pos: Position { x: SPAWN_X, y_milli: SPAWN_Y_MILLI },
            };
            proof {
                lemma_spawn_ok(piece);
            }
            self.active = Some(piece);
        }
        let ghost sa = *self;
        proof {
            assert(spawn_rel(s0, sa));
        }
        let mut piece = self.active.unwrap();
        let ghost b = self.board.state@;

        // At most one horizontal step.
        let hor: i64 = if intents.move_right && !intents.move_left {
            1
        } else if intents.move_left && !intents.move_right {
            -1
        } else {
            0
        };
        if hor != 0 && can_move(&self.board, &piece, hor, 0) {
            let ghost before = piece;
            piece.pos.x = piece.pos.x + hor;
            proof {
                lemma_horiz_ok(b, before, piece, hor as int);
            }
        }
        self.active = Some(piece);
        let ghost sb = *self;
        proof {
            assert(horiz_rel(sa, sb, *intents));
            assert(sb.inv());
        }

        // At most one rotation, reverted if it collides.
        let rot: Option<Rotation> = if intents.rotate_cw && !intents.rotate_ccw {
            Some(Rotation::Clockwise)
        } else if intents.rotate_ccw && !intents.rotate_cw {
            Some(Rotation::Counterclockwise)
        } else {
            None
        };
        if let Some(dir) = rot {
            let ghost before = piece;
            piece.rotate(dir);
            if !can_move(&self.board, &piece, 0, 0) {
                piece.rotate(dir.opposite());
                proof {
                    lemma_piece_rotation_cycle(before.points@);
                    assert(piece.points@ == before.points@);
                }
            } else {
                proof {
                    lemma_rot_ok(b, before, piece);
                }
            }
        }
        self.active = Some(piece);
        let ghost sc2 = *self;
        proof {
            assert(rot_rel(sb, sc2, *intents));
            assert(sc2.inv());
        }

        // Gravity: resolve the drop and score descended rows.
        let level = self.scoring.level();
        let soft_active = intents.soft_drop && piece_is_visible(&piece);
        let ghost dtype_g = spec_drop_type(piece.pos, piece.points@, *intents);
        let fall: u64 = if soft_active {
            fall_distance(level, dt_ms, true)
        } else if intents.hard_drop {
            HARD_DROP_MILLI
        } else {
            fall_distance(level, dt_ms, false)
        };
        proof {
            assert(fall as int == spec_fall_milli(sc2.scoring.lines as int / 10, dt_ms, dtype_g));
        }
        let dr = try_drop(&self.board, &piece, fall);
        if dr.rows > 0 {
            if soft_active {
                self.scoring.soft_drop(dr.rows);
            } else if intents.hard_drop {
                self.scoring.hard_drop(dr.rows);
            }
        }
        let ghost before = piece;
        piece.pos.y_milli = dr.y_milli;
        proof {
            lemma_gravity_ok(b, before, piece, fall as int, dr);
        }
        self.active = Some(piece);
        let ghost sd = *self;
        proof {
            assert(grav_rel(sc2, sd, *intents, dt_ms, dr));
            assert(sd.inv());
        }

        // Place the piece if it landed.
        let cleared: usize = if dr.hit {
            self.place_piece(piece)
        } else {
            0
        };
        proof {
            if dr.hit {
                assert(place_rel(sd, *self, cleared));
            } else {
                assert(unchanged_session(sd, *self));
            }
            assert(playing_rel(s0, *self, *intents, dt_ms, cleared));
        }
        cleared
    }
}

} // verus!
