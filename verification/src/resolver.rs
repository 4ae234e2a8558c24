//! Collision and drop resolution: the two spatial predicates for the
//! stage and the visible board, the collision test `can_move`, and the
//! gravity resolver `try_drop`, which descends a piece through every
//! whole row it crosses and stops it at the first blocked one.

use crate::board::BOARD_HEIGHT;
use crate::board::BOARD_WIDTH;
use crate::board::Board;
use crate::board::EMPTY_SQUARE;
use crate::board::cell_index;
use crate::piece::Offset;
use crate::piece::Piece;
use crate::piece::Position;
use crate::piece::div_floor;
use crate::piece::piece_wf;
use crate::piece::spec_cell_x;
use crate::piece::spec_cell_y;
use crate::piece::spec_grid_y;
use vstd::arithmetic::div_mod::lemma_div_is_ordered;
use vstd::arithmetic::div_mod::lemma_div_multiples_vanish_fancy;
use vstd::arithmetic::div_mod::lemma_fundamental_div_mod;
use vstd::prelude::*;

verus! {

/// Positions a falling piece may pass through: inside the side walls
/// and not below the floor. There is no ceiling, because pieces spawn
/// above the visible board and fall into view.
pub open spec fn spec_in_stage(x: int, y: int) -> bool {
    &&& 0 <= x < BOARD_WIDTH
    &&& 0 <= y
}

pub fn in_stage(x: i64, y: i64) -> (r: bool)
    ensures
        r == spec_in_stage(x as int, y as int),
{
    0 <= x && x < BOARD_WIDTH as i64 && 0 <= y
}

/// Positions on the visible board, where cells can be committed.
pub open spec fn spec_in_bounds(x: int, y: int) -> bool {
    &&& 0 <= x < BOARD_WIDTH
    &&& 0 <= y < BOARD_HEIGHT
}

pub fn in_bounds(x: i64, y: i64) -> (r: bool)
    ensures
        r == spec_in_bounds(x as int, y as int),
{
    0 <= x && x < BOARD_WIDTH as i64 && 0 <= y && y < BOARD_HEIGHT as i64
}

/// The cell value at a position, when the position lies on the visible
/// board; nothing otherwise.
pub fn get_tile(board: &Board, x: i64, y: i64) -> (r: Option<usize>)
    requires
        board.wf(),
    ensures
        spec_in_bounds(x as int, y as int)
            ==> r == Some(board.state@[cell_index(x as int, y as int)]),
        !spec_in_bounds(x as int, y as int) ==> r is None,
{
    if in_bounds(x, y) {
        Some(board.cell(x as usize, y as usize))
    } else {
        None
    }
}

/// A target cell is acceptable when it is on the visible board and
/// empty, or off the visible board but still inside the stage.
pub open spec fn spec_cell_free(b: Seq<usize>, x: int, y: int) -> bool {
    if spec_in_bounds(x, y) {
        b[cell_index(x, y)] == EMPTY_SQUARE
    } else {
        spec_in_stage(x, y)
    }
}

/// Point number j of a piece at `pos` with offsets `ps`, displaced by
/// (dx, dy) whole cells, lands on an acceptable cell.
pub open spec fn spec_point_free(
    b: Seq<usize>,
    pos: Position,
    ps: Seq<Offset>,
    dx: int,
    dy: int,
    j: int,
) -> bool {
    spec_cell_free(b, spec_cell_x(pos, ps, j) + dx, spec_cell_y(pos, ps, j) + dy)
}

/// The piece may be displaced by (dx, dy) whole cells: every cell it
/// would then occupy is acceptable.
pub open spec fn spec_can_move(
    b: Seq<usize>,
    pos: Position,
    ps: Seq<Offset>,
    dx: int,
    dy: int,
) -> bool {
    forall|j: int| 0 <= j < 4 ==> #[trigger] spec_point_free(b, pos, ps, dx, dy, j)
}

fn cell_free(board: &Board, x: i64, y: i64) -> (r: bool)
    requires
        board.wf(),
    ensures
        r == spec_cell_free(board.state@, x as int, y as int),
{
    match get_tile(board, x, y) {
        Some(tile) => tile == EMPTY_SQUARE,
        None => in_stage(x, y),
    }
}

/// May the piece move by (dx, dy) whole cells? True exactly when every
/// target cell is empty or above the visible board; a target cell that
/// is on the board and occupied, or outside the stage, blocks the move.
pub fn can_move(board: &Board, piece: &Piece, dx: i64, dy: i64) -> (r: bool)
    requires
        board.wf(),
        piece_wf(*piece),
        -1000000 <= dx <= 1000000,
        -10000000000 <= dy <= 10000000000,
    ensures
        r == spec_can_move(board.state@, piece.pos, piece.points@, dx as int, dy as int),
{
    let cells = piece.grid_points();
    let c0 = cell_free(board, cells[0].x + dx, cells[0].y + dy);
    let c1 = cell_free(board, cells[1].x + dx, cells[1].y + dy);
    let c2 = cell_free(board, cells[2].x + dx, cells[2].y + dy);
    let c3 = cell_free(board, cells[3].x + dx, cells[3].y + dy);
    let r = c0 && c1 && c2 && c3;
    proof {
        let b = board.state@;
        let pos = piece.pos;
        let ps = piece.points@;
        let dxi = dx as int;
        let dyi = dy as int;
        assert(c0 == spec_point_free(b, pos, ps, dxi, dyi, 0));
        assert(c1 == spec_point_free(b, pos, ps, dxi, dyi, 1));
        assert(c2 == spec_point_free(b, pos, ps, dxi, dyi, 2));
        assert(c3 == spec_point_free(b, pos, ps, dxi, dyi, 3));
        if r {
            assert forall|j: int| 0 <= j < 4 implies #[trigger] spec_point_free(
                b,
                pos,
                ps,
                dxi,
                dyi,
                j,
            ) by {
                if j == 0 {
                } else if j == 1 {
                } else if j == 2 {
                } else {
                    assert(j == 3);
                }
            }
        }
    }
    r
}

/// Point number j of the piece lies on the visible board.
pub open spec fn spec_point_visible(pos: Position, ps: Seq<Offset>, j: int) -> bool {
    spec_in_bounds(spec_cell_x(pos, ps, j), spec_cell_y(pos, ps, j))
}

/// A piece is visible when at least one of its cells lies on the
/// visible board; soft-drop points are only awarded while this holds.
pub open spec fn spec_piece_visible(pos: Position, ps: Seq<Offset>) -> bool {
    exists|j: int| 0 <= j < 4 && #[trigger] spec_point_visible(pos, ps, j)
}

pub fn piece_is_visible(piece: &Piece) -> (r: bool)
    requires
        piece_wf(*piece),
    ensures
        r == spec_piece_visible(piece.pos, piece.points@),
{
    let cells = piece.grid_points();
    let v0 = in_bounds(cells[0].x, cells[0].y);
    let v1 = in_bounds(cells[1].x, cells[1].y);
    let v2 = in_bounds(cells[2].x, cells[2].y);
    let v3 = in_bounds(cells[3].x, cells[3].y);
    let r = v0 || v1 || v2 || v3;
    proof {
        let pos = piece.pos;
        let ps = piece.points@;
        assert(v0 == spec_point_visible(pos, ps, 0));
        assert(v1 == spec_point_visible(pos, ps, 1));
        assert(v2 == spec_point_visible(pos, ps, 2));
        assert(v3 == spec_point_visible(pos, ps, 3));
    }
    r
}

/// The piece cannot descend by exactly dy whole rows.
pub open spec fn spec_blocked(b: Seq<usize>, pos: Position, ps: Seq<Offset>, dy: int) -> bool {
    !spec_can_move(b, pos, ps, 0, -dy)
}

/// The least row count, between 1 and n, at which descent is blocked,
/// if there is one.
pub open spec fn spec_first_block(
    b: Seq<usize>,
    pos: Position,
    ps: Seq<Offset>,
    n: int,
) -> Option<int>
    decreases n,
{
    if n <= 0 {
        None::<int>
    } else {
        match spec_first_block(b, pos, ps, n - 1) {
            Some(y) => Some(y),
            None => if spec_blocked(b, pos, ps, n) {
                Some(n)
            } else {
                None::<int>
            },
        }
    }
}

proof fn lemma_first_block_found(b: Seq<usize>, pos: Position, ps: Seq<Offset>, y: int, n: int)
    requires
        1 <= y <= n,
        spec_first_block(b, pos, ps, y - 1) is None,
        spec_blocked(b, pos, ps, y),
    ensures
        spec_first_block(b, pos, ps, n) == Some(y),
    decreases n,
{
    if n > y {
        lemma_first_block_found(b, pos, ps, y, n - 1);
    }
}

/// What the first-block search means: a found row is blocked and every
/// smaller descent is free; when none is found, every descent up to n
/// is free.
pub proof fn lemma_first_block_props(b: Seq<usize>, pos: Position, ps: Seq<Offset>, n: int)
    ensures
        match spec_first_block(b, pos, ps, n) {
            Some(y) => 1 <= y <= n && spec_blocked(b, pos, ps, y) && (forall|z: int|
                1 <= z < y ==> !spec_blocked(b, pos, ps, z)),
            None => forall|z: int| 1 <= z <= n ==> !spec_blocked(b, pos, ps, z),
        },
    decreases n,
{
    if n > 0 {
        lemma_first_block_props(b, pos, ps, n - 1);
    }
}

/// Result of a drop attempt: the vertical position reached, whether a
/// collision cut the descent short, and the whole rows descended.
#[derive(Clone, Copy, PartialEq, Eq, Structural, Debug)]
pub struct DropResult {
    pub y_milli: i64,
    pub hit: bool,
    pub rows: usize,
}

/// How many whole rows a descent of `dist` thousandths would cross.
pub open spec fn spec_drop_diff(pos: Position, dist: int) -> int {
    spec_grid_y(pos) - (pos.y_milli - dist) / 1000
}

/// What `try_drop` returns: if some row between 1 and the crossed count
/// is blocked, the piece stops just above the first such row, having
/// descended one row less than the blocking count; otherwise it moves
/// the full distance.
pub open spec fn spec_try_drop(
    b: Seq<usize>,
    pos: Position,
    ps: Seq<Offset>,
    dist: int,
) -> DropResult {
    let diff = spec_drop_diff(pos, dist);
    match spec_first_block(b, pos, ps, diff) {
        Some(y) => DropResult {
            y_milli: (pos.y_milli - (y - 1) * 1000) as i64,
            hit: true,
            rows: (y - 1) as usize,
        },
        None => DropResult {
            y_milli: (pos.y_milli - dist) as i64,
            hit: false,
            rows: if diff >= 0 {
                diff as usize
            } else {
                0
            },
        },
    }
}

/// Move the piece down by up to `dist` thousandths of a cell. Every
/// whole row crossed between the current and the target position is
/// tested in order, so the piece stops exactly at the first blocking
/// row and never jumps one. `rows` is the count of whole rows actually
/// descended — the figure soft- and hard-drop scoring uses; partial
/// rows do not count.
pub fn try_drop(board: &Board, piece: &Piece, dist: u64) -> (r: DropResult)
    requires
        board.wf(),
        piece_wf(*piece),
        -1000000 <= piece.pos.y_milli <= 100000000,
        dist <= 1000000,
    ensures
        r == spec_try_drop(board.state@, piece.pos, piece.points@, dist as int),
        r.y_milli <= piece.pos.y_milli,
        !r.hit ==> r.y_milli == piece.pos.y_milli - dist,
{
    let ghost b = board.state@;
    let ghost pos = piece.pos;
    let ghost ps = piece.points@;
    let curr_gy = div_floor(piece.pos.y_milli, 1000);
    let next_y = piece.pos.y_milli - dist as i64;
    let next_gy = div_floor(next_y, 1000);
    proof {
        lemma_div_is_ordered(next_y as int, piece.pos.y_milli as int, 1000);
        lemma_div_is_ordered(piece.pos.y_milli as int, 100000000, 1000);
        lemma_div_is_ordered(-2000000, next_y as int, 1000);
        assert(100000000int / 1000 == 100000);
        assert((-2000000int) / 1000 == -2000);
    }
    let diff: u64 = (curr_gy - next_gy) as u64;
    proof {
        assert(diff as int == spec_drop_diff(pos, dist as int));
    }
    let mut y: u64 = 1;
    while y <= diff
        invariant
            board.wf(),
            piece_wf(*piece),
            pos == piece.pos,
            ps == piece.points@,
            b == board.state@,
            -1000000 <= pos.y_milli <= 100000000,
            dist <= 1000000,
            next_y == pos.y_milli - dist,
            diff <= 102000,
            diff as int == spec_drop_diff(pos, dist as int),
            1 <= y <= diff + 1,
            spec_first_block(b, pos, ps, y as int - 1) is None,
        decreases diff + 1 - y,
    {
        if !can_move(board, piece, 0, -(y as i64)) {
            proof {
                lemma_first_block_found(b, pos, ps, y as int, diff as int);
            }
            return DropResult {
                y_milli: piece.pos.y_milli - (y as i64 - 1) * 1000,
                hit: true,
                rows: (y - 1) as usize,
            };
        }
        y = y + 1;
    }
    DropResult { y_milli: next_y, hit: false, rows: diff as usize }
}

/// Moving a vertical position down by k whole cells moves its row down
/// by exactly k.
pub proof fn lemma_grid_shift(v: int, k: int)
    ensures
        (v - 1000 * k) / 1000 == v / 1000 - k,
{
    lemma_fundamental_div_mod(v, 1000);
    let q = v / 1000;
    let r = v % 1000;
    assert(v - 1000 * k == 1000 * (q - k) + r);
    lemma_div_multiples_vanish_fancy(q - k, r, 1000);
}

/// One direction of the collision contract: a single target cell that
/// is on the visible board and already occupied makes `can_move` false.
pub proof fn lemma_can_move_blocked(
    b: Seq<usize>,
    pos: Position,
    ps: Seq<Offset>,
    dx: int,
    dy: int,
    j: int,
)
    requires
        0 <= j < 4,
        spec_in_bounds(spec_cell_x(pos, ps, j) + dx, spec_cell_y(pos, ps, j) + dy),
        b[cell_index(spec_cell_x(pos, ps, j) + dx, spec_cell_y(pos, ps, j) + dy)] != EMPTY_SQUARE,
    ensures
        !spec_can_move(b, pos, ps, dx, dy),
{
    assert(!spec_point_free(b, pos, ps, dx, dy, j));
}

/// The other direction: when every target cell is inside the stage and
/// every one of them that lies on the visible board is empty — in
/// particular when each is empty or above the ceiling — the move is
/// allowed.
pub proof fn lemma_can_move_free(b: Seq<usize>, pos: Position, ps: Seq<Offset>, dx: int, dy: int)
    requires
        forall|j: int| #![trigger spec_cell_x(pos, ps, j)] 0 <= j < 4
            ==> spec_in_stage(spec_cell_x(pos, ps, j) + dx, spec_cell_y(pos, ps, j) + dy),
        forall|j: int| #![trigger spec_cell_y(pos, ps, j)] 0 <= j < 4
            ==> (spec_in_bounds(spec_cell_x(pos, ps, j) + dx, spec_cell_y(pos, ps, j) + dy)
                ==> b[cell_index(spec_cell_x(pos, ps, j) + dx, spec_cell_y(pos, ps, j) + dy)]
                    == EMPTY_SQUARE),
    ensures
        spec_can_move(b, pos, ps, dx, dy),
{
    assert forall|j: int| 0 <= j < 4 implies #[trigger] spec_point_free(
        b,
        pos,
        ps,
        dx,
        dy,
        j,
    ) by {
        assert(spec_in_stage(spec_cell_x(pos, ps, j) + dx, spec_cell_y(pos, ps, j) + dy));
    }
}

} // verus!
