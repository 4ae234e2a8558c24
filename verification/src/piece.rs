//! Piece geometry: the seven tetromino kinds, their cell offsets around a
//! rotation pivot, their display colors, and the exact 90-degree rotation
//! transform.
//!
//! Offsets are stored with both coordinates doubled, so the half-cell
//! offsets of the I and O pieces stay integral and rotation is exact.
//! A piece's vertical position is stored in thousandths of a cell, so
//! gravity can move it by fractions of a row without floating point.

use vstd::arithmetic::div_mod::lemma_fundamental_div_mod;
use vstd::arithmetic::div_mod::lemma_fundamental_div_mod_converse;
use vstd::prelude::*;

verus! {

/// One of the seven tetromino shapes.
#[derive(Clone, Copy, PartialEq, Eq, Structural, Debug)]
pub enum PieceKind {
    I,
    J,
    L,
    O,
    S,
    T,
    Z,
}

/// Direction of a 90-degree rotation.
#[derive(Clone, Copy, PartialEq, Eq, Structural, Debug)]
pub enum Rotation {
    Clockwise,
    Counterclockwise,
}

impl Rotation {
    pub open spec fn spec_opposite(self) -> Rotation {
        match self {
            Rotation::Clockwise => Rotation::Counterclockwise,
            Rotation::Counterclockwise => Rotation::Clockwise,
        }
    }

    /// The rotation that undoes this one.
    pub fn opposite(&self) -> (r: Rotation)
        ensures
            r == self.spec_opposite(),
    {
        match self {
            Rotation::Clockwise => Rotation::Counterclockwise,
            Rotation::Counterclockwise => Rotation::Clockwise,
        }
    }
}

/// A cell offset relative to a piece's pivot, with both coordinates
/// doubled so that half-cell offsets stay integral.
#[derive(Clone, Copy, PartialEq, Eq, Structural, Debug)]
pub struct Offset {
    pub x2: i64,
    pub y2: i64,
}

/// Every canonical offset has doubled coordinates in [-3, 3], and rotation
/// keeps them there.
pub open spec fn offset_wf(o: Offset) -> bool {
    &&& -3 <= o.x2 <= 3
    &&& -3 <= o.y2 <= 3
}

/// Rotating clockwise sends (x, y) to (y, -x); counter-clockwise is the
/// inverse, (x, y) to (-y, x).
pub open spec fn spec_rotate_offset(dir: Rotation, o: Offset) -> Offset {
    match dir {
        Rotation::Clockwise => Offset { x2: o.y2, y2: (-o.x2) as i64 },
        Rotation::Counterclockwise => Offset { x2: (-o.y2) as i64, y2: o.x2 },
    }
}

pub fn rotate_offset(dir: Rotation, o: Offset) -> (r: Offset)
    requires
        offset_wf(o),
    ensures
        r == spec_rotate_offset(dir, o),
        offset_wf(r),
{
    match dir {
        Rotation::Clockwise => Offset { x2: o.y2, y2: -o.x2 },
        Rotation::Counterclockwise => Offset { x2: -o.y2, y2: o.x2 },
    }
}

/// Rotating clockwise four times in a row returns the exact original
/// offset, and each counter-clockwise rotation undoes a clockwise one
/// (and the other way around).
pub proof fn lemma_offset_rotation_cycle(o: Offset)
    requires
        offset_wf(o),
    ensures
        spec_rotate_offset(Rotation::Clockwise,
            spec_rotate_offset(Rotation::Clockwise,
                spec_rotate_offset(Rotation::Clockwise,
                    spec_rotate_offset(Rotation::Clockwise, o)))) == o,
        spec_rotate_offset(Rotation::Counterclockwise,
            spec_rotate_offset(Rotation::Clockwise, o)) == o,
        spec_rotate_offset(Rotation::Clockwise,
            spec_rotate_offset(Rotation::Counterclockwise, o)) == o,
{
}

/// The four canonical offsets of a kind, in their fixed order.
pub open spec fn spec_kind_points(k: PieceKind) -> Seq<Offset> {
    match k {
        PieceKind::I => seq![
            Offset { x2: -3i64, y2: 1i64 },
            Offset { x2: -1i64, y2: 1i64 },
            Offset { x2: 1i64, y2: 1i64 },
            Offset { x2: 3i64, y2: 1i64 },
        ],
        PieceKind::J => seq![
            Offset { x2: -2i64, y2: 2i64 },
            Offset { x2: -2i64, y2: 0i64 },
            Offset { x2: 0i64, y2: 0i64 },
            Offset { x2: 2i64, y2: 0i64 },
        ],
        PieceKind::L => seq![
            Offset { x2: -2i64, y2: 0i64 },
            Offset { x2: 0i64, y2: 0i64 },
            Offset { x2: 2i64, y2: 0i64 },
            Offset { x2: 2i64, y2: 2i64 },
        ],
        PieceKind::O => seq![
            Offset { x2: -1i64, y2: 1i64 },
            Offset { x2: -1i64, y2: -1i64 },
            Offset { x2: 1i64, y2: -1i64 },
            Offset { x2: 1i64, y2: 1i64 },
        ],
        PieceKind::S => seq![
            Offset { x2: -2i64, y2: 0i64 },
            Offset { x2: 0i64, y2: 0i64 },
            Offset { x2: 0i64, y2: 2i64 },
            Offset { x2: 2i64, y2: 2i64 },
        ],
        PieceKind::T => seq![
            Offset { x2: -2i64, y2: 0i64 },
            Offset { x2: 0i64, y2: 0i64 },
            Offset { x2: 0i64, y2: 2i64 },
            Offset { x2: 2i64, y2: 0i64 },
        ],
        PieceKind::Z => seq![
            Offset { x2: -2i64, y2: 2i64 },
            Offset { x2: 0i64, y2: 2i64 },
            Offset { x2: 0i64, y2: 0i64 },
            Offset { x2: 2i64, y2: 0i64 },
        ],
    }
}

/// The canonical offsets of a kind.
pub fn kind_points(k: PieceKind) -> (r: [Offset; 4])
    ensures
        r@ == spec_kind_points(k),
{
    let r: [Offset; 4] = match k {
        PieceKind::I => [
            Offset { x2: -3, y2: 1 },
            Offset { x2: -1, y2: 1 },
            Offset { x2: 1, y2: 1 },
            Offset { x2: 3, y2: 1 },
        ],
        PieceKind::J => [
            Offset { x2: -2, y2: 2 },
            Offset { x2: -2, y2: 0 },
            Offset { x2: 0, y2: 0 },
            Offset { x2: 2, y2: 0 },
        ],
        PieceKind::L => [
            Offset { x2: -2, y2: 0 },
            Offset { x2: 0, y2: 0 },
            Offset { x2: 2, y2: 0 },
            Offset { x2: 2, y2: 2 },
        ],
        PieceKind::O => [
            Offset { x2: -1, y2: 1 },
            Offset { x2: -1, y2: -1 },
            Offset { x2: 1, y2: -1 },
            Offset { x2: 1, y2: 1 },
        ],
        PieceKind::S => [
            Offset { x2: -2, y2: 0 },
            Offset { x2: 0, y2: 0 },
            Offset { x2: 0, y2: 2 },
            Offset { x2: 2, y2: 2 },
        ],
        PieceKind::T => [
            Offset { x2: -2, y2: 0 },
            Offset { x2: 0, y2: 0 },
            Offset { x2: 0, y2: 2 },
            Offset { x2: 2, y2: 0 },
        ],
        PieceKind::Z => [
            Offset { x2: -2, y2: 2 },
            Offset { x2: 0, y2: 2 },
            Offset { x2: 0, y2: 0 },
            Offset { x2: 2, y2: 0 },
        ],
    };
    proof {
        assert(r@ =~= spec_kind_points(k));
        lemma_kind_points_wf(k);
    }
    r
}

/// Every canonical offset of every kind is well formed.
pub proof fn lemma_kind_points_wf(k: PieceKind)
    ensures
        forall|j: int| 0 <= j < 4 ==> offset_wf(#[trigger] spec_kind_points(k)[j]),
{
}

/// The index under which a kind's cells are stored on the board, and the
/// position of its color in a palette: I, J, L, O, S, T, Z in order.
pub open spec fn spec_kind_index(k: PieceKind) -> usize {
    match k {
        PieceKind::I => 0usize,
        PieceKind::J => 1usize,
        PieceKind::L => 2usize,
        PieceKind::O => 3usize,
        PieceKind::S => 4usize,
        PieceKind::T => 5usize,
        PieceKind::Z => 6usize,
    }
}

#[verifier::when_used_as_spec(spec_kind_index)]
pub fn kind_index(k: PieceKind) -> (r: usize)
    ensures
        r == spec_kind_index(k),
{
    match k {
        PieceKind::I => 0,
        PieceKind::J => 1,
        PieceKind::L => 2,
        PieceKind::O => 3,
        PieceKind::S => 4,
        PieceKind::T => 5,
        PieceKind::Z => 6,
    }
}

/// The display color of a kind, as red, green and blue bytes.
pub open spec fn spec_kind_color(k: PieceKind) -> (u8, u8, u8) {
    match k {
        PieceKind::I => (0u8, 255u8, 255u8),
        PieceKind::J => (0u8, 0u8, 255u8),
        PieceKind::L => (255u8, 168u8, 0u8),
        PieceKind::O => (255u8, 255u8, 0u8),
        PieceKind::S => (0u8, 255u8, 0u8),
        PieceKind::T => (153u8, 0u8, 255u8),
        PieceKind::Z => (255u8, 0u8, 0u8),
    }
}

pub fn kind_color(k: PieceKind) -> (r: (u8, u8, u8))
    ensures
        r == spec_kind_color(k),
{
    match k {
        PieceKind::I => (0, 255, 255),
        PieceKind::J => (0, 0, 255),
        PieceKind::L => (255, 168, 0),
        PieceKind::O => (255, 255, 0),
        PieceKind::S => (0, 255, 0),
        PieceKind::T => (153, 0, 255),
        PieceKind::Z => (255, 0, 0),
    }
}

/// A piece's continuous position: an integer column and a vertical
/// position in thousandths of a cell, so gravity can move the piece by
/// fractions of a row.
#[derive(Clone, Copy, PartialEq, Eq, Structural, Debug)]
pub struct Position {
    pub x: i64,
    pub y_milli: i64,
}

/// Wide bounds on a position, enough that cell arithmetic cannot
/// overflow. The session keeps positions far inside them.
pub open spec fn position_wf(pos: Position) -> bool {
    &&& -1000000 <= pos.x <= 1000000
    &&& -1000000000000 <= pos.y_milli <= 1000000000000
}

/// An active falling piece: its kind, its current (rotated) offsets, and
/// its position.
#[derive(Clone, Copy, Debug)]
pub struct Piece {
    pub kind: PieceKind,
    pub points: [Offset; 4],
    pub pos: Position,
}

pub open spec fn piece_wf(p: Piece) -> bool {
    &&& (forall|j: int| 0 <= j < 4 ==> offset_wf(#[trigger] p.points@[j]))
    &&& position_wf(p.pos)
}

/// A grid cell, addressed by column and row.
#[derive(Clone, Copy, PartialEq, Eq, Structural, Debug)]
pub struct CellPoint {
    pub x: i64,
    pub y: i64,
}

/// The row of a vertical position: its floor in whole cells.
pub open spec fn spec_grid_y(pos: Position) -> int {
    pos.y_milli as int / 1000
}

/// The column of a piece's point number j: the pivot column plus the
/// floored half-cell offset.
pub open spec fn spec_cell_x(pos: Position, ps: Seq<Offset>, j: int) -> int {
    pos.x + ps[j].x2 as int / 2
}

/// The row of a piece's point number j: the floored pivot row plus the
/// floored half-cell offset.
pub open spec fn spec_cell_y(pos: Position, ps: Seq<Offset>, j: int) -> int {
    spec_grid_y(pos) + ps[j].y2 as int / 2
}

/// Division rounding toward negative infinity, as spec-level `/` does on
/// `int` for a positive divisor.
pub fn div_floor(v: i64, d: u64) -> (r: i64)
    requires
        1 <= d <= 1000000,
        -4000000000000 <= v <= 4000000000000,
    ensures
        r == v as int / d as int,
        v >= 0 ==> 0 <= r <= v,
        v < 0 ==> v <= r <= 0,
{
    if v >= 0 {
        let q: u64 = (v as u64) / d;
        proof {
            assert((v as u64) / d <= v as u64) by (nonlinear_arith)
                requires
                    d >= 1,
            ;
        }
        q as i64
    } else {
        let m: u64 = (-v) as u64;
        let q: u64 = (m + d - 1) / d;
        proof {
            let mi = m as int;
            let di = d as int;
            let qi = q as int;
            lemma_fundamental_div_mod(mi + di - 1, di);
            let rem = (mi + di - 1) % di;
            assert(mi + di - 1 == di * qi + rem);
            assert(di * qi >= mi);
            assert(di * qi - mi < di);
            assert((-qi) * di + (di * qi - mi) == -mi) by (nonlinear_arith);
            lemma_fundamental_div_mod_converse(-mi, di, -qi, di * qi - mi);
            assert((-mi) / di == -qi);
            assert(qi <= mi) by (nonlinear_arith)
                requires
                    di >= 1,
                    mi >= 1,
                    di * qi < mi + di,
            ;
        }
        -(q as i64)
    }
}

impl Piece {
    /// The four board cells the piece occupies: the floored pivot plus
    /// each floored offset.
    pub fn grid_points(&self) -> (r: Vec<CellPoint>)
        requires
            piece_wf(*self),
        ensures
            r@.len() == 4,
            forall|j: int| 0 <= j < 4
                ==> (#[trigger] r@[j]).x as int == spec_cell_x(self.pos, self.points@, j),
            forall|j: int| 0 <= j < 4
                ==> (#[trigger] r@[j]).y as int == spec_cell_y(self.pos, self.points@, j),
    {
        let gy = div_floor(self.pos.y_milli, 1000);
        let mut r: Vec<CellPoint> = Vec::new();
        let x = self.pos.x;
        r.push(CellPoint { x: x + div_floor(self.points[0].x2, 2), y: gy + div_floor(self.points[0].y2, 2) });
        r.push(CellPoint { x: x + div_floor(self.points[1].x2, 2), y: gy + div_floor(self.points[1].y2, 2) });
        r.push(CellPoint { x: x + div_floor(self.points[2].x2, 2), y: gy + div_floor(self.points[2].y2, 2) });
        r.push(CellPoint { x: x + div_floor(self.points[3].x2, 2), y: gy + div_floor(self.points[3].y2, 2) });
        r
    }

    /// Rotate the piece 90 degrees around its pivot, in place. The
    /// position and kind do not change.
    pub fn rotate(&mut self, direction: Rotation)
        requires
            piece_wf(*old(self)),
        ensures
            piece_wf(*final(self)),
            final(self).kind == old(self).kind,
            final(self).pos == old(self).pos,
            final(self).points@ == spec_rotate_points(direction, old(self).points@),
    {
        self.points = [
            rotate_offset(direction, self.points[0]),
            rotate_offset(direction, self.points[1]),
            rotate_offset(direction, self.points[2]),
            rotate_offset(direction, self.points[3]),
        ];
        proof {
            assert(self.points@ =~= spec_rotate_points(direction, old(self).points@));
        }
    }
}

/// All four offsets of a piece, rotated together.
pub open spec fn spec_rotate_points(dir: Rotation, ps: Seq<Offset>) -> Seq<Offset> {
    ps.map_values(|o: Offset| spec_rotate_offset(dir, o))
}

/// Rotating a piece's offsets clockwise four times in a row returns the
/// exact original offsets, and one rotation followed by its opposite
/// returns them as well, in either order.
pub proof fn lemma_piece_rotation_cycle(ps: Seq<Offset>)
    requires
        forall|j: int| 0 <= j < ps.len() ==> offset_wf(#[trigger] ps[j]),
    ensures
        spec_rotate_points(Rotation::Clockwise,
            spec_rotate_points(Rotation::Clockwise,
                spec_rotate_points(Rotation::Clockwise,
                    spec_rotate_points(Rotation::Clockwise, ps)))) == ps,
        spec_rotate_points(Rotation::Counterclockwise,
            spec_rotate_points(Rotation::Clockwise, ps)) == ps,
        spec_rotate_points(Rotation::Clockwise,
            spec_rotate_points(Rotation::Counterclockwise, ps)) == ps,
{
    assert forall|j: int| 0 <= j < ps.len() implies {
        &&& spec_rotate_offset(Rotation::Clockwise,
                spec_rotate_offset(Rotation::Clockwise,
                    spec_rotate_offset(Rotation::Clockwise,
                        spec_rotate_offset(Rotation::Clockwise, #[trigger] ps[j])))) == ps[j]
        &&& spec_rotate_offset(Rotation::Counterclockwise,
                spec_rotate_offset(Rotation::Clockwise, ps[j])) == ps[j]
        &&& spec_rotate_offset(Rotation::Clockwise,
                spec_rotate_offset(Rotation::Counterclockwise, ps[j])) == ps[j]
    } by {
        lemma_offset_rotation_cycle(ps[j]);
    }
    assert(spec_rotate_points(Rotation::Clockwise,
        spec_rotate_points(Rotation::Clockwise,
            spec_rotate_points(Rotation::Clockwise,
                spec_rotate_points(Rotation::Clockwise, ps)))) =~= ps);
    assert(spec_rotate_points(Rotation::Counterclockwise,
        spec_rotate_points(Rotation::Clockwise, ps)) =~= ps);
    assert(spec_rotate_points(Rotation::Clockwise,
        spec_rotate_points(Rotation::Counterclockwise, ps)) =~= ps);
}

} // verus!
