//! Coordinates of the playfield and the rotation transform.

use vstd::prelude::*;

verus! {

/// Number of columns of the playfield.
pub const BOARD_WIDTH: i32 = 10;

/// Number of visible rows of the playfield.
pub const BOARD_HEIGHT: i32 = 18;

/// Side of the square storage grid. It is larger than the visible band, so
/// that a piece that has just been spawned fits in it.
pub const GRID_SIZE: i32 = 25;

/// Column of the anchor of a piece that has just been spawned: half the
/// width of the playfield.
pub const SPAWN_X: i32 = 5;

/// Row of the anchor of a piece that has just been spawned: the first row
/// above the visible band.
pub const SPAWN_Y: i32 = 18;

/// An absolute cell coordinate. The origin is the bottom-left cell.
#[derive(Clone, Copy, Debug, PartialEq, Eq, Structural)]
pub struct Position {
    pub x: i32,
    pub y: i32,
}

/// The offset of a cell from the anchor of its piece.
#[derive(Clone, Copy, Debug, PartialEq, Eq, Structural)]
pub struct RelativePosition {
    pub rot_x: i32,
    pub rot_y: i32,
}

/// One cell of a piece: where it is, and where it sits relative to the anchor.
#[derive(Clone, Copy, Debug, PartialEq, Eq, Structural)]
pub struct PieceCell {
    pub pos: Position,
    pub rel: RelativePosition,
}

/// The rotation matrix [[0, 1], [-1, 0]] applied to an offset: a quarter turn
/// clockwise.
pub open spec fn turned(offset: (int, int)) -> (int, int) {
    (offset.1, -offset.0)
}

impl Position {
    /// The cell lies in the storage grid and in one of the playfield's columns.
    pub open spec fn on_field(self) -> bool {
        0 <= self.x < BOARD_WIDTH && 0 <= self.y < GRID_SIZE
    }

    /// The cell lies in the visible band.
    pub open spec fn visible(self) -> bool {
        0 <= self.x < BOARD_WIDTH && 0 <= self.y < BOARD_HEIGHT
    }
}

impl RelativePosition {
    /// The offset as a pair of integers.
    pub open spec fn pair(self) -> (int, int) {
        (self.rot_x as int, self.rot_y as int)
    }

    /// The offset of the anchor itself.
    pub open spec fn is_anchor(self) -> bool {
        self.rot_x == 0 && self.rot_y == 0
    }
}

impl PieceCell {
    /// The position of the anchor of the piece that this cell belongs to.
    pub open spec fn origin(self) -> (int, int) {
        (self.pos.x - self.rel.rot_x, self.pos.y - self.rel.rot_y)
    }

    /// Where the cell lands after a quarter turn about the anchor.
    pub open spec fn turn_target(self) -> (int, int) {
        let (ox, oy) = self.origin();
        let (rx, ry) = turned(self.rel.pair());
        (ox + rx, oy + ry)
    }

    /// `self` is `before` after a quarter turn about the anchor: the offset is
    /// turned and the anchor stays where it is.
    pub open spec fn is_turn_of(self, before: PieceCell) -> bool {
        self.rel.pair() == turned(before.rel.pair()) && self.origin() == before.origin()
    }

    /// `self` is `before` moved by `(dx, dy)`, with the same offset.
    pub open spec fn is_move_of(self, before: PieceCell, dx: int, dy: int) -> bool {
        &&& self.pos.x == before.pos.x + dx
        &&& self.pos.y == before.pos.y + dy
        &&& self.rel == before.rel
    }

    /// The turn of this cell can be computed in 32-bit arithmetic.
    pub open spec fn turn_fits(self) -> bool {
        let (ox, oy) = self.origin();
        &&& i32::MIN < self.rel.rot_x
        &&& i32::MIN <= ox <= i32::MAX
        &&& i32::MIN <= oy <= i32::MAX
        &&& i32::MIN <= ox + self.rel.rot_y <= i32::MAX
        &&& i32::MIN <= oy - self.rel.rot_x <= i32::MAX
    }

    /// The cell after a quarter turn about its anchor.
    pub open spec fn turn(self) -> PieceCell {
        let (ox, oy) = self.origin();
        let (rx, ry) = turned(self.rel.pair());
        PieceCell {
            pos: Position { x: (ox + rx) as i32, y: (oy + ry) as i32 },
            rel: RelativePosition { rot_x: rx as i32, rot_y: ry as i32 },
        }
    }

    /// The cell moved by `(dx, dy)`.
    pub open spec fn shift(self, dx: int, dy: int) -> PieceCell {
        PieceCell {
            pos: Position { x: (self.pos.x + dx) as i32, y: (self.pos.y + dy) as i32 },
            rel: self.rel,
        }
    }

    /// Computes the quarter turn of one cell about the anchor of its piece.
    pub fn rotated(&self) -> (after: PieceCell)
        requires
            self.turn_fits(),
        ensures
            after == self.turn(),
            after.is_turn_of(*self),
    {
        let origin_x = self.pos.x - self.rel.rot_x;
        let origin_y = self.pos.y - self.rel.rot_y;
        let new_rot_x = self.rel.rot_y;
        let new_rot_y = -self.rel.rot_x;
        PieceCell {
            pos: Position { x: origin_x + new_rot_x, y: origin_y + new_rot_y },
            rel: RelativePosition { rot_x: new_rot_x, rot_y: new_rot_y },
        }
    }
}

/// Four quarter turns of an offset give the offset back.
pub proof fn lemma_four_turns_of_offset(offset: (int, int))
    ensures
        turned(turned(turned(turned(offset)))) == offset,
{
}

/// Four quarter turns bring a cell back: whenever `b`, `c`, `d` and `e` are
/// each the turn of the one before, starting from `a`, the last one is `a`
/// again, offset and position.
pub proof fn lemma_four_turns_of_cell(a: PieceCell, b: PieceCell, c: PieceCell, d: PieceCell, e: PieceCell)
    requires
        b.is_turn_of(a),
        c.is_turn_of(b),
        d.is_turn_of(c),
        e.is_turn_of(d),
    ensures
        e == a,
{
}

} // verus!
