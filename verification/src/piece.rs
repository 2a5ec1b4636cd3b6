//! The falling piece, and the rules by which it moves and turns.

use vstd::prelude::*;
use crate::board::{locked_at, Block, GameBoard};
use crate::catalog::{in_reach, Shape};
use crate::geometry::{PieceCell, Position, RelativePosition, BOARD_HEIGHT, BOARD_WIDTH, GRID_SIZE, SPAWN_X, SPAWN_Y};
use crate::palette::Color;

verus! {

/// A horizontal direction.
#[derive(Clone, Copy, Debug, PartialEq, Eq, Structural)]
pub enum Direction {
    Left,
    Right,
}

impl Direction {
    /// The change of column that one step in this direction makes.
    pub open spec fn dx(self) -> int {
        match self {
            Direction::Left => -1,
            Direction::Right => 1,
        }
    }

    /// The change of column that one step in this direction makes.
    pub fn step(self) -> (dx: i32)
        ensures
            dx == self.dx(),
    {
        match self {
            Direction::Left => -1,
            Direction::Right => 1,
        }
    }
}

/// What a piece is, to the rules: its four cells, its colour, and whether it
/// has been dropped. A dropped piece holds its cells as if they were locked,
/// until it moves again or is locked for good.
pub struct PieceView {
    pub cells: Seq<PieceCell>,
    pub color: Color,
    pub landed: bool,
}

impl PieceView {
    /// The piece has four cells on the field, which hang together: all have
    /// the same anchor, and one of them is the anchor.
    pub open spec fn wf(self) -> bool {
        &&& self.cells.len() == 4
        &&& forall|i: int| 0 <= i < 4 ==> (#[trigger] self.cells[i]).pos.on_field()
        &&& forall|i: int| 0 <= i < 4 ==> (#[trigger] self.cells[i]).origin() == self.cells[0].origin()
        &&& exists|i: int| 0 <= i < 4 && (#[trigger] self.cells[i]).rel.is_anchor()
    }

    /// One of the cells lies at `(x, y)`.
    pub open spec fn covers(self, x: int, y: int) -> bool {
        exists|i: int| 0 <= i < 4 && (#[trigger] self.cells[i]).pos.x == x && self.cells[i].pos.y == y
    }

    /// The piece moved by `(dx, dy)`, falling freely.
    pub open spec fn moved(self, dx: int, dy: int) -> PieceView {
        PieceView { cells: Seq::new(4, |i: int| self.cells[i].shift(dx, dy)), color: self.color, landed: false }
    }

    /// The piece dropped by `d` rows, holding its cells.
    pub open spec fn dropped(self, d: int) -> PieceView {
        PieceView { cells: Seq::new(4, |i: int| self.cells[i].shift(0, -d)), color: self.color, landed: true }
    }

    /// The piece after a quarter turn about its anchor.
    pub open spec fn turned(self) -> PieceView {
        PieceView { cells: Seq::new(4, |i: int| self.cells[i].turn()), color: self.color, landed: self.landed }
    }

    /// The blocks that the cells become when the piece is locked.
    pub open spec fn as_blocks(self) -> Seq<Block> {
        Seq::new(4, |i: int| Block { pos: self.cells[i].pos, color: self.color })
    }
}

/// A piece of the given shape and colour at the spawn position.
pub open spec fn spawned(shape: Seq<(i32, i32)>, color: Color) -> PieceView {
    PieceView {
        cells: Seq::new(
            4,
            |i: int|
                PieceCell {
                    pos: Position { x: (SPAWN_X + shape[i].0) as i32, y: (SPAWN_Y + shape[i].1) as i32 },
                    rel: RelativePosition { rot_x: shape[i].0, rot_y: shape[i].1 },
                },
        ),
        color,
        landed: false,
    }
}

/// A piece of this shape cannot be spawned: a block lies where one of its
/// cells would be.
pub open spec fn spawn_collides(blocks: Seq<Block>, shape: Seq<(i32, i32)>) -> bool {
    exists|i: int| 0 <= i < 4 && locked_at(blocks, SPAWN_X + (#[trigger] shape[i]).0, SPAWN_Y + shape[i].1)
}

/// The cell `(x, y)` counts as taken: a block lies there, or the piece has
/// been dropped and holds it.
pub open spec fn occupied(blocks: Seq<Block>, piece: PieceView, x: int, y: int) -> bool {
    locked_at(blocks, x, y) || (piece.landed && piece.covers(x, y))
}

/// The cell may move `dx` columns: it stays within the columns of the field
/// and, if it is in the visible band, finds its new place free. Above the band
/// only the columns are checked.
pub open spec fn cell_may_shift(blocks: Seq<Block>, piece: PieceView, c: PieceCell, dx: int) -> bool {
    &&& 0 <= c.pos.x + dx < BOARD_WIDTH
    &&& c.pos.y < BOARD_HEIGHT ==> !occupied(blocks, piece, c.pos.x + dx, c.pos.y as int)
}

/// Every cell of the piece may move `dx` columns.
pub open spec fn may_shift(blocks: Seq<Block>, piece: PieceView, dx: int) -> bool {
    forall|i: int| 0 <= i < 4 ==> cell_may_shift(blocks, piece, #[trigger] piece.cells[i], dx)
}

/// The cell, moved `k` rows down, is not below the floor and not on a block.
pub open spec fn cell_may_descend(blocks: Seq<Block>, c: PieceCell, k: int) -> bool {
    c.pos.y - k >= 0 && !locked_at(blocks, c.pos.x as int, c.pos.y - k)
}

/// Every cell of the piece may be `k` rows further down.
pub open spec fn may_descend(blocks: Seq<Block>, piece: PieceView, k: int) -> bool {
    forall|i: int| 0 <= i < 4 ==> cell_may_descend(blocks, #[trigger] piece.cells[i], k)
}

/// `d` is how far the piece drops: it may be 1, 2, ... up to `d` rows
/// further down, and not `d + 1`.
pub open spec fn is_drop_distance(blocks: Seq<Block>, piece: PieceView, d: int) -> bool {
    &&& d >= 0
    &&& forall|k: int| 1 <= k <= d ==> may_descend(blocks, piece, k)
    &&& !may_descend(blocks, piece, d + 1)
}

/// How far the piece drops.
pub open spec fn drop_distance(blocks: Seq<Block>, piece: PieceView) -> int {
    choose|d: int| is_drop_distance(blocks, piece, d)
}

/// The cell may turn: it lands in the visible band, on a place that is free.
pub open spec fn cell_may_turn(blocks: Seq<Block>, piece: PieceView, c: PieceCell) -> bool {
    let (x, y) = c.turn_target();
    &&& 0 <= x < BOARD_WIDTH
    &&& 0 <= y < BOARD_HEIGHT
    &&& !occupied(blocks, piece, x, y)
}

/// Every cell of the piece may turn.
pub open spec fn may_turn(blocks: Seq<Block>, piece: PieceView) -> bool {
    forall|i: int| 0 <= i < 4 ==> cell_may_turn(blocks, piece, #[trigger] piece.cells[i])
}

/// The cell cannot fall: it is on the floor, or the cell below it is taken.
pub open spec fn cell_rests(blocks: Seq<Block>, piece: PieceView, c: PieceCell) -> bool {
    c.pos.y == 0 || occupied(blocks, piece, c.pos.x as int, c.pos.y - 1)
}

/// No cell of the piece rests: the piece may fall one row.
pub open spec fn may_fall(blocks: Seq<Block>, piece: PieceView) -> bool {
    forall|i: int| 0 <= i < 4 ==> !cell_rests(blocks, piece, #[trigger] piece.cells[i])
}

/// No cell of the piece in the visible band lies on a block.
pub open spec fn clear_of(blocks: Seq<Block>, piece: PieceView) -> bool {
    forall|i: int|
        0 <= i < 4 && (#[trigger] piece.cells[i]).pos.y < BOARD_HEIGHT ==> !locked_at(
            blocks,
            piece.cells[i].pos.x as int,
            piece.cells[i].pos.y as int,
        )
}

/// There is only one drop distance.
pub proof fn lemma_drop_distance_unique(blocks: Seq<Block>, piece: PieceView, d: int, e: int)
    requires
        is_drop_distance(blocks, piece, d),
        is_drop_distance(blocks, piece, e),
    ensures
        d == e,
        d == drop_distance(blocks, piece),
{
    if d < e {
        assert(may_descend(blocks, piece, d + 1));
    }
    if e < d {
        assert(may_descend(blocks, piece, e + 1));
    }
    let f = drop_distance(blocks, piece);
    if d < f {
        assert(may_descend(blocks, piece, d + 1));
    }
    if f < d {
        assert(may_descend(blocks, piece, f + 1));
    }
}

/// The cells of a well-formed piece are never far from the anchor, and the
/// anchor is on the field.
pub proof fn lemma_offsets_bounded(piece: PieceView)
    requires
        piece.wf(),
    ensures
        0 <= piece.cells[0].origin().0 < BOARD_WIDTH,
        0 <= piece.cells[0].origin().1 < GRID_SIZE,
        forall|i: int|
            0 <= i < 4 ==> -BOARD_WIDTH < (#[trigger] piece.cells[i]).rel.rot_x < BOARD_WIDTH && -GRID_SIZE
                < piece.cells[i].rel.rot_y < GRID_SIZE,
        forall|i: int| 0 <= i < 4 ==> (#[trigger] piece.cells[i]).turn_fits(),
{
    let a = choose|a: int| 0 <= a < 4 && (#[trigger] piece.cells[a]).rel.is_anchor();
    assert(piece.cells[a].origin() == piece.cells[0].origin());
    assert(piece.cells[a].pos.on_field());
    assert forall|i: int| 0 <= i < 4 implies -BOARD_WIDTH < (#[trigger] piece.cells[i]).rel.rot_x < BOARD_WIDTH
        && -GRID_SIZE < piece.cells[i].rel.rot_y < GRID_SIZE && piece.cells[i].turn_fits() by {
        assert(piece.cells[i].origin() == piece.cells[0].origin());
        assert(piece.cells[i].pos.on_field());
    }
}

/// A well-formed piece has a drop distance.
pub proof fn lemma_drop_distance_exists(blocks: Seq<Block>, piece: PieceView)
    requires
        piece.wf(),
    ensures
        is_drop_distance(blocks, piece, drop_distance(blocks, piece)),
        0 <= drop_distance(blocks, piece) < GRID_SIZE,
{
    lemma_drop_search(blocks, piece, 0);
    let d = drop_distance(blocks, piece);
    if d >= GRID_SIZE {
        assert(may_descend(blocks, piece, d));
        assert(cell_may_descend(blocks, piece.cells[0], d));
        assert(piece.cells[0].pos.on_field());
    }
}

/// A search that has come `d` rows down finds the drop distance.
proof fn lemma_drop_search(blocks: Seq<Block>, piece: PieceView, d: int)
    requires
        piece.wf(),
        d >= 0,
        forall|k: int| 1 <= k <= d ==> may_descend(blocks, piece, k),
    ensures
        exists|e: int| is_drop_distance(blocks, piece, e),
    decreases GRID_SIZE - d,
{
    if may_descend(blocks, piece, d + 1) {
        assert(cell_may_descend(blocks, piece.cells[0], d + 1));
        assert(piece.cells[0].pos.on_field());
        lemma_drop_search(blocks, piece, d + 1);
    } else {
        assert(is_drop_distance(blocks, piece, d));
    }
}

/// The falling piece.
#[derive(Clone, Copy, Debug)]
pub struct ActivePiece {
    cells: [PieceCell; 4],
    color: Color,
    landed: bool,
}

impl View for ActivePiece {
    type V = PieceView;

    closed spec fn view(&self) -> PieceView {
        PieceView { cells: self.cells@, color: self.color, landed: self.landed }
    }
}

impl ActivePiece {
    /// The piece is well formed.
    pub open spec fn wf(&self) -> bool {
        self@.wf()
    }

    /// A piece of the given shape and colour at the spawn position, falling
    /// freely.
    pub fn spawn(shape: &Shape, color: Color) -> (piece: ActivePiece)
        requires
            shape.wf(),
        ensures
            piece.wf(),
            piece@ == spawned(shape@, color),
            forall|i: int|
                0 <= i < 4 ==> (#[trigger] piece@.cells[i]).pos.x == SPAWN_X + shape@[i].0 && piece@.cells[i].pos.y
                    == SPAWN_Y + shape@[i].1,
    {
        let anchor = PieceCell { pos: Position { x: SPAWN_X, y: SPAWN_Y }, rel: RelativePosition { rot_x: 0, rot_y: 0 } };
        let mut cells: [PieceCell; 4] = [anchor, anchor, anchor, anchor];
        let mut i: usize = 0;
        while i < 4
            invariant
                0 <= i <= 4,
                shape.wf(),
                forall|j: int| 0 <= j < i ==> (#[trigger] cells@[j]) == spawned(shape@, color).cells[j],
            decreases 4 - i,
        {
            let rel = shape.offset(i);
            assert(shape@[i as int].0 == rel.rot_x);
            cells[i] = PieceCell { pos: Position { x: SPAWN_X + rel.rot_x, y: SPAWN_Y + rel.rot_y }, rel };
            i += 1;
        }
        let piece = ActivePiece { cells, color, landed: false };
        proof {
            assert(piece@.cells =~= spawned(shape@, color).cells);
            let a = choose|a: int| 0 <= a < shape@.len() && #[trigger] shape@[a] == (0i32, 0i32);
            assert(piece@.cells[a].rel.is_anchor());
            assert forall|i: int| 0 <= i < 4 implies (#[trigger] piece@.cells[i]).pos.x == SPAWN_X + shape@[i].0
                && piece@.cells[i].pos.y == SPAWN_Y + shape@[i].1 by {
                assert(in_reach(shape@[i].0 as int, shape@[i].1 as int));
            }
        }
        piece
    }

    /// Says whether a piece of the given shape cannot be spawned: whether a
    /// block lies where one of its cells would be.
    pub fn spawn_blocked(board: &GameBoard, shape: &Shape) -> (blocked: bool)
        requires
            board.wf(),
            shape.wf(),
        ensures
            blocked == spawn_collides(board@, shape@),
    {
        let mut i: usize = 0;
        while i < 4
            invariant
                0 <= i <= 4,
                board.wf(),
                shape.wf(),
                forall|j: int| 0 <= j < i ==> !locked_at(board@, SPAWN_X + (#[trigger] shape@[j]).0, SPAWN_Y + shape@[j].1),
            decreases 4 - i,
        {
            let rel = shape.offset(i);
            assert(in_reach(shape@[i as int].0 as int, shape@[i as int].1 as int));
            if board.is_locked(SPAWN_X + rel.rot_x, SPAWN_Y + rel.rot_y) {
                return true;
            }
            i += 1;
        }
        false
    }

    /// The four cells.
    pub fn cells(&self) -> (out: Vec<PieceCell>)
        ensures
            out@ == self@.cells,
    {
        let mut out: Vec<PieceCell> = Vec::new();
        out.push(self.cells[0]);
        out.push(self.cells[1]);
        out.push(self.cells[2]);
        out.push(self.cells[3]);
        assert(out@ =~= self@.cells);
        out
    }

    /// The colour.
    pub fn color(&self) -> (color: Color)
        ensures
            color == self@.color,
    {
        self.color
    }

    /// Whether the piece has been dropped and holds its cells.
    pub fn is_landed(&self) -> (landed: bool)
        ensures
            landed == self@.landed,
    {
        self.landed
    }

    /// Says whether one of the cells lies at `(x, y)`.
    pub fn covers(&self, x: i32, y: i32) -> (hit: bool)
        ensures
            hit == self@.covers(x as int, y as int),
    {
        let mut i: usize = 0;
        while i < 4
            invariant
                0 <= i <= 4,
                forall|j: int| 0 <= j < i ==> !((#[trigger] self@.cells[j]).pos.x == x && self@.cells[j].pos.y == y),
            decreases 4 - i,
        {
            if self.cells[i].pos.x == x && self.cells[i].pos.y == y {
                assert(self@.cells[i as int].pos.x == x && self@.cells[i as int].pos.y == y);
                return true;
            }
            i += 1;
        }
        false
    }

    /// Says whether the cell `(x, y)` counts as taken.
    pub fn is_occupied(&self, board: &GameBoard, x: i32, y: i32) -> (taken: bool)
        requires
            board.wf(),
        ensures
            taken == occupied(board@, self@, x as int, y as int),
    {
        board.is_locked(x, y) || (self.landed && self.covers(x, y))
    }

    /// Says whether the piece lies clear of the blocks, as far as it is in the
    /// visible band.
    pub fn is_clear(&self, board: &GameBoard) -> (clear: bool)
        requires
            board.wf(),
        ensures
            clear == clear_of(board@, self@),
    {
        let mut i: usize = 0;
        while i < 4
            invariant
                0 <= i <= 4,
                board.wf(),
                forall|j: int|
                    0 <= j < i && (#[trigger] self@.cells[j]).pos.y < BOARD_HEIGHT ==> !locked_at(
                        board@,
                        self@.cells[j].pos.x as int,
                        self@.cells[j].pos.y as int,
                    ),
            decreases 4 - i,
        {
            let c = self.cells[i];
            if c.pos.y < BOARD_HEIGHT && board.is_locked(c.pos.x, c.pos.y) {
                assert(self@.cells[i as int] == c);
                return false;
            }
            i += 1;
        }
        true
    }

    /// The piece with every cell moved by `(dx, dy)`.
    fn moved_by(&self, dx: i32, dy: i32, landed: bool) -> (after: ActivePiece)
        requires
            self.wf(),
            -1 <= dx <= 1,
            -GRID_SIZE <= dy <= 0,
            forall|i: int|
                0 <= i < 4 ==> 0 <= (#[trigger] self@.cells[i]).pos.x + dx < BOARD_WIDTH && 0
                    <= self@.cells[i].pos.y + dy,
        ensures
            after.wf(),
            after@.cells == self@.moved(dx as int, dy as int).cells,
            after@.color == self@.color,
            after@.landed == landed,
    {
        let mut cells = self.cells;
        let mut i: usize = 0;
        while i < 4
            invariant
                0 <= i <= 4,
                self.wf(),
                -1 <= dx <= 1,
                -GRID_SIZE <= dy <= 0,
                forall|j: int|
                    0 <= j < 4 ==> 0 <= (#[trigger] self@.cells[j]).pos.x + dx < BOARD_WIDTH && 0
                        <= self@.cells[j].pos.y + dy,
                forall|j: int| 0 <= j < i ==> (#[trigger] cells@[j]) == self@.cells[j].shift(dx as int, dy as int),
                forall|j: int| i <= j < 4 ==> (#[trigger] cells@[j]) == self@.cells[j],
            decreases 4 - i,
        {
            let c = self.cells[i];
            assert(self@.cells[i as int] == c);
            assert(c.pos.on_field());
            cells[i] = PieceCell { pos: Position { x: c.pos.x + dx, y: c.pos.y + dy }, rel: c.rel };
            i += 1;
        }
        let after = ActivePiece { cells, color: self.color, landed };
        proof {
            assert(after@.cells =~= self@.moved(dx as int, dy as int).cells);
            assert forall|j: int| 0 <= j < 4 implies (#[trigger] after@.cells[j]).pos.on_field() && after@.cells[j].origin()
                == after@.cells[0].origin() by {
                assert(self@.cells[j].pos.on_field());
                assert(self@.cells[j].origin() == self@.cells[0].origin());
                assert(self@.cells[0].pos.on_field());
            }
            let a = choose|a: int| 0 <= a < 4 && (#[trigger] self@.cells[a]).rel.is_anchor();
            assert(after@.cells[a].rel.is_anchor());
        }
        after
    }

    /// Says whether the piece may move one column in the given direction.
    pub fn can_shift(&self, board: &GameBoard, dir: Direction) -> (ok: bool)
        requires
            self.wf(),
            board.wf(),
        ensures
            ok == may_shift(board@, self@, dir.dx()),
    {
        let dx = dir.step();
        let mut i: usize = 0;
        while i < 4
            invariant
                0 <= i <= 4,
                self.wf(),
                board.wf(),
                dx == dir.dx(),
                forall|j: int| 0 <= j < i ==> cell_may_shift(board@, self@, #[trigger] self@.cells[j], dx as int),
            decreases 4 - i,
        {
            let c = self.cells[i];
            assert(self@.cells[i as int] == c);
            assert(c.pos.on_field());
            let x = c.pos.x + dx;
            if x < 0 || x >= BOARD_WIDTH {
                return false;
            }
            if c.pos.y < BOARD_HEIGHT && self.is_occupied(board, x, c.pos.y) {
                return false;
            }
            i += 1;
        }
        true
    }

    /// Moves the piece one column in the given direction, all four cells or
    /// none: where one of them may not move, the piece stays as it is. A piece
    /// that moves falls freely afterwards.
    pub fn shift(&self, board: &GameBoard, dir: Direction) -> (after: ActivePiece)
        requires
            self.wf(),
            board.wf(),
        ensures
            after.wf(),
            after@ == if may_shift(board@, self@, dir.dx()) {
                self@.moved(dir.dx(), 0)
            } else {
                self@
            },
            forall|i: int| 0 <= i < 4 ==> (#[trigger] after@.cells[i]).pos.y == self@.cells[i].pos.y,
            clear_of(board@, self@) ==> clear_of(board@, after@),
    {
        if self.can_shift(board, dir) {
            let after = self.moved_by(dir.step(), 0, false);
            proof {
                assert forall|i: int| 0 <= i < 4 implies (#[trigger] after@.cells[i]).pos.y == self@.cells[i].pos.y
                    && (after@.cells[i].pos.y < BOARD_HEIGHT ==> !locked_at(
                    board@,
                    after@.cells[i].pos.x as int,
                    after@.cells[i].pos.y as int,
                )) by {
                    assert(cell_may_shift(board@, self@, self@.cells[i], dir.dx()));
                    assert(self@.cells[i].pos.on_field());
                }
            }
            after
        } else {
            *self
        }
    }

    /// Says whether every cell of the piece may be `k` rows further down.
    pub fn can_descend(&self, board: &GameBoard, k: i32) -> (ok: bool)
        requires
            self.wf(),
            board.wf(),
            0 <= k,
        ensures
            ok == may_descend(board@, self@, k as int),
    {
        let mut i: usize = 0;
        while i < 4
            invariant
                0 <= i <= 4,
                self.wf(),
                board.wf(),
                0 <= k,
                forall|j: int| 0 <= j < i ==> cell_may_descend(board@, #[trigger] self@.cells[j], k as int),
            decreases 4 - i,
        {
            let c = self.cells[i];
            assert(self@.cells[i as int] == c);
            assert(c.pos.on_field());
            if c.pos.y < k || board.is_locked(c.pos.x, c.pos.y - k) {
                return false;
            }
            i += 1;
        }
        true
    }

    /// Finds how far the piece drops: it tries one row, two rows and so on,
    /// until a cell would go below the floor or land on a block, and returns
    /// the last distance that was free.
    pub fn drop_height(&self, board: &GameBoard) -> (d: i32)
        requires
            self.wf(),
            board.wf(),
        ensures
            is_drop_distance(board@, self@, d as int),
            d == drop_distance(board@, self@),
            0 <= d < GRID_SIZE,
    {
        let mut d: i32 = 0;
        loop
            invariant
                self.wf(),
                board.wf(),
                0 <= d < GRID_SIZE,
                forall|k: int| 1 <= k <= d ==> may_descend(board@, self@, k),
            ensures
                is_drop_distance(board@, self@, d as int),
            decreases GRID_SIZE - d,
        {
            if !self.can_descend(board, d + 1) {
                break;
            }
            proof {
                assert(cell_may_descend(board@, self@.cells[0], d + 1));
                assert(self@.cells[0].pos.on_field());
            }
            d += 1;
        }
        proof {
            lemma_drop_distance_exists(board@, self@);
            lemma_drop_distance_unique(board@, self@, d as int, drop_distance(board@, self@));
        }
        d
    }

    /// Drops the piece as far as it goes, all four cells by the same distance.
    /// From then on the piece holds its cells as if they were locked. Dropping
    /// it again moves nothing.
    pub fn hard_drop(&self, board: &GameBoard) -> (after: ActivePiece)
        requires
            self.wf(),
            board.wf(),
        ensures
            after.wf(),
            after@ == self@.dropped(drop_distance(board@, self@)),
            is_drop_distance(board@, self@, drop_distance(board@, self@)),
            is_drop_distance(board@, after@, 0),
            forall|i: int| 0 <= i < 4 ==> occupied(board@, after@, (#[trigger] after@.cells[i]).pos.x as int, after@.cells[i].pos.y as int),
            clear_of(board@, self@) ==> clear_of(board@, after@),
    {
        let d = self.drop_height(board);
        proof {
            if d > 0 {
                assert(may_descend(board@, self@, d as int));
            }
            assert forall|i: int| 0 <= i < 4 implies 0 <= (#[trigger] self@.cells[i]).pos.x < BOARD_WIDTH && 0
                <= self@.cells[i].pos.y - d by {
                assert(self@.cells[i].pos.on_field());
                if d > 0 {
                    assert(cell_may_descend(board@, self@.cells[i], d as int));
                }
            }
        }
        let after = self.moved_by(0, -d, true);
        proof {
            assert(after@.cells =~= self@.dropped(d as int).cells);
            assert(!may_descend(board@, self@, d + 1));
            let i = choose|i: int| 0 <= i < 4 && !cell_may_descend(board@, #[trigger] self@.cells[i], d + 1);
            assert(self@.cells[i].pos.on_field());
            assert(!cell_may_descend(board@, after@.cells[i], 1));
            assert forall|i: int| 0 <= i < 4 implies occupied(board@, after@, (#[trigger] after@.cells[i]).pos.x as int, after@.cells[i].pos.y as int) by {
                assert(after@.covers(after@.cells[i].pos.x as int, after@.cells[i].pos.y as int));
            }
            if clear_of(board@, self@) {
                assert forall|i: int| 0 <= i < 4 && (#[trigger] after@.cells[i]).pos.y < BOARD_HEIGHT implies !locked_at(
                    board@,
                    after@.cells[i].pos.x as int,
                    after@.cells[i].pos.y as int,
                ) by {
                    assert(self@.cells[i].pos.on_field());
                    if d > 0 {
                        assert(cell_may_descend(board@, self@.cells[i], d as int));
                    }
                }
            }
        }
        after
    }

    /// Says whether the piece may make a quarter turn about its anchor.
    pub fn can_rotate(&self, board: &GameBoard) -> (ok: bool)
        requires
            self.wf(),
            board.wf(),
        ensures
            ok == may_turn(board@, self@),
    {
        proof {
            lemma_offsets_bounded(self@);
        }
        let mut i: usize = 0;
        while i < 4
            invariant
                0 <= i <= 4,
                self.wf(),
                board.wf(),
                forall|j: int| 0 <= j < 4 ==> (#[trigger] self@.cells[j]).turn_fits(),
                forall|j: int| 0 <= j < i ==> cell_may_turn(board@, self@, #[trigger] self@.cells[j]),
            decreases 4 - i,
        {
            let c = self.cells[i];
            assert(self@.cells[i as int] == c);
            let t = c.rotated();
            let in_columns = t.pos.x >= 0 && t.pos.x < BOARD_WIDTH;
            let in_rows = t.pos.y >= 0 && t.pos.y < BOARD_HEIGHT;
            if !in_columns || !in_rows {
                return false;
            }
            if self.is_occupied(board, t.pos.x, t.pos.y) {
                return false;
            }
            i += 1;
        }
        true
    }

    /// Turns the piece a quarter turn about its anchor, all four cells or
    /// none: where one of them may not turn, the piece stays as it is.
    pub fn rotate(&self, board: &GameBoard) -> (after: ActivePiece)
        requires
            self.wf(),
            board.wf(),
        ensures
            after.wf(),
            after@ == if may_turn(board@, self@) {
                self@.turned()
            } else {
                self@
            },
            forall|i: int| 0 <= i < 4 ==> (#[trigger] after@.cells[i]).origin() == self@.cells[i].origin(),
            clear_of(board@, self@) ==> clear_of(board@, after@),
    {
        if !self.can_rotate(board) {
            return *self;
        }
        proof {
            lemma_offsets_bounded(self@);
        }
        let mut cells = self.cells;
        let mut i: usize = 0;
        while i < 4
            invariant
                0 <= i <= 4,
                forall|j: int| 0 <= j < 4 ==> (#[trigger] self@.cells[j]).turn_fits(),
                forall|j: int| 0 <= j < i ==> (#[trigger] cells@[j]) == self@.cells[j].turn(),
                forall|j: int| i <= j < 4 ==> (#[trigger] cells@[j]) == self@.cells[j],
            decreases 4 - i,
        {
            let c = self.cells[i];
            assert(self@.cells[i as int] == c);
            cells[i] = c.rotated();
            i += 1;
        }
        let after = ActivePiece { cells, color: self.color, landed: self.landed };
        proof {
            assert(after@.cells =~= self@.turned().cells);
            assert forall|j: int| 0 <= j < 4 implies (#[trigger] after@.cells[j]).pos.on_field() && after@.cells[j].origin()
                == self@.cells[j].origin() && after@.cells[j].origin() == after@.cells[0].origin()
                && (after@.cells[j].pos.y < BOARD_HEIGHT ==> !locked_at(
                board@,
                after@.cells[j].pos.x as int,
                after@.cells[j].pos.y as int,
            )) by {
                assert(cell_may_turn(board@, self@, self@.cells[j]));
                assert(self@.cells[j].turn_fits());
                assert(self@.cells[j].origin() == self@.cells[0].origin());
                assert(cell_may_turn(board@, self@, self@.cells[0]));
                assert(self@.cells[0].turn_fits());
            }
            let a = choose|a: int| 0 <= a < 4 && (#[trigger] self@.cells[a]).rel.is_anchor();
            assert(self@.cells[a].turn_fits());
            assert(after@.cells[a].rel.is_anchor());
        }
        after
    }

    /// Says whether the piece may fall one row: no cell is on the floor, and
    /// the cell below each is free.
    pub fn can_fall(&self, board: &GameBoard) -> (ok: bool)
        requires
            self.wf(),
            board.wf(),
        ensures
            ok == may_fall(board@, self@),
    {
        let mut i: usize = 0;
        while i < 4
            invariant
                0 <= i <= 4,
                self.wf(),
                board.wf(),
                forall|j: int| 0 <= j < i ==> !cell_rests(board@, self@, #[trigger] self@.cells[j]),
            decreases 4 - i,
        {
            let c = self.cells[i];
            assert(self@.cells[i as int] == c);
            assert(c.pos.on_field());
            if c.pos.y == 0 || self.is_occupied(board, c.pos.x, c.pos.y - 1) {
                return false;
            }
            i += 1;
        }
        true
    }

    /// Lets the piece fall one row, if it may; otherwise there is no piece to
    /// return, and the caller locks this one.
    pub fn fall(&self, board: &GameBoard) -> (after: Option<ActivePiece>)
        requires
            self.wf(),
            board.wf(),
        ensures
            after is Some <==> may_fall(board@, self@),
            after is Some ==> after->0.wf() && after->0@ == self@.moved(0, -1) && clear_of(board@, after->0@),
    {
        if !self.can_fall(board) {
            return None;
        }
        proof {
            assert forall|i: int| 0 <= i < 4 implies 0 <= (#[trigger] self@.cells[i]).pos.x < BOARD_WIDTH && 0
                <= self@.cells[i].pos.y - 1 by {
                assert(self@.cells[i].pos.on_field());
                assert(!cell_rests(board@, self@, self@.cells[i]));
            }
        }
        let after = self.moved_by(0, -1, false);
        proof {
            assert forall|i: int| 0 <= i < 4 implies !locked_at(
                board@,
                (#[trigger] after@.cells[i]).pos.x as int,
                after@.cells[i].pos.y as int,
            ) by {
                assert(self@.cells[i].pos.on_field());
                assert(!cell_rests(board@, self@, self@.cells[i]));
            }
        }
        Some(after)
    }
}

} // verus!
