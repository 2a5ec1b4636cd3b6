//! The board: the cells that are locked, and the clearing of full rows.

use vstd::prelude::*;
use crate::geometry::{Position, BOARD_HEIGHT, BOARD_WIDTH, GRID_SIZE};
use crate::palette::Color;
use crate::clearing::{
    compacted, compacted_part, full_rows_below, lemma_compacted_part_push, lemma_full_rows_above_band,
    lemma_full_rows_below_bound, row_full, settled_row,
};

verus! {

/// A locked cell.
#[derive(Clone, Copy, Debug, PartialEq, Eq, Structural)]
pub struct Block {
    pub pos: Position,
    pub color: Color,
}

/// Some block lies at `(x, y)`.
pub open spec fn locked_at(blocks: Seq<Block>, x: int, y: int) -> bool {
    exists|i: int| 0 <= i < blocks.len() && (#[trigger] blocks[i]).pos.x == x && blocks[i].pos.y == y
}

/// Every block lies on the field.
pub open spec fn all_on_field(blocks: Seq<Block>) -> bool {
    forall|i: int| 0 <= i < blocks.len() ==> (#[trigger] blocks[i]).pos.on_field()
}

/// A block that is added is found where it lies, and changes nothing elsewhere.
pub proof fn lemma_locked_at_push(blocks: Seq<Block>, b: Block, x: int, y: int)
    ensures
        locked_at(blocks.push(b), x, y) <==> locked_at(blocks, x, y) || (b.pos.x == x && b.pos.y == y),
{
    let more = blocks.push(b);
    if locked_at(blocks, x, y) {
        let i = choose|i: int| 0 <= i < blocks.len() && (#[trigger] blocks[i]).pos.x == x && blocks[i].pos.y == y;
        assert(more[i].pos.x == x && more[i].pos.y == y);
    }
    if b.pos.x == x && b.pos.y == y {
        assert(more[blocks.len() as int].pos.x == x);
    }
    if locked_at(more, x, y) {
        let i = choose|i: int| 0 <= i < more.len() && (#[trigger] more[i]).pos.x == x && more[i].pos.y == y;
        if i < blocks.len() {
            assert(blocks[i].pos.x == x && blocks[i].pos.y == y);
        }
    }
}

/// The board of locked cells. The grid of flags is kept beside the list of
/// blocks, and says of each cell of the storage grid whether a block lies there.
pub struct GameBoard {
    grid: Vec<Vec<bool>>,
    blocks: Vec<Block>,
}

impl View for GameBoard {
    type V = Seq<Block>;

    closed spec fn view(&self) -> Seq<Block> {
        self.blocks@
    }
}

impl GameBoard {
    /// The grid has the storage size, and its flags say where the blocks lie.
    pub closed spec fn grid_matches(&self) -> bool {
        &&& self.grid@.len() == GRID_SIZE
        &&& forall|y: int| 0 <= y < GRID_SIZE ==> (#[trigger] self.grid@[y])@.len() == GRID_SIZE
        &&& forall|x: int, y: int|
            0 <= x < GRID_SIZE && 0 <= y < GRID_SIZE ==> (#[trigger] self.grid@[y]@[x]) == locked_at(
                self.blocks@,
                x,
                y,
            )
    }

    /// The board is well formed.
    pub open spec fn wf(&self) -> bool {
        self.grid_matches() && all_on_field(self@)
    }

    /// An empty board.
    pub fn new() -> (board: GameBoard)
        ensures
            board.wf(),
            board@ == Seq::<Block>::empty(),
    {
        let mut grid: Vec<Vec<bool>> = Vec::new();
        let mut y: i32 = 0;
        while y < GRID_SIZE
            invariant
                0 <= y <= GRID_SIZE,
                grid@.len() == y,
                forall|r: int| 0 <= r < y ==> (#[trigger] grid@[r])@.len() == GRID_SIZE,
                forall|c: int, r: int| 0 <= c < GRID_SIZE && 0 <= r < y ==> !(#[trigger] grid@[r]@[c]),
            decreases GRID_SIZE - y,
        {
            let mut row: Vec<bool> = Vec::new();
            let mut x: i32 = 0;
            while x < GRID_SIZE
                invariant
                    0 <= x <= GRID_SIZE,
                    row@.len() == x,
                    forall|c: int| 0 <= c < x ==> !(#[trigger] row@[c]),
                decreases GRID_SIZE - x,
            {
                row.push(false);
                x += 1;
            }
            grid.push(row);
            y += 1;
        }
        GameBoard { grid, blocks: Vec::new() }
    }

    /// Says whether a block lies at `(x, y)`. Outside the field none does.
    pub fn is_locked(&self, x: i32, y: i32) -> (locked: bool)
        requires
            self.wf(),
        ensures
            locked == locked_at(self@, x as int, y as int),
    {
        if 0 <= x && x < GRID_SIZE && 0 <= y && y < GRID_SIZE {
            self.grid[y as usize][x as usize]
        } else {
            false
        }
    }

    /// The number of blocks.
    pub fn len(&self) -> (n: usize)
        ensures
            n == self@.len(),
    {
        self.blocks.len()
    }

    /// The blocks, in the order in which they were locked.
    pub fn blocks(&self) -> (out: &Vec<Block>)
        ensures
            out@ == self@,
    {
        &self.blocks
    }

    /// Locks a cell. A position outside the field is refused, and the board
    /// stays as it is.
    pub fn lock(&mut self, pos: Position, color: Color) -> (done: bool)
        requires
            old(self).wf(),
        ensures
            final(self).wf(),
            done == pos.on_field(),
            done ==> final(self)@ == old(self)@.push(Block { pos, color }),
            !done ==> final(self)@ == old(self)@,
    {
        if !(0 <= pos.x && pos.x < BOARD_WIDTH && 0 <= pos.y && pos.y < GRID_SIZE) {
            return false;
        }
        let block = Block { pos, color };
        self.blocks.push(block);
        self.grid[pos.y as usize][pos.x as usize] = true;
        proof {
            assert forall|x: int, y: int| 0 <= x < GRID_SIZE && 0 <= y < GRID_SIZE implies (#[trigger] self.grid@[y]@[x])
                == locked_at(self.blocks@, x, y) by {
                lemma_locked_at_push(old(self).blocks@, block, x, y);
                assert(old(self).grid@[y]@[x] == locked_at(old(self).blocks@, x, y));
            }
        }
        true
    }

    /// Says whether row `y` is full: a visible row with a block in every
    /// column.
    pub fn row_is_full(&self, y: i32) -> (full: bool)
        requires
            self.wf(),
        ensures
            full == row_full(self@, y as int),
    {
        if y < 0 || y >= BOARD_HEIGHT {
            return false;
        }
        let mut x: i32 = 0;
        while x < BOARD_WIDTH
            invariant
                0 <= x <= BOARD_WIDTH,
                0 <= y < BOARD_HEIGHT,
                self.wf(),
                forall|c: int| 0 <= c < x ==> locked_at(self@, c, y as int),
            decreases BOARD_WIDTH - x,
        {
            if !self.is_locked(x, y) {
                return false;
            }
            x += 1;
        }
        true
    }

    /// Unlocks every cell.
    pub fn reset(&mut self)
        ensures
            final(self).wf(),
            final(self)@ == Seq::<Block>::empty(),
    {
        *self = GameBoard::new();
    }

    /// The board that holds the given blocks.
    fn from_blocks(blocks: Vec<Block>) -> (board: GameBoard)
        requires
            all_on_field(blocks@),
        ensures
            board.wf(),
            board@ == blocks@,
    {
        let mut board = GameBoard::new();
        let mut i: usize = 0;
        while i < blocks.len()
            invariant
                0 <= i <= blocks.len(),
                all_on_field(blocks@),
                board.wf(),
                board@ == blocks@.take(i as int),
            decreases blocks.len() - i,
        {
            let b = blocks[i];
            assert(blocks@[i as int].pos.on_field());
            board.lock(b.pos, b.color);
            assert(blocks@.take(i as int).push(b) =~= blocks@.take(i + 1));
            i += 1;
        }
        assert(blocks@.take(blocks.len() as int) =~= blocks@);
        board
    }

    /// Clears the full rows: the blocks in them are removed, and every other
    /// block moves down by the number of full rows that were below it. All new
    /// rows are computed from the board as it was before anything moved.
    /// Returns the number of rows cleared.
    pub fn clear_lines(&mut self) -> (cleared: usize)
        requires
            old(self).wf(),
        ensures
            final(self).wf(),
            final(self)@ == compacted(old(self)@),
            cleared == full_rows_below(old(self)@, BOARD_HEIGHT as int),
    {
        let mut full: Vec<bool> = Vec::new();
        let mut new_y: Vec<i32> = Vec::new();
        let mut below: i32 = 0;
        let mut y: i32 = 0;
        while y < GRID_SIZE
            invariant
                0 <= y <= GRID_SIZE,
                self.wf(),
                below == full_rows_below(self@, y as int),
                0 <= below <= y,
                full@.len() == y,
                new_y@.len() == y,
                forall|r: int| 0 <= r < y ==> (#[trigger] full@[r]) == row_full(self@, r),
                forall|r: int| 0 <= r < y ==> (#[trigger] new_y@[r]) == settled_row(self@, r),
            decreases GRID_SIZE - y,
        {
            let is_full = self.row_is_full(y);
            full.push(is_full);
            new_y.push(y - below);
            if is_full {
                below += 1;
            }
            y += 1;
        }
        proof {
            lemma_full_rows_above_band(self@, GRID_SIZE as int);
        }
        let mut kept: Vec<Block> = Vec::new();
        let mut i: usize = 0;
        while i < self.blocks.len()
            invariant
                0 <= i <= self.blocks@.len(),
                self.wf(),
                full@.len() == GRID_SIZE,
                new_y@.len() == GRID_SIZE,
                forall|r: int| 0 <= r < GRID_SIZE ==> (#[trigger] full@[r]) == row_full(self@, r),
                forall|r: int| 0 <= r < GRID_SIZE ==> (#[trigger] new_y@[r]) == settled_row(self@, r),
                kept@ == compacted_part(self@, self@.take(i as int)),
                all_on_field(kept@),
            decreases self.blocks@.len() - i,
        {
            let b = self.blocks[i];
            proof {
                assert(self@[i as int].pos.on_field());
                lemma_compacted_part_push(self@, self@.take(i as int), b);
                lemma_full_rows_below_bound(self@, b.pos.y as int);
                assert(self@.take(i as int).push(b) =~= self@.take(i + 1));
            }
            if !full[b.pos.y as usize] {
                kept.push(Block { pos: Position { x: b.pos.x, y: new_y[b.pos.y as usize] }, color: b.color });
            }
            i += 1;
        }
        assert(self@.take(self@.len() as int) =~= self@);
        *self = GameBoard::from_blocks(kept);
        below as usize
    }
}

} // verus!
