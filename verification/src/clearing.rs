//! What clearing the full rows does to the locked cells.

use vstd::prelude::*;
use crate::board::{locked_at, all_on_field, Block};
use crate::geometry::{Position, BOARD_HEIGHT, BOARD_WIDTH};

verus! {

/// Row `y` is a visible row with a block in every column.
pub open spec fn row_full(blocks: Seq<Block>, y: int) -> bool {
    0 <= y < BOARD_HEIGHT && forall|x: int| 0 <= x < BOARD_WIDTH ==> locked_at(blocks, x, y)
}

/// The number of full rows strictly below row `y`.
pub open spec fn full_rows_below(blocks: Seq<Block>, y: int) -> nat
    decreases y,
{
    if y <= 0 {
        0
    } else if row_full(blocks, y - 1) {
        full_rows_below(blocks, y - 1) + 1
    } else {
        full_rows_below(blocks, y - 1)
    }
}

/// The row that the cells of row `y` are in once the full rows below it are
/// gone.
pub open spec fn settled_row(blocks: Seq<Block>, y: int) -> int {
    y - full_rows_below(blocks, y)
}

/// Tells whether a block outlasts the clearing of the full rows of `blocks`.
pub open spec fn survives(blocks: Seq<Block>) -> spec_fn(Block) -> bool {
    |b: Block| !row_full(blocks, b.pos.y as int)
}

/// Moves a block down by the number of full rows of `blocks` below it.
pub open spec fn settle(blocks: Seq<Block>) -> spec_fn(Block) -> Block {
    |b: Block|
        Block {
            pos: Position { x: b.pos.x, y: settled_row(blocks, b.pos.y as int) as i32 },
            color: b.color,
        }
}

/// The part `part` of the blocks `all` after the full rows of `all` are
/// cleared: the blocks in full rows are gone, and each of the others has moved
/// down by the number of full rows below it. The order is kept.
pub open spec fn compacted_part(all: Seq<Block>, part: Seq<Block>) -> Seq<Block> {
    part.filter(survives(all)).map_values(settle(all))
}

/// The blocks after their full rows are cleared.
pub open spec fn compacted(blocks: Seq<Block>) -> Seq<Block> {
    compacted_part(blocks, blocks)
}

/// There are at most `y` full rows below row `y`, and none but visible ones.
pub proof fn lemma_full_rows_below_bound(blocks: Seq<Block>, y: int)
    ensures
        full_rows_below(blocks, y) <= y || y < 0,
        full_rows_below(blocks, y) <= BOARD_HEIGHT,
        y < 0 ==> full_rows_below(blocks, y) == 0,
    decreases y,
{
    if y > 0 {
        lemma_full_rows_below_bound(blocks, y - 1);
    }
}

/// Adding a block to the part adds its settled copy, unless its row is full.
pub proof fn lemma_compacted_part_push(all: Seq<Block>, part: Seq<Block>, b: Block)
    ensures
        compacted_part(all, part.push(b)) == if row_full(all, b.pos.y as int) {
            compacted_part(all, part)
        } else {
            compacted_part(all, part).push(settle(all)(b))
        },
{
    reveal(Seq::filter);
    let more = part.push(b);
    assert(more.drop_last() =~= part);
    assert(more.last() == b);
    if row_full(all, b.pos.y as int) {
        assert(more.filter(survives(all)) == part.filter(survives(all)));
    } else {
        assert(more.filter(survives(all)) == part.filter(survives(all)).push(b));
        assert(compacted_part(all, more) =~= compacted_part(all, part).push(settle(all)(b)));
    }
}

/// Rows above the visible band are never full, so they add nothing to the
/// count.
pub proof fn lemma_full_rows_above_band(blocks: Seq<Block>, y: int)
    requires
        y >= BOARD_HEIGHT,
    ensures
        full_rows_below(blocks, y) == full_rows_below(blocks, BOARD_HEIGHT as int),
    decreases y,
{
    if y > BOARD_HEIGHT {
        lemma_full_rows_above_band(blocks, y - 1);
    }
}

/// Tells whether a block lies in a full row of `blocks`.
pub open spec fn doomed(blocks: Seq<Block>) -> spec_fn(Block) -> bool {
    |b: Block| row_full(blocks, b.pos.y as int)
}

/// The blocks that clearing the full rows removes.
pub open spec fn removed(blocks: Seq<Block>) -> Seq<Block> {
    blocks.filter(doomed(blocks))
}

/// Adding a block to a sequence adds it to the removed ones exactly if its
/// row is full.
proof fn lemma_doomed_push(all: Seq<Block>, part: Seq<Block>, b: Block)
    ensures
        part.push(b).filter(doomed(all)).len() == part.filter(doomed(all)).len() + if row_full(
            all,
            b.pos.y as int,
        ) {
            1int
        } else {
            0int
        },
{
    reveal(Seq::filter);
    let more = part.push(b);
    assert(more.drop_last() =~= part);
    assert(more.last() == b);
}

/// What holds of the first `n` blocks after clearing.
proof fn lemma_compacted_prefix(all: Seq<Block>, n: int)
    requires
        0 <= n <= all.len(),
    ensures
        forall|j: int|
            0 <= j < compacted_part(all, all.take(n)).len() ==> exists|i: int|
                0 <= i < n && !row_full(all, (#[trigger] all[i]).pos.y as int) && (
                #[trigger] compacted_part(all, all.take(n))[j]) == settle(all)(all[i]),
        forall|i: int|
            0 <= i < n && !row_full(all, (#[trigger] all[i]).pos.y as int) ==> compacted_part(
                all,
                all.take(n),
            ).contains(settle(all)(all[i])),
        compacted_part(all, all.take(n)).len() + all.take(n).filter(doomed(all)).len() == n,
    decreases n,
{
    reveal(Seq::filter);
    if n > 0 {
        let before = all.take(n - 1);
        let b = all[n - 1];
        let old_part = compacted_part(all, before);
        let new_part = compacted_part(all, all.take(n));
        lemma_compacted_prefix(all, n - 1);
        lemma_compacted_part_push(all, before, b);
        lemma_doomed_push(all, before, b);
        assert(before.push(b) =~= all.take(n));
        assert forall|j: int| 0 <= j < new_part.len() implies exists|i: int|
            0 <= i < n && !row_full(all, (#[trigger] all[i]).pos.y as int) && (#[trigger] new_part[j])
                == settle(all)(all[i]) by {
            if j < old_part.len() {
                assert(new_part[j] == old_part[j]);
                let i = choose|i: int|
                    0 <= i < n - 1 && !row_full(all, (#[trigger] all[i]).pos.y as int) && old_part[j]
                        == settle(all)(all[i]);
                assert(0 <= i < n && !row_full(all, all[i].pos.y as int) && new_part[j] == settle(all)(
                    all[i],
                ));
            } else {
                assert(new_part[j] == settle(all)(all[n - 1]));
            }
        }
        assert forall|i: int|
            0 <= i < n && !row_full(all, (#[trigger] all[i]).pos.y as int) implies new_part.contains(
            settle(all)(all[i]),
        ) by {
            if i < n - 1 {
                assert(old_part.contains(settle(all)(all[i])));
                let j = choose|j: int| 0 <= j < old_part.len() && old_part[j] == settle(all)(all[i]);
                assert(new_part[j] == settle(all)(all[i]));
            } else {
                assert(new_part[old_part.len() as int] == settle(all)(all[i]));
            }
        }
    } else {
        assert(all.take(0) =~= Seq::<Block>::empty());
    }
}

/// No cell appears from nowhere: every block after clearing is a block from a
/// row that was not full, moved down by the number of full rows below it.
pub proof fn lemma_cleared_block_has_source(blocks: Seq<Block>, j: int)
    requires
        0 <= j < compacted(blocks).len(),
    ensures
        exists|i: int|
            0 <= i < blocks.len() && !row_full(blocks, (#[trigger] blocks[i]).pos.y as int) && compacted(
                blocks,
            )[j] == settle(blocks)(blocks[i]),
{
    lemma_compacted_prefix(blocks, blocks.len() as int);
    assert(blocks.take(blocks.len() as int) =~= blocks);
    let i = choose|i: int|
        0 <= i < blocks.len() && !row_full(blocks, (#[trigger] blocks[i]).pos.y as int) && (
        #[trigger] compacted_part(blocks, blocks.take(blocks.len() as int))[j]) == settle(blocks)(blocks[i]);
    assert(!row_full(blocks, blocks[i].pos.y as int) && compacted(blocks)[j] == settle(blocks)(blocks[i]));
}

/// No cell is lost: a block whose row is not full is still there after
/// clearing, moved down by the number of full rows below it.
pub proof fn lemma_survivor_is_kept(blocks: Seq<Block>, i: int)
    requires
        0 <= i < blocks.len(),
        !row_full(blocks, blocks[i].pos.y as int),
    ensures
        compacted(blocks).contains(settle(blocks)(blocks[i])),
{
    lemma_compacted_prefix(blocks, blocks.len() as int);
    assert(blocks.take(blocks.len() as int) =~= blocks);
}

/// No cell is counted twice: the blocks after clearing and the blocks of the
/// full rows together are as many as the blocks before.
pub proof fn lemma_clearing_counts(blocks: Seq<Block>)
    ensures
        compacted(blocks).len() + removed(blocks).len() == blocks.len(),
{
    lemma_compacted_prefix(blocks, blocks.len() as int);
    assert(blocks.take(blocks.len() as int) =~= blocks);
}

/// Rows keep their order when the full ones are cleared, and two rows of
/// which the lower is not full never end up in the same row.
pub proof fn lemma_settled_rows_in_order(blocks: Seq<Block>, low: int, high: int)
    requires
        low < high,
    ensures
        settled_row(blocks, low) <= settled_row(blocks, high),
        !row_full(blocks, low) ==> settled_row(blocks, low) < settled_row(blocks, high),
    decreases high - low,
{
    if low + 1 < high {
        lemma_settled_rows_in_order(blocks, low, high - 1);
    } else {
        lemma_full_rows_below_bound(blocks, low);
    }
}

/// On the grid: after clearing, a cell is locked exactly if it is where a
/// locked cell of a row that was not full has settled.
pub proof fn lemma_clearing_on_grid(blocks: Seq<Block>, x: int, y: int)
    requires
        all_on_field(blocks),
    ensures
        locked_at(compacted(blocks), x, y) <==> exists|r: int|
            #[trigger] locked_at(blocks, x, r) && !row_full(blocks, r) && settled_row(blocks, r) == y,
{
    let after = compacted(blocks);
    if locked_at(after, x, y) {
        let j = choose|j: int| 0 <= j < after.len() && (#[trigger] after[j]).pos.x == x && after[j].pos.y == y;
        lemma_cleared_block_has_source(blocks, j);
        let i = choose|i: int|
            0 <= i < blocks.len() && !row_full(blocks, (#[trigger] blocks[i]).pos.y as int) && after[j]
                == settle(blocks)(blocks[i]);
        let r = blocks[i].pos.y as int;
        lemma_full_rows_below_bound(blocks, r);
        assert(blocks[i].pos.on_field());
        assert(locked_at(blocks, x, r) && !row_full(blocks, r) && settled_row(blocks, r) == y);
    }
    if exists|r: int| #[trigger] locked_at(blocks, x, r) && !row_full(blocks, r) && settled_row(blocks, r) == y {
        let r = choose|r: int| #[trigger] locked_at(blocks, x, r) && !row_full(blocks, r) && settled_row(blocks, r) == y;
        let i = choose|i: int| 0 <= i < blocks.len() && (#[trigger] blocks[i]).pos.x == x && blocks[i].pos.y == r;
        lemma_survivor_is_kept(blocks, i);
        lemma_full_rows_below_bound(blocks, r);
        assert(blocks[i].pos.on_field());
        let moved = settle(blocks)(blocks[i]);
        let j = choose|j: int| 0 <= j < after.len() && after[j] == moved;
        assert(after[j].pos.x == x && after[j].pos.y == y);
    }
}

/// Where no row is full, clearing changes nothing.
pub proof fn lemma_nothing_to_clear(blocks: Seq<Block>)
    requires
        forall|y: int| !row_full(blocks, y),
    ensures
        compacted(blocks) == blocks,
        full_rows_below(blocks, BOARD_HEIGHT as int) == 0,
{
    lemma_no_full_rows_below(blocks, BOARD_HEIGHT as int);
    assert(blocks.filter(survives(blocks)) == blocks) by {
        lemma_filter_all(blocks, survives(blocks));
    }
    assert forall|i: int| 0 <= i < blocks.len() implies settle(blocks)(blocks[i]) == blocks[i] by {
        lemma_no_full_rows_below(blocks, blocks[i].pos.y as int);
    }
    assert(compacted(blocks) =~= blocks);
}

/// Where no row is full, no full row lies below any row.
proof fn lemma_no_full_rows_below(blocks: Seq<Block>, y: int)
    requires
        forall|r: int| !row_full(blocks, r),
    ensures
        full_rows_below(blocks, y) == 0,
    decreases y,
{
    if y > 0 {
        lemma_no_full_rows_below(blocks, y - 1);
    }
}

/// A filter that every element passes keeps the sequence.
proof fn lemma_filter_all(s: Seq<Block>, pred: spec_fn(Block) -> bool)
    requires
        forall|i: int| 0 <= i < s.len() ==> pred(#[trigger] s[i]),
    ensures
        s.filter(pred) == s,
    decreases s.len(),
{
    reveal(Seq::filter);
    if s.len() > 0 {
        lemma_filter_all(s.drop_last(), pred);
        assert(s.drop_last().push(s.last()) =~= s);
    }
}

} // verus!
