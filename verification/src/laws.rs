//! What holds of the rules, whatever the board and the piece.

use vstd::prelude::*;
use crate::board::{locked_at, Block};
use crate::catalog::{in_reach, shape_defect};
use crate::clearing::{
    compacted, lemma_cleared_block_has_source, lemma_full_rows_below_bound, lemma_nothing_to_clear, row_full,
    settle,
};
use crate::game::{Controls, GameView};
use crate::geometry::{BOARD_HEIGHT, BOARD_WIDTH, GRID_SIZE};
use crate::pacing::Due;
use crate::palette::Color;
use crate::piece::{
    cell_may_descend, cell_may_shift, cell_may_turn, cell_rests, clear_of, drop_distance, is_drop_distance,
    lemma_drop_distance_exists, lemma_drop_distance_unique, lemma_offsets_bounded, may_descend, may_fall,
    may_shift, may_turn, occupied, spawn_collides, spawned, Direction, PieceView,
};

verus! {

/// A well-formed piece that moves to places on the field is well formed.
pub proof fn lemma_moved_piece(piece: PieceView, dx: int, dy: int)
    requires
        piece.wf(),
        forall|i: int|
            0 <= i < 4 ==> 0 <= (#[trigger] piece.cells[i]).pos.x + dx < BOARD_WIDTH && 0 <= piece.cells[i].pos.y
                + dy < GRID_SIZE,
    ensures
        piece.moved(dx, dy).wf(),
        piece.dropped(-dy).wf(),
        forall|i: int| 0 <= i < 4 ==> (#[trigger] piece.moved(dx, dy).cells[i]).is_move_of(piece.cells[i], dx, dy),
        forall|i: int| 0 <= i < 4 ==> (#[trigger] piece.dropped(-dy).cells[i]).is_move_of(piece.cells[i], 0, dy),
{
    let after = piece.moved(dx, dy);
    let a = choose|a: int| 0 <= a < 4 && (#[trigger] piece.cells[a]).rel.is_anchor();
    assert(after.cells[a].rel.is_anchor());
    assert forall|i: int| 0 <= i < 4 implies (#[trigger] after.cells[i]).pos.on_field() && after.cells[i].origin()
        == after.cells[0].origin() by {
        assert(piece.cells[i].origin() == piece.cells[0].origin());
        assert(piece.cells[i].pos.on_field());
        assert(piece.cells[0].pos.on_field());
    }
    let low = piece.dropped(-dy);
    assert(low.cells[a].rel.is_anchor());
    assert forall|i: int| 0 <= i < 4 implies (#[trigger] low.cells[i]).pos.on_field() && low.cells[i].origin()
        == low.cells[0].origin() by {
        assert(piece.cells[i].origin() == piece.cells[0].origin());
        assert(piece.cells[i].pos.on_field());
        assert(piece.cells[0].pos.on_field());
    }
}

/// A well-formed piece that may turn is well formed afterwards: each cell
/// has turned about the anchor, which has stayed where it was.
pub proof fn lemma_turned_piece(blocks: Seq<Block>, piece: PieceView)
    requires
        piece.wf(),
        may_turn(blocks, piece),
    ensures
        piece.turned().wf(),
        forall|i: int| 0 <= i < 4 ==> (#[trigger] piece.turned().cells[i]).is_turn_of(piece.cells[i]),
        forall|i: int| 0 <= i < 4 ==> (#[trigger] piece.turned().cells[i]).pos.visible(),
        clear_of(blocks, piece.turned()),
{
    lemma_offsets_bounded(piece);
    let after = piece.turned();
    assert forall|i: int| 0 <= i < 4 implies (#[trigger] after.cells[i]).is_turn_of(piece.cells[i])
        && after.cells[i].pos.visible() && after.cells[i].pos.on_field() && after.cells[i].origin()
        == after.cells[0].origin() && !locked_at(blocks, after.cells[i].pos.x as int, after.cells[i].pos.y as int) by {
        assert(cell_may_turn(blocks, piece, piece.cells[i]));
        assert(piece.cells[i].turn_fits());
        assert(piece.cells[i].origin() == piece.cells[0].origin());
        assert(cell_may_turn(blocks, piece, piece.cells[0]));
        assert(piece.cells[0].turn_fits());
    }
    let a = choose|a: int| 0 <= a < 4 && (#[trigger] piece.cells[a]).rel.is_anchor();
    assert(piece.cells[a].turn_fits());
    assert(after.cells[a].rel.is_anchor());
}

/// Four quarter turns, one after the other, bring every cell of a piece back
/// to its offset and to its place.
pub proof fn lemma_four_turns_of_piece(piece: PieceView)
    requires
        piece.wf(),
    ensures
        piece.turned().turned().turned().turned() == piece,
{
    lemma_offsets_bounded(piece);
    let b = piece.turned();
    let c = b.turned();
    let d = c.turned();
    let e = d.turned();
    assert forall|i: int| 0 <= i < 4 implies e.cells[i] == piece.cells[i] by {
        assert(piece.cells[i].pos.on_field());
        assert(piece.cells[i].origin() == piece.cells[0].origin());
        assert(piece.cells[i].turn_fits());
        assert(b.cells[i] == piece.cells[i].turn());
        assert(c.cells[i] == b.cells[i].turn());
        assert(d.cells[i] == c.cells[i].turn());
        assert(e.cells[i] == d.cells[i].turn());
    }
    assert(e.cells =~= piece.cells);
}

/// A piece that has been dropped cannot turn: its anchor would land on the
/// cell that the anchor itself holds.
pub proof fn lemma_landed_piece_cannot_turn(blocks: Seq<Block>, piece: PieceView)
    requires
        piece.wf(),
        piece.landed,
    ensures
        !may_turn(blocks, piece),
{
    let a = choose|a: int| 0 <= a < 4 && (#[trigger] piece.cells[a]).rel.is_anchor();
    assert(piece.covers(piece.cells[a].pos.x as int, piece.cells[a].pos.y as int));
    assert(!cell_may_turn(blocks, piece, piece.cells[a]));
}

/// A move to the side changes no cell's row, puts no cell outside the
/// columns of the field, and puts no cell of the visible band on a block or
/// on a cell that is held. It moves all four cells by the same column, or
/// none. The board stays as it is.
pub proof fn lemma_shift(game: GameView, dir: Direction)
    requires
        game.wf(),
        game.piece is Some,
    ensures
        game.after_shift(dir).wf(),
        game.after_shift(dir).blocks == game.blocks,
        game.after_shift(dir).piece is Some,
        forall|i: int|
            0 <= i < 4 ==> (#[trigger] game.after_shift(dir).piece->0.cells[i]).pos.y == game.piece->0.cells[i].pos.y,
        forall|i: int| 0 <= i < 4 ==> 0 <= (#[trigger] game.after_shift(dir).piece->0.cells[i]).pos.x < BOARD_WIDTH,
        may_shift(game.blocks, game.piece->0, dir.dx()) ==> forall|i: int|
            0 <= i < 4 ==> {
                &&& (#[trigger] game.after_shift(dir).piece->0.cells[i]).is_move_of(game.piece->0.cells[i], dir.dx(), 0)
                &&& game.after_shift(dir).piece->0.cells[i].pos.y < BOARD_HEIGHT ==> !occupied(
                    game.blocks,
                    game.piece->0,
                    game.after_shift(dir).piece->0.cells[i].pos.x as int,
                    game.after_shift(dir).piece->0.cells[i].pos.y as int,
                )
            },
        !may_shift(game.blocks, game.piece->0, dir.dx()) ==> game.after_shift(dir) == game,
        game.piece_is_clear() ==> game.after_shift(dir).piece_is_clear(),
{
    let piece = game.piece->0;
    let dx = dir.dx();
    if may_shift(game.blocks, piece, dx) {
        assert forall|i: int| 0 <= i < 4 implies 0 <= (#[trigger] piece.cells[i]).pos.x + dx < BOARD_WIDTH && 0
            <= piece.cells[i].pos.y + 0 < GRID_SIZE by {
            assert(cell_may_shift(game.blocks, piece, piece.cells[i], dx));
            assert(piece.cells[i].pos.on_field());
        }
        lemma_moved_piece(piece, dx, 0);
        let after = piece.moved(dx, 0);
        assert forall|i: int| 0 <= i < 4 && (#[trigger] after.cells[i]).pos.y < BOARD_HEIGHT implies !occupied(
            game.blocks,
            piece,
            after.cells[i].pos.x as int,
            after.cells[i].pos.y as int,
        ) by {
            assert(cell_may_shift(game.blocks, piece, piece.cells[i], dx));
            assert(after.cells[i].is_move_of(piece.cells[i], dx, 0));
        }
        assert forall|i: int| 0 <= i < 4 implies 0 <= (#[trigger] after.cells[i]).pos.x < BOARD_WIDTH by {
            assert(after.cells[i].pos.on_field());
        }
    } else {
        assert forall|i: int| 0 <= i < 4 implies 0 <= (#[trigger] piece.cells[i]).pos.x < BOARD_WIDTH by {
            assert(piece.cells[i].pos.on_field());
        }
    }
}

/// A drop moves all four cells down by the same distance. On the way no cell
/// goes below the floor or through a block, and one row further a cell would:
/// the piece has come down as far as it goes. The cells then count as taken.
/// A second drop right after the first changes nothing.
pub proof fn lemma_drop(game: GameView)
    requires
        game.wf(),
        game.piece is Some,
    ensures
        game.after_drop().wf(),
        game.after_drop().blocks == game.blocks,
        game.after_drop().piece is Some,
        is_drop_distance(game.blocks, game.piece->0, drop_distance(game.blocks, game.piece->0)),
        forall|i: int|
            0 <= i < 4 ==> (#[trigger] game.after_drop().piece->0.cells[i]).is_move_of(
                game.piece->0.cells[i],
                0,
                -drop_distance(game.blocks, game.piece->0),
            ),
        !may_descend(game.blocks, game.after_drop().piece->0, 1),
        forall|i: int|
            0 <= i < 4 ==> occupied(
                game.blocks,
                game.after_drop().piece->0,
                (#[trigger] game.after_drop().piece->0.cells[i]).pos.x as int,
                game.after_drop().piece->0.cells[i].pos.y as int,
            ),
        game.after_drop().after_drop() == game.after_drop(),
        game.piece_is_clear() ==> game.after_drop().piece_is_clear(),
{
    let piece = game.piece->0;
    let blocks = game.blocks;
    lemma_drop_distance_exists(blocks, piece);
    let d = drop_distance(blocks, piece);
    if d > 0 {
        assert(may_descend(blocks, piece, d));
    }
    assert forall|i: int| 0 <= i < 4 implies 0 <= (#[trigger] piece.cells[i]).pos.x + 0 < BOARD_WIDTH && 0
        <= piece.cells[i].pos.y + (-d) < GRID_SIZE by {
        assert(piece.cells[i].pos.on_field());
        if d > 0 {
            assert(cell_may_descend(blocks, piece.cells[i], d));
        }
    }
    lemma_moved_piece(piece, 0, -d);
    let after = piece.dropped(d);
    assert(after == piece.dropped(-(-d)));
    let i = choose|i: int| 0 <= i < 4 && !cell_may_descend(blocks, #[trigger] piece.cells[i], d + 1);
    assert(after.cells[i].is_move_of(piece.cells[i], 0, -d));
    assert(!cell_may_descend(blocks, after.cells[i], 1));
    assert(is_drop_distance(blocks, after, 0));
    lemma_drop_distance_exists(blocks, after);
    lemma_drop_distance_unique(blocks, after, 0, drop_distance(blocks, after));
    assert(after.dropped(0).cells =~= after.cells);
    assert forall|i: int| 0 <= i < 4 implies occupied(
        blocks,
        after,
        (#[trigger] after.cells[i]).pos.x as int,
        after.cells[i].pos.y as int,
    ) by {
        assert(after.covers(after.cells[i].pos.x as int, after.cells[i].pos.y as int));
    }
    if clear_of(blocks, piece) {
        assert forall|i: int| 0 <= i < 4 && (#[trigger] after.cells[i]).pos.y < BOARD_HEIGHT implies !locked_at(
            blocks,
            after.cells[i].pos.x as int,
            after.cells[i].pos.y as int,
        ) by {
            assert(after.cells[i].is_move_of(piece.cells[i], 0, -d));
            if d > 0 {
                assert(cell_may_descend(blocks, piece.cells[i], d));
            }
        }
    }
}

/// A turn moves all four cells about the anchor, into the visible band and
/// onto free cells, or it moves none. The board stays as it is.
pub proof fn lemma_turn(game: GameView)
    requires
        game.wf(),
        game.piece is Some,
    ensures
        game.after_turn().wf(),
        game.after_turn().blocks == game.blocks,
        game.after_turn().piece is Some,
        may_turn(game.blocks, game.piece->0) ==> forall|i: int|
            0 <= i < 4 ==> (#[trigger] game.after_turn().piece->0.cells[i]).is_turn_of(game.piece->0.cells[i])
                && game.after_turn().piece->0.cells[i].pos.visible(),
        !may_turn(game.blocks, game.piece->0) ==> game.after_turn() == game,
        game.piece_is_clear() ==> game.after_turn().piece_is_clear(),
{
    if may_turn(game.blocks, game.piece->0) {
        lemma_turned_piece(game.blocks, game.piece->0);
    }
}

/// The fall moves all four cells down one row, onto free cells, or it locks
/// all four where they are and asks for a new piece. Afterwards a piece that
/// is left lies on no block.
pub proof fn lemma_gravity(game: GameView)
    requires
        game.wf(),
        game.piece is Some,
    ensures
        game.after_gravity().wf(),
        game.after_gravity().piece_is_clear(),
        may_fall(game.blocks, game.piece->0) ==> game.after_gravity().blocks == game.blocks
            && game.after_gravity().piece is Some && forall|i: int|
            0 <= i < 4 ==> (#[trigger] game.after_gravity().piece->0.cells[i]).is_move_of(
                game.piece->0.cells[i],
                0,
                -1,
            ),
        !may_fall(game.blocks, game.piece->0) ==> game.after_gravity().piece is None
            && game.after_gravity().spawn_requested && forall|i: int|
            0 <= i < 4 ==> locked_at(
                game.after_gravity().blocks,
                (#[trigger] game.piece->0.cells[i]).pos.x as int,
                game.piece->0.cells[i].pos.y as int,
            ),
        forall|x: int, y: int| locked_at(game.blocks, x, y) ==> locked_at(game.after_gravity().blocks, x, y),
{
    let piece = game.piece->0;
    let blocks = game.blocks;
    if may_fall(blocks, piece) {
        assert forall|i: int| 0 <= i < 4 implies 0 <= (#[trigger] piece.cells[i]).pos.x + 0 < BOARD_WIDTH && 0
            <= piece.cells[i].pos.y + (-1) < GRID_SIZE by {
            assert(piece.cells[i].pos.on_field());
            assert(!cell_rests(blocks, piece, piece.cells[i]));
        }
        lemma_moved_piece(piece, 0, -1);
        let after = piece.moved(0, -1);
        assert forall|i: int| 0 <= i < 4 implies !locked_at(
            blocks,
            (#[trigger] after.cells[i]).pos.x as int,
            after.cells[i].pos.y as int,
        ) by {
            assert(after.cells[i].is_move_of(piece.cells[i], 0, -1));
            assert(!cell_rests(blocks, piece, piece.cells[i]));
        }
    } else {
        let more = blocks + piece.as_blocks();
        assert forall|i: int| 0 <= i < more.len() implies (#[trigger] more[i]).pos.on_field() by {
            if i < blocks.len() {
                assert(more[i] == blocks[i]);
            } else {
                assert(more[i] == piece.as_blocks()[i - blocks.len()]);
                assert(piece.cells[i - blocks.len()].pos.on_field());
            }
        }
        assert forall|i: int| 0 <= i < 4 implies locked_at(
            more,
            (#[trigger] piece.cells[i]).pos.x as int,
            piece.cells[i].pos.y as int,
        ) by {
            assert(more[blocks.len() + i] == piece.as_blocks()[i]);
        }
    }
    assert forall|x: int, y: int| locked_at(blocks, x, y) implies locked_at(game.after_gravity().blocks, x, y) by {
        let i = choose|i: int| 0 <= i < blocks.len() && (#[trigger] blocks[i]).pos.x == x && blocks[i].pos.y == y;
        if !may_fall(blocks, piece) {
            assert((blocks + piece.as_blocks())[i] == blocks[i]);
        }
    }
}

/// A spawn that is asked for makes a piece of four cells, at the spawn
/// position and clear of the blocks, or it makes none and the game is over.
pub proof fn lemma_spawn(game: GameView, shape: Seq<(i32, i32)>, color: Color)
    requires
        game.wf(),
        shape_defect(shape) is None,
    ensures
        game.after_spawn(shape, color).wf(),
        game.after_spawn(shape, color).blocks == game.blocks,
        !game.spawn_requested ==> game.after_spawn(shape, color) == game,
        game.spawn_requested ==> !game.after_spawn(shape, color).spawn_requested,
        game.spawn_requested ==> (game.after_spawn(shape, color).game_over <==> game.game_over || spawn_collides(
            game.blocks,
            shape,
        )),
        game.spawn_requested ==> (game.after_spawn(shape, color).piece is Some <==> !spawn_collides(
            game.blocks,
            shape,
        )),
        game.spawn_requested || game.piece_is_clear() ==> game.after_spawn(shape, color).piece_is_clear(),
{
    if game.spawn_requested && !spawn_collides(game.blocks, shape) {
        let piece = spawned(shape, color);
        assert forall|i: int| 0 <= i < 4 implies (#[trigger] piece.cells[i]).pos.on_field() && piece.cells[i].origin()
            == piece.cells[0].origin() && !locked_at(
            game.blocks,
            piece.cells[i].pos.x as int,
            piece.cells[i].pos.y as int,
        ) by {
            assert(in_reach(shape[i].0 as int, shape[i].1 as int));
            assert(in_reach(shape[0].0 as int, shape[0].1 as int));
        }
        let a = choose|a: int| 0 <= a < shape.len() && #[trigger] shape[a] == (0i32, 0i32);
        assert(piece.cells[a].rel.is_anchor());
    }
}

/// Clearing keeps the blocks on the field.
pub proof fn lemma_clearing(game: GameView)
    requires
        game.wf(),
    ensures
        game.after_clearing().wf(),
        game.after_clearing().piece == game.piece,
        (forall|y: int| !row_full(game.blocks, y)) ==> game.after_clearing() == game,
{
    let after = compacted(game.blocks);
    assert forall|j: int| 0 <= j < after.len() implies (#[trigger] after[j]).pos.on_field() by {
        lemma_cleared_block_has_source(game.blocks, j);
        let i = choose|i: int|
            0 <= i < game.blocks.len() && !row_full(game.blocks, (#[trigger] game.blocks[i]).pos.y as int)
                && after[j] == settle(game.blocks)(game.blocks[i]);
        assert(game.blocks[i].pos.on_field());
        lemma_full_rows_below_bound(game.blocks, game.blocks[i].pos.y as int);
    }
    if forall|y: int| !row_full(game.blocks, y) {
        lemma_nothing_to_clear(game.blocks);
    }
}

/// The moves of the player keep the game well formed and the piece clear of
/// the blocks, and leave the board as it is.
pub proof fn lemma_controls(game: GameView, controls: Controls, due: Due)
    requires
        game.wf(),
    ensures
        game.after_controls(controls, due).wf(),
        game.after_controls(controls, due).blocks == game.blocks,
        (game.after_controls(controls, due).piece is Some) == (game.piece is Some),
        game.after_controls(controls, due).spawn_requested == game.spawn_requested,
        game.after_controls(controls, due).game_over == game.game_over,
        game.piece_is_clear() ==> game.after_controls(controls, due).piece_is_clear(),
{
    if game.piece is Some {
        let a = if due.input && controls.left {
            game.after_shift(Direction::Left)
        } else {
            game
        };
        lemma_shift(game, Direction::Left);
        let b = if due.input && controls.right {
            a.after_shift(Direction::Right)
        } else {
            a
        };
        lemma_shift(a, Direction::Right);
        let c = if controls.drop {
            b.after_drop()
        } else {
            b
        };
        lemma_drop(b);
        lemma_turn(c);
    }
}

/// A tick keeps the game well formed: the blocks stay on the field, there is
/// at most one piece, of four cells that hang together, and no piece is asked
/// for while one falls. After the tick the game is not over. Where the piece
/// lay clear of the blocks before the tick and no row was full, or where there
/// was no piece, a piece that is there after the tick lies clear of them.
pub proof fn lemma_step(game: GameView, shape: Seq<(i32, i32)>, color: Color, controls: Controls, due: Due)
    requires
        game.wf(),
        shape_defect(shape) is None,
    ensures
        game.after_step(shape, color, controls, due).wf(),
        !game.after_step(shape, color, controls, due).game_over,
        game.piece is None || (game.piece_is_clear() && forall|y: int| !row_full(game.blocks, y))
            ==> game.after_step(shape, color, controls, due).piece_is_clear(),
{
    let a = game.after_clearing();
    lemma_clearing(game);
    let b = a.after_spawn(shape, color);
    lemma_spawn(a, shape, color);
    let c = b.after_controls(controls, due);
    lemma_controls(b, controls, due);
    if c.piece is Some {
        lemma_gravity(c);
    }
}

} // verus!
