//! The game: the board, the falling piece and the two pending signals, and
//! what each part of a tick does to them.

use vstd::prelude::*;
use crate::board::{all_on_field, locked_at, Block, GameBoard};
use crate::catalog::{BlockPatterns, Shape};
use crate::clearing::{compacted, full_rows_below};
use crate::geometry::{BOARD_HEIGHT, SPAWN_X, SPAWN_Y};
use crate::pacing::{Due, GameTimers};
use crate::palette::{Color, Materials};
use crate::piece::{
    clear_of, drop_distance, is_drop_distance, may_fall, may_shift, may_turn, spawn_collides, spawned,
    ActivePiece, Direction, PieceView,
};

verus! {

/// What the player asks for in one tick.
#[derive(Clone, Copy, Debug, PartialEq, Eq, Structural)]
pub struct Controls {
    /// The key for a move to the left is held.
    pub left: bool,
    /// The key for a move to the right is held.
    pub right: bool,
    /// The key for a drop has just gone down.
    pub drop: bool,
    /// The key for a turn has just gone down.
    pub rotate: bool,
}

/// What a tick reports.
#[derive(Clone, Copy, Debug, PartialEq, Eq, Structural)]
pub struct Signals {
    /// The number of rows that were cleared.
    pub rows_cleared: usize,
    /// A piece could not be spawned: the game was over and has started anew.
    pub game_over: bool,
    /// A new piece is to be spawned in the next tick.
    pub spawn_requested: bool,
}

/// What a game is, to the rules.
pub struct GameView {
    /// The locked cells.
    pub blocks: Seq<Block>,
    /// The falling piece, if there is one.
    pub piece: Option<PieceView>,
    /// A new piece is to be spawned.
    pub spawn_requested: bool,
    /// A piece could not be spawned, and the game is to start anew.
    pub game_over: bool,
}

impl GameView {
    /// The blocks are on the field, the piece is well formed, and no piece is
    /// asked for while one falls.
    pub open spec fn wf(self) -> bool {
        &&& all_on_field(self.blocks)
        &&& self.piece is Some ==> self.piece->0.wf()
        &&& self.spawn_requested ==> self.piece is None
    }

    /// The falling piece, as far as it is in the visible band, lies on no
    /// block.
    pub open spec fn piece_is_clear(self) -> bool {
        self.piece is Some ==> clear_of(self.blocks, self.piece->0)
    }

    /// The game after the full rows are cleared.
    pub open spec fn after_clearing(self) -> GameView {
        GameView { blocks: compacted(self.blocks), ..self }
    }

    /// The game after the spawn controller has run. Without a request nothing
    /// happens. With one, the request is used up: if a block lies where a cell
    /// of the new piece would be, no piece is made and the game is over;
    /// otherwise the new piece falls.
    pub open spec fn after_spawn(self, shape: Seq<(i32, i32)>, color: Color) -> GameView {
        if !self.spawn_requested {
            self
        } else if spawn_collides(self.blocks, shape) {
            GameView { spawn_requested: false, game_over: true, ..self }
        } else {
            GameView { piece: Some(spawned(shape, color)), spawn_requested: false, ..self }
        }
    }

    /// The game after a move of one column is asked for.
    pub open spec fn after_shift(self, dir: Direction) -> GameView {
        match self.piece {
            Some(piece) => if may_shift(self.blocks, piece, dir.dx()) {
                GameView { piece: Some(piece.moved(dir.dx(), 0)), ..self }
            } else {
                self
            },
            None => self,
        }
    }

    /// The game after a drop is asked for.
    pub open spec fn after_drop(self) -> GameView {
        match self.piece {
            Some(piece) => GameView { piece: Some(piece.dropped(drop_distance(self.blocks, piece))), ..self },
            None => self,
        }
    }

    /// The game after a turn is asked for.
    pub open spec fn after_turn(self) -> GameView {
        match self.piece {
            Some(piece) => if may_turn(self.blocks, piece) {
                GameView { piece: Some(piece.turned()), ..self }
            } else {
                self
            },
            None => self,
        }
    }

    /// The game after the interval of the fall has elapsed: the piece falls
    /// one row if it may; otherwise its cells are locked, in their order, and
    /// a new piece is asked for.
    pub open spec fn after_gravity(self) -> GameView {
        match self.piece {
            Some(piece) => if may_fall(self.blocks, piece) {
                GameView { piece: Some(piece.moved(0, -1)), ..self }
            } else {
                GameView { blocks: self.blocks + piece.as_blocks(), piece: None, spawn_requested: true, ..self }
            },
            None => self,
        }
    }

    /// The game after the game-over controller has run: if the game is over,
    /// every cell is gone and a new piece is asked for.
    pub open spec fn after_game_over(self) -> GameView {
        if self.game_over {
            GameView { blocks: Seq::empty(), piece: None, spawn_requested: true, game_over: false }
        } else {
            self
        }
    }

    /// The game after the moves that the player asks for: to the left and to
    /// the right when the interval for held keys has elapsed, then the drop,
    /// then the turn.
    pub open spec fn after_controls(self, controls: Controls, due: Due) -> GameView {
        let a = if due.input && controls.left {
            self.after_shift(Direction::Left)
        } else {
            self
        };
        let b = if due.input && controls.right {
            a.after_shift(Direction::Right)
        } else {
            a
        };
        let c = if controls.drop {
            b.after_drop()
        } else {
            b
        };
        if controls.rotate {
            c.after_turn()
        } else {
            c
        }
    }

    /// The game as the game-over controller finds it in a tick: after the
    /// rows are cleared, the piece is spawned, the player has moved it and it
    /// has fallen.
    pub open spec fn before_game_over(
        self,
        shape: Seq<(i32, i32)>,
        color: Color,
        controls: Controls,
        due: Due,
    ) -> GameView {
        let moved = self.after_clearing().after_spawn(shape, color).after_controls(controls, due);
        if due.gravity {
            moved.after_gravity()
        } else {
            moved
        }
    }

    /// The game after one tick.
    pub open spec fn after_step(self, shape: Seq<(i32, i32)>, color: Color, controls: Controls, due: Due) -> GameView {
        self.before_game_over(shape, color, controls, due).after_game_over()
    }

    /// What one tick reports.
    pub open spec fn signals_of_step(self, shape: Seq<(i32, i32)>, color: Color, controls: Controls, due: Due) -> Signals {
        Signals {
            rows_cleared: full_rows_below(self.blocks, BOARD_HEIGHT as int) as usize,
            game_over: self.before_game_over(shape, color, controls, due).game_over,
            spawn_requested: self.after_step(shape, color, controls, due).spawn_requested,
        }
    }
}

/// The view of a piece that may not be there.
pub open spec fn view_of(piece: Option<ActivePiece>) -> Option<PieceView> {
    match piece {
        Some(p) => Some(p@),
        None => None,
    }
}

/// The game.
pub struct Game {
    board: GameBoard,
    piece: Option<ActivePiece>,
    spawn_requested: bool,
    game_over: bool,
}

impl View for Game {
    type V = GameView;

    closed spec fn view(&self) -> GameView {
        GameView {
            blocks: self.board@,
            piece: view_of(self.piece),
            spawn_requested: self.spawn_requested,
            game_over: self.game_over,
        }
    }
}

impl Game {
    /// The grid of the board agrees with its blocks.
    pub closed spec fn board_matches(&self) -> bool {
        self.board.grid_matches()
    }

    /// The game is well formed.
    pub open spec fn wf(&self) -> bool {
        self.board_matches() && self@.wf()
    }

    /// A new game: an empty board, no piece, and a piece asked for.
    pub fn new() -> (game: Game)
        ensures
            game.wf(),
            game@ == (GameView { blocks: Seq::empty(), piece: None, spawn_requested: true, game_over: false }),
    {
        Game { board: GameBoard::new(), piece: None, spawn_requested: true, game_over: false }
    }

    /// A game that starts on the given board, with no piece, and a piece asked
    /// for.
    pub fn with_board(board: GameBoard) -> (game: Game)
        requires
            board.wf(),
        ensures
            game.wf(),
            game@ == (GameView { blocks: board@, piece: None, spawn_requested: true, game_over: false }),
    {
        Game { board, piece: None, spawn_requested: true, game_over: false }
    }

    /// The board.
    pub fn board(&self) -> (board: &GameBoard)
        requires
            self.wf(),
        ensures
            board.wf(),
            board@ == self@.blocks,
    {
        &self.board
    }

    /// The falling piece, if there is one.
    pub fn piece(&self) -> (piece: Option<ActivePiece>)
        requires
            self.wf(),
        ensures
            view_of(piece) == self@.piece,
            piece is Some ==> piece->0.wf(),
    {
        self.piece
    }

    /// Whether a new piece is to be spawned.
    pub fn spawn_requested(&self) -> (requested: bool)
        ensures
            requested == self@.spawn_requested,
    {
        self.spawn_requested
    }

    /// Whether a piece could not be spawned and the game is to start anew.
    pub fn game_over_pending(&self) -> (pending: bool)
        ensures
            pending == self@.game_over,
    {
        self.game_over
    }

    /// Every cell that is alive, with its colour: the locked ones in the
    /// order in which they were locked, then those of the falling piece.
    pub fn live_cells(&self) -> (cells: Vec<Block>)
        requires
            self.wf(),
        ensures
            cells@ == self@.blocks + match self@.piece {
                Some(piece) => piece.as_blocks(),
                None => Seq::empty(),
            },
    {
        let mut cells: Vec<Block> = Vec::new();
        let blocks = self.board.blocks();
        let mut i: usize = 0;
        while i < blocks.len()
            invariant
                0 <= i <= blocks@.len(),
                cells@ == blocks@.take(i as int),
            decreases blocks@.len() - i,
        {
            cells.push(blocks[i]);
            assert(blocks@.take(i as int).push(blocks@[i as int]) =~= blocks@.take(i + 1));
            i += 1;
        }
        assert(blocks@.take(blocks@.len() as int) =~= blocks@);
        match self.piece {
            Some(piece) => {
                let color = piece.color();
                let own = piece.cells();
                let mut j: usize = 0;
                while j < 4
                    invariant
                        0 <= j <= 4,
                        own@ == piece@.cells,
                        own@.len() == 4,
                        color == piece@.color,
                        cells@ == blocks@ + piece@.as_blocks().take(j as int),
                    decreases 4 - j,
                {
                    cells.push(Block { pos: own[j].pos, color });
                    assert(cells@ =~= blocks@ + piece@.as_blocks().take(j + 1));
                    j += 1;
                }
                assert(piece@.as_blocks().take(4) =~= piece@.as_blocks());
            },
            None => {
                assert(cells@ =~= blocks@ + Seq::<Block>::empty());
            },
        }
        cells
    }

    /// Clears the full rows, and returns how many there were.
    pub fn clear_lines(&mut self) -> (cleared: usize)
        requires
            old(self).wf(),
        ensures
            final(self).wf(),
            final(self)@ == old(self)@.after_clearing(),
            cleared == full_rows_below(old(self)@.blocks, BOARD_HEIGHT as int),
    {
        self.board.clear_lines()
    }

    /// Spawns a piece of the given shape and colour, if one is asked for. If a
    /// block lies where a cell of the piece would be, no piece is made and the
    /// game is over. Returns whether that happened.
    pub fn spawn(&mut self, shape: &Shape, color: Color) -> (collided: bool)
        requires
            old(self).wf(),
            shape.wf(),
        ensures
            final(self).wf(),
            final(self)@ == old(self)@.after_spawn(shape@, color),
            collided == (old(self)@.spawn_requested && spawn_collides(old(self)@.blocks, shape@)),
            old(self)@.spawn_requested || old(self)@.piece_is_clear() ==> final(self)@.piece_is_clear(),
    {
        if !self.spawn_requested {
            return false;
        }
        self.spawn_requested = false;
        if ActivePiece::spawn_blocked(&self.board, shape) {
            self.game_over = true;
            return true;
        }
        let piece = ActivePiece::spawn(shape, color);
        self.piece = Some(piece);
        proof {
            assert forall|j: int| 0 <= j < 4 implies !locked_at(
                self.board@,
                (#[trigger] piece@.cells[j]).pos.x as int,
                piece@.cells[j].pos.y as int,
            ) by {
                assert(!locked_at(self.board@, SPAWN_X + shape@[j].0, SPAWN_Y + shape@[j].1));
            }
        }
        false
    }

    /// Moves the piece one column in the given direction, all four cells or
    /// none. Returns whether it moved.
    pub fn shift_horizontal(&mut self, dir: Direction) -> (moved: bool)
        requires
            old(self).wf(),
        ensures
            final(self).wf(),
            final(self)@ == old(self)@.after_shift(dir),
            moved == (old(self)@.piece is Some && may_shift(old(self)@.blocks, old(self)@.piece->0, dir.dx())),
            old(self)@.piece_is_clear() ==> final(self)@.piece_is_clear(),
    {
        match self.piece {
            Some(piece) => {
                let moved = piece.can_shift(&self.board, dir);
                let after = piece.shift(&self.board, dir);
                self.piece = Some(after);
                moved
            },
            None => false,
        }
    }

    /// Drops the piece as far as it goes. Returns the number of rows that it
    /// went down.
    pub fn hard_drop(&mut self) -> (rows: i32)
        requires
            old(self).wf(),
        ensures
            final(self).wf(),
            final(self)@ == old(self)@.after_drop(),
            old(self)@.piece is Some ==> is_drop_distance(old(self)@.blocks, old(self)@.piece->0, rows as int),
            old(self)@.piece is None ==> rows == 0,
            old(self)@.piece_is_clear() ==> final(self)@.piece_is_clear(),
    {
        match self.piece {
            Some(piece) => {
                let rows = piece.drop_height(&self.board);
                let after = piece.hard_drop(&self.board);
                self.piece = Some(after);
                rows
            },
            None => 0,
        }
    }

    /// Turns the piece a quarter turn about its anchor, all four cells or
    /// none. Returns whether it turned.
    pub fn rotate(&mut self) -> (turned: bool)
        requires
            old(self).wf(),
        ensures
            final(self).wf(),
            final(self)@ == old(self)@.after_turn(),
            turned == (old(self)@.piece is Some && may_turn(old(self)@.blocks, old(self)@.piece->0)),
            old(self)@.piece_is_clear() ==> final(self)@.piece_is_clear(),
    {
        match self.piece {
            Some(piece) => {
                let turned = piece.can_rotate(&self.board);
                let after = piece.rotate(&self.board);
                self.piece = Some(after);
                turned
            },
            None => false,
        }
    }

    /// Lets the piece fall one row. If it cannot fall, its four cells are
    /// locked and a new piece is asked for. Returns whether the piece was
    /// locked.
    pub fn block_fall(&mut self) -> (locked: bool)
        requires
            old(self).wf(),
        ensures
            final(self).wf(),
            final(self)@ == old(self)@.after_gravity(),
            locked == (old(self)@.piece is Some && !may_fall(old(self)@.blocks, old(self)@.piece->0)),
            final(self)@.piece_is_clear(),
    {
        match self.piece {
            Some(piece) => {
                match piece.fall(&self.board) {
                    Some(after) => {
                        self.piece = Some(after);
                        false
                    },
                    None => {
                        let color = piece.color();
                        let cells = piece.cells();
                        let mut i: usize = 0;
                        while i < 4
                            invariant
                                0 <= i <= 4,
                                piece.wf(),
                                cells@ == piece@.cells,
                                color == piece@.color,
                                self.board.wf(),
                                self.board@ == old(self).board@ + piece@.as_blocks().take(i as int),
                                self.piece == old(self).piece,
                                self.spawn_requested == old(self).spawn_requested,
                                self.game_over == old(self).game_over,
                            decreases 4 - i,
                        {
                            let c = cells[i];
                            assert(c == piece@.cells[i as int]);
                            assert(c.pos.on_field());
                            self.board.lock(c.pos, color);
                            assert(self.board@ =~= old(self).board@ + piece@.as_blocks().take(i + 1));
                            i += 1;
                        }
                        assert(piece@.as_blocks().take(4) =~= piece@.as_blocks());
                        self.piece = None;
                        self.spawn_requested = true;
                        true
                    },
                }
            },
            None => false,
        }
    }

    /// Starts the game anew if it is over: every cell is removed, and a new
    /// piece is asked for. Returns whether it did.
    pub fn gameover(&mut self) -> (restarted: bool)
        requires
            old(self).wf(),
        ensures
            final(self).wf(),
            final(self)@ == old(self)@.after_game_over(),
            restarted == old(self)@.game_over,
    {
        if !self.game_over {
            return false;
        }
        self.board.reset();
        self.piece = None;
        self.spawn_requested = true;
        self.game_over = false;
        true
    }

    /// Runs one tick: the full rows are cleared; a piece of the given shape
    /// and colour is spawned if one is asked for; the player's moves are made;
    /// the piece falls or is locked if the interval of the fall has elapsed;
    /// and the game starts anew if it is over.
    pub fn step(&mut self, shape: &Shape, color: Color, controls: Controls, due: Due) -> (signals: Signals)
        requires
            old(self).wf(),
            shape.wf(),
        ensures
            final(self).wf(),
            final(self)@ == old(self)@.after_step(shape@, color, controls, due),
            signals == old(self)@.signals_of_step(shape@, color, controls, due),
    {
        let rows_cleared = self.clear_lines();
        self.spawn(shape, color);
        if due.input && controls.left {
            self.shift_horizontal(Direction::Left);
        }
        if due.input && controls.right {
            self.shift_horizontal(Direction::Right);
        }
        if controls.drop {
            self.hard_drop();
        }
        if controls.rotate {
            self.rotate();
        }
        if due.gravity {
            self.block_fall();
        }
        let game_over = self.gameover();
        Signals { rows_cleared, game_over, spawn_requested: self.spawn_requested }
    }

    /// Runs one tick on the time that has passed, in nanoseconds: the timers
    /// are advanced, the shape and the colour of a piece that is asked for are
    /// drawn at random, and the tick is run with what came of it.
    pub fn tick(
        &mut self,
        timers: &mut GameTimers,
        catalog: &BlockPatterns,
        palette: &Materials,
        controls: Controls,
        delta_nanos: u64,
    ) -> (signals: Signals)
        requires
            old(self).wf(),
            catalog.wf(),
            palette.wf(),
        ensures
            final(self).wf(),
            final(timers)@ == old(timers)@.after(delta_nanos as nat),
            exists|shape_draw: usize, color_draw: usize|
                {
                    &&& final(self)@ == #[trigger] old(self)@.after_step(
                        catalog.pick(shape_draw)@,
                        palette.pick(color_draw),
                        controls,
                        old(timers)@.due(delta_nanos as nat),
                    )
                    &&& signals == old(self)@.signals_of_step(
                        catalog.pick(shape_draw)@,
                        palette.pick(color_draw),
                        controls,
                        old(timers)@.due(delta_nanos as nat),
                    )
                },
    {
        let due = timers.advance(delta_nanos);
        let shape = if self.spawn_requested {
            catalog.next_block()
        } else {
            catalog.shape(0)
        };
        let color = if self.spawn_requested {
            palette.next_color()
        } else {
            palette.color(0)
        };
        let signals = self.step(&shape, color, controls, due);
        proof {
            let shape_draw = choose|draw: usize| shape == catalog.pick(draw);
            let color_draw = choose|draw: usize| color == palette.pick(draw);
            assert(self@ == old(self)@.after_step(
                catalog.pick(shape_draw)@,
                palette.pick(color_draw),
                controls,
                due,
            ));
        }
        signals
    }
}

} // verus!
