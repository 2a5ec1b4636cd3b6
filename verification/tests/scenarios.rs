use tetris_core::board::{Block, GameBoard};
use tetris_core::catalog::BlockPatterns;
use tetris_core::game::{Controls, Game};
use tetris_core::geometry::{PieceCell, Position, RelativePosition};
use tetris_core::pacing::Due;
use tetris_core::palette::{Color, Materials};
use tetris_core::piece::Direction;

fn green() -> Color {
    Color { red: 25, green: 90, blue: 39 }
}

fn cell(x: i32, y: i32, rot_x: i32, rot_y: i32) -> PieceCell {
    PieceCell { pos: Position { x, y }, rel: RelativePosition { rot_x, rot_y } }
}

fn positions(game: &Game) -> Vec<(i32, i32)> {
    match game.piece() {
        Some(piece) => piece.cells().iter().map(|c| (c.pos.x, c.pos.y)).collect(),
        None => Vec::new(),
    }
}

fn game_with_bar() -> Game {
    let catalog = BlockPatterns::standard();
    let mut game = Game::new();
    let collided = game.spawn(&catalog.shape(0), green());
    assert!(!collided);
    game
}

#[test]
fn spawn_of_the_bar_on_an_empty_board() {
    let game = game_with_bar();
    let piece = game.piece().expect("a piece falls");
    assert_eq!(
        piece.cells(),
        vec![cell(5, 18, 0, 0), cell(5, 17, 0, -1), cell(5, 19, 0, 1), cell(5, 20, 0, 2)]
    );
    assert_eq!(piece.color(), green());
    assert!(!piece.is_landed());
    assert!(!game.spawn_requested());
    assert!(!game.game_over_pending());
    assert_eq!(game.board().len(), 0);
    assert_eq!(game.live_cells().len(), 4);
}

#[test]
fn spawn_without_a_request_does_nothing() {
    let catalog = BlockPatterns::standard();
    let mut game = game_with_bar();
    let before = positions(&game);
    let collided = game.spawn(&catalog.shape(6), green());
    assert!(!collided);
    assert_eq!(positions(&game), before);
}

#[test]
fn gravity_on_the_floor_locks_the_piece() {
    let mut game = game_with_bar();
    let mut falls: i32 = 0;
    while !game.block_fall() {
        falls += 1;
        assert!(falls <= 17);
    }
    assert_eq!(falls, 17);
    assert!(game.piece().is_none());
    assert!(game.spawn_requested());
    let board = game.board();
    assert_eq!(board.len(), 4);
    assert!(board.is_locked(5, 0));
    assert!(board.is_locked(5, 1));
    assert!(board.is_locked(5, 2));
    assert!(board.is_locked(5, 3));
    assert!(!board.is_locked(5, 4));
    assert!(!board.is_locked(4, 0));
    assert_eq!(
        board.blocks().clone(),
        vec![
            Block { pos: Position { x: 5, y: 1 }, color: green() },
            Block { pos: Position { x: 5, y: 0 }, color: green() },
            Block { pos: Position { x: 5, y: 2 }, color: green() },
            Block { pos: Position { x: 5, y: 3 }, color: green() },
        ]
    );
}

#[test]
fn gravity_moves_a_free_piece_down_one_row() {
    let mut game = game_with_bar();
    assert!(!game.block_fall());
    assert_eq!(positions(&game), vec![(5, 17), (5, 16), (5, 18), (5, 19)]);
    assert_eq!(game.board().len(), 0);
    assert!(!game.spawn_requested());
}

#[test]
fn gravity_without_a_piece_does_nothing() {
    let mut game = Game::new();
    assert!(!game.block_fall());
    assert!(game.piece().is_none());
    assert!(game.spawn_requested());
    assert_eq!(game.board().len(), 0);
}

#[test]
fn gravity_locks_a_piece_that_rests_on_a_block() {
    let mut board = GameBoard::new();
    assert!(board.lock(Position { x: 5, y: 16 }, green()));
    let catalog = BlockPatterns::standard();
    let mut game = Game::with_board(board);
    assert!(!game.spawn(&catalog.shape(0), green()));
    assert!(game.block_fall());
    assert!(game.piece().is_none());
    assert_eq!(game.board().len(), 5);
    assert!(game.board().is_locked(5, 17));
    assert!(game.board().is_locked(5, 20));
}

#[test]
fn clearing_one_full_row_brings_the_row_above_down() {
    let mut board = GameBoard::new();
    for x in 0..10 {
        assert!(board.lock(Position { x, y: 5 }, green()));
    }
    for x in [1, 4, 8] {
        assert!(board.lock(Position { x, y: 6 }, green()));
    }
    assert!(board.row_is_full(5));
    assert!(!board.row_is_full(6));
    let mut game = Game::with_board(board);
    let cleared = game.clear_lines();
    assert_eq!(cleared, 1);
    let board = game.board();
    assert_eq!(board.len(), 3);
    for x in 0..10 {
        assert_eq!(board.is_locked(x, 5), x == 1 || x == 4 || x == 8);
        assert!(!board.is_locked(x, 6));
    }
    assert!(!board.row_is_full(5));
}

#[test]
fn spawn_on_a_locked_cell_ends_the_game() {
    let mut board = GameBoard::new();
    assert!(board.lock(Position { x: 5, y: 19 }, green()));
    assert!(board.lock(Position { x: 2, y: 0 }, green()));
    let catalog = BlockPatterns::standard();
    let mut game = Game::with_board(board);
    let collided = game.spawn(&catalog.shape(0), green());
    assert!(collided);
    assert!(game.piece().is_none());
    assert!(game.game_over_pending());
    assert!(!game.spawn_requested());
    assert_eq!(game.board().len(), 2);
    let restarted = game.gameover();
    assert!(restarted);
    assert_eq!(game.board().len(), 0);
    assert!(!game.board().is_locked(5, 19));
    assert!(!game.board().is_locked(2, 0));
    assert!(game.piece().is_none());
    assert!(game.spawn_requested());
    assert!(!game.game_over_pending());
    assert!(game.live_cells().is_empty());
}

#[test]
fn gameover_without_a_signal_does_nothing() {
    let mut game = game_with_bar();
    assert!(!game.gameover());
    assert!(game.piece().is_some());
    assert!(!game.spawn_requested());
}

#[test]
fn turn_that_would_leave_the_field_is_refused() {
    let mut game = game_with_bar();
    for _ in 0..5 {
        assert!(game.shift_horizontal(Direction::Left));
    }
    assert!(!game.block_fall());
    let before = game.piece().expect("a piece falls").cells();
    assert_eq!(before, vec![cell(0, 17, 0, 0), cell(0, 16, 0, -1), cell(0, 18, 0, 1), cell(0, 19, 0, 2)]);
    let turned = game.rotate();
    assert!(!turned);
    assert_eq!(game.piece().expect("a piece falls").cells(), before);
}

#[test]
fn turn_in_the_open_turns_every_cell() {
    let mut game = game_with_bar();
    assert!(!game.block_fall());
    assert!(!game.block_fall());
    assert!(game.rotate());
    let cells = game.piece().expect("a piece falls").cells();
    assert_eq!(cells, vec![cell(5, 16, 0, 0), cell(4, 16, -1, 0), cell(6, 16, 1, 0), cell(7, 16, 2, 0)]);
}

#[test]
fn turn_above_the_band_is_refused() {
    let mut game = game_with_bar();
    assert!(!game.rotate());
    assert_eq!(positions(&game), vec![(5, 18), (5, 17), (5, 19), (5, 20)]);
}

#[test]
fn step_runs_the_parts_in_order() {
    let catalog = BlockPatterns::standard();
    let palette = Materials::standard();
    let mut game = Game::new();
    let controls = Controls { left: true, right: false, drop: false, rotate: false };
    let due = Due { gravity: true, input: true };
    let signals = game.step(&catalog.shape(7), palette.color(8), controls, due);
    assert_eq!(signals.rows_cleared, 0);
    assert!(!signals.game_over);
    assert!(!signals.spawn_requested);
    let piece = game.piece().expect("a piece falls");
    assert_eq!(piece.color(), Color { red: 27, green: 59, blue: 82 });
    assert_eq!(positions(&game), vec![(4, 17), (4, 16), (4, 18), (4, 19)]);
}

#[test]
fn step_without_elapsed_intervals_only_spawns() {
    let catalog = BlockPatterns::standard();
    let palette = Materials::standard();
    let mut game = Game::new();
    let controls = Controls { left: true, right: true, drop: false, rotate: false };
    let due = Due { gravity: false, input: false };
    game.step(&catalog.shape(5), palette.color(0), controls, due);
    assert_eq!(positions(&game), vec![(5, 18), (5, 19), (6, 18), (6, 19)]);
}

#[test]
fn step_drops_locks_clears_and_spawns() {
    let mut board = GameBoard::new();
    for x in 0..10 {
        if x != 5 {
            assert!(board.lock(Position { x, y: 0 }, green()));
        }
    }
    let catalog = BlockPatterns::standard();
    let palette = Materials::standard();
    let mut game = Game::with_board(board);
    let none = Controls { left: false, right: false, drop: false, rotate: false };
    let drop = Controls { left: false, right: false, drop: true, rotate: false };
    let signals = game.step(&catalog.shape(0), palette.color(0), drop, Due { gravity: true, input: false });
    assert_eq!(signals.rows_cleared, 0);
    assert!(signals.spawn_requested);
    assert!(game.piece().is_none());
    assert_eq!(game.board().len(), 13);
    assert!(game.board().row_is_full(0));
    let signals = game.step(&catalog.shape(6), palette.color(1), none, Due { gravity: false, input: false });
    assert_eq!(signals.rows_cleared, 1);
    assert!(!signals.spawn_requested);
    assert_eq!(game.board().len(), 3);
    assert!(game.board().is_locked(5, 0));
    assert!(game.board().is_locked(5, 1));
    assert!(game.board().is_locked(5, 2));
    assert!(!game.board().is_locked(5, 3));
    assert!(!game.board().is_locked(4, 0));
    assert_eq!(positions(&game), vec![(5, 18), (4, 18), (6, 18), (5, 19)]);
}

#[test]
fn step_restarts_a_game_that_is_over() {
    let mut board = GameBoard::new();
    assert!(board.lock(Position { x: 5, y: 18 }, green()));
    let catalog = BlockPatterns::standard();
    let palette = Materials::standard();
    let mut game = Game::with_board(board);
    let none = Controls { left: false, right: false, drop: false, rotate: false };
    let signals = game.step(&catalog.shape(0), palette.color(0), none, Due { gravity: true, input: true });
    assert!(signals.game_over);
    assert!(signals.spawn_requested);
    assert!(game.piece().is_none());
    assert_eq!(game.board().len(), 0);
    assert!(!game.game_over_pending());
    let signals = game.step(&catalog.shape(0), palette.color(0), none, Due { gravity: false, input: false });
    assert!(!signals.game_over);
    assert!(game.piece().is_some());
}

#[test]
fn live_cells_lists_the_locked_cells_and_then_the_piece() {
    let mut board = GameBoard::new();
    let red = Color { red: 85, green: 25, blue: 35 };
    assert!(board.lock(Position { x: 0, y: 0 }, red));
    let catalog = BlockPatterns::standard();
    let mut game = Game::with_board(board);
    assert!(!game.spawn(&catalog.shape(5), green()));
    assert_eq!(
        game.live_cells(),
        vec![
            Block { pos: Position { x: 0, y: 0 }, color: red },
            Block { pos: Position { x: 5, y: 18 }, color: green() },
            Block { pos: Position { x: 5, y: 19 }, color: green() },
            Block { pos: Position { x: 6, y: 18 }, color: green() },
            Block { pos: Position { x: 6, y: 19 }, color: green() },
        ]
    );
}
