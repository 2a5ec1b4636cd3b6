use tetris_core::board::GameBoard;
use tetris_core::catalog::{BlockPatterns, Shape};
use tetris_core::game::Game;
use tetris_core::geometry::{PieceCell, Position, RelativePosition};
use tetris_core::palette::Color;
use tetris_core::piece::{ActivePiece, Direction};

fn blue() -> Color {
    Color { red: 27, green: 59, blue: 82 }
}

fn places(piece: &ActivePiece) -> Vec<(i32, i32)> {
    piece.cells().iter().map(|c| (c.pos.x, c.pos.y)).collect()
}

fn bar() -> ActivePiece {
    ActivePiece::spawn(&BlockPatterns::standard().shape(0), blue())
}

fn board_with(cells: &[(i32, i32)]) -> GameBoard {
    let mut board = GameBoard::new();
    for &(x, y) in cells {
        assert!(board.lock(Position { x, y }, blue()));
    }
    board
}

#[test]
fn four_turns_bring_a_cell_back() {
    let start = PieceCell { pos: Position { x: 4, y: 9 }, rel: RelativePosition { rot_x: -1, rot_y: 1 } };
    let once = start.rotated();
    assert_eq!(once, PieceCell { pos: Position { x: 6, y: 9 }, rel: RelativePosition { rot_x: 1, rot_y: 1 } });
    let twice = once.rotated();
    assert_eq!(twice, PieceCell { pos: Position { x: 6, y: 7 }, rel: RelativePosition { rot_x: 1, rot_y: -1 } });
    let thrice = twice.rotated();
    assert_eq!(thrice, PieceCell { pos: Position { x: 4, y: 7 }, rel: RelativePosition { rot_x: -1, rot_y: -1 } });
    assert_eq!(thrice.rotated(), start);
}

#[test]
fn four_turns_bring_every_standard_shape_back() {
    let catalog = BlockPatterns::standard();
    let board = GameBoard::new();
    for draw in 0..7 {
        let mut piece = ActivePiece::spawn(&catalog.shape(draw), blue());
        for _ in 0..6 {
            piece = piece.fall(&board).expect("nothing is in the way");
        }
        let start = piece.cells();
        for turn in 0..4 {
            assert!(piece.can_rotate(&board), "shape {} turn {}", draw, turn);
            piece = piece.rotate(&board);
        }
        assert_eq!(piece.cells(), start);
    }
}

#[test]
fn shift_keeps_the_rows() {
    let board = GameBoard::new();
    let piece = bar();
    let left = piece.shift(&board, Direction::Left);
    assert_eq!(places(&left), vec![(4, 18), (4, 17), (4, 19), (4, 20)]);
    let right = piece.shift(&board, Direction::Right);
    assert_eq!(places(&right), vec![(6, 18), (6, 17), (6, 19), (6, 20)]);
}

#[test]
fn shift_stops_at_the_walls() {
    let board = GameBoard::new();
    let mut piece = bar();
    for _ in 0..5 {
        assert!(piece.can_shift(&board, Direction::Left));
        piece = piece.shift(&board, Direction::Left);
    }
    assert!(!piece.can_shift(&board, Direction::Left));
    assert_eq!(piece.shift(&board, Direction::Left).cells(), piece.cells());
    for _ in 0..9 {
        assert!(piece.can_shift(&board, Direction::Right));
        piece = piece.shift(&board, Direction::Right);
    }
    assert_eq!(places(&piece), vec![(9, 18), (9, 17), (9, 19), (9, 20)]);
    assert!(!piece.can_shift(&board, Direction::Right));
    assert_eq!(piece.shift(&board, Direction::Right).cells(), piece.cells());
}

#[test]
fn shift_onto_a_block_in_the_band_moves_no_cell() {
    let board = board_with(&[(4, 17)]);
    let piece = bar();
    assert!(!piece.can_shift(&board, Direction::Left));
    assert_eq!(piece.shift(&board, Direction::Left).cells(), piece.cells());
    assert!(piece.can_shift(&board, Direction::Right));
}

#[test]
fn shift_above_the_band_checks_the_columns_only() {
    let board = board_with(&[(4, 19)]);
    let piece = bar();
    assert!(piece.can_shift(&board, Direction::Left));
    assert_eq!(places(&piece.shift(&board, Direction::Left)), vec![(4, 18), (4, 17), (4, 19), (4, 20)]);
}

#[test]
fn drop_stops_on_the_floor() {
    let board = GameBoard::new();
    let piece = bar();
    assert_eq!(piece.drop_height(&board), 17);
    let low = piece.hard_drop(&board);
    assert_eq!(places(&low), vec![(5, 1), (5, 0), (5, 2), (5, 3)]);
    assert!(low.is_landed());
}

#[test]
fn drop_stops_on_the_first_block_below() {
    let board = board_with(&[(5, 9), (5, 3)]);
    let piece = bar();
    assert!(piece.can_descend(&board, 7));
    assert!(!piece.can_descend(&board, 8));
    assert_eq!(piece.drop_height(&board), 7);
    assert_eq!(places(&piece.hard_drop(&board)), vec![(5, 11), (5, 10), (5, 12), (5, 13)]);
}

#[test]
fn drop_right_after_a_drop_moves_nothing() {
    let board = board_with(&[(5, 4)]);
    let low = bar().hard_drop(&board);
    assert_eq!(low.drop_height(&board), 0);
    let again = low.hard_drop(&board);
    assert_eq!(again.cells(), low.cells());
    assert!(again.is_landed());
}

#[test]
fn drop_of_a_piece_that_rests_moves_nothing() {
    let board = board_with(&[(5, 16)]);
    let piece = bar();
    assert_eq!(piece.drop_height(&board), 0);
    assert_eq!(piece.hard_drop(&board).cells(), piece.cells());
}

#[test]
fn dropped_piece_holds_its_cells() {
    let board = GameBoard::new();
    let piece = bar();
    assert!(!piece.is_occupied(&board, 5, 0));
    let low = piece.hard_drop(&board);
    assert!(low.is_occupied(&board, 5, 0));
    assert!(low.is_occupied(&board, 5, 3));
    assert!(!low.is_occupied(&board, 5, 4));
    assert!(!low.is_occupied(&board, 4, 0));
    assert!(!board.is_locked(5, 0));
    assert!(low.covers(5, 2));
    assert!(!low.covers(6, 2));
}

#[test]
fn dropped_piece_cannot_turn_or_fall() {
    let board = GameBoard::new();
    let square = ActivePiece::spawn(&BlockPatterns::standard().shape(5), blue()).hard_drop(&board);
    assert_eq!(places(&square), vec![(5, 0), (5, 1), (6, 0), (6, 1)]);
    assert!(!square.can_rotate(&board));
    assert_eq!(square.rotate(&board).cells(), square.cells());
    assert!(!square.can_fall(&board));
    assert!(square.fall(&board).is_none());
    assert!(!square.can_shift(&board, Direction::Left));
    assert!(!square.can_shift(&board, Direction::Right));
}

#[test]
fn dropped_bar_that_moves_aside_falls_freely_again() {
    let board = board_with(&[(5, 4)]);
    let low = bar().hard_drop(&board);
    assert_eq!(places(&low), vec![(5, 6), (5, 5), (5, 7), (5, 8)]);
    assert!(!low.can_fall(&board));
    assert!(low.can_shift(&board, Direction::Left));
    let aside = low.shift(&board, Direction::Left);
    assert!(!aside.is_landed());
    assert!(aside.can_fall(&board));
    assert_eq!(places(&aside.fall(&board).expect("the piece falls")), vec![(4, 5), (4, 4), (4, 6), (4, 7)]);
}

#[test]
fn turn_onto_a_block_is_refused() {
    let board = board_with(&[(7, 10)]);
    let mut piece = bar();
    for _ in 0..8 {
        piece = piece.fall(&board).expect("nothing is in the way");
    }
    assert_eq!(places(&piece), vec![(5, 10), (5, 9), (5, 11), (5, 12)]);
    assert!(!piece.can_rotate(&board));
    assert_eq!(piece.rotate(&board).cells(), piece.cells());
    assert!(piece.fall(&board).expect("nothing is below").can_rotate(&board));
}

#[test]
fn clear_piece_is_told_from_one_on_a_block() {
    let piece = bar();
    assert!(piece.is_clear(&GameBoard::new()));
    assert!(!piece.is_clear(&board_with(&[(5, 17)])));
    assert!(piece.is_clear(&board_with(&[(5, 18)])));
}

#[test]
fn spawn_is_blocked_by_a_block_under_any_cell() {
    let shape = BlockPatterns::standard().shape(6);
    assert!(!ActivePiece::spawn_blocked(&GameBoard::new(), &shape));
    assert!(ActivePiece::spawn_blocked(&board_with(&[(4, 18)]), &shape));
    assert!(ActivePiece::spawn_blocked(&board_with(&[(5, 19)]), &shape));
    assert!(!ActivePiece::spawn_blocked(&board_with(&[(4, 19)]), &shape));
}

#[test]
fn game_drop_reports_the_rows() {
    let mut game = Game::new();
    assert_eq!(game.hard_drop(), 0);
    let shape = Shape::new(&vec![(0, 0), (1, 0), (0, 1), (1, -1)]).expect("a good shape");
    assert!(!game.spawn(&shape, blue()));
    assert_eq!(game.hard_drop(), 17);
    assert_eq!(game.hard_drop(), 0);
    assert!(!game.shift_horizontal(Direction::Left));
    assert!(!game.rotate());
    assert!(game.block_fall());
    assert_eq!(game.board().len(), 4);
    assert!(game.board().is_locked(6, 0));
    assert!(game.board().is_locked(5, 1));
}

#[test]
fn direction_steps() {
    assert_eq!(Direction::Left.step(), -1);
    assert_eq!(Direction::Right.step(), 1);
}
