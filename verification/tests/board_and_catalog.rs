use tetris_core::board::{Block, GameBoard};
use tetris_core::catalog::{BlockPatterns, CatalogError, Shape, ShapeError};
use tetris_core::geometry::{Position, RelativePosition, BOARD_HEIGHT, BOARD_WIDTH, GRID_SIZE, SPAWN_X, SPAWN_Y};
use tetris_core::layout::{position_transform, window_size};
use tetris_core::pacing::{Due, GameTimers};
use tetris_core::palette::{Color, Materials};
use tetris_core::game::{Controls, Game};

fn grey() -> Color {
    Color { red: 50, green: 50, blue: 50 }
}

fn fill_row(board: &mut GameBoard, y: i32) {
    for x in 0..10 {
        assert!(board.lock(Position { x, y }, grey()));
    }
}

#[test]
fn sizes_of_the_field() {
    assert_eq!(BOARD_WIDTH, 10);
    assert_eq!(BOARD_HEIGHT, 18);
    assert!(GRID_SIZE >= 25);
    assert_eq!(SPAWN_X, 5);
    assert_eq!(SPAWN_Y, 18);
}

#[test]
fn new_board_is_empty() {
    let board = GameBoard::new();
    assert_eq!(board.len(), 0);
    for y in 0..25 {
        for x in 0..25 {
            assert!(!board.is_locked(x, y));
        }
    }
    assert!(!board.is_locked(-1, 0));
    assert!(!board.is_locked(0, 25));
}

#[test]
fn lock_refuses_a_place_off_the_field() {
    let mut board = GameBoard::new();
    assert!(!board.lock(Position { x: -1, y: 0 }, grey()));
    assert!(!board.lock(Position { x: 10, y: 0 }, grey()));
    assert!(!board.lock(Position { x: 0, y: -1 }, grey()));
    assert!(!board.lock(Position { x: 0, y: 25 }, grey()));
    assert_eq!(board.len(), 0);
    assert!(board.lock(Position { x: 9, y: 24 }, grey()));
    assert!(board.is_locked(9, 24));
    assert_eq!(board.blocks().clone(), vec![Block { pos: Position { x: 9, y: 24 }, color: grey() }]);
}

#[test]
fn row_above_the_band_is_never_full() {
    let mut board = GameBoard::new();
    fill_row(&mut board, 18);
    fill_row(&mut board, 17);
    assert!(!board.row_is_full(18));
    assert!(board.row_is_full(17));
    assert!(!board.row_is_full(-1));
    assert_eq!(board.clear_lines(), 1);
    assert_eq!(board.len(), 10);
    assert!(board.row_is_full(17));
    assert!(!board.is_locked(0, 18));
}

#[test]
fn clearing_moves_each_cell_by_the_full_rows_below_it() {
    let mut board = GameBoard::new();
    fill_row(&mut board, 0);
    assert!(board.lock(Position { x: 3, y: 1 }, grey()));
    fill_row(&mut board, 2);
    fill_row(&mut board, 3);
    assert!(board.lock(Position { x: 7, y: 4 }, grey()));
    assert!(board.lock(Position { x: 3, y: 6 }, grey()));
    assert!(board.lock(Position { x: 2, y: 20 }, grey()));
    let before = board.len();
    let cleared = board.clear_lines();
    assert_eq!(cleared, 3);
    assert_eq!(board.len(), before - 30);
    assert_eq!(
        board.blocks().clone(),
        vec![
            Block { pos: Position { x: 3, y: 0 }, color: grey() },
            Block { pos: Position { x: 7, y: 1 }, color: grey() },
            Block { pos: Position { x: 3, y: 3 }, color: grey() },
            Block { pos: Position { x: 2, y: 17 }, color: grey() },
        ]
    );
    assert!(board.is_locked(3, 0));
    assert!(board.is_locked(7, 1));
    assert!(board.is_locked(3, 3));
    assert!(board.is_locked(2, 17));
    assert!(!board.is_locked(3, 1));
    assert!(!board.is_locked(7, 4));
    assert!(!board.is_locked(3, 6));
    assert!(!board.is_locked(2, 20));
    assert!(!board.is_locked(0, 2));
}

#[test]
fn clearing_with_no_full_row_changes_nothing() {
    let mut board = GameBoard::new();
    for x in 0..9 {
        assert!(board.lock(Position { x, y: 0 }, grey()));
    }
    let before = board.blocks().clone();
    assert_eq!(board.clear_lines(), 0);
    assert_eq!(board.blocks().clone(), before);
}

#[test]
fn reset_unlocks_every_cell() {
    let mut board = GameBoard::new();
    fill_row(&mut board, 3);
    board.reset();
    assert_eq!(board.len(), 0);
    assert!(!board.is_locked(0, 3));
}

#[test]
fn standard_catalog_holds_the_seven_shapes() {
    let catalog = BlockPatterns::standard();
    assert_eq!(catalog.len(), 7);
    assert_eq!(catalog.shape(0).offsets(), vec![(0, 0), (0, -1), (0, 1), (0, 2)]);
    assert_eq!(catalog.shape(1).offsets(), vec![(0, 0), (0, -1), (0, 1), (-1, 1)]);
    assert_eq!(catalog.shape(2).offsets(), vec![(0, 0), (0, -1), (0, 1), (1, 1)]);
    assert_eq!(catalog.shape(3).offsets(), vec![(0, 0), (0, -1), (1, 0), (1, 1)]);
    assert_eq!(catalog.shape(4).offsets(), vec![(0, 0), (1, 0), (0, 1), (1, -1)]);
    assert_eq!(catalog.shape(5).offsets(), vec![(0, 0), (0, 1), (1, 0), (1, 1)]);
    assert_eq!(catalog.shape(6).offsets(), vec![(0, 0), (-1, 0), (1, 0), (0, 1)]);
    assert_eq!(catalog.shape(3).offset(3), RelativePosition { rot_x: 1, rot_y: 1 });
}

#[test]
fn draw_counts_round_the_catalog() {
    let catalog = BlockPatterns::standard();
    assert_eq!(catalog.shape(7).offsets(), catalog.shape(0).offsets());
    assert_eq!(catalog.shape(13).offsets(), catalog.shape(6).offsets());
    assert_eq!(catalog.shape(usize::MAX).offsets(), catalog.shape(usize::MAX % 7).offsets());
}

#[test]
fn random_shape_is_one_of_the_catalog() {
    let catalog = BlockPatterns::standard();
    for _ in 0..50 {
        let shape = catalog.next_block().offsets();
        assert!((0..7).any(|i| catalog.shape(i).offsets() == shape));
    }
}

#[test]
fn random_color_is_one_of_the_palette() {
    let palette = Materials::standard();
    for _ in 0..50 {
        let color = palette.next_color();
        assert!((0..6).any(|i| palette.color(i) == color));
    }
}

#[test]
fn shape_with_a_wrong_number_of_cells_is_refused() {
    assert_eq!(Shape::new(&vec![(0, 0), (0, 1), (0, 2)]).err(), Some(ShapeError::WrongCellCount));
    assert_eq!(Shape::new(&vec![(0, 0), (0, 1), (0, 2), (0, 3), (0, 4)]).err(), Some(ShapeError::WrongCellCount));
    assert_eq!(Shape::new(&Vec::new()).err(), Some(ShapeError::WrongCellCount));
}

#[test]
fn shape_without_an_anchor_is_refused() {
    assert_eq!(Shape::new(&vec![(0, 1), (0, -1), (1, 0), (-1, 0)]).err(), Some(ShapeError::MissingAnchor));
}

#[test]
fn shape_that_reaches_off_the_field_is_refused() {
    assert_eq!(Shape::new(&vec![(0, 0), (5, 0), (0, 1), (0, 2)]).err(), Some(ShapeError::OutOfReach));
    assert_eq!(Shape::new(&vec![(0, 0), (-6, 0), (0, 1), (0, 2)]).err(), Some(ShapeError::OutOfReach));
    assert_eq!(Shape::new(&vec![(0, 0), (0, 7), (0, 1), (0, 2)]).err(), Some(ShapeError::OutOfReach));
    assert_eq!(Shape::new(&vec![(0, 0), (0, -19), (0, 1), (0, 2)]).err(), Some(ShapeError::OutOfReach));
    assert_eq!(Shape::new(&vec![(1, 1), (0, 7), (0, 1), (0, 2)]).err(), Some(ShapeError::OutOfReach));
    assert!(Shape::new(&vec![(0, 0), (4, 6), (-5, -18), (0, 2)]).is_ok());
}

#[test]
fn shape_may_hold_an_offset_twice() {
    let shape = Shape::new(&vec![(0, 0), (0, 0), (1, 0), (1, 0)]).expect("a good shape");
    assert_eq!(shape.offsets(), vec![(0, 0), (0, 0), (1, 0), (1, 0)]);
}

#[test]
fn empty_catalog_is_refused() {
    assert_eq!(BlockPatterns::new(&Vec::new()).err(), Some(CatalogError::Empty));
}

#[test]
fn catalog_names_the_first_malformed_pattern() {
    let patterns = vec![
        vec![(0, 0), (0, -1), (0, 1), (0, 2)],
        vec![(0, 1), (0, -1), (1, 0), (-1, 0)],
        vec![(0, 0)],
    ];
    assert_eq!(
        BlockPatterns::new(&patterns).err(),
        Some(CatalogError::Malformed { index: 1, defect: ShapeError::MissingAnchor })
    );
}

#[test]
fn catalog_keeps_the_patterns_in_order() {
    let patterns = vec![vec![(0, 0), (1, 0), (2, 0), (3, 0)], vec![(0, 0), (0, 1), (1, 0), (1, 1)]];
    let catalog = BlockPatterns::new(&patterns).expect("good patterns");
    assert_eq!(catalog.len(), 2);
    assert_eq!(catalog.shape(0).offsets(), patterns[0]);
    assert_eq!(catalog.shape(1).offsets(), patterns[1]);
    assert_eq!(catalog.shape(2).offsets(), patterns[0]);
}

#[test]
fn standard_palette_holds_six_colors() {
    let palette = Materials::standard();
    assert_eq!(palette.len(), 6);
    assert_eq!(palette.color(0), Color { red: 25, green: 90, blue: 39 });
    assert_eq!(palette.color(1), Color { red: 85, green: 25, blue: 35 });
    assert_eq!(palette.color(2), Color { red: 27, green: 59, blue: 82 });
    assert_eq!(palette.color(3), Color { red: 89, green: 90, blue: 27 });
    assert_eq!(palette.color(4), Color { red: 13, green: 89, blue: 94 });
    assert_eq!(palette.color(5), Color { red: 94, green: 55, blue: 27 });
    assert_eq!(palette.color(6), palette.color(0));
    assert_eq!(palette.color(11), palette.color(5));
}

#[test]
fn empty_palette_is_refused() {
    assert!(Materials::new(Vec::new()).is_none());
    let palette = Materials::new(vec![grey()]).expect("a palette of one colour");
    assert_eq!(palette.len(), 1);
    assert_eq!(palette.color(3), grey());
}

#[test]
fn cells_are_drawn_on_a_centred_grid() {
    assert_eq!(position_transform(Position { x: 0, y: 0 }), (-180, -340));
    assert_eq!(position_transform(Position { x: 9, y: 17 }), (180, 340));
    assert_eq!(position_transform(Position { x: 5, y: 18 }), (20, 380));
    assert_eq!(position_transform(Position { x: -1, y: -2 }), (-220, -420));
    assert_eq!(window_size(), (405, 725));
}

#[test]
fn gravity_timer_fires_every_400_ms() {
    let mut timers = GameTimers::new();
    assert_eq!(timers.advance(399_000_000), Due { gravity: false, input: true });
    assert_eq!(timers.advance(1_000_000), Due { gravity: true, input: true });
    assert_eq!(timers.advance(50_000_000), Due { gravity: false, input: false });
    assert_eq!(timers.advance(50_000_000), Due { gravity: false, input: true });
    assert_eq!(timers.advance(0), Due { gravity: false, input: false });
}

#[test]
fn timers_take_other_intervals() {
    let mut timers = GameTimers::with_intervals(10, 1000);
    assert_eq!(timers.advance(10_000_000), Due { gravity: true, input: false });
    assert_eq!(timers.advance(985_000_000), Due { gravity: true, input: false });
    assert_eq!(timers.advance(4_999_999), Due { gravity: false, input: false });
    assert_eq!(timers.advance(1), Due { gravity: true, input: true });
}

#[test]
fn tick_spawns_a_piece_of_the_catalog() {
    let catalog = BlockPatterns::standard();
    let palette = Materials::standard();
    let mut timers = GameTimers::new();
    let mut game = Game::new();
    let none = Controls { left: false, right: false, drop: false, rotate: false };
    let signals = game.tick(&mut timers, &catalog, &palette, none, 16_000_000);
    assert!(!signals.game_over);
    assert!(!signals.spawn_requested);
    assert_eq!(signals.rows_cleared, 0);
    let piece = game.piece().expect("a piece falls");
    let anchor = piece.cells().iter().find(|c| c.rel.rot_x == 0 && c.rel.rot_y == 0).map(|c| (c.pos.x, c.pos.y));
    assert_eq!(anchor, Some((5, 18)));
    let signals = game.tick(&mut timers, &catalog, &palette, none, 400_000_000);
    assert!(!signals.spawn_requested);
    let after = game.piece().expect("a piece falls");
    let anchor = after.cells().iter().find(|c| c.rel.rot_x == 0 && c.rel.rot_y == 0).map(|c| (c.pos.x, c.pos.y));
    assert_eq!(anchor, Some((5, 17)));
}

#[test]
fn interval_keeps_the_time_by_which_it_was_overrun() {
    let mut timers = GameTimers::with_intervals(400, 100);
    assert_eq!(timers.advance(1_000_000_000), Due { gravity: true, input: true });
    assert_eq!(timers.advance(199_999_999), Due { gravity: false, input: true });
    assert_eq!(timers.advance(1), Due { gravity: true, input: true });
    assert_eq!(timers.advance(99_999_999), Due { gravity: false, input: false });
    assert_eq!(timers.advance(1), Due { gravity: false, input: true });
}

#[test]
fn interval_of_no_length_elapses_in_every_advance() {
    let mut timers = GameTimers::with_intervals(0, 1);
    assert_eq!(timers.advance(0), Due { gravity: true, input: false });
    assert_eq!(timers.advance(999_999), Due { gravity: true, input: false });
    assert_eq!(timers.advance(1), Due { gravity: true, input: true });
    assert_eq!(timers.advance(0), Due { gravity: true, input: false });
}

#[test]
fn interval_too_long_to_count_is_the_longest_that_can_be_counted() {
    let mut timers = GameTimers::with_intervals(u64::MAX, 18_446_744_073_710);
    assert_eq!(timers.advance(u64::MAX - 1), Due { gravity: false, input: false });
    assert_eq!(timers.advance(1), Due { gravity: true, input: true });
    assert_eq!(timers.advance(u64::MAX), Due { gravity: true, input: true });
    assert_eq!(timers.advance(0), Due { gravity: false, input: false });
}
