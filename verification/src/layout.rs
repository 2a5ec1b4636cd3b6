//! Where the cells are drawn: the linear map from cell coordinates to the
//! coordinates of the window, whose origin is its centre.

use vstd::prelude::*;
use crate::geometry::Position;

verus! {

/// Width of the square in which a cell is drawn.
pub const UNIT_WIDTH: u32 = 40;

/// Height of the square in which a cell is drawn.
pub const UNIT_HEIGHT: u32 = 40;

/// Width of the visible band when drawn: ten cells.
pub const SCREEN_WIDTH: u32 = 400;

/// Height of the visible band when drawn: eighteen cells.
pub const SCREEN_HEIGHT: u32 = 720;

/// The margin by which the window is wider and higher than the band.
pub const WINDOW_MARGIN: u32 = 5;

/// Where the centre of the cell (0, 0) is drawn, so that the band is centred
/// in the window.
pub open spec fn origin() -> (int, int) {
    (UNIT_WIDTH / 2 - SCREEN_WIDTH / 2, UNIT_HEIGHT / 2 - SCREEN_HEIGHT / 2)
}

/// Where the centre of a cell is drawn.
pub open spec fn drawn_at(pos: Position) -> (int, int) {
    (origin().0 + pos.x * UNIT_WIDTH, origin().1 + pos.y * UNIT_HEIGHT)
}

/// Computes where the centre of a cell is drawn.
pub fn position_transform(pos: Position) -> (at: (i64, i64))
    ensures
        at.0 == drawn_at(pos).0,
        at.1 == drawn_at(pos).1,
{
    let origin_x: i64 = UNIT_WIDTH as i64 / 2 - SCREEN_WIDTH as i64 / 2;
    let origin_y: i64 = UNIT_HEIGHT as i64 / 2 - SCREEN_HEIGHT as i64 / 2;
    (origin_x + pos.x as i64 * UNIT_WIDTH as i64, origin_y + pos.y as i64 * UNIT_HEIGHT as i64)
}

/// The size of the window: the band and the margin.
pub fn window_size() -> (size: (u32, u32))
    ensures
        size.0 == SCREEN_WIDTH + WINDOW_MARGIN,
        size.1 == SCREEN_HEIGHT + WINDOW_MARGIN,
{
    (SCREEN_WIDTH + WINDOW_MARGIN, SCREEN_HEIGHT + WINDOW_MARGIN)
}

/// The band is as wide and as high as its cells together.
pub proof fn lemma_band_fits()
    ensures
        SCREEN_WIDTH == UNIT_WIDTH * crate::geometry::BOARD_WIDTH,
        SCREEN_HEIGHT == UNIT_HEIGHT * crate::geometry::BOARD_HEIGHT,
        origin() == (-180int, -340int),
{
}

} // verus!
