//! Where each cell is drawn on screen, and in which colour.

use vstd::prelude::*;

verus! {

/// Width of the drawn world, in pixels.
pub const PIXEL_WIDTH: usize = 1600;

/// Height of the drawn world, in pixels.
pub const PIXEL_HEIGHT: usize = 1000;

/// Side of the square a cell takes on screen, in pixels.
pub const CELL_SIZE: usize = 6;

/// Number of columns of the world.
pub const WIDTH: usize = PIXEL_WIDTH / CELL_SIZE;

/// Number of rows of the world.
pub const HEIGHT: usize = PIXEL_HEIGHT / CELL_SIZE;

/// The filled square drawn for cell `(x, y)`: its left edge, its top edge
/// and its side, in pixels. A one-pixel margin is left on every side of the
/// cell's square.
pub fn cell_rect(x: usize, y: usize) -> (r: (i32, i32, u32))
    requires
        x < WIDTH,
        y < HEIGHT,
    ensures
        r.0 == x * CELL_SIZE + 1,
        r.1 == y * CELL_SIZE + 1,
        r.2 == CELL_SIZE - 2,
{
    let left = x * CELL_SIZE + 1;
    let top = y * CELL_SIZE + 1;
    (left as i32, top as i32, (CELL_SIZE - 2) as u32)
}

/// The colour a cell is drawn in, as red, green and blue: black for a live
/// cell, a pale green, the background, for a dead one.
pub fn cell_color(alive: bool) -> (r: (u8, u8, u8))
    ensures
        alive ==> r == (0u8, 0u8, 0u8),
        !alive ==> r == (200u8, 205u8, 200u8),
{
    if alive {
        (0, 0, 0)
    } else {
        (200, 205, 200)
    }
}

} // verus!
