//! Bounded coordinates: a point on the square coordinate grid, translation
//! by a signed delta, and the row-major pixel index of a cell.

use vstd::prelude::*;

verus! {

/// Edge length of the pixel buffer (cells per row).
pub const SCREEN_SIZE: usize = 512;

/// Bound of the coordinate space: each axis of a `Coordinate` lies in
/// `[0, COORD_EDGE)`.
pub const COORD_EDGE: i32 = 256;

/// A point of the bounded coordinate space. Both axes lie in
/// `[0, COORD_EDGE)` by construction.
#[derive(Copy, Clone, Debug, PartialEq, Eq, Structural)]
pub struct Coordinate {
    pub x: u8,
    pub y: u8,
}

impl Coordinate {
    /// Row-major index of this cell in a `SCREEN_SIZE`-wide pixel buffer.
    pub fn pixel_index(self) -> (i: usize)
        ensures
            i == self.y * SCREEN_SIZE + self.x,
            i < SCREEN_SIZE * SCREEN_SIZE,
    {
        self.y as usize * SCREEN_SIZE + self.x as usize
    }

    /// Translation by a signed delta: the translated point when it stays on
    /// the grid, and `None` when it would leave the grid on either axis.
    pub fn add_delta(self, dx: i32, dy: i32) -> (r: Option<Coordinate>)
        ensures
            r is Some <==> (0 <= self.x + dx < COORD_EDGE && 0 <= self.y + dy < COORD_EDGE),
            r is Some ==> r->0.x == self.x + dx && r->0.y == self.y + dy,
    {
        let new_x: i64 = self.x as i64 + dx as i64;
        let new_y: i64 = self.y as i64 + dy as i64;
        if new_x < 0 || new_x >= COORD_EDGE as i64 || new_y < 0 || new_y >= COORD_EDGE as i64 {
            None
        } else {
            Some(Coordinate { x: new_x as u8, y: new_y as u8 })
        }
    }
}

} // verus!
