//! Axis-aligned rectangles of grid positions: what a host can see.

use vstd::prelude::*;
use crate::cell::Cell;

verus! {

/// A rectangle on the grid, given by its two corners. Both corners
/// belong to it; `y` grows downwards, as on a screen. A region whose
/// corners are crossed holds no position.
#[derive(Debug, Clone, Copy, PartialEq, Eq, Structural)]
pub struct Region {
    pub left: i64,
    pub top: i64,
    pub right: i64,
    pub bottom: i64,
}

/// The mean of two integers, rounded towards zero.
pub open spec fn midpoint(a: int, b: int) -> int {
    if a + b >= 0 {
        (a + b) / 2
    } else {
        -((-(a + b)) / 2)
    }
}

impl Region {
    /// Whether the point lies inside the region, borders included.
    pub open spec fn holds(self, p: (int, int)) -> bool {
        &&& self.left <= p.0 <= self.right
        &&& self.top <= p.1 <= self.bottom
    }

    /// The point halfway between the corners, each coordinate rounded
    /// towards zero.
    pub open spec fn centre_point(self) -> (int, int) {
        (midpoint(self.left as int, self.right as int), midpoint(self.top as int, self.bottom as int))
    }

    /// The region between the corners (`left`, `top`) and (`right`,
    /// `bottom`).
    pub fn new(left: i64, top: i64, right: i64, bottom: i64) -> (region: Region)
        ensures
            region == (Region { left, top, right, bottom }),
    {
        Region { left, top, right, bottom }
    }

    /// Whether `cell` lies inside the region, borders included.
    pub fn contains(&self, cell: &Cell) -> (inside: bool)
        ensures
            inside == self.holds(cell@),
    {
        self.left <= cell.pos.0 && cell.pos.0 <= self.right && cell.pos.1 <= self.bottom
            && cell.pos.1 >= self.top
    }

    /// The cell halfway between the corners, each coordinate rounded
    /// towards zero.
    pub fn centre(&self) -> (cell: Cell)
        ensures
            cell@ == self.centre_point(),
    {
        let x: i128 = (self.left as i128 + self.right as i128) / 2;
        let y: i128 = (self.top as i128 + self.bottom as i128) / 2;
        Cell { pos: (x as i64, y as i64) }
    }
}

} // verus!
