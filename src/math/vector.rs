//! Points of the screen plane in fixed-point sub-cell units.
use vstd::prelude::*;

verus! {

/// Sub-cell units per character cell: screen coordinates are fixed-point
/// numbers with this many steps between neighbouring cells.
pub const SUBPIXEL: i64 = 256;

/// Largest magnitude a screen coordinate may have, in sub-cell units.
pub const COORD_LIMIT: i64 = 1099511627776;

/// Largest magnitude of a cell coordinate: `CELL_LIMIT * SUBPIXEL == COORD_LIMIT`.
pub const CELL_LIMIT: i64 = 4294967296;

/// A point of the screen plane, in sub-cell units: `x` grows to the right,
/// `y` grows downward, and cell `(i, j)` sits at `(i * SUBPIXEL, j * SUBPIXEL)`.
#[derive(Debug, Copy, Clone, PartialEq, Eq, Structural)]
pub struct Vec2 {
    pub x: i64,
    pub y: i64,
}

impl Vec2 {
    pub fn new(x: i64, y: i64) -> (v: Vec2)
        ensures
            v.x == x,
            v.y == y,
    {
        Vec2 { x, y }
    }

    /// Both coordinates lie within `COORD_LIMIT`.
    pub open spec fn in_range(self) -> bool {
        -COORD_LIMIT <= self.x <= COORD_LIMIT && -COORD_LIMIT <= self.y <= COORD_LIMIT
    }

    /// The point at the corner of cell `(x, y)`.
    pub fn cell(x: i64, y: i64) -> (v: Vec2)
        requires
            -CELL_LIMIT <= x <= CELL_LIMIT,
            -CELL_LIMIT <= y <= CELL_LIMIT,
        ensures
            v.x == x * SUBPIXEL,
            v.y == y * SUBPIXEL,
            v.in_range(),
    {
        Vec2 { x: x * SUBPIXEL, y: y * SUBPIXEL }
    }
}

} // verus!
