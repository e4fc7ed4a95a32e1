//! Rectangles and viewports.
//!
//! Coordinates are fixed-point: a whole number of millionths of the unit in
//! use, which is either a pixel or the full extent of the raster, depending on
//! where the rectangle came from. Rectangles of both kinds are never mixed in
//! one list.

use vstd::prelude::*;

verus! {

/// Largest magnitude that a coordinate may have, in millionths.
pub const COORD_LIMIT: i64 = 1_000_000_000_000_000_000;

/// Width and height of the canvas that inputs are rendered to, in pixels.
#[derive(Clone, Copy, Debug, PartialEq, Eq, Structural)]
pub struct Viewport {
    pub width: u32,
    pub height: u32,
}

/// A rectangle given by its top-left corner and its extent, in millionths.
#[derive(Clone, Copy, Debug, PartialEq, Eq, Structural)]
pub struct BoundingBox {
    pub x: i64,
    pub y: i64,
    pub width: i64,
    pub height: i64,
}

/// `v` lies within the coordinate range.
pub open spec fn coord_in_range(v: int) -> bool {
    -COORD_LIMIT <= v <= COORD_LIMIT
}

/// Whether `v` lies within the coordinate range.
pub fn coord_fits(v: i64) -> (r: bool)
    ensures
        r == coord_in_range(v as int),
{
    -COORD_LIMIT <= v && v <= COORD_LIMIT
}

impl BoundingBox {
    /// Every coordinate lies within the coordinate range.
    pub open spec fn in_range(self) -> bool {
        &&& coord_in_range(self.x as int)
        &&& coord_in_range(self.y as int)
        &&& coord_in_range(self.width as int)
        &&& coord_in_range(self.height as int)
    }

    /// Whether every coordinate lies within the coordinate range.
    pub fn is_in_range(&self) -> (r: bool)
        ensures
            r == self.in_range(),
    {
        coord_fits(self.x) && coord_fits(self.y) && coord_fits(self.width) && coord_fits(
            self.height,
        )
    }

    /// The y-coordinate just below the rectangle.
    pub open spec fn bottom(self) -> int {
        self.y + self.height
    }
}

} // verus!
