//! Positions and extents on the world's integer grid.

use vstd::prelude::*;

verus! {

/// A position in world space, or the grid position of a chunk.
#[derive(Clone, Copy, Debug, PartialEq, Eq, Structural)]
pub struct Coords {
    pub x: i32,
    pub y: i32,
}

/// The extent of a tile, in world units.
#[derive(Clone, Copy, Debug, PartialEq, Eq, Structural)]
pub struct Size {
    pub x: i32,
    pub y: i32,
}

impl Size {
    /// The size with the given width and height.
    pub fn from(size: (i32, i32)) -> (r: Size)
        ensures
            r == (Size { x: size.0, y: size.1 }),
    {
        Size { x: size.0, y: size.1 }
    }
}

impl Coords {
    /// The position with the given coordinates.
    pub fn from(coords: (i32, i32)) -> (r: Coords)
        ensures
            r == (Coords { x: coords.0, y: coords.1 }),
    {
        Coords { x: coords.0, y: coords.1 }
    }

    /// The origin.
    pub fn new() -> (r: Coords)
        ensures
            r == (Coords { x: 0, y: 0 }),
    {
        Coords { x: 0, y: 0 }
    }
}

} // verus!
