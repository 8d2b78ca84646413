//! Tiles, the cells of a chunk's grid.

use crate::entity::Entity;
use crate::geometry::{Coords, Size};
use vstd::prelude::*;

verus! {

/// What a tile is made of, or is meant to become.
#[derive(Clone, Copy, Debug, PartialEq, Eq, Structural)]
pub enum TileType {
    Grass,
    WoodenWall,
}

/// One cell of a chunk's grid. A negative height stands for water.
#[derive(Debug, PartialEq, Eq)]
pub struct Tile {
    pub coords: Coords,
    pub index: usize,
    pub size: Size,
    pub height: i32,
    pub ttype: TileType,
    /// The agent that stands on the tile, if any.
    pub holds: Option<Entity>,
    /// What the tile is meant to be built into, if anything.
    pub designed: Option<TileType>,
}

impl Clone for Tile {
    /// A second tile like this one.
    fn clone(&self) -> (r: Tile)
        ensures
            r.mirrors(self),
    {
        Tile {
            coords: self.coords,
            index: self.index,
            size: self.size,
            height: self.height,
            ttype: self.ttype,
            holds: match &self.holds {
                Some(e) => Some(e.clone()),
                None => None,
            },
            designed: self.designed,
        }
    }
}

impl Tile {
    /// Whether the tile is like `other` in everything, the agent on it
    /// included.
    pub open spec fn mirrors(&self, other: &Tile) -> bool {
        &&& match (self.holds, other.holds) {
            (Some(mine), Some(theirs)) => mine.mirrors(&theirs),
            (None, None) => true,
            _ => false,
        }
        &&& *self == (Tile { holds: self.holds, ..*other })
    }

    /// The tile with the given traits, and no design on it.
    pub fn from(
        coords: Coords,
        index: usize,
        size: Size,
        height: i32,
        ttype: TileType,
        holds: Option<Entity>,
    ) -> (r: Tile)
        ensures
            r == (Tile { coords, index, size, height, ttype, holds, designed: None }),
    {
        Tile { coords, index, size, height, ttype, holds, designed: None }
    }
}

} // verus!
