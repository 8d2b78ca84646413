//! Chunks: square pieces of the world, each with its tiles and its agents.

use crate::entity::Entity;
use crate::geometry::Coords;
use crate::tile::Tile;
use vstd::prelude::*;

verus! {

/// A square piece of the world. It owns its tiles and its agents.
#[derive(Debug, PartialEq, Eq)]
pub struct Chunk {
    pub tiles: Vec<Tile>,
    pub entities: Vec<Entity>,
    /// The chunk's place in the grid of chunks.
    pub coords: Coords,
    /// The chunk's place in the world's list of chunks.
    pub index: usize,
}

impl Clone for Chunk {
    /// A second chunk like this one: a snapshot of it.
    fn clone(&self) -> (r: Chunk)
        ensures
            r.mirrors(self),
    {
        let r = Chunk {
            tiles: self.tiles.clone(),
            entities: self.entities.clone(),
            coords: self.coords,
            index: self.index,
        };
        proof {
            assert forall|i: int| 0 <= i < self.tiles@.len() implies (#[trigger] r.tiles@[i]).mirrors(
                &self.tiles@[i],
            ) by {
                assert(cloned::<Tile>(self.tiles@[i], r.tiles@[i]));
            }
            assert forall|i: int| 0 <= i < self.entities@.len() implies (#[trigger] r.entities@[i]).mirrors(
                &self.entities@[i],
            ) by {
                assert(cloned::<Entity>(self.entities@[i], r.entities@[i]));
            }
        }
        r
    }
}

impl Chunk {
    /// Whether the chunk is like `other` in everything: the same place, and
    /// tile by tile and agent by agent the same.
    pub open spec fn mirrors(&self, other: &Chunk) -> bool {
        &&& self.coords == other.coords
        &&& self.index == other.index
        &&& self.tiles@.len() == other.tiles@.len()
        &&& forall|i: int| 0 <= i < self.tiles@.len() ==> (#[trigger] self.tiles@[i]).mirrors(&other.tiles@[i])
        &&& self.entities@.len() == other.entities@.len()
        &&& forall|i: int|
            0 <= i < self.entities@.len() ==> (#[trigger] self.entities@[i]).mirrors(&other.entities@[i])
    }

    /// The chunk with the given parts.
    pub fn from(tiles: Vec<Tile>, entities: Vec<Entity>, coords: Coords, index: usize) -> (r: Chunk)
        ensures
            r == (Chunk { tiles, entities, coords, index }),
    {
        Chunk { tiles, entities, coords, index }
    }

    /// The first chunk of a grid, with nothing in it.
    pub fn new() -> (r: Chunk)
        ensures
            r.tiles@ == Seq::<Tile>::empty(),
            r.entities@ == Seq::<Entity>::empty(),
            r.coords == (Coords { x: 0, y: 0 }),
            r.index == 0,
    {
        Chunk { tiles: Vec::new(), entities: Vec::new(), coords: Coords::new(), index: 0 }
    }

    /// The tile at `index`.
    pub fn fetch_tile(&self, index: usize) -> (tile: &Tile)
        requires
            index < self.tiles@.len(),
        ensures
            *tile == self.tiles@[index as int],
    {
        &self.tiles[index]
    }
}

} // verus!
