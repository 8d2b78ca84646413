//! The fixed measures of a standard world.

use vstd::prelude::*;

verus! {

/// Chunks along one side of the world.
pub const WORLD_SIZE: u32 = 16;

/// Tiles along one side of a chunk.
pub const CHUNK_SIZE: u32 = 128;

/// World units along one side of a tile.
pub const TILE_SIZE: u32 = 1;

/// Tiles per unit of the widest terrain noise.
pub const NOISE_SCALE: u32 = 64;

/// The largest distance at which one agent can strike another.
pub const VICINITY_DIST: i32 = 4;

/// Counts per unit of noise in an integer sample: a sample `s` stands for the
/// noise value `s / SAMPLE_UNIT`.
pub const SAMPLE_UNIT: i32 = 1200;

/// A tile with a positive height spawns an agent with odds of one in this many.
pub const SPAWN_ODDS: u8 = 32;

/// The spawn roll that lets an agent appear.
pub const SPAWN_HIT: u8 = 1;

/// A region whose agents hold fewer coins than this, all together, is poor.
pub const POVERTY_LINE: i32 = 10;

} // verus!
