//! Baltia: a tile world cut into chunks, whose agents hunger, fight and die.
//!
//! The crate holds the simulation engine, and every rule of it is stated in a
//! contract and proved:
//!
//! - `generator` builds a chunk from its terrain: the tiles, the faction and
//!   the first agents. The terrain comes in as integer samples.
//! - `resolver` takes the agents of a chunk through the ticks of a step:
//!   blows between agents that are near each other, hunger and starvation,
//!   and the removal of the dead.
//! - `world` holds the chunks, generates them one by one and runs the stages
//!   of a step over them. The chunks do not touch each other, so the order
//!   in which they are resolved is immaterial.
//! - `news` derives the news of a chunk from its agents.
//! - `renderer` and `util` hold the camera, what the viewer's keys do to it,
//!   and the messages of a frame.
//!
//! Chance enters through `dice` alone. Generation and resolution draw from
//! the dice, and each of them has a twin that takes the draws as an argument
//! and is a function of them.

pub mod chunk;
pub mod config;
pub mod dice;
pub mod entity;
pub mod faction;
pub mod generator;
pub mod geometry;
pub mod lang;
pub mod math;
pub mod news;
pub mod renderer;
pub mod resolver;
pub mod tile;
pub mod util;
pub mod world;
