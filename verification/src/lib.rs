//! A grid-based dungeon world: map loading, tile state, movement and the
//! queue of deferred world updates.

pub mod player;
pub mod shared;
pub mod world;

pub use player::Player;
