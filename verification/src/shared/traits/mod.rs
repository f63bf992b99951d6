//! What an entity must offer to stand and to move on a map.

pub mod moveable;
pub mod positionable;

pub use moveable::Moveable;
pub use positionable::Positionable;
