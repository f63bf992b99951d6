//! Types shared by the player and the world.

use vstd::prelude::*;

pub mod common_state;
pub mod door_map_link;
pub mod key_door_link;
pub mod move_direction;
pub mod position;
pub mod search;
pub mod tile;
pub mod traits;
pub mod treasure;

pub use common_state::CommonState;
pub use door_map_link::DoorMapLink;
pub use key_door_link::KeyDoorLink;
pub use move_direction::MoveDirection;
pub use move_direction::Transform;
pub use position::Position;
pub use tile::KeyDisplay;
pub use tile::Tile;
pub use tile::TileKind;
pub use tile::TileProperties;
pub use tile::TilePropertiesView;
pub use tile::TileView;

verus! {

/// The row (y) coordinate within the grid.
pub type Row = usize;

/// The column (x) coordinate within the grid.
pub type Column = usize;

/// The (row, column) pair that identifies one cell of the grid.
pub type WorldCoordinates = (Row, Column);

} // verus!
