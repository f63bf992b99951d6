use vstd::prelude::*;

use crate::shared::MoveDirection;
use crate::shared::WorldCoordinates;

verus! {

/// Binds a door cell to another map: leaving the door in
/// `transition_direction` leads to the map `map_id`.
#[derive(Debug, Clone, Copy, PartialEq, Eq)]
pub struct DoorMapLink {
    pub door_coords: WorldCoordinates,
    pub transition_direction: MoveDirection,
    pub map_id: usize,
}

} // verus!
