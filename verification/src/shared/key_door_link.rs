use vstd::prelude::*;

use crate::shared::WorldCoordinates;

verus! {

/// Binds the cell of a key to the cell of the door that the key opens.
#[derive(Debug, Clone, Copy, PartialEq, Eq, Hash)]
pub struct KeyDoorLink {
    pub key: WorldCoordinates,
    pub door: WorldCoordinates,
}

} // verus!
