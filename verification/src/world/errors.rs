use vstd::prelude::*;

use crate::shared::Column;
use crate::shared::CommonState;
use crate::shared::Row;
use crate::shared::WorldCoordinates;

verus! {

/// The text of a map is not written as a map is.
#[derive(Debug, Clone, Copy, PartialEq, Eq)]
pub enum MapFormatError {
    /// The byte `symbol` on the cell (`row`, `col`) of the body is no tile
    /// symbol.
    UnrecognizedTile { row: Row, col: Column, symbol: u8 },
    /// The line `line` of the directive block, counted from the first line
    /// of the text, is neither a key link nor a chest.
    MalformedDirective { line: usize },
    /// The body has more cells than a map can hold.
    GridTooLarge,
}

/// The text of a map is well written, but describes no valid map.
#[derive(Debug, Clone, Copy, PartialEq, Eq)]
pub enum MapValidationError {
    /// No key link starts at the key tile on (`row`, `col`).
    MissingKeyLink { row: Row, col: Column },
    /// No chest is defined for the treasure tile on (`row`, `col`).
    MissingChest { row: Row, col: Column },
    /// There are more key tiles than locked doors.
    TooManyKeys,
    /// There are more locked doors than key tiles.
    TooManyLockedDoors,
}

/// Why a map could not be loaded.
#[derive(Debug, Clone, Copy, PartialEq, Eq)]
pub enum MapLoadError {
    Format(MapFormatError),
    Validation(MapValidationError),
}

/// An update asked for a change of tile state, which the world cannot
/// perform.
#[derive(Debug, Clone, Copy, PartialEq, Eq)]
pub struct UnimplementedEventError {
    pub coords: WorldCoordinates,
    pub state: CommonState,
}

/// Why the queue of updates was not worked off to its end.
#[derive(Debug, Clone, Copy, PartialEq, Eq)]
pub enum WorldUpdateError {
    /// An update asked for a change of tile state.
    UnimplementedEvent(UnimplementedEventError),
    /// The inventory cannot hold what the chest on `chest` contains: a
    /// quantity would leave its range.
    QuantityOverflow { chest: WorldCoordinates },
}

impl MapLoadError {
    /// What went wrong, in words.
    pub open spec fn description(self) -> Seq<char> {
        match self {
            MapLoadError::Format(MapFormatError::UnrecognizedTile { .. }) => "Invalid tile symbol in the map body."@,
            MapLoadError::Format(MapFormatError::MalformedDirective { .. }) => "Malformed directive line."@,
            MapLoadError::Format(MapFormatError::GridTooLarge) => "The map body has too many cells."@,
            MapLoadError::Validation(MapValidationError::MissingKeyLink { .. }) => "Invalid key tile location defined for linking door."@,
            MapLoadError::Validation(MapValidationError::MissingChest { .. }) => "Invalid treasure chest tile location defined."@,
            MapLoadError::Validation(MapValidationError::TooManyKeys) => "There are too many keys compared to the number of locked doors."@,
            MapLoadError::Validation(MapValidationError::TooManyLockedDoors) => "There are too many locked doors compared to the number of keys."@,
        }
    }

    /// What went wrong, in words.
    pub fn describe(&self) -> (text: &'static str)
        ensures
            text@ == self.description(),
    {
        match self {
            MapLoadError::Format(MapFormatError::UnrecognizedTile { .. }) => {
                "Invalid tile symbol in the map body."
            },
            MapLoadError::Format(MapFormatError::MalformedDirective { .. }) => {
                "Malformed directive line."
            },
            MapLoadError::Format(MapFormatError::GridTooLarge) => {
                "The map body has too many cells."
            },
            MapLoadError::Validation(MapValidationError::MissingKeyLink { .. }) => {
                "Invalid key tile location defined for linking door."
            },
            MapLoadError::Validation(MapValidationError::MissingChest { .. }) => {
                "Invalid treasure chest tile location defined."
            },
            MapLoadError::Validation(MapValidationError::TooManyKeys) => {
                "There are too many keys compared to the number of locked doors."
            },
            MapLoadError::Validation(MapValidationError::TooManyLockedDoors) => {
                "There are too many locked doors compared to the number of keys."
            },
        }
    }
}

} // verus!
