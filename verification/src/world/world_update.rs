use core::cmp::Ordering;

use vstd::prelude::*;

use crate::shared::CommonState;
use crate::shared::KeyDoorLink;
use crate::shared::WorldCoordinates;

verus! {

/// The changes to the world that can be asked for.
///
/// * `Idle`: nothing.
/// * `ChangeTileState`: set the state of the tile on a cell.
/// * `KeyPickup`: the entity picked up the key of a link.
/// * `TryOpenDoor`: the entity tries the door on a cell.
/// * `PickupTreasure`: the entity empties the chest on a cell.
#[derive(Debug, Eq, PartialEq, Clone, Copy)]
pub enum WorldUpdateEventType {
    Idle,
    ChangeTileState(WorldCoordinates, CommonState),
    KeyPickup(KeyDoorLink),
    TryOpenDoor(WorldCoordinates),
    PickupTreasure(WorldCoordinates),
}

/// A change to the world that waits in the queue.
#[derive(Debug, Eq, PartialEq)]
pub struct WorldUpdate<T: Eq + PartialEq> {
    pub event_type: T,
}

impl<T> WorldUpdate<T> where T: Eq + PartialEq + Clone {
    /// An update that asks for `event_type`.
    pub fn new(event_type: T) -> (update: Self)
        ensures
            update.event_type == event_type,
    {
        Self { event_type }
    }

    /// An update that asks for `event_type`, which carries no data.
    pub fn with_no_payload(event_type: T) -> (update: Self)
        ensures
            update.event_type == event_type,
    {
        Self { event_type }
    }
}

impl WorldUpdateEventType {
    /// The rank by which updates leave the queue: a change of tile state
    /// before everything else, idling after everything else, and the other
    /// three on one level between them.
    pub open spec fn rank(self) -> int {
        match self {
            WorldUpdateEventType::ChangeTileState(_, _) => 2,
            WorldUpdateEventType::Idle => 0,
            _ => 1,
        }
    }
}

impl WorldUpdate<WorldUpdateEventType> {
    /// The rank of the update: that of what it asks for.
    pub open spec fn rank(&self) -> int {
        self.event_type.rank()
    }

    /// The rank of the update: 2 for a change of tile state, 0 for idling,
    /// 1 for the others.
    pub fn priority(&self) -> (rank: u8)
        ensures
            rank == self.rank(),
    {
        match self.event_type {
            WorldUpdateEventType::ChangeTileState(_, _) => 2,
            WorldUpdateEventType::Idle => 0,
            _ => 1,
        }
    }

    /// Orders two updates by their ranks.
    pub fn cmp(&self, other: &Self) -> (order: Ordering)
        ensures
            order is Less <==> self.rank() < other.rank(),
            order is Equal <==> self.rank() == other.rank(),
            order is Greater <==> self.rank() > other.rank(),
    {
        let mine = self.priority();
        let theirs = other.priority();
        if mine < theirs {
            Ordering::Less
        } else if mine == theirs {
            Ordering::Equal
        } else {
            Ordering::Greater
        }
    }

    /// Orders two updates by their ranks; the order is total, so the answer
    /// is never `None`.
    pub fn partial_cmp(&self, other: &Self) -> (order: Option<Ordering>)
        ensures
            order matches Some(o) && {
                &&& o is Less <==> self.rank() < other.rank()
                &&& o is Equal <==> self.rank() == other.rank()
                &&& o is Greater <==> self.rank() > other.rank()
            },
    {
        Some(self.cmp(other))
    }
}

} // verus!
