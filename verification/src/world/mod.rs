//! The world: its maps, the queue of updates, and the moves of entities.

use vstd::prelude::*;

pub mod errors;
pub mod grammar;
pub mod map_text;
pub mod theorems;
pub mod tile_grid;
pub mod update_queue;
pub mod world_controller;
pub mod world_map;
pub mod world_update;
pub mod world_view;

pub use errors::MapFormatError;
pub use errors::MapLoadError;
pub use errors::MapValidationError;
pub use errors::UnimplementedEventError;
pub use errors::WorldUpdateError;
pub use world_controller::MoveVerdict;
pub use world_controller::WorldController;
pub use world_map::WorldMap;
pub use world_update::WorldUpdate;
pub use world_update::WorldUpdateEventType;
pub use world_view::WorldView;

use crate::shared::traits::Moveable;
use crate::shared::traits::Positionable;
use crate::shared::MoveDirection;
use crate::shared::TileView;
use crate::shared::WorldCoordinates;
use crate::world::world_controller::move_verdict;
use crate::world::world_map::tile_on;

verus! {

/// What an entity asks to pick up from the cells around it.
#[derive(Debug, Clone, Copy, PartialEq, Eq)]
pub enum ExplicitPickupType {
    TreasureChest,
}

/// The updates that a move with the verdict `verdict` puts on the queue.
pub open spec fn move_updates(verdict: MoveVerdict) -> Seq<WorldUpdate<WorldUpdateEventType>> {
    match verdict {
        MoveVerdict::CommitAndPickup(link) => seq![
            WorldUpdate { event_type: WorldUpdateEventType::KeyPickup(link) },
        ],
        MoveVerdict::TryDoor(door) => seq![
            WorldUpdate { event_type: WorldUpdateEventType::TryOpenDoor(door) },
        ],
        _ => Seq::empty(),
    }
}

/// Whether an entity steps onto the tile under the verdict `verdict`.
pub open spec fn commits(verdict: MoveVerdict) -> bool {
    verdict is Commit || verdict is CommitAndPickup
}

/// The four cells next to `at`: above, below, to the left, to the right.
/// A neighbour that would lie before the first row or column gets the
/// greatest index, which no map has.
pub open spec fn neighbours(at: WorldCoordinates) -> Seq<WorldCoordinates> {
    seq![
        (at.0.wrapping_sub(1), at.1),
        (at.0.wrapping_add(1), at.1),
        (at.0, at.1.wrapping_sub(1)),
        (at.0, at.1.wrapping_add(1)),
    ]
}

/// Whether a chest that was not emptied stands on the cell `at`.
pub open spec fn holds_chest(cells: Seq<Seq<TileView>>, at: WorldCoordinates) -> bool {
    tile_on(cells, at) matches Some(tile) && tile.props.treasure is Some
}

/// The updates that an explicit pickup on the cells `around` puts on the
/// queue: one for each of them that holds a chest, in their order.
pub open spec fn pickup_updates(cells: Seq<Seq<TileView>>, around: Seq<WorldCoordinates>) -> Seq<
    WorldUpdate<WorldUpdateEventType>,
>
    decreases around.len(),
{
    if around.len() == 0 {
        Seq::empty()
    } else if holds_chest(cells, around.last()) {
        pickup_updates(cells, around.drop_last()).push(
            WorldUpdate { event_type: WorldUpdateEventType::PickupTreasure(around.last()) },
        )
    } else {
        pickup_updates(cells, around.drop_last())
    }
}

/// Moves an entity one step in `direction` on the active map of `world`.
///
/// The entity proposes the step. What follows depends on the tile on the
/// proposed cell. Floor, a key tile and an unlocked door let the entity in:
/// it commits. A key tile that still holds its key also puts a `KeyPickup`
/// for its link on the queue. A locked door keeps the entity out and puts a
/// `TryOpenDoor` for its cell on the queue. A wall, a treasure, or a cell
/// that the map does not have, keeps the entity out. An entity that cannot
/// hold the coordinates of the proposed cell does not even propose.
pub fn translate<M: Moveable>(
    moveable_mut: &mut M,
    world: &mut WorldController,
    direction: MoveDirection,
)
    ensures
        final(world).maps == old(world).maps,
        !old(moveable_mut).can_propose(direction) ==> *final(moveable_mut) == *old(moveable_mut)
            && final(world).update_queue == old(world).update_queue,
        old(moveable_mut).can_propose(direction) ==> ({
            let proposed = old(moveable_mut).proposing(direction);
            let target = (proposed.spec_new_row(), proposed.spec_new_col());
            let verdict = move_verdict(tile_on(old(world).active_cells(), target));
            &&& *final(moveable_mut) == (if commits(verdict) {
                proposed.committed()
            } else {
                proposed
            })
            &&& final(world).update_queue@ == old(world).update_queue@ + move_updates(verdict)
            &&& final(moveable_mut).spec_new_row() == target.0
            &&& final(moveable_mut).spec_new_col() == target.1
            &&& commits(verdict) ==> final(moveable_mut).spec_row() == target.0
            &&& commits(verdict) ==> final(moveable_mut).spec_col() == target.1
            &&& !commits(verdict) ==> final(moveable_mut).spec_row() == old(moveable_mut).spec_row()
            &&& !commits(verdict) ==> final(moveable_mut).spec_col() == old(moveable_mut).spec_col()
        }),
{
    if !moveable_mut.can_translate(direction) {
        return ;
    }
    moveable_mut.translate(direction);
    let new_coords = (moveable_mut.new_row(), moveable_mut.new_col());
    let ghost queue = world.update_queue@;
    match world.judge_move(new_coords.0, new_coords.1) {
        MoveVerdict::Commit => {
            moveable_mut.translate_into();
            assert(queue + Seq::<WorldUpdate<WorldUpdateEventType>>::empty() =~= queue);
        },
        MoveVerdict::CommitAndPickup(link) => {
            moveable_mut.translate_into();
            let update = WorldUpdate::new(WorldUpdateEventType::KeyPickup(link));
            world.queue_update(update);
            assert(queue + seq![update] =~= queue.push(update));
        },
        MoveVerdict::TryDoor(door) => {
            let update = WorldUpdate::new(WorldUpdateEventType::TryOpenDoor(door));
            world.queue_update(update);
            assert(queue + seq![update] =~= queue.push(update));
        },
        MoveVerdict::Reject => {
            assert(queue + Seq::<WorldUpdate<WorldUpdateEventType>>::empty() =~= queue);
        },
    }
}

/// Asks to pick up what lies around an entity, without moving it: for each
/// of the four cells next to the entity that holds a chest, a
/// `PickupTreasure` for that cell goes on the queue.
pub fn pickup_explicit<P: Positionable>(
    positionable_mut: &mut P,
    world: &mut WorldController,
    explicit_pickup_type: ExplicitPickupType,
)
    ensures
        *final(positionable_mut) == *old(positionable_mut),
        final(world).maps == old(world).maps,
        final(world).update_queue@ == old(world).update_queue@ + pickup_updates(
            old(world).active_cells(),
            neighbours((old(positionable_mut).spec_row(), old(positionable_mut).spec_col())),
        ),
{
    let coords = (positionable_mut.row(), positionable_mut.col());
    let adjacents: [WorldCoordinates; 4] = [
        (coords.0.wrapping_sub(1), coords.1),
        (coords.0.wrapping_add(1), coords.1),
        (coords.0, coords.1.wrapping_sub(1)),
        (coords.0, coords.1.wrapping_add(1)),
    ];
    let ghost around = neighbours(coords);
    let ghost queue = world.update_queue@;
    let ghost cells = world.active_cells();
    assert(adjacents@ =~= around);
    assert(around.take(0) =~= Seq::<WorldCoordinates>::empty());
    assert(queue + Seq::<WorldUpdate<WorldUpdateEventType>>::empty() =~= queue);
    let mut i: usize = 0;
    while i < 4
        invariant
            i <= 4,
            adjacents@ == around,
            around.len() == 4,
            world.maps == old(world).maps,
            cells == old(world).active_cells(),
            world.update_queue@ == queue + pickup_updates(cells, around.take(i as int)),
        decreases 4 - i,
    {
        let (r, c) = adjacents[i];
        let found = match world.tile_at(r, c) {
            Some(tile) => tile.get_properties().treasure.is_some(),
            None => false,
        };
        proof {
            let longer = around.take(i + 1);
            assert(longer.drop_last() =~= around.take(i as int));
            assert(longer.last() == around[i as int]);
            assert(found == holds_chest(cells, (r, c)));
        }
        if found {
            match explicit_pickup_type {
                ExplicitPickupType::TreasureChest => {
                    let update = WorldUpdate::new(WorldUpdateEventType::PickupTreasure((r, c)));
                    let ghost before = pickup_updates(cells, around.take(i as int));
                    world.queue_update(update);
                    assert((queue + before).push(update) =~= queue + before.push(update));
                },
            }
        }
        i += 1;
    }
    assert(around.take(4) =~= around);
}

} // verus!
