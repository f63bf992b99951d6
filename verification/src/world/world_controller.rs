//! The world controller: it owns the maps and the queue of updates, and
//! applies the updates to the active map and to the player.

use vstd::prelude::*;

use crate::player::deposit_all;
use crate::player::first_key_for;
use crate::player::Player;
use crate::player::PlayerView;
use crate::shared::tile::COLLECTED_TREASURE_SYMBOL;
use crate::shared::tile::FLOOR_SYMBOL;
use crate::shared::tile::UNLOCKED_DOOR_SYMBOL;
use crate::shared::traits::Moveable;
use crate::shared::treasure::TreasureCollectionView;
use crate::shared::CommonState;
use crate::shared::KeyDisplay;
use crate::shared::KeyDoorLink;
use crate::shared::Tile;
use crate::shared::TileKind;
use crate::shared::TilePropertiesView;
use crate::shared::TileView;
use crate::shared::WorldCoordinates;
use crate::world::errors::MapLoadError;
use crate::world::errors::UnimplementedEventError;
use crate::world::errors::WorldUpdateError;
use crate::world::theorems::theorem_update_keeps_order;
use crate::world::update_queue::find_next;
use crate::world::update_queue::lemma_next_index;
use crate::world::update_queue::next_index;
use crate::world::world_map::cols_in;
use crate::world::world_map::loaded;
use crate::world::world_map::rows_in;
use crate::world::world_map::tile_on;
use crate::world::world_map::with_tile;
use crate::world::world_map::WorldMap;
use crate::world::world_update::WorldUpdate;
use crate::world::world_update::WorldUpdateEventType;

verus! {

/// Owns the maps of the world and the queue of updates. The first map is the
/// active one: entities move on it, and updates change it.
pub struct WorldController {
    pub maps: Vec<WorldMap>,
    pub update_queue: Vec<WorldUpdate<WorldUpdateEventType>>,
}

/// What a move onto a tile leads to.
#[derive(Debug, Clone, Copy, PartialEq, Eq)]
pub enum MoveVerdict {
    /// The entity steps onto the tile.
    Commit,
    /// The entity steps onto the tile and picks up the key of the link.
    CommitAndPickup(KeyDoorLink),
    /// The entity stays and tries the door on the cell.
    TryDoor(WorldCoordinates),
    /// The entity stays.
    Reject,
}

/// What updates change: the tiles of the active map, and the player.
pub struct Scene {
    pub cells: Seq<Seq<TileView>>,
    pub player: PlayerView,
}

/// How the work on the queue ended: the scene it left, the updates that
/// still wait, and the error that stopped it, if one did.
pub struct Drained {
    pub scene: Scene,
    pub queue: Seq<WorldUpdate<WorldUpdateEventType>>,
    pub error: Option<WorldUpdateError>,
}

/// What a move onto `tile` leads to; `None` stands for a cell that the map
/// does not have. Floor is stepped on; so is a key tile, whose key is picked
/// up if it still lies there; so is an unlocked door. A locked door is
/// tried. Everything else stops the move.
pub open spec fn move_verdict(tile: Option<TileView>) -> MoveVerdict {
    match tile {
        Some(t) => match t.kind {
            TileKind::Floor => MoveVerdict::Commit,
            TileKind::Key => match t.props.kdl {
                Some(link) => MoveVerdict::CommitAndPickup(link),
                None => MoveVerdict::Commit,
            },
            TileKind::Door => if t.state == Some(CommonState::locked()) {
                MoveVerdict::TryDoor(t.props.world_coordinates)
            } else if t.state == Some(CommonState::unlocked()) {
                MoveVerdict::Commit
            } else {
                MoveVerdict::Reject
            },
            _ => MoveVerdict::Reject,
        },
        None => MoveVerdict::Reject,
    }
}

/// A key tile after its key was picked up: it holds no link and draws the
/// floor symbol.
pub open spec fn key_taken(tile: TileView) -> TileView {
    TileView {
        props: TilePropertiesView { kdl: None, draw_character: FLOOR_SYMBOL, ..tile.props },
        ..tile
    }
}

/// A door after it was opened: it holds no link, draws the symbol of an
/// unlocked door, and is unlocked.
pub open spec fn door_opened(tile: TileView) -> TileView {
    TileView {
        props: TilePropertiesView {
            kdl: None,
            draw_character: UNLOCKED_DOOR_SYMBOL,
            ..tile.props
        },
        state: Some(CommonState::unlocked()),
        ..tile
    }
}

/// A treasure tile after its chest was emptied: it holds no chest, draws the
/// symbol of a collected treasure, and is collected.
pub open spec fn chest_emptied(tile: TileView) -> TileView {
    TileView {
        props: TilePropertiesView {
            treasure: None,
            draw_character: COLLECTED_TREASURE_SYMBOL,
            ..tile.props
        },
        state: Some(CommonState::collected()),
        ..tile
    }
}

/// What a treasure tile hands over when its chest is emptied: the items of
/// its chest while it is uncollected, and nothing otherwise.
pub open spec fn chest_yield(tile: TileView) -> Seq<
    (crate::shared::treasure::TreasureType, crate::shared::treasure::TreasureQuantity),
> {
    if tile.state == Some(CommonState::uncollected()) {
        match tile.props.treasure {
            Some(chest) => chest.items,
            None => Seq::empty(),
        }
    } else {
        Seq::empty()
    }
}

/// The scene after one update.
///
/// * `Idle` changes nothing.
/// * `ChangeTileState` is an error.
/// * `KeyPickup` puts the link on the keyring and takes the key off its
///   tile.
/// * `TryOpenDoor` looks for the first link on the keyring that leads to the
///   door. With one, the link leaves the keyring, the door opens and the
///   player commits its proposal; without one, nothing changes.
/// * `PickupTreasure` adds what the chest yields to the inventory and
///   empties the chest; it is an error if the inventory cannot hold a sum.
///
/// An update changes nothing if the map has no tile on its cell, or if the
/// tile there is not of its variant: a key tile, a door, a treasure.
pub open spec fn applied(scene: Scene, event: WorldUpdateEventType) -> Result<
    Scene,
    WorldUpdateError,
> {
    match event {
        WorldUpdateEventType::Idle => Ok(scene),
        WorldUpdateEventType::ChangeTileState(coords, state) => Err(
            WorldUpdateError::UnimplementedEvent(UnimplementedEventError { coords, state }),
        ),
        WorldUpdateEventType::KeyPickup(link) => match tile_on(scene.cells, link.key) {
            Some(tile) => if tile.kind == TileKind::Key {
                Ok(
                    Scene {
                        cells: with_tile(scene.cells, link.key, key_taken(tile)),
                        player: PlayerView {
                            keyring: scene.player.keyring.push(link),
                            ..scene.player
                        },
                    },
                )
            } else {
                Ok(scene)
            },
            None => Ok(scene),
        },
        WorldUpdateEventType::TryOpenDoor(door) => match tile_on(scene.cells, door) {
            Some(tile) => {
                let i = first_key_for(scene.player.keyring, door);
                if tile.kind == TileKind::Door && i < scene.player.keyring.len() {
                    Ok(
                        Scene {
                            cells: with_tile(scene.cells, door, door_opened(tile)),
                            player: PlayerView {
                                keyring: scene.player.keyring.remove(i),
                                position: scene.player.new_position,
                                ..scene.player
                            },
                        },
                    )
                } else {
                    Ok(scene)
                }
            },
            None => Ok(scene),
        },
        WorldUpdateEventType::PickupTreasure(at) => match tile_on(scene.cells, at) {
            Some(tile) => if tile.kind == TileKind::Treasure {
                match deposit_all(scene.player.inventory.items, chest_yield(tile)) {
                    Some(items) => Ok(
                        Scene {
                            cells: with_tile(scene.cells, at, chest_emptied(tile)),
                            player: PlayerView {
                                inventory: TreasureCollectionView {
                                    items,
                                    ..scene.player.inventory
                                },
                                ..scene.player
                            },
                        },
                    ),
                    None => Err(WorldUpdateError::QuantityOverflow { chest: at }),
                }
            } else {
                Ok(scene)
            },
            None => Ok(scene),
        },
    }
}

/// The work on the queue: the update of the highest rank leaves the queue
/// and is applied, and so on until the queue is empty. Among updates of one
/// rank the one that has waited longest leaves first. An error stops the
/// work: the update that failed has left the queue and changed nothing, and
/// those behind it still wait.
pub open spec fn drained(scene: Scene, queue: Seq<WorldUpdate<WorldUpdateEventType>>) -> Drained
    decreases queue.len(),
    via drained_ends
{
    if queue.len() == 0 {
        Drained { scene, queue, error: None }
    } else {
        let i = next_index(queue);
        match applied(scene, queue[i].event_type) {
            Ok(next) => drained(next, queue.remove(i)),
            Err(e) => Drained { scene, queue: queue.remove(i), error: Some(e) },
        }
    }
}

#[via_fn]
proof fn drained_ends(scene: Scene, queue: Seq<WorldUpdate<WorldUpdateEventType>>) {
    if queue.len() != 0 {
        lemma_next_index(queue);
    }
}

impl WorldController {
    /// The tiles of the active map; no tiles where the world has no map.
    pub open spec fn active_cells(&self) -> Seq<Seq<TileView>> {
        if self.maps@.len() > 0 {
            self.maps@[0]@.cells
        } else {
            Seq::empty()
        }
    }

    /// Whether `after` is this world with other tiles on its active map:
    /// the number of maps, the numbers of the maps and all maps but the
    /// active one are the same.
    pub open spec fn same_maps_but_tiles(&self, after: &WorldController) -> bool {
        &&& after.maps@.len() == self.maps@.len()
        &&& self.maps@.len() > 0 ==> after.maps@[0].id == self.maps@[0].id
        &&& forall|i: int| 1 <= i < self.maps@.len() ==> after.maps@[i] == self.maps@[i]
    }

    /// Every map is a rectangle whose tiles know where they stand.
    pub open spec fn wf(&self) -> bool {
        forall|i: int| 0 <= i < self.maps@.len() ==> (#[trigger] self.maps@[i])@.wf()
    }

    /// A world without maps and without updates.
    pub fn new() -> (world: WorldController)
        ensures
            world.maps@.len() == 0,
            world.update_queue@.len() == 0,
            world.wf(),
    {
        WorldController { maps: Vec::new(), update_queue: Vec::new() }
    }

    /// The number that the next map gets: 0 for the first map, and one more
    /// than the number of maps for every other.
    pub fn next_map_id(&self) -> (id: usize)
        requires
            self.maps@.len() < usize::MAX,
        ensures
            id == (if self.maps@.len() == 0 {
                0
            } else {
                self.maps@.len() + 1
            }),
    {
        if self.maps.is_empty() {
            self.maps.len()
        } else {
            self.maps.len() + 1
        }
    }

    /// Reads a map from its text and adds it behind the maps of the world.
    /// Nothing changes if the text describes no map.
    pub fn load_map_from_bytes(&mut self, bytes: &[u8], display: KeyDisplay) -> (outcome: Result<
        (),
        MapLoadError,
    >)
        requires
            old(self).maps@.len() < usize::MAX,
        ensures
            final(self).update_queue == old(self).update_queue,
            old(self).wf() ==> final(self).wf(),
            match outcome {
                Ok(()) => {
                    &&& final(self).maps@.len() == old(self).maps@.len() + 1
                    &&& final(self).maps@.take(old(self).maps@.len() as int) == old(self).maps@
                    &&& loaded(bytes@, display) == Ok::<Seq<Seq<TileView>>, MapLoadError>(
                        final(self).maps@.last()@.cells,
                    )
                    &&& final(self).maps@.last().id == (if old(self).maps@.len() == 0 {
                        0
                    } else {
                        old(self).maps@.len() + 1
                    })
                },
                Err(e) => {
                    &&& final(self).maps == old(self).maps
                    &&& loaded(bytes@, display) == Err::<Seq<Seq<TileView>>, MapLoadError>(e)
                },
            },
    {
        let assigned_id = self.next_map_id();
        match WorldMap::from_bytes(bytes, assigned_id, display) {
            Ok(map) => {
                self.maps.push(map);
                assert(self.maps@.take(old(self).maps@.len() as int) =~= old(self).maps@);
                Ok(())
            },
            Err(e) => Err(e),
        }
    }

    /// Puts `update` at the end of the queue.
    pub fn queue_update(&mut self, update: WorldUpdate<WorldUpdateEventType>)
        ensures
            final(self).update_queue@ == old(self).update_queue@.push(update),
            final(self).maps == old(self).maps,
            old(self).wf() ==> final(self).wf(),
    {
        self.update_queue.push(update);
    }

    /// Tells whether `row` and `col` lie within the bounds of the active map:
    /// between 0 and the number of rows, and between 0 and the number of
    /// columns, both ends included. The upper ends are one past the last row
    /// and the last column, so a pair within the bounds need not name a cell.
    /// No pair lies within the bounds of a world without maps.
    pub fn within_bounds(&self, row: &isize, col: &isize) -> (within: bool)
        ensures
            within == (self.maps@.len() > 0 && 0 <= *row <= rows_in(self.active_cells()) && 0
                <= *col <= cols_in(self.active_cells())),
    {
        if self.maps.len() == 0 {
            return false;
        }
        let rows = self.maps[0].rows();
        let cols = self.maps[0].cols();
        *row >= 0 && (*row as usize) <= rows && *col >= 0 && (*col as usize) <= cols
    }

    /// The tile on the cell (`row`, `col`) of the active map, if there is one.
    pub fn tile_at(&self, row: usize, col: usize) -> (tile: Option<&Tile>)
        ensures
            match tile {
                Some(t) => tile_on(self.active_cells(), (row, col)) == Some(t@),
                None => tile_on(self.active_cells(), (row, col)) is None,
            },
    {
        if self.maps.len() == 0 {
            None
        } else {
            self.maps[0].tile(row, col)
        }
    }

    /// What a move onto the cell (`row`, `col`) of the active map leads to.
    pub fn judge_move(&self, row: usize, col: usize) -> (verdict: MoveVerdict)
        ensures
            verdict == move_verdict(tile_on(self.active_cells(), (row, col))),
    {
        match self.tile_at(row, col) {
            Some(tile) => match tile {
                Tile::Floor(_) => MoveVerdict::Commit,
                Tile::Key(props) => match props.kdl {
                    Some(link) => MoveVerdict::CommitAndPickup(link),
                    None => MoveVerdict::Commit,
                },
                Tile::Door(props, state) => {
                    if *state == CommonState::locked() {
                        MoveVerdict::TryDoor(props.world_coordinates)
                    } else if *state == CommonState::unlocked() {
                        MoveVerdict::Commit
                    } else {
                        MoveVerdict::Reject
                    }
                },
                _ => MoveVerdict::Reject,
            },
            None => MoveVerdict::Reject,
        }
    }

    /// Takes the update that is next off the queue; `None` if the queue is
    /// empty.
    pub fn pop_update(&mut self) -> (update: Option<WorldUpdate<WorldUpdateEventType>>)
        ensures
            final(self).maps == old(self).maps,
            match update {
                Some(u) => {
                    &&& old(self).update_queue@.len() > 0
                    &&& final(self).update_queue@.len() == old(self).update_queue@.len() - 1
                    &&& u == old(self).update_queue@[next_index(old(self).update_queue@)]
                    &&& final(self).update_queue@ == old(self).update_queue@.remove(
                        next_index(old(self).update_queue@),
                    )
                },
                None => old(self).update_queue@.len() == 0 && final(self).update_queue
                    == old(self).update_queue,
            },
    {
        if self.update_queue.len() == 0 {
            None
        } else {
            let best = find_next(&self.update_queue);
            Some(self.update_queue.remove(best))
        }
    }

    /// Applies one update to the active map and to the player. An error
    /// changes nothing.
    pub fn apply_update(&mut self, player: &mut Player, event: WorldUpdateEventType) -> (outcome:
        Result<(), WorldUpdateError>)
        ensures
            final(self).update_queue == old(self).update_queue,
            old(self).same_maps_but_tiles(final(self)),
            old(self).wf() ==> final(self).wf(),
            old(player).wf() ==> final(player).wf(),
            match applied(Scene { cells: old(self).active_cells(), player: old(player)@ }, event) {
                Ok(scene) => {
                    &&& outcome is Ok
                    &&& final(self).active_cells() == scene.cells
                    &&& final(player)@ == scene.player
                },
                Err(e) => {
                    &&& outcome == Err::<(), WorldUpdateError>(e)
                    &&& final(self).active_cells() == old(self).active_cells()
                    &&& final(player)@ == old(player)@
                },
            },
    {
        proof {
            if applied(Scene { cells: self.active_cells(), player: player@ }, event) is Ok {
                theorem_update_keeps_order(
                    Scene { cells: self.active_cells(), player: player@ },
                    event,
                );
            }
        }
        if self.maps.len() == 0 {
            return match event {
                WorldUpdateEventType::ChangeTileState(coords, state) => Err(
                    WorldUpdateError::UnimplementedEvent(UnimplementedEventError { coords, state }),
                ),
                _ => Ok(()),
            };
        }
        let ghost cells = self.active_cells();
        match event {
            WorldUpdateEventType::Idle => Ok(()),
            WorldUpdateEventType::ChangeTileState(coords, state) => Err(
                WorldUpdateError::UnimplementedEvent(UnimplementedEventError { coords, state }),
            ),
            WorldUpdateEventType::KeyPickup(link) => {
                match self.maps[0].tile_mut(link.key.0, link.key.1) {
                    Some(tile) => {
                        let ghost before = tile@;
                        match tile {
                            Tile::Key(props) => {
                                props.kdl = None;
                                props.draw_character = FLOOR_SYMBOL;
                                player.add_key(link);
                            },
                            _ => {
                                assert(with_tile(cells, link.key, before) =~~= cells);
                            },
                        }
                    },
                    None => {},
                }
                Ok(())
            },
            WorldUpdateEventType::TryOpenDoor(door) => {
                match self.maps[0].tile_mut(door.0, door.1) {
                    Some(tile) => {
                        let ghost before = tile@;
                        match tile {
                            Tile::Door(props, state) => {
                                match player.take_key_for(door) {
                                    Some(_) => {
                                        props.kdl = None;
                                        props.draw_character = UNLOCKED_DOOR_SYMBOL;
                                        *state = CommonState::unlocked();
                                        player.translate_into();
                                    },
                                    None => {
                                        assert(with_tile(cells, door, before) =~~= cells);
                                    },
                                }
                            },
                            _ => {
                                assert(with_tile(cells, door, before) =~~= cells);
                            },
                        }
                    },
                    None => {},
                }
                Ok(())
            },
            WorldUpdateEventType::PickupTreasure(at) => {
                match self.maps[0].tile_mut(at.0, at.1) {
                    Some(tile) => {
                        let ghost before = tile@;
                        match tile {
                            Tile::Treasure(props, state) => {
                                if *state == CommonState::uncollected() {
                                    match &props.treasure {
                                        Some(chest) => {
                                            if !player.receive(&chest.items) {
                                                assert(with_tile(cells, at, before) =~~= cells);
                                                return Err(
                                                    WorldUpdateError::QuantityOverflow {
                                                        chest: at,
                                                    },
                                                );
                                            }
                                        },
                                        None => {},
                                    }
                                }
                                props.treasure = None;
                                props.draw_character = COLLECTED_TREASURE_SYMBOL;
                                *state = CommonState::collected();
                            },
                            _ => {
                                assert(with_tile(cells, at, before) =~~= cells);
                            },
                        }
                    },
                    None => {},
                }
                Ok(())
            },
        }
    }

    /// Works off the queue: takes the update that is next, applies it to the
    /// active map and to `player`, and so on until the queue is empty or an
    /// update fails.
    pub fn update_world(&mut self, player: &mut Player) -> (outcome: Result<(), WorldUpdateError>)
        ensures
            old(self).same_maps_but_tiles(final(self)),
            old(self).wf() ==> final(self).wf(),
            old(player).wf() ==> final(player).wf(),
            ({
                let end = drained(
                    Scene { cells: old(self).active_cells(), player: old(player)@ },
                    old(self).update_queue@,
                );
                &&& final(self).active_cells() == end.scene.cells
                &&& final(player)@ == end.scene.player
                &&& final(self).update_queue@ == end.queue
                &&& outcome == match end.error {
                    Some(e) => Err::<(), WorldUpdateError>(e),
                    None => Ok::<(), WorldUpdateError>(()),
                }
            }),
    {
        loop
            invariant
                old(self).same_maps_but_tiles(self),
                old(self).wf() ==> self.wf(),
                old(player).wf() ==> player.wf(),
                drained(
                    Scene { cells: old(self).active_cells(), player: old(player)@ },
                    old(self).update_queue@,
                ) == drained(
                    Scene { cells: self.active_cells(), player: player@ },
                    self.update_queue@,
                ),
            decreases self.update_queue@.len(),
        {
            match self.pop_update() {
                Some(update) => {
                    match self.apply_update(player, update.event_type) {
                        Ok(()) => {},
                        Err(e) => {
                            return Err(e);
                        },
                    }
                },
                None => {
                    return Ok(());
                },
            }
        }
    }
}

} // verus!
