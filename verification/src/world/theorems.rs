//! What holds of every game: of the moves, of the updates, and of the maps
//! that a text describes.

use vstd::prelude::*;

use crate::player::deposit;
use crate::player::deposit_all;
use crate::player::first_key_for;
use crate::player::lemma_first_key_for;
use crate::player::lemma_first_of_kind;
use crate::player::PlayerView;
use crate::shared::search::lemma_first_index;
use crate::shared::tile::FLOOR_SYMBOL;
use crate::shared::tile::UNLOCKED_DOOR_SYMBOL;
use crate::shared::treasure::treasure_collection::quantity_of;
use crate::shared::treasure::TreasureQuantity;
use crate::shared::treasure::TreasureType;
use crate::shared::CommonState;
use crate::shared::KeyDisplay;
use crate::shared::TileKind;
use crate::shared::TileView;
use crate::shared::WorldCoordinates;
use crate::world::errors::MapLoadError;
use crate::world::move_updates;
use crate::world::update_queue::lemma_next_index;
use crate::world::update_queue::next_index;
use crate::world::world_controller::applied;
use crate::world::world_controller::chest_emptied;
use crate::world::world_controller::chest_yield;
use crate::world::world_controller::door_opened;
use crate::world::world_controller::drained;
use crate::world::world_controller::key_taken;
use crate::world::world_controller::move_verdict;
use crate::world::world_controller::Drained;
use crate::world::world_controller::MoveVerdict;
use crate::world::world_controller::Scene;
use crate::shared::tile::KEY_SYMBOL;
use crate::shared::tile::LOCKED_DOOR_SYMBOL;
use crate::world::world_map::anchored;
use crate::world::world_map::body_error;
use crate::world::world_map::count_in_body;
use crate::world::world_map::count_in_row;
use crate::world::world_map::row_error;
use crate::world::world_map::cols_in;
use crate::world::world_map::laid_and_counted;
use crate::world::world_map::lemma_widest;
use crate::world::world_map::laid_out;
use crate::world::world_map::laid_tile;
use crate::world::world_map::loaded;
use crate::world::world_map::placed;
use crate::world::world_map::rectangular;
use crate::world::world_map::stands_on;
use crate::world::world_map::starts_at;
use crate::world::world_map::tile_on;
use crate::world::world_map::widest;
use crate::world::world_map::with_tile;
use crate::world::world_map::Legend;
use crate::world::world_update::WorldUpdate;
use crate::world::world_update::WorldUpdateEventType;

verus! {

/// The cell that a player proposes: the row and the column of its proposed
/// position, cut to the width of an index.
pub open spec fn proposed_cell(player: PlayerView) -> WorldCoordinates {
    (player.new_position.y as usize, player.new_position.x as usize)
}

/// The cell on which a player stands.
pub open spec fn standing_cell(player: PlayerView) -> WorldCoordinates {
    (player.position.y as usize, player.position.x as usize)
}

/// Work on a queue that holds one update applies that update and leaves the
/// queue empty.
pub proof fn lemma_drained_one(scene: Scene, update: WorldUpdate<WorldUpdateEventType>)
    ensures
        drained(scene, seq![update]) == (match applied(scene, update.event_type) {
            Ok(next) => Drained { scene: next, queue: Seq::empty(), error: None },
            Err(e) => Drained { scene, queue: Seq::empty(), error: Some(e) },
        }),
{
    let queue = seq![update];
    lemma_next_index(queue);
    assert(queue.remove(0) =~= Seq::<WorldUpdate<WorldUpdateEventType>>::empty());
    assert(queue[0] == update);
    match applied(scene, update.event_type) {
        Ok(next) => {
            assert(drained(next, Seq::<WorldUpdate<WorldUpdateEventType>>::empty()) == Drained {
                scene: next,
                queue: Seq::empty(),
                error: None,
            });
        },
        Err(e) => {},
    }
}

/// An update of a higher rank leaves the queue before one of a lower rank:
/// the update that leaves next has the highest rank that the queue holds.
pub proof fn theorem_highest_rank_first(queue: Seq<WorldUpdate<WorldUpdateEventType>>, j: int)
    requires
        0 <= j < queue.len(),
    ensures
        queue[j].rank() <= queue[next_index(queue)].rank(),
        j < next_index(queue) ==> queue[j].rank() < queue[next_index(queue)].rank(),
{
    lemma_next_index(queue);
}

/// A move onto a key tile that holds its key, followed by the work on the
/// queue: one `KeyPickup` is queued, and after the work the link is the last
/// on the keyring, the tile holds no link and draws the floor symbol, the
/// player stands where it stood after the move, and the queue is empty.
pub proof fn theorem_key_is_picked_up(
    cells: Seq<Seq<TileView>>,
    player: PlayerView,
    target: WorldCoordinates,
)
    requires
        anchored(cells),
        tile_on(cells, target) matches Some(tile) && tile.kind == TileKind::Key && tile.props.kdl
            is Some,
    ensures
        ({
            let tile = tile_on(cells, target)->0;
            let link = tile.props.kdl->0;
            let end = drained(Scene { cells, player }, move_updates(move_verdict(Some(tile))));
            &&& move_verdict(Some(tile)) == MoveVerdict::CommitAndPickup(link)
            &&& move_updates(move_verdict(Some(tile))) == seq![
                WorldUpdate { event_type: WorldUpdateEventType::KeyPickup(link) },
            ]
            &&& link.key == target
            &&& end.error is None
            &&& end.queue.len() == 0
            &&& end.scene.player == (PlayerView { keyring: player.keyring.push(link), ..player })
            &&& end.scene.player.keyring.last() == link
            &&& tile_on(end.scene.cells, target) == Some(key_taken(tile))
            &&& key_taken(tile).props.draw_character == FLOOR_SYMBOL
            &&& key_taken(tile).props.kdl is None
        }),
{
    let tile = tile_on(cells, target)->0;
    let link = tile.props.kdl->0;
    let update = WorldUpdate { event_type: WorldUpdateEventType::KeyPickup(link) };
    assert(cells[target.0 as int][target.1 as int] == tile);
    lemma_drained_one(Scene { cells, player }, update);
}

/// A move onto a locked door without the key to it, followed by the work on
/// the queue: one `TryOpenDoor` is queued, and the work changes neither the
/// player nor any tile. The player stands where it stood, and the door is
/// still locked.
pub proof fn theorem_locked_door_keeps_out(
    cells: Seq<Seq<TileView>>,
    player: PlayerView,
    target: WorldCoordinates,
)
    requires
        anchored(cells),
        tile_on(cells, target) matches Some(tile) && tile.is_locked_door(),
        forall|i: int| 0 <= i < player.keyring.len() ==> (#[trigger] player.keyring[i]).door != target,
    ensures
        ({
            let tile = tile_on(cells, target)->0;
            let end = drained(Scene { cells, player }, move_updates(move_verdict(Some(tile))));
            &&& move_verdict(Some(tile)) == MoveVerdict::TryDoor(target)
            &&& end.error is None
            &&& end.queue.len() == 0
            &&& end.scene.player == player
            &&& end.scene.cells == cells
        }),
{
    let tile = tile_on(cells, target)->0;
    assert(cells[target.0 as int][target.1 as int] == tile);
    let update = WorldUpdate { event_type: WorldUpdateEventType::TryOpenDoor(target) };
    lemma_drained_one(Scene { cells, player }, update);
    lemma_first_key_for(player.keyring, target);
}

/// A move onto a locked door with a key to it, followed by the work on the
/// queue: the first link to the door leaves the keyring, the door is
/// unlocked, draws the symbol of an unlocked door and holds no link, and the
/// player stands on its proposed cell.
pub proof fn theorem_key_opens_door(
    cells: Seq<Seq<TileView>>,
    player: PlayerView,
    target: WorldCoordinates,
    held: int,
)
    requires
        anchored(cells),
        tile_on(cells, target) matches Some(tile) && tile.is_locked_door(),
        0 <= held < player.keyring.len(),
        player.keyring[held].door == target,
    ensures
        ({
            let tile = tile_on(cells, target)->0;
            let i = first_key_for(player.keyring, target);
            let end = drained(Scene { cells, player }, move_updates(move_verdict(Some(tile))));
            &&& move_verdict(Some(tile)) == MoveVerdict::TryDoor(target)
            &&& 0 <= i <= held
            &&& player.keyring[i].door == target
            &&& end.error is None
            &&& end.queue.len() == 0
            &&& end.scene.player == (PlayerView {
                keyring: player.keyring.remove(i),
                position: player.new_position,
                ..player
            })
            &&& standing_cell(end.scene.player) == proposed_cell(player)
            &&& tile_on(end.scene.cells, target) == Some(door_opened(tile))
            &&& door_opened(tile).is_unlocked_door()
            &&& door_opened(tile).props.draw_character == UNLOCKED_DOOR_SYMBOL
        }),
{
    let tile = tile_on(cells, target)->0;
    assert(cells[target.0 as int][target.1 as int] == tile);
    let update = WorldUpdate { event_type: WorldUpdateEventType::TryOpenDoor(target) };
    lemma_drained_one(Scene { cells, player }, update);
    lemma_first_key_for(player.keyring, target);
}

/// What a chest hands over goes to the gold of a well-formed inventory, and
/// only that: after the deposit the first item is still the gold, and it has
/// grown by the gold among what was added.
pub proof fn theorem_gold_grows_by_gold(
    items: Seq<(TreasureType, TreasureQuantity)>,
    added: Seq<(TreasureType, TreasureQuantity)>,
)
    requires
        items.len() > 0,
        items[0].0 == TreasureType::Gold,
        deposit_all(items, added) is Some,
    ensures
        ({
            let after = deposit_all(items, added)->0;
            &&& after.len() >= items.len()
            &&& after[0].0 == TreasureType::Gold
            &&& after[0].1 == items[0].1 + quantity_of(added, TreasureType::Gold)
        }),
    decreases added.len(),
{
    if added.len() != 0 {
        let kind = added[0].0;
        lemma_first_of_kind(items, kind);
        let next = deposit(items, kind, added[0].1)->0;
        theorem_gold_grows_by_gold(next, added.skip(1));
    }
}

/// Emptying a chest a second time hands over nothing: the first
/// `PickupTreasure` leaves the treasure collected, and a second one on the
/// same cell changes neither the player nor any tile.
pub proof fn theorem_chest_is_emptied_once(scene: Scene, at: WorldCoordinates)
    requires
        applied(scene, WorldUpdateEventType::PickupTreasure(at)) is Ok,
        tile_on(scene.cells, at) matches Some(tile) && tile.kind == TileKind::Treasure,
    ensures
        ({
            let once = applied(scene, WorldUpdateEventType::PickupTreasure(at))->Ok_0;
            &&& tile_on(once.cells, at) == Some(chest_emptied(tile_on(scene.cells, at)->0))
            &&& chest_emptied(tile_on(scene.cells, at)->0).state == Some(CommonState::collected())
            &&& applied(once, WorldUpdateEventType::PickupTreasure(at)) == Ok::<
                Scene,
                crate::world::errors::WorldUpdateError,
            >(once)
        }),
{
    let tile = tile_on(scene.cells, at)->0;
    let once = applied(scene, WorldUpdateEventType::PickupTreasure(at))->Ok_0;
    let emptied = chest_emptied(tile);
    assert(once.cells == with_tile(scene.cells, at, emptied));
    assert(tile_on(once.cells, at) == Some(emptied));
    assert(chest_yield(emptied) =~= Seq::<(TreasureType, TreasureQuantity)>::empty());
    assert(chest_emptied(emptied) == emptied);
    assert(with_tile(once.cells, at, emptied) =~~= once.cells);
    assert(deposit_all(once.player.inventory.items, chest_yield(emptied)) == Some(
        once.player.inventory.items,
    ));
}

/// Whether the grid `after` has the shape of `before`, and no door in it
/// was locked again and no treasure put back: a door that was unlocked is
/// an unlocked door, and a treasure that was collected is a collected
/// treasure.
pub open spec fn moved_forward(before: Seq<Seq<TileView>>, after: Seq<Seq<TileView>>) -> bool {
    &&& after.len() == before.len()
    &&& forall|r: int| 0 <= r < before.len() ==> (#[trigger] after[r]).len() == before[r].len()
    &&& forall|r: int, c: int|
        0 <= r < before.len() && 0 <= c < before[r].len() ==> {
            let old_tile = #[trigger] before[r][c];
            let new_tile = after[r][c];
            &&& new_tile.kind == old_tile.kind
            &&& new_tile.props.world_coordinates == old_tile.props.world_coordinates
            &&& old_tile.is_unlocked_door() ==> new_tile.is_unlocked_door()
            &&& old_tile.kind == TileKind::Treasure && old_tile.state == Some(
                CommonState::collected(),
            ) ==> new_tile.state == Some(CommonState::collected())
        }
}

/// One update keeps the shape of the map, keeps the tiles anchored, keeps
/// the inventory well-formed, and turns no state back.
pub proof fn theorem_update_keeps_order(scene: Scene, event: WorldUpdateEventType)
    requires
        applied(scene, event) is Ok,
    ensures
        ({
            let next = applied(scene, event)->Ok_0;
            &&& moved_forward(scene.cells, next.cells)
            &&& rectangular(scene.cells) ==> rectangular(next.cells)
            &&& anchored(scene.cells) ==> anchored(next.cells)
            &&& scene.player.wf() ==> next.player.wf()
        }),
{
    let next = applied(scene, event)->Ok_0;
    match event {
        WorldUpdateEventType::PickupTreasure(at) => {
            match tile_on(scene.cells, at) {
                Some(tile) => {
                    if tile.kind == TileKind::Treasure && scene.player.wf() {
                        theorem_gold_grows_by_gold(scene.player.inventory.items, chest_yield(tile));
                    }
                },
                None => {},
            }
        },
        _ => {},
    }
    if rectangular(scene.cells) {
        assert forall|r: int| 0 <= r < next.cells.len() implies (#[trigger] next.cells[r]).len()
            == cols_in(next.cells) by {
            assert(scene.cells[r].len() == cols_in(scene.cells));
            assert(scene.cells[0].len() == cols_in(scene.cells));
        }
    }
}

/// Work on the queue keeps the shape of the map, keeps the tiles anchored,
/// keeps the inventory well-formed, and turns no state back, whether it
/// ends well or with an error.
pub proof fn theorem_work_keeps_order(scene: Scene, queue: Seq<WorldUpdate<WorldUpdateEventType>>)
    ensures
        ({
            let end = drained(scene, queue);
            &&& moved_forward(scene.cells, end.scene.cells)
            &&& rectangular(scene.cells) ==> rectangular(end.scene.cells)
            &&& anchored(scene.cells) ==> anchored(end.scene.cells)
            &&& scene.player.wf() ==> end.scene.player.wf()
            &&& end.error is None ==> end.queue.len() == 0
        }),
    decreases queue.len(),
{
    if queue.len() != 0 {
        lemma_next_index(queue);
        let i = next_index(queue);
        match applied(scene, queue[i].event_type) {
            Ok(next) => {
                theorem_update_keeps_order(scene, queue[i].event_type);
                theorem_work_keeps_order(next, queue.remove(i));
                let end = drained(next, queue.remove(i));
                assert(moved_forward(scene.cells, end.scene.cells)) by {
                    assert forall|r: int, c: int|
                        0 <= r < scene.cells.len() && 0 <= c < scene.cells[r].len() implies {
                        let old_tile = #[trigger] scene.cells[r][c];
                        let new_tile = end.scene.cells[r][c];
                        &&& new_tile.kind == old_tile.kind
                        &&& new_tile.props.world_coordinates == old_tile.props.world_coordinates
                        &&& old_tile.is_unlocked_door() ==> new_tile.is_unlocked_door()
                        &&& old_tile.kind == TileKind::Treasure && old_tile.state == Some(
                            CommonState::collected(),
                        ) ==> new_tile.state == Some(CommonState::collected())
                    } by {
                        let mid = next.cells[r][c];
                        assert(next.cells[r].len() == scene.cells[r].len());
                    }
                }
            },
            Err(e) => {},
        }
    }
}

/// A map that was read from a text is sound: it is a rectangle, its tiles
/// are anchored, every key tile holds a link and every treasure tile a
/// chest.
pub proof fn theorem_loaded_map_is_sound(bytes: Seq<u8>, display: KeyDisplay)
    requires
        loaded(bytes, display) is Ok,
    ensures
        ({
            let cells = loaded(bytes, display)->Ok_0;
            &&& rectangular(cells)
            &&& anchored(cells)
            &&& forall|r: int, c: int|
                0 <= r < cells.len() && 0 <= c < cells[r].len() ==> {
                    let tile = #[trigger] cells[r][c];
                    &&& tile.kind == TileKind::Key ==> tile.props.kdl is Some
                    &&& tile.kind == TileKind::Treasure ==> tile.props.treasure is Some
                }
        }),
{
    let lines = crate::world::map_text::text_lines(bytes);
    let body = crate::world::map_text::body_lines(lines);
    let legend = Legend {
        links: crate::world::map_text::links_in(crate::world::map_text::directive_lines(lines)),
        chests: crate::world::map_text::chests_in(crate::world::map_text::directive_lines(lines)),
        display,
    };
    let cells = laid_out(body, legend);
    assert(loaded(bytes, display) == laid_and_counted(body, legend));
    assert(loaded(bytes, display)->Ok_0 == cells);
    let rows = body.len() as int;
    let cols = widest(body, rows);
    assert(rows * cols <= usize::MAX);
    if rows != 0 && cols != 0 {
        assert(rows <= usize::MAX && cols <= usize::MAX) by (nonlinear_arith)
            requires
                rows * cols <= usize::MAX,
                rows >= 1,
                cols >= 1,
        ;
        assert forall|r: int, c: int| 0 <= r < cells.len() && 0 <= c < cells[r].len() implies {
            let tile = #[trigger] cells[r][c];
            &&& tile.kind != TileKind::Floor ==> tile.props.world_coordinates == (
                r as usize,
                c as usize,
            )
            &&& tile.kind == TileKind::Key ==> (tile.props.kdl matches Some(link) && link.key == (
                r as usize,
                c as usize,
            ))
            &&& tile.kind == TileKind::Treasure ==> tile.props.treasure is Some
            &&& tile.props.treasure matches Some(chest) ==> chest.world_coords == Some(
                (r as usize, c as usize),
            ) && chest.variant == crate::shared::treasure::TreasureCollectionVariant::TreasureChest
        } by {
            assert(cells[r][c] == laid_tile(body, legend, r, c));
            if c < body[r].len() {
                let at = (r as usize, c as usize);
                lemma_first_index(legend.links, starts_at(at));
                lemma_first_index(legend.chests, stands_on(at));
                crate::world::map_text::lemma_chests_in_are_chests(
                    crate::world::map_text::directive_lines(lines),
                );
            }
        }
    }
}

/// How many of the first `upto` tiles of a row are `wanted`.
pub open spec fn count_row_tiles(
    row: Seq<TileView>,
    upto: int,
    wanted: spec_fn(TileView) -> bool,
) -> nat
    decreases upto,
{
    if upto <= 0 {
        0
    } else if wanted(row[upto - 1]) {
        count_row_tiles(row, upto - 1, wanted) + 1
    } else {
        count_row_tiles(row, upto - 1, wanted)
    }
}

/// How many tiles in the first `upto` rows of a grid are `wanted`.
pub open spec fn count_tiles(
    cells: Seq<Seq<TileView>>,
    upto: int,
    wanted: spec_fn(TileView) -> bool,
) -> nat
    decreases upto,
{
    if upto <= 0 {
        0
    } else {
        count_tiles(cells, upto - 1, wanted) + count_row_tiles(
            cells[upto - 1],
            cells[upto - 1].len() as int,
            wanted,
        )
    }
}

/// The number of key tiles on a grid.
pub open spec fn keys_on(cells: Seq<Seq<TileView>>) -> nat {
    count_tiles(cells, cells.len() as int, |tile: TileView| tile.kind == TileKind::Key)
}

/// The number of locked doors on a grid.
pub open spec fn locked_doors_on(cells: Seq<Seq<TileView>>) -> nat {
    count_tiles(cells, cells.len() as int, |tile: TileView| tile.is_locked_door())
}

/// In a row without an error every byte puts a tile on its cell.
proof fn lemma_row_without_error(line: Seq<u8>, row: int, upto: int, legend: Legend, c: int)
    requires
        0 <= c < upto,
        row_error(line, row, upto, legend) is None,
    ensures
        placed(line[c], (row as usize, c as usize), legend) is Ok,
    decreases upto,
{
    if c < upto - 1 {
        lemma_row_without_error(line, row, upto - 1, legend, c);
    }
}

/// In a body without an error no row has an error.
proof fn lemma_body_without_error(body: Seq<Seq<u8>>, upto: int, legend: Legend, r: int)
    requires
        0 <= r < upto,
        body_error(body, upto, legend) is None,
    ensures
        row_error(body[r], r, body[r].len() as int, legend) is None,
    decreases upto,
{
    if r < upto - 1 {
        lemma_body_without_error(body, upto - 1, legend, r);
    }
}

/// Where the wanted tiles of a row are those that the byte `symbol` put
/// there, there are as many of them as the line has such bytes.
proof fn lemma_row_counts(
    row: Seq<TileView>,
    line: Seq<u8>,
    upto: int,
    symbol: u8,
    wanted: spec_fn(TileView) -> bool,
)
    requires
        0 <= upto <= row.len(),
        line.len() <= row.len(),
        forall|c: int| 0 <= c < line.len() ==> (wanted(#[trigger] row[c]) <==> line[c] == symbol),
        forall|c: int| line.len() <= c < row.len() ==> !wanted(#[trigger] row[c]),
    ensures
        count_row_tiles(row, upto, wanted) == count_in_row(
            line,
            if upto < line.len() {
                upto
            } else {
                line.len() as int
            },
            symbol,
        ),
    decreases upto,
{
    if upto > 0 {
        lemma_row_counts(row, line, upto - 1, symbol, wanted);
    }
}

/// Where the wanted tiles of each row are those that the byte `symbol` put
/// there, there are as many of them as the body has such bytes.
proof fn lemma_grid_counts(
    cells: Seq<Seq<TileView>>,
    body: Seq<Seq<u8>>,
    upto: int,
    symbol: u8,
    wanted: spec_fn(TileView) -> bool,
)
    requires
        0 <= upto <= cells.len() == body.len(),
        forall|r: int| 0 <= r < body.len() ==> (#[trigger] body[r]).len() <= cells[r].len(),
        forall|r: int, c: int|
            0 <= r < body.len() && 0 <= c < body[r].len() ==> (wanted(#[trigger] cells[r][c]) <==> body[r][c]
                == symbol),
        forall|r: int, c: int|
            0 <= r < body.len() && body[r].len() <= c < cells[r].len() ==> !wanted(
                #[trigger] cells[r][c],
            ),
    ensures
        count_tiles(cells, upto, wanted) == count_in_body(body, upto, symbol),
    decreases upto,
{
    if upto > 0 {
        lemma_grid_counts(cells, body, upto - 1, symbol, wanted);
        let r = upto - 1;
        assert forall|c: int| 0 <= c < body[r].len() implies (wanted(#[trigger] cells[r][c])
            <==> body[r][c] == symbol) by {}
        assert forall|c: int| body[r].len() <= c < cells[r].len() implies !wanted(
            #[trigger] cells[r][c],
        ) by {}
        lemma_row_counts(cells[r], body[r], cells[r].len() as int, symbol, wanted);
    }
}

/// A map that was read from a text has as many key tiles as locked doors.
pub proof fn theorem_loaded_map_is_balanced(bytes: Seq<u8>, display: KeyDisplay)
    requires
        loaded(bytes, display) is Ok,
    ensures
        keys_on(loaded(bytes, display)->Ok_0) == locked_doors_on(loaded(bytes, display)->Ok_0),
{
    let lines = crate::world::map_text::text_lines(bytes);
    let body = crate::world::map_text::body_lines(lines);
    let legend = Legend {
        links: crate::world::map_text::links_in(crate::world::map_text::directive_lines(lines)),
        chests: crate::world::map_text::chests_in(crate::world::map_text::directive_lines(lines)),
        display,
    };
    let cells = laid_out(body, legend);
    assert(loaded(bytes, display) == laid_and_counted(body, legend));
    assert(loaded(bytes, display)->Ok_0 == cells);
    let rows = body.len() as int;
    let cols = widest(body, rows);
    let is_key = |tile: TileView| tile.kind == TileKind::Key;
    let is_locked = |tile: TileView| tile.is_locked_door();
    if rows != 0 && cols != 0 {
        assert forall|r: int| 0 <= r < body.len() implies (#[trigger] body[r]).len()
            <= cells[r].len() by {
            lemma_widest(body, rows, r);
        }
        assert forall|r: int, c: int| 0 <= r < body.len() && 0 <= c < body[r].len() implies (
        is_key(#[trigger] cells[r][c]) <==> body[r][c] == KEY_SYMBOL as u8) && (is_locked(
            cells[r][c],
        ) <==> body[r][c] == LOCKED_DOOR_SYMBOL as u8) by {
            lemma_widest(body, rows, r);
            lemma_body_without_error(body, rows, legend, r);
            lemma_row_without_error(body[r], r, body[r].len() as int, legend, c);
            assert(cells[r][c] == laid_tile(body, legend, r, c));
        }
        assert forall|r: int, c: int|
            0 <= r < body.len() && body[r].len() <= c < cells[r].len() implies !is_key(
            #[trigger] cells[r][c],
        ) && !is_locked(cells[r][c]) by {
            assert(cells[r][c] == laid_tile(body, legend, r, c));
        }
        lemma_grid_counts(cells, body, rows, KEY_SYMBOL as u8, is_key);
        lemma_grid_counts(cells, body, rows, LOCKED_DOOR_SYMBOL as u8, is_locked);
    } else {
        assert(cells.len() == 0);
    }
}

/// What the tiles decide about a move. A wall and a treasure keep the
/// entity out and queue nothing. Floor and an unlocked door let it in and
/// queue nothing. A key tile lets it in, and queues the pickup of its key
/// while it holds one. A locked door keeps it out and queues a try at the
/// door. A cell that the map does not have keeps it out and queues nothing.
pub proof fn theorem_verdicts(tile: TileView)
    ensures
        tile.kind == TileKind::Wall || tile.kind == TileKind::Treasure ==> move_verdict(Some(tile))
            == MoveVerdict::Reject,
        tile.kind == TileKind::Floor || tile.is_unlocked_door() ==> move_verdict(Some(tile))
            == MoveVerdict::Commit,
        tile.kind == TileKind::Key ==> crate::world::commits(move_verdict(Some(tile))),
        tile.is_locked_door() ==> move_verdict(Some(tile)) == MoveVerdict::TryDoor(
            tile.props.world_coordinates,
        ),
        move_verdict(None) == MoveVerdict::Reject,
        move_updates(MoveVerdict::Reject).len() == 0,
        move_updates(MoveVerdict::Commit).len() == 0,
        !crate::world::commits(MoveVerdict::Reject),
        !crate::world::commits(MoveVerdict::TryDoor(tile.props.world_coordinates)),
        crate::world::commits(MoveVerdict::Commit),
{
}

/// Whether two tiles are the same but for the symbol that a key tile
/// draws.
pub open spec fn same_but_key_symbol(a: TileView, b: TileView) -> bool {
    &&& a.kind == b.kind
    &&& a.state == b.state
    &&& a.props.row == b.props.row
    &&& a.props.col == b.props.col
    &&& a.props.world_coordinates == b.props.world_coordinates
    &&& a.props.treasure == b.props.treasure
    &&& a.props.kdl == b.props.kdl
    &&& a.kind != TileKind::Key ==> a.props.draw_character == b.props.draw_character
}

/// The legend `legend` with keys drawn as `display` says.
pub open spec fn drawn_as(legend: Legend, display: KeyDisplay) -> Legend {
    Legend { display, ..legend }
}

/// How keys are drawn does not change the errors of a row.
proof fn lemma_row_error_whatever_display(
    line: Seq<u8>,
    row: int,
    upto: int,
    legend: Legend,
    display: KeyDisplay,
)
    ensures
        row_error(line, row, upto, drawn_as(legend, display)) == row_error(
            line,
            row,
            upto,
            legend,
        ),
    decreases upto,
{
    if upto > 0 {
        lemma_row_error_whatever_display(line, row, upto - 1, legend, display);
    }
}

/// How keys are drawn does not change the errors of a body.
proof fn lemma_body_error_whatever_display(
    body: Seq<Seq<u8>>,
    upto: int,
    legend: Legend,
    display: KeyDisplay,
)
    ensures
        body_error(body, upto, drawn_as(legend, display)) == body_error(body, upto, legend),
    decreases upto,
{
    if upto > 0 {
        lemma_body_error_whatever_display(body, upto - 1, legend, display);
        lemma_row_error_whatever_display(
            body[upto - 1],
            upto - 1,
            body[upto - 1].len() as int,
            legend,
            display,
        );
    }
}

/// How keys are drawn is a matter of drawing alone: a text describes a map
/// with keys revealed if and only if it describes one with keys hidden,
/// what is wrong with it is the same, and the two maps differ in nothing
/// but the symbols of their key tiles.
pub proof fn theorem_display_only_draws(bytes: Seq<u8>)
    ensures
        match (loaded(bytes, KeyDisplay::Revealed), loaded(bytes, KeyDisplay::Hidden)) {
            (Ok(revealed), Ok(hidden)) => {
                &&& revealed.len() == hidden.len()
                &&& forall|r: int| 0 <= r < revealed.len() ==> (#[trigger] revealed[r]).len()
                    == hidden[r].len()
                &&& forall|r: int, c: int|
                    0 <= r < revealed.len() && 0 <= c < revealed[r].len() ==> same_but_key_symbol(
                        #[trigger] revealed[r][c],
                        hidden[r][c],
                    )
            },
            (Err(e), Err(f)) => e == f,
            _ => false,
        },
{
    let lines = crate::world::map_text::text_lines(bytes);
    let body = crate::world::map_text::body_lines(lines);
    let legend = Legend {
        links: crate::world::map_text::links_in(crate::world::map_text::directive_lines(lines)),
        chests: crate::world::map_text::chests_in(crate::world::map_text::directive_lines(lines)),
        display: KeyDisplay::Revealed,
    };
    let hidden = drawn_as(legend, KeyDisplay::Hidden);
    let rows = body.len() as int;
    lemma_body_error_whatever_display(body, rows, legend, KeyDisplay::Hidden);
    if loaded(bytes, KeyDisplay::Revealed) is Ok {
        let shown = laid_out(body, legend);
        let concealed = laid_out(body, hidden);
        assert(loaded(bytes, KeyDisplay::Revealed) == Ok::<Seq<Seq<TileView>>, MapLoadError>(shown));
        assert(loaded(bytes, KeyDisplay::Hidden) == Ok::<Seq<Seq<TileView>>, MapLoadError>(
            concealed,
        ));
        assert forall|r: int, c: int|
            0 <= r < shown.len() && 0 <= c < shown[r].len() implies same_but_key_symbol(
            #[trigger] shown[r][c],
            concealed[r][c],
        ) by {
            assert(shown[r][c] == laid_tile(body, legend, r, c));
            assert(concealed[r][c] == laid_tile(body, hidden, r, c));
        }
    }
}

} // verus!
