use dungeon_world::shared::traits::Moveable;
use dungeon_world::shared::traits::Positionable;
use dungeon_world::shared::treasure::TreasureType;
use dungeon_world::shared::CommonState;
use dungeon_world::shared::KeyDisplay;
use dungeon_world::shared::KeyDoorLink;
use dungeon_world::shared::MoveDirection;
use dungeon_world::shared::Position;
use dungeon_world::shared::Tile;
use dungeon_world::world::pickup_explicit;
use dungeon_world::world::translate;
use dungeon_world::world::world_view::centered_rect;
use dungeon_world::world::world_view::Area;
use dungeon_world::world::ExplicitPickupType;
use dungeon_world::world::MapLoadError;
use dungeon_world::world::MapValidationError;
use dungeon_world::world::MoveVerdict;
use dungeon_world::world::UnimplementedEventError;
use dungeon_world::world::WorldController;
use dungeon_world::world::WorldUpdate;
use dungeon_world::world::WorldUpdateError;
use dungeon_world::world::WorldUpdateEventType;
use dungeon_world::world::WorldView;
use dungeon_world::Player;
use std::cmp::Ordering;

const SMALL: &[u8] = b"#######\n#.K.|.#\n#..D..#\n#######\n~K(1,2) = D(1,4)\n~T(2,3) = (1 = 10)\n";

const HALL: &[u8] = b"########\n#......#\n#......#\n#......#\n#......#\n#.....D#\n#......#\n########\n~T(5,6) = (1=10)\n";

fn world_of(text: &[u8]) -> WorldController {
    let mut world = WorldController::new();
    world.load_map_from_bytes(text, KeyDisplay::Revealed).unwrap();
    world
}

fn events(world: &WorldController) -> Vec<WorldUpdateEventType> {
    world.update_queue.iter().map(|u| u.event_type).collect()
}

fn symbol(world: &WorldController, row: usize, col: usize) -> char {
    world.tile_at(row, col).unwrap().to_symbol()
}

#[test]
fn new_world_has_no_maps_and_no_updates() {
    let world = WorldController::new();
    assert!(world.maps.is_empty());
    assert!(world.update_queue.is_empty());
    assert!(world.tile_at(0, 0).is_none());
    assert!(!world.within_bounds(&0, &0));
    assert_eq!(world.judge_move(0, 0), MoveVerdict::Reject);
}

#[test]
fn maps_get_their_numbers() {
    let mut world = WorldController::new();
    assert_eq!(world.next_map_id(), 0);
    world.load_map_from_bytes(SMALL, KeyDisplay::Revealed).unwrap();
    assert_eq!(world.maps.len(), 1);
    assert_eq!(world.maps[0].id, 0);
    assert_eq!(world.next_map_id(), 2);
    world.load_map_from_bytes(HALL, KeyDisplay::Revealed).unwrap();
    assert_eq!(world.maps[1].id, 2);
    assert_eq!(world.next_map_id(), 3);
    assert_eq!(world.maps[0].rows(), 4);
    assert_eq!(world.maps[1].rows(), 8);
}

#[test]
fn failed_load_leaves_the_world_as_it_is() {
    let mut world = world_of(SMALL);
    let outcome = world.load_map_from_bytes(b"#|#\n", KeyDisplay::Revealed);
    assert_eq!(
        outcome,
        Err(MapLoadError::Validation(MapValidationError::TooManyLockedDoors))
    );
    assert_eq!(world.maps.len(), 1);
    assert_eq!(world.maps[0].cols(), 7);
}

#[test]
fn bounds_include_the_upper_ends() {
    let world = world_of(SMALL);
    assert!(world.within_bounds(&0, &0));
    assert!(world.within_bounds(&3, &6));
    assert!(world.within_bounds(&4, &7));
    assert!(world.within_bounds(&4, &0));
    assert!(world.within_bounds(&0, &7));
    assert!(!world.within_bounds(&5, &0));
    assert!(!world.within_bounds(&0, &8));
    assert!(!world.within_bounds(&-1, &0));
    assert!(!world.within_bounds(&0, &-1));
    assert!(!world.within_bounds(&isize::MIN, &isize::MAX));
}

#[test]
fn verdicts_of_moves() {
    let world = world_of(SMALL);
    assert_eq!(world.judge_move(0, 0), MoveVerdict::Reject);
    assert_eq!(world.judge_move(1, 1), MoveVerdict::Commit);
    assert_eq!(
        world.judge_move(1, 2),
        MoveVerdict::CommitAndPickup(KeyDoorLink { key: (1, 2), door: (1, 4) })
    );
    assert_eq!(world.judge_move(1, 4), MoveVerdict::TryDoor((1, 4)));
    assert_eq!(world.judge_move(2, 3), MoveVerdict::Reject);
    assert_eq!(world.judge_move(4, 0), MoveVerdict::Reject);
    assert_eq!(world.judge_move(usize::MAX, usize::MAX), MoveVerdict::Reject);
    let open = world_of(b"#\\#\n");
    assert_eq!(open.judge_move(0, 1), MoveVerdict::Commit);
}

#[test]
fn move_onto_wall_is_rejected() {
    let mut world = world_of(SMALL);
    let mut player = Player::new('@', Position::at(1, 1));
    translate(&mut player, &mut world, MoveDirection::up());
    assert_eq!((player.row(), player.col()), (1, 1));
    assert_eq!((player.new_row(), player.new_col()), (0, 1));
    assert!(world.update_queue.is_empty());
    translate(&mut player, &mut world, MoveDirection::left());
    assert_eq!((player.row(), player.col()), (1, 1));
    assert_eq!((player.new_row(), player.new_col()), (1, 0));
    assert!(world.update_queue.is_empty());
    assert_eq!(world.update_world(&mut player), Ok(()));
    assert_eq!((player.row(), player.col()), (1, 1));
}

#[test]
fn move_onto_floor_is_committed() {
    let mut world = world_of(SMALL);
    let mut player = Player::new('@', Position::at(1, 1));
    translate(&mut player, &mut world, MoveDirection::down());
    assert_eq!((player.row(), player.col()), (2, 1));
    assert_eq!((player.new_row(), player.new_col()), (2, 1));
    assert!(world.update_queue.is_empty());
    translate(&mut player, &mut world, MoveDirection::right());
    assert_eq!((player.row(), player.col()), (2, 2));
    assert!(world.update_queue.is_empty());
}

#[test]
fn move_onto_treasure_is_rejected() {
    let mut world = world_of(SMALL);
    let mut player = Player::new('@', Position::at(2, 2));
    translate(&mut player, &mut world, MoveDirection::right());
    assert_eq!((player.row(), player.col()), (2, 2));
    assert!(world.update_queue.is_empty());
}

#[test]
fn move_off_the_map_is_rejected() {
    let mut world = world_of(b"...\n...\n");
    let mut player = Player::new('@', Position::at(0, 0));
    translate(&mut player, &mut world, MoveDirection::up());
    assert_eq!((player.row(), player.col()), (0, 0));
    translate(&mut player, &mut world, MoveDirection::left());
    assert_eq!((player.row(), player.col()), (0, 0));
    let mut player = Player::new('@', Position::at(2, 1));
    translate(&mut player, &mut world, MoveDirection::right());
    assert_eq!((player.row(), player.col()), (1, 2));
    translate(&mut player, &mut world, MoveDirection::down());
    assert_eq!((player.row(), player.col()), (1, 2));
    assert!(world.update_queue.is_empty());
}

#[test]
fn move_that_cannot_be_proposed_changes_nothing() {
    let mut world = world_of(SMALL);
    let mut player = Player::new('@', Position::at(i64::MAX, 1));
    translate(&mut player, &mut world, MoveDirection::right());
    assert_eq!(player.new_col(), player.col());
    assert_eq!(player.new_row(), 1);
    assert!(world.update_queue.is_empty());
}

#[test]
fn move_onto_key_picks_it_up() {
    let mut world = world_of(SMALL);
    let mut player = Player::new('@', Position::at(1, 1));
    let link = KeyDoorLink { key: (1, 2), door: (1, 4) };
    translate(&mut player, &mut world, MoveDirection::right());
    assert_eq!((player.row(), player.col()), (1, 2));
    assert_eq!(events(&world), vec![WorldUpdateEventType::KeyPickup(link)]);
    assert!(player.keyring.is_empty());
    assert_eq!(symbol(&world, 1, 2), 'K');

    assert_eq!(world.update_world(&mut player), Ok(()));
    assert!(world.update_queue.is_empty());
    assert_eq!(player.keyring, vec![link]);
    assert_eq!(symbol(&world, 1, 2), '.');
    let tile = world.tile_at(1, 2).unwrap();
    assert!(matches!(tile, Tile::Key(_)));
    assert_eq!(tile.get_properties().kdl, None);
    assert_eq!((player.row(), player.col()), (1, 2));

    translate(&mut player, &mut world, MoveDirection::left());
    translate(&mut player, &mut world, MoveDirection::right());
    assert_eq!((player.row(), player.col()), (1, 2));
    assert!(world.update_queue.is_empty());
    assert_eq!(player.keyring, vec![link]);
}

#[test]
fn locked_door_without_key_keeps_the_player_out() {
    let mut world = world_of(SMALL);
    let mut player = Player::new('@', Position::at(3, 1));
    translate(&mut player, &mut world, MoveDirection::right());
    assert_eq!((player.row(), player.col()), (1, 3));
    assert_eq!((player.new_row(), player.new_col()), (1, 4));
    assert_eq!(events(&world), vec![WorldUpdateEventType::TryOpenDoor((1, 4))]);
    assert_eq!(world.update_world(&mut player), Ok(()));
    assert!(world.update_queue.is_empty());
    assert_eq!((player.row(), player.col()), (1, 3));
    let door = world.tile_at(1, 4).unwrap();
    assert_eq!(door.get_state(), Some(&CommonState::locked()));
    assert_eq!(door.to_symbol(), '|');
}

#[test]
fn key_for_another_door_does_not_open() {
    let mut world = world_of(SMALL);
    let mut player = Player::new('@', Position::at(3, 1));
    player.add_key(KeyDoorLink { key: (1, 2), door: (4, 1) });
    translate(&mut player, &mut world, MoveDirection::right());
    assert_eq!(world.update_world(&mut player), Ok(()));
    assert_eq!((player.row(), player.col()), (1, 3));
    assert_eq!(player.keyring.len(), 1);
    assert_eq!(world.tile_at(1, 4).unwrap().get_state(), Some(&CommonState::locked()));
}

#[test]
fn locked_door_with_matching_key_opens() {
    let mut world = world_of(SMALL);
    let mut player = Player::new('@', Position::at(1, 1));
    translate(&mut player, &mut world, MoveDirection::right());
    assert_eq!(world.update_world(&mut player), Ok(()));
    translate(&mut player, &mut world, MoveDirection::right());
    assert_eq!(world.update_world(&mut player), Ok(()));
    assert_eq!((player.row(), player.col()), (1, 3));
    assert_eq!(player.keyring.len(), 1);

    translate(&mut player, &mut world, MoveDirection::right());
    assert_eq!((player.row(), player.col()), (1, 3));
    assert_eq!(events(&world), vec![WorldUpdateEventType::TryOpenDoor((1, 4))]);
    assert_eq!(world.update_world(&mut player), Ok(()));
    assert!(world.update_queue.is_empty());
    assert!(player.keyring.is_empty());
    let door = world.tile_at(1, 4).unwrap();
    assert_eq!(door.get_state(), Some(&CommonState::unlocked()));
    assert_eq!(door.to_symbol(), '\\');
    assert_eq!(door.get_properties().kdl, None);
    assert!(matches!(door, Tile::Door(_, _)));
    assert_eq!((player.row(), player.col()), (1, 4));

    translate(&mut player, &mut world, MoveDirection::left());
    translate(&mut player, &mut world, MoveDirection::right());
    assert_eq!((player.row(), player.col()), (1, 4));
    assert!(world.update_queue.is_empty());
    translate(&mut player, &mut world, MoveDirection::right());
    assert_eq!((player.row(), player.col()), (1, 5));
}

#[test]
fn explicit_pickup_next_to_a_chest() {
    let mut world = world_of(HALL);
    let mut player = Player::new('@', Position::at(5, 5));
    assert_eq!((player.row(), player.col()), (5, 5));
    let gold = player.gold_qty();
    pickup_explicit(&mut player, &mut world, ExplicitPickupType::TreasureChest);
    assert_eq!((player.row(), player.col()), (5, 5));
    assert_eq!(events(&world), vec![WorldUpdateEventType::PickupTreasure((5, 6))]);
    assert_eq!(world.update_world(&mut player), Ok(()));
    assert_eq!(player.gold_qty(), gold + 10);
    let chest = world.tile_at(5, 6).unwrap();
    assert_eq!(chest.get_state(), Some(&CommonState::collected()));
    assert_eq!(chest.to_symbol(), '0');
    assert!(chest.get_properties().treasure.is_none());

    pickup_explicit(&mut player, &mut world, ExplicitPickupType::TreasureChest);
    assert!(world.update_queue.is_empty());
    assert_eq!(world.update_world(&mut player), Ok(()));
    assert_eq!(player.gold_qty(), gold + 10);

    world.queue_update(WorldUpdate::new(WorldUpdateEventType::PickupTreasure((5, 6))));
    assert_eq!(world.update_world(&mut player), Ok(()));
    assert_eq!(player.gold_qty(), gold + 10);
    assert_eq!(
        world.tile_at(5, 6).unwrap().get_state(),
        Some(&CommonState::collected())
    );
}

#[test]
fn explicit_pickup_asks_for_all_chests_around_in_order() {
    let text = b".D.\nD.D\n.D.\n~T(0,1) = (1=1)\n~T(1,0) = (1=2)\n~T(1,2) = (1=4)\n~T(2,1) = (1=8)\n";
    let mut world = world_of(text);
    let mut player = Player::new('@', Position::at(1, 1));
    pickup_explicit(&mut player, &mut world, ExplicitPickupType::TreasureChest);
    assert_eq!(
        events(&world),
        vec![
            WorldUpdateEventType::PickupTreasure((0, 1)),
            WorldUpdateEventType::PickupTreasure((2, 1)),
            WorldUpdateEventType::PickupTreasure((1, 0)),
            WorldUpdateEventType::PickupTreasure((1, 2)),
        ]
    );
    assert_eq!(world.update_world(&mut player), Ok(()));
    assert_eq!(player.gold_qty(), 15);
}

#[test]
fn explicit_pickup_at_the_edges_finds_nothing_outside() {
    let text = b"D.\n..\n~T(0,0) = (1=1)\n";
    let mut world = world_of(text);
    let mut player = Player::new('@', Position::at(0, 0));
    pickup_explicit(&mut player, &mut world, ExplicitPickupType::TreasureChest);
    assert!(world.update_queue.is_empty());
    let mut player = Player::new('@', Position::at(1, 1));
    pickup_explicit(&mut player, &mut world, ExplicitPickupType::TreasureChest);
    assert!(world.update_queue.is_empty());
    let mut player = Player::new('@', Position::at(1, 0));
    pickup_explicit(&mut player, &mut world, ExplicitPickupType::TreasureChest);
    assert_eq!(events(&world), vec![WorldUpdateEventType::PickupTreasure((0, 0))]);
}

#[test]
fn collected_treasure_with_a_chest_hands_over_nothing() {
    let mut world = world_of(b".0\n~T(0,1) = (1=5)\n");
    let mut player = Player::new('@', Position::at(0, 0));
    pickup_explicit(&mut player, &mut world, ExplicitPickupType::TreasureChest);
    assert_eq!(events(&world), vec![WorldUpdateEventType::PickupTreasure((0, 1))]);
    assert_eq!(world.update_world(&mut player), Ok(()));
    assert_eq!(player.gold_qty(), 0);
    assert!(world.tile_at(0, 1).unwrap().get_properties().treasure.is_none());
}

#[test]
fn chest_with_several_kinds_is_summed_by_kind() {
    let mut world = world_of(b".D\n~T(0,1) = (1=10, 2=1, 1=5, 4=2)\n");
    let mut player = Player::new('@', Position::at(0, 0));
    pickup_explicit(&mut player, &mut world, ExplicitPickupType::TreasureChest);
    assert_eq!(world.update_world(&mut player), Ok(()));
    assert_eq!(
        player.inventory.items,
        vec![(TreasureType::Gold, 15), (TreasureType::Potion, 1), (TreasureType::Weapon, 2)]
    );
}

#[test]
fn chest_that_the_inventory_cannot_hold_is_an_error() {
    let mut world = world_of(b".D\n~T(0,1) = (1=10)\n");
    let mut player = Player::new('@', Position::at(0, 0));
    player.add_gold(u64::MAX - 9);
    world.queue_update(WorldUpdate::new(WorldUpdateEventType::PickupTreasure((0, 1))));
    world.queue_update(WorldUpdate::new(WorldUpdateEventType::Idle));
    assert_eq!(
        world.update_world(&mut player),
        Err(WorldUpdateError::QuantityOverflow { chest: (0, 1) })
    );
    assert_eq!(player.gold_qty(), u64::MAX - 9);
    assert_eq!(events(&world), vec![WorldUpdateEventType::Idle]);
    let chest = world.tile_at(0, 1).unwrap();
    assert_eq!(chest.get_state(), Some(&CommonState::uncollected()));
    assert_eq!(chest.to_symbol(), 'D');
    assert!(chest.get_properties().treasure.is_some());
}

#[test]
fn change_of_tile_state_fails_loudly() {
    let mut world = world_of(SMALL);
    let mut player = Player::new('@', Position::at(1, 1));
    let link = KeyDoorLink { key: (1, 2), door: (1, 4) };
    world.queue_update(WorldUpdate::new(WorldUpdateEventType::KeyPickup(link)));
    world.queue_update(WorldUpdate::new(WorldUpdateEventType::ChangeTileState(
        (1, 4),
        CommonState::unlocked(),
    )));
    assert_eq!(
        world.update_world(&mut player),
        Err(WorldUpdateError::UnimplementedEvent(UnimplementedEventError {
            coords: (1, 4),
            state: CommonState::unlocked(),
        }))
    );
    assert_eq!(events(&world), vec![WorldUpdateEventType::KeyPickup(link)]);
    assert!(player.keyring.is_empty());
    assert_eq!(world.tile_at(1, 4).unwrap().get_state(), Some(&CommonState::locked()));
    assert_eq!(world.update_world(&mut player), Ok(()));
    assert_eq!(player.keyring, vec![link]);
}

#[test]
fn key_pickup_leaves_the_queue_before_idle() {
    let mut world = world_of(SMALL);
    let link = KeyDoorLink { key: (1, 2), door: (1, 4) };
    world.queue_update(WorldUpdate::new(WorldUpdateEventType::Idle));
    world.queue_update(WorldUpdate::new(WorldUpdateEventType::KeyPickup(link)));
    assert_eq!(
        world.pop_update().map(|u| u.event_type),
        Some(WorldUpdateEventType::KeyPickup(link))
    );
    assert_eq!(world.pop_update().map(|u| u.event_type), Some(WorldUpdateEventType::Idle));
    assert_eq!(world.pop_update(), None);
}

#[test]
fn updates_leave_by_rank_and_then_by_age() {
    let mut world = WorldController::new();
    let link = KeyDoorLink { key: (1, 2), door: (1, 4) };
    let queued = vec![
        WorldUpdateEventType::Idle,
        WorldUpdateEventType::TryOpenDoor((1, 4)),
        WorldUpdateEventType::Idle,
        WorldUpdateEventType::PickupTreasure((2, 3)),
        WorldUpdateEventType::ChangeTileState((0, 0), CommonState::locked()),
        WorldUpdateEventType::KeyPickup(link),
        WorldUpdateEventType::ChangeTileState((1, 1), CommonState::unlocked()),
    ];
    for event in &queued {
        world.queue_update(WorldUpdate::with_no_payload(*event));
    }
    assert_eq!(events(&world), queued);
    let mut left = Vec::new();
    while let Some(update) = world.pop_update() {
        left.push(update.event_type);
    }
    assert_eq!(
        left,
        vec![
            WorldUpdateEventType::ChangeTileState((0, 0), CommonState::locked()),
            WorldUpdateEventType::ChangeTileState((1, 1), CommonState::unlocked()),
            WorldUpdateEventType::TryOpenDoor((1, 4)),
            WorldUpdateEventType::PickupTreasure((2, 3)),
            WorldUpdateEventType::KeyPickup(link),
            WorldUpdateEventType::Idle,
            WorldUpdateEventType::Idle,
        ]
    );
}

#[test]
fn ranks_and_order_of_updates() {
    let idle = WorldUpdate::new(WorldUpdateEventType::Idle);
    let change = WorldUpdate::new(WorldUpdateEventType::ChangeTileState((0, 0), CommonState::locked()));
    let pickup = WorldUpdate::new(WorldUpdateEventType::KeyPickup(KeyDoorLink {
        key: (0, 0),
        door: (1, 1),
    }));
    let door = WorldUpdate::new(WorldUpdateEventType::TryOpenDoor((1, 1)));
    let chest = WorldUpdate::new(WorldUpdateEventType::PickupTreasure((1, 1)));
    assert_eq!(idle.priority(), 0);
    assert_eq!(pickup.priority(), 1);
    assert_eq!(door.priority(), 1);
    assert_eq!(chest.priority(), 1);
    assert_eq!(change.priority(), 2);
    assert_eq!(change.cmp(&pickup), Ordering::Greater);
    assert_eq!(change.cmp(&idle), Ordering::Greater);
    assert_eq!(change.cmp(&change), Ordering::Equal);
    assert_eq!(idle.cmp(&pickup), Ordering::Less);
    assert_eq!(idle.cmp(&idle), Ordering::Equal);
    assert_eq!(pickup.cmp(&idle), Ordering::Greater);
    assert_eq!(pickup.cmp(&door), Ordering::Equal);
    assert_eq!(door.cmp(&chest), Ordering::Equal);
    assert_eq!(chest.cmp(&change), Ordering::Less);
    assert_eq!(idle.partial_cmp(&change), Some(Ordering::Less));
    assert_eq!(pickup.partial_cmp(&chest), Some(Ordering::Equal));
}

#[test]
fn updates_for_cells_off_the_map_or_of_another_variant_change_nothing() {
    let mut world = world_of(SMALL);
    let mut player = Player::new('@', Position::at(1, 1));
    player.add_key(KeyDoorLink { key: (1, 2), door: (0, 0) });
    player.add_key(KeyDoorLink { key: (1, 2), door: (9, 9) });
    let before: Vec<char> = (0..4).flat_map(|r| (0..7).map(move |c| (r, c))).map(|(r, c)| symbol(&world, r, c)).collect();
    for event in [
        WorldUpdateEventType::KeyPickup(KeyDoorLink { key: (9, 9), door: (1, 4) }),
        WorldUpdateEventType::KeyPickup(KeyDoorLink { key: (0, 0), door: (1, 4) }),
        WorldUpdateEventType::TryOpenDoor((0, 0)),
        WorldUpdateEventType::TryOpenDoor((9, 9)),
        WorldUpdateEventType::PickupTreasure((1, 4)),
        WorldUpdateEventType::PickupTreasure((1, 1)),
        WorldUpdateEventType::PickupTreasure((usize::MAX, 0)),
        WorldUpdateEventType::Idle,
    ] {
        world.queue_update(WorldUpdate::new(event));
    }
    assert_eq!(world.update_world(&mut player), Ok(()));
    assert!(world.update_queue.is_empty());
    assert_eq!(player.keyring.len(), 2);
    assert_eq!(player.gold_qty(), 0);
    assert_eq!((player.row(), player.col()), (1, 1));
    let after: Vec<char> = (0..4).flat_map(|r| (0..7).map(move |c| (r, c))).map(|(r, c)| symbol(&world, r, c)).collect();
    assert_eq!(before, after);
    assert_eq!(world.tile_at(1, 4).unwrap().get_state(), Some(&CommonState::locked()));
}

#[test]
fn updates_in_a_world_without_maps_change_nothing() {
    let mut world = WorldController::new();
    let mut player = Player::new('@', Position::at(1, 1));
    world.queue_update(WorldUpdate::new(WorldUpdateEventType::KeyPickup(KeyDoorLink {
        key: (0, 0),
        door: (0, 1),
    })));
    world.queue_update(WorldUpdate::new(WorldUpdateEventType::PickupTreasure((0, 0))));
    assert_eq!(world.update_world(&mut player), Ok(()));
    assert!(world.update_queue.is_empty());
    assert!(player.keyring.is_empty());
    translate(&mut player, &mut world, MoveDirection::right());
    assert_eq!((player.row(), player.col()), (1, 1));
    pickup_explicit(&mut player, &mut world, ExplicitPickupType::TreasureChest);
    assert!(world.update_queue.is_empty());
}

#[test]
fn apply_update_applies_one_update() {
    let mut world = world_of(SMALL);
    let mut player = Player::new('@', Position::at(1, 1));
    world.queue_update(WorldUpdate::new(WorldUpdateEventType::Idle));
    let link = KeyDoorLink { key: (1, 2), door: (1, 4) };
    assert_eq!(world.apply_update(&mut player, WorldUpdateEventType::KeyPickup(link)), Ok(()));
    assert_eq!(player.keyring, vec![link]);
    assert_eq!(events(&world), vec![WorldUpdateEventType::Idle]);
    assert_eq!(symbol(&world, 1, 2), '.');
}

#[test]
fn picture_shows_the_map_with_the_player() {
    let world = world_of(SMALL);
    let player = Player::new('@', Position::at(1, 1));
    let view = WorldView::new(&world, &player);
    let picture: Vec<String> = view.render().into_iter().map(|row| row.into_iter().collect()).collect();
    assert_eq!(picture, vec!["#######", "#@K.|.#", "#..D..#", "#######"]);
    let nowhere = Player::new('@', Position::at(40, 40));
    let view = WorldView::new(&world, &nowhere);
    let picture: Vec<String> = view.render().into_iter().map(|row| row.into_iter().collect()).collect();
    assert_eq!(picture, vec!["#######", "#.K.|.#", "#..D..#", "#######"]);
    let empty = WorldController::new();
    assert!(WorldView::new(&empty, &player).render().is_empty());
}

#[test]
fn centered_rectangle() {
    let screen = Area { x: 0, y: 0, width: 80, height: 24 };
    assert_eq!(centered_rect(10, 6, screen), Area { x: 35, y: 9, width: 10, height: 6 });
    assert_eq!(centered_rect(9, 5, screen), Area { x: 35, y: 9, width: 9, height: 5 });
    assert_eq!(centered_rect(100, 30, screen), Area { x: 0, y: 0, width: 80, height: 24 });
    let inner = Area { x: 3, y: 2, width: 20, height: 10 };
    assert_eq!(centered_rect(4, 4, inner), Area { x: 11, y: 5, width: 4, height: 4 });
    let edge = Area { x: 65000, y: 65000, width: 535, height: 535 };
    assert_eq!(centered_rect(1, 1, edge), Area { x: 65267, y: 65267, width: 1, height: 1 });
}

#[test]
fn a_turn_through_the_whole_small_map() {
    let mut world = world_of(SMALL);
    let mut player = Player::new('@', Position::at(1, 1));
    for _ in 0..3 {
        translate(&mut player, &mut world, MoveDirection::right());
        world.update_world(&mut player).unwrap();
    }
    assert_eq!((player.row(), player.col()), (1, 4));
    translate(&mut player, &mut world, MoveDirection::down());
    world.update_world(&mut player).unwrap();
    assert_eq!((player.row(), player.col()), (2, 4));
    pickup_explicit(&mut player, &mut world, ExplicitPickupType::TreasureChest);
    world.update_world(&mut player).unwrap();
    assert_eq!(player.gold_qty(), 10);
    assert!(player.keyring.is_empty());
    let view = WorldView::new(&world, &player);
    let picture: Vec<String> = view.render().into_iter().map(|row| row.into_iter().collect()).collect();
    assert_eq!(picture, vec!["#######", "#...\\.#", "#..0@.#", "#######"]);
}
