use dungeon_world::shared::traits::Moveable;
use dungeon_world::shared::traits::Positionable;
use dungeon_world::shared::treasure::TreasureCollectionVariant;
use dungeon_world::shared::treasure::TreasureType;
use dungeon_world::shared::KeyDoorLink;
use dungeon_world::shared::MoveDirection;
use dungeon_world::shared::Position;
use dungeon_world::shared::Transform;
use dungeon_world::Player;

#[test]
fn new_player_stands_on_its_position_with_no_gold() {
    let player = Player::new('@', Position::at(2, 1));
    assert_eq!(player.to_symbol(), '@');
    assert_eq!(player.row(), 1);
    assert_eq!(player.col(), 2);
    assert_eq!(player.new_row(), 1);
    assert_eq!(player.new_col(), 2);
    assert!(player.keyring.is_empty());
    assert_eq!(player.inventory.variant, TreasureCollectionVariant::PlayerInventory);
    assert_eq!(player.inventory.items, vec![(TreasureType::Gold, 0)]);
    assert_eq!(player.inventory.world_coords, None);
    assert!(player.is_wf());
    assert_eq!(player.gold_qty(), 0);
}

#[test]
fn add_gold_adds_to_the_gold() {
    let mut player = Player::new('@', Position::at(0, 0));
    player.add_gold(10);
    player.add_gold(5);
    assert_eq!(player.gold_qty(), 15);
    assert_eq!(player.inventory.items, vec![(TreasureType::Gold, 15)]);
}

#[test]
fn directions_give_their_matrices() {
    assert_eq!(
        MoveDirection::up().translate(),
        Transform { m11: 1, m12: 0, m13: 0, m21: 0, m22: 1, m23: -1, m31: 0, m32: 0, m33: 1 }
    );
    assert_eq!(
        MoveDirection::down().translate(),
        Transform { m11: 1, m12: 0, m13: 0, m21: 0, m22: 1, m23: 1, m31: 0, m32: 0, m33: 1 }
    );
    assert_eq!(
        MoveDirection::left().translate(),
        Transform { m11: 1, m12: 0, m13: -1, m21: 0, m22: 1, m23: 0, m31: 0, m32: 0, m33: 1 }
    );
    assert_eq!(
        MoveDirection::right().translate(),
        Transform { m11: 1, m12: 0, m13: 1, m21: 0, m22: 1, m23: 0, m31: 0, m32: 0, m33: 1 }
    );
}

#[test]
fn transform_applies_as_a_matrix_product() {
    let t = Transform { m11: 2, m12: 3, m13: 5, m21: -1, m22: 4, m23: 7, m31: 0, m32: 1, m33: 6 };
    let p = Position { x: 10, y: 20, z: 3 };
    assert!(t.can_apply(&p));
    assert_eq!(t.apply(&p), Position { x: 95, y: 91, z: 38 });
}

#[test]
fn move_shifts_a_point_of_scale_one() {
    let p = Position::at(4, 9);
    assert_eq!(MoveDirection::right().translate().apply(&p), Position { x: 5, y: 9, z: 1 });
    assert_eq!(MoveDirection::left().translate().apply(&p), Position { x: 3, y: 9, z: 1 });
    assert_eq!(MoveDirection::up().translate().apply(&p), Position { x: 4, y: 8, z: 1 });
    assert_eq!(MoveDirection::down().translate().apply(&p), Position { x: 4, y: 10, z: 1 });
}

#[test]
fn transform_that_leaves_the_range_cannot_be_applied() {
    let right = MoveDirection::right().translate();
    assert!(!right.can_apply(&Position::at(i64::MAX, 0)));
    assert!(right.can_apply(&Position::at(i64::MAX - 1, 0)));
    let up = MoveDirection::up().translate();
    assert!(!up.can_apply(&Position::at(0, i64::MIN)));
    assert!(up.can_apply(&Position::at(0, i64::MIN + 1)));
    let wide = Transform { m11: i64::MAX, m12: 0, m13: 0, m21: 0, m22: 1, m23: 0, m31: 0, m32: 0, m33: 1 };
    assert!(!wide.can_apply(&Position::at(2, 0)));
    assert!(wide.can_apply(&Position::at(1, 0)));
}

#[test]
fn translate_proposes_and_translate_into_commits() {
    let mut player = Player::new('@', Position::at(2, 1));
    assert!(player.can_translate(MoveDirection::down()));
    player.translate(MoveDirection::down());
    assert_eq!((player.row(), player.col()), (1, 2));
    assert_eq!((player.new_row(), player.new_col()), (2, 2));
    player.translate(MoveDirection::right());
    assert_eq!((player.row(), player.col()), (1, 2));
    assert_eq!((player.new_row(), player.new_col()), (1, 3));
    player.translate_into();
    assert_eq!((player.row(), player.col()), (1, 3));
    assert_eq!((player.new_row(), player.new_col()), (1, 3));
}

#[test]
fn player_at_the_edge_of_the_range_cannot_propose() {
    let player = Player::new('@', Position::at(i64::MAX, 0));
    assert!(!player.can_translate(MoveDirection::right()));
    assert!(player.can_translate(MoveDirection::left()));
}

#[test]
fn proposal_before_the_first_row_wraps_to_no_cell() {
    let mut player = Player::new('@', Position::at(0, 0));
    player.translate(MoveDirection::up());
    assert_eq!(player.new_row(), usize::MAX);
    assert_eq!(player.new_col(), 0);
}

#[test]
fn keys_go_on_the_keyring_and_the_first_match_comes_off() {
    let mut player = Player::new('@', Position::at(0, 0));
    let a = KeyDoorLink { key: (1, 1), door: (5, 5) };
    let b = KeyDoorLink { key: (2, 2), door: (7, 7) };
    let c = KeyDoorLink { key: (3, 3), door: (5, 5) };
    player.add_key(a);
    player.add_key(b);
    player.add_key(c);
    assert_eq!(player.keyring, vec![a, b, c]);
    assert_eq!(player.take_key_for((9, 9)), None);
    assert_eq!(player.keyring, vec![a, b, c]);
    assert_eq!(player.take_key_for((5, 5)), Some(a));
    assert_eq!(player.keyring, vec![b, c]);
    assert_eq!(player.take_key_for((5, 5)), Some(c));
    assert_eq!(player.keyring, vec![b]);
}

#[test]
fn receive_sums_by_kind() {
    let mut player = Player::new('@', Position::at(0, 0));
    let added = vec![
        (TreasureType::Gold, 10),
        (TreasureType::Potion, 2),
        (TreasureType::Gold, 5),
        (TreasureType::Potion, 1),
        (TreasureType::Weapon, 1),
    ];
    assert!(player.receive(&added));
    assert_eq!(
        player.inventory.items,
        vec![(TreasureType::Gold, 15), (TreasureType::Potion, 3), (TreasureType::Weapon, 1)]
    );
    assert_eq!(player.gold_qty(), 15);
}

#[test]
fn receive_refuses_a_sum_out_of_range_and_changes_nothing() {
    let mut player = Player::new('@', Position::at(0, 0));
    player.add_gold(u64::MAX - 3);
    let added = vec![(TreasureType::Potion, 1), (TreasureType::Gold, 4)];
    assert!(!player.receive(&added));
    assert_eq!(player.inventory.items, vec![(TreasureType::Gold, u64::MAX - 3)]);
    assert!(player.receive(&vec![(TreasureType::Gold, 3)]));
    assert_eq!(player.gold_qty(), u64::MAX);
}

#[test]
fn clone_of_a_player_is_equal() {
    let mut player = Player::new('@', Position::at(3, 4));
    player.add_key(KeyDoorLink { key: (1, 1), door: (2, 2) });
    player.add_gold(7);
    player.translate(MoveDirection::left());
    let copy = player.clone();
    assert_eq!(copy, player);
    assert_eq!(copy.keyring, player.keyring);
    assert_eq!(copy.gold_qty(), 7);
    assert_eq!((copy.new_row(), copy.new_col()), (4, 2));
}

#[test]
fn directions_are_four_different_values() {
    assert_eq!(MoveDirection::up(), MoveDirection::up());
    assert_ne!(MoveDirection::up(), MoveDirection::down());
    assert_ne!(MoveDirection::left(), MoveDirection::right());
    assert_ne!(MoveDirection::up(), MoveDirection::left());
}
