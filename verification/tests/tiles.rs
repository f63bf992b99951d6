use dungeon_world::shared::traits::Positionable;
use dungeon_world::shared::CommonState;
use dungeon_world::shared::KeyDisplay;
use dungeon_world::shared::KeyDoorLink;
use dungeon_world::shared::Tile;
use dungeon_world::shared::TileProperties;

#[test]
fn every_symbol_but_the_key_is_drawn_as_written() {
    for c in ['|', '\\', '.', 'D', '0', '#'] {
        assert!(Tile::is_symbol(c));
        assert_eq!(Tile::from_symbol(c, KeyDisplay::Revealed).to_symbol(), c);
        assert_eq!(Tile::from_symbol(c, KeyDisplay::Hidden).to_symbol(), c);
    }
}

#[test]
fn revealed_key_is_drawn_as_key() {
    assert_eq!(Tile::from_symbol('K', KeyDisplay::Revealed).to_symbol(), 'K');
}

#[test]
fn hidden_key_is_drawn_as_floor() {
    let tile = Tile::from_symbol('K', KeyDisplay::Hidden);
    assert_eq!(tile.to_symbol(), '.');
    assert!(matches!(tile, Tile::Key(_)));
}

#[test]
fn other_characters_are_no_symbols() {
    for c in ['?', ' ', 'k', 'd', '~', '1', 'é'] {
        assert!(!Tile::is_symbol(c));
    }
}

#[test]
fn symbols_give_variants_and_states() {
    assert!(matches!(Tile::from_symbol('|', KeyDisplay::Revealed), Tile::Door(_, s) if s == CommonState::locked()));
    assert!(matches!(Tile::from_symbol('\\', KeyDisplay::Revealed), Tile::Door(_, s) if s == CommonState::unlocked()));
    assert!(matches!(Tile::from_symbol('D', KeyDisplay::Revealed), Tile::Treasure(_, s) if s == CommonState::uncollected()));
    assert!(matches!(Tile::from_symbol('0', KeyDisplay::Revealed), Tile::Treasure(_, s) if s == CommonState::collected()));
    assert!(matches!(Tile::from_symbol('.', KeyDisplay::Revealed), Tile::Floor(_)));
    assert!(matches!(Tile::from_symbol('#', KeyDisplay::Revealed), Tile::Wall(_)));
}

#[test]
fn common_state_identifiers() {
    assert_eq!(CommonState::unlocked().to_id(), 1);
    assert_eq!(CommonState::collected().to_id(), 1);
    assert_eq!(CommonState::locked().to_id(), 2);
    assert_eq!(CommonState::uncollected().to_id(), 2);
    assert_eq!(CommonState::locked(), CommonState::uncollected());
    assert_ne!(CommonState::locked(), CommonState::unlocked());
}

#[test]
fn default_tile_is_an_unset_floor() {
    let tile = Tile::default();
    assert!(matches!(tile, Tile::Floor(_)));
    let props = tile.get_properties();
    assert_eq!(props.row, 0);
    assert_eq!(props.col, 0);
    assert_eq!(props.world_coordinates, (0, 0));
    assert_eq!(props.draw_character, '?');
    assert!(props.treasure.is_none());
    assert!(props.kdl.is_none());
    assert_eq!(*props, TileProperties::default());
}

#[test]
fn state_of_stateless_tiles_is_none_and_stays() {
    for c in ['.', 'K', '#'] {
        let mut tile = Tile::from_symbol(c, KeyDisplay::Revealed);
        assert!(tile.get_state().is_none());
        let before = tile.clone();
        tile.change_state(CommonState::unlocked());
        assert!(tile.get_state().is_none());
        assert_eq!(tile, before);
    }
}

#[test]
fn change_state_sets_the_state_of_doors_and_treasures() {
    let mut door = Tile::from_symbol('|', KeyDisplay::Revealed);
    assert_eq!(door.get_state(), Some(&CommonState::locked()));
    door.change_state(CommonState::unlocked());
    assert_eq!(door.get_state(), Some(&CommonState::unlocked()));
    assert_eq!(door.to_symbol(), '|');

    let mut chest = Tile::from_symbol('D', KeyDisplay::Revealed);
    chest.change_state(CommonState::collected());
    assert_eq!(chest.get_state(), Some(&CommonState::collected()));
}

#[test]
fn set_position_and_link_door() {
    let mut tile = Tile::from_symbol('K', KeyDisplay::Revealed);
    tile.get_properties_mut().set_position((3, 7));
    let link = KeyDoorLink { key: (3, 7), door: (1, 2) };
    tile.get_properties_mut().link_door(link);
    assert_eq!(tile.row(), 3);
    assert_eq!(tile.col(), 7);
    assert_eq!(tile.get_properties().world_coordinates, (3, 7));
    assert_eq!(tile.get_properties().kdl, Some(link));
    assert_eq!(tile.to_symbol(), 'K');
    assert!(matches!(tile, Tile::Key(_)));
}

#[test]
fn clone_of_a_tile_is_equal() {
    let mut tile = Tile::from_symbol('D', KeyDisplay::Revealed);
    tile.get_properties_mut().set_position((2, 2));
    assert_eq!(tile.clone(), tile);
}
