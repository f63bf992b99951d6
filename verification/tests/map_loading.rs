use dungeon_world::shared::treasure::TreasureCollectionVariant;
use dungeon_world::shared::treasure::TreasureType;
use dungeon_world::shared::CommonState;
use dungeon_world::shared::KeyDisplay;
use dungeon_world::shared::KeyDoorLink;
use dungeon_world::shared::Tile;
use dungeon_world::world::map_text::body_length;
use dungeon_world::world::map_text::extract_map_lines;
use dungeon_world::world::map_text::find_malformed;
use dungeon_world::world::map_text::parse_chest;
use dungeon_world::world::map_text::parse_key_door_links;
use dungeon_world::world::map_text::parse_link;
use dungeon_world::world::map_text::parse_treasure_chests;
use dungeon_world::world::map_text::split_lines;
use dungeon_world::world::MapFormatError;
use dungeon_world::world::MapLoadError;
use dungeon_world::world::MapValidationError;
use dungeon_world::world::WorldMap;

const SMALL: &[u8] = b"#######\n#.K.|.#\n#..D..#\n#######\n~K(1,2) = D(1,4)\n~T(2,3) = (1 = 10)\n";

fn load(text: &[u8]) -> Result<WorldMap, MapLoadError> {
    WorldMap::from_bytes(text, 0, KeyDisplay::Revealed)
}

fn error_of(text: &[u8]) -> MapLoadError {
    match load(text) {
        Ok(_) => panic!("the text describes a map"),
        Err(e) => e,
    }
}

#[test]
fn lines_end_with_line_feed_or_carriage_return_and_line_feed() {
    assert_eq!(split_lines(b""), Vec::<Vec<u8>>::new());
    assert_eq!(split_lines(b"ab"), vec![b"ab".to_vec()]);
    assert_eq!(split_lines(b"ab\n"), vec![b"ab".to_vec()]);
    assert_eq!(split_lines(b"ab\ncd"), vec![b"ab".to_vec(), b"cd".to_vec()]);
    assert_eq!(split_lines(b"ab\r\ncd\r\n"), vec![b"ab".to_vec(), b"cd".to_vec()]);
    assert_eq!(split_lines(b"\n\nx"), vec![b"".to_vec(), b"".to_vec(), b"x".to_vec()]);
    assert_eq!(split_lines(b"ab\r"), vec![b"ab\r".to_vec()]);
    assert_eq!(split_lines(b"a\rb\n"), vec![b"a\rb".to_vec()]);
    assert_eq!(split_lines(b"\r\n"), vec![b"".to_vec()]);
}

#[test]
fn lines_agree_with_the_lines_of_a_string() {
    for text in ["", "a", "a\n", "a\nb", "a\r\nb\r\n", "\n", "\r\n\r\n", "a\r", "ab\n\ncd\n", "~x\n#\n"] {
        let expected: Vec<Vec<u8>> = text.lines().map(|l| l.as_bytes().to_vec()).collect();
        assert_eq!(split_lines(text.as_bytes()), expected);
    }
}

#[test]
fn body_ends_at_the_first_directive_line() {
    let lines = split_lines(SMALL);
    assert_eq!(lines.len(), 6);
    assert_eq!(body_length(&lines), 4);
    let body = extract_map_lines(&lines);
    assert_eq!(
        body,
        vec![
            (0, b"#######".to_vec()),
            (1, b"#.K.|.#".to_vec()),
            (2, b"#..D..#".to_vec()),
            (3, b"#######".to_vec()),
        ]
    );
    assert_eq!(body_length(&split_lines(b"##\n##\n")), 2);
    assert_eq!(body_length(&split_lines(b"~K(0,0) = D(0,1)\n##\n")), 0);
    assert_eq!(body_length(&split_lines(b"")), 0);
}

#[test]
fn key_links_are_read() {
    assert_eq!(
        parse_link(b"~K(1,2) = D(1,4)"),
        Some(KeyDoorLink { key: (1, 2), door: (1, 4) })
    );
    assert_eq!(
        parse_link(b"~K(007,12) = D(0,345)"),
        Some(KeyDoorLink { key: (7, 12), door: (0, 345) })
    );
    for bad in [
        &b""[..],
        b"~",
        b"~K",
        b"~K(1,2)",
        b"~K(1,2) = D(1,4",
        b"~K(1,2) = D(1,4) ",
        b" ~K(1,2) = D(1,4)",
        b"~K(1,2)= D(1,4)",
        b"~K(1,2) =D(1,4)",
        b"~K(1, 2) = D(1,4)",
        b"~K(,2) = D(1,4)",
        b"~K(1,2) = D(1,)",
        b"~K(-1,2) = D(1,4)",
        b"~K(1,2) = K(1,4)",
        b"~k(1,2) = D(1,4)",
        b"~T(1,2) = (1=1)",
        b"~K(1,2) = D(1,4)x",
        b"~K(99999999999999999999999,2) = D(1,4)",
    ] {
        assert_eq!(parse_link(bad), None);
    }
}

#[test]
fn key_link_numbers_reach_the_last_index() {
    let text = format!("~K({},0) = D(0,{})", usize::MAX, usize::MAX);
    assert_eq!(
        parse_link(text.as_bytes()),
        Some(KeyDoorLink { key: (usize::MAX, 0), door: (0, usize::MAX) })
    );
    let text = format!("~K({}0,0) = D(0,0)", usize::MAX);
    assert_eq!(parse_link(text.as_bytes()), None);
}

#[test]
fn chests_are_read_with_either_form_of_item() {
    let spaced = parse_chest(b"~T(2,3) = (1 = 10)").unwrap();
    assert_eq!(spaced.variant, TreasureCollectionVariant::TreasureChest);
    assert_eq!(spaced.world_coords, Some((2, 3)));
    assert_eq!(spaced.items, vec![(TreasureType::Gold, 10)]);
    let bare = parse_chest(b"~T(2,3) = (1=10)").unwrap();
    assert_eq!(bare, spaced);
    let many = parse_chest(b"~T(5,6) = (1=10, 2 = 3, 4=0, 1=7)").unwrap();
    assert_eq!(
        many.items,
        vec![
            (TreasureType::Gold, 10),
            (TreasureType::Potion, 3),
            (TreasureType::Weapon, 0),
            (TreasureType::Gold, 7),
        ]
    );
    assert_eq!(many.world_coords, Some((5, 6)));
}

#[test]
fn chest_quantities_reach_the_greatest_quantity() {
    let text = format!("~T(0,0) = (1={})", u64::MAX);
    assert_eq!(parse_chest(text.as_bytes()).unwrap().items, vec![(TreasureType::Gold, u64::MAX)]);
    let text = format!("~T(0,0) = (1={}0)", u64::MAX);
    assert!(parse_chest(text.as_bytes()).is_none());
}

#[test]
fn malformed_chests_are_refused() {
    for bad in [
        &b"~T(2,3) = ()"[..],
        b"~T(2,3) = (1)",
        b"~T(2,3) = (1=)",
        b"~T(2,3) = (=1)",
        b"~T(2,3) = (1 =10)",
        b"~T(2,3) = (1= 10)",
        b"~T(2,3) = (1  =  10)",
        b"~T(2,3) = (1=10,2=3)",
        b"~T(2,3) = (1=10, )",
        b"~T(2,3) = (1=10, 2=3",
        b"~T(2,3) = (0=10)",
        b"~T(2,3) = (5=10)",
        b"~T(2,3) = (1=10) ",
        b"~T(2,3) (1=10)",
        b"~T(2,3) = D(1,4)",
        b"~K(1,2) = D(1,4)",
    ] {
        assert!(parse_chest(bad).is_none());
    }
}

#[test]
fn links_and_chests_of_the_directive_block_are_collected_in_order() {
    let text = b"#K#\n~T(9,9) = (2=1)\n~K(0,1) = D(4,4)\nnoise\n~K(3,3) = D(5,5)\n~T(1,1) = (1=2)\n";
    let lines = split_lines(text);
    assert_eq!(
        parse_key_door_links(&lines),
        vec![
            KeyDoorLink { key: (0, 1), door: (4, 4) },
            KeyDoorLink { key: (3, 3), door: (5, 5) },
        ]
    );
    let chests = parse_treasure_chests(&lines);
    assert_eq!(chests.len(), 2);
    assert_eq!(chests[0].world_coords, Some((9, 9)));
    assert_eq!(chests[0].items, vec![(TreasureType::Potion, 1)]);
    assert_eq!(chests[1].world_coords, Some((1, 1)));
    assert_eq!(find_malformed(&lines), Some(3));
    assert_eq!(find_malformed(&split_lines(SMALL)), None);
    assert_eq!(find_malformed(&split_lines(b"###\n")), None);
}

#[test]
fn map_with_equal_counts_and_resolved_links_loads() {
    let map = WorldMap::from_bytes(SMALL, 3, KeyDisplay::Revealed).unwrap();
    assert_eq!(map.id, 3);
    assert_eq!(map.rows(), 4);
    assert_eq!(map.cols(), 7);
    let expected = ["#######", "#.K.|.#", "#..D..#", "#######"];
    for (r, line) in expected.iter().enumerate() {
        for (c, symbol) in line.chars().enumerate() {
            let tile = map.tile(r, c).unwrap();
            assert_eq!(tile.to_symbol(), symbol);
            assert_eq!(tile.get_properties().world_coordinates, (r, c));
            assert_eq!(tile.get_properties().row, r);
            assert_eq!(tile.get_properties().col, c);
        }
    }
    let key = map.tile(1, 2).unwrap();
    assert!(matches!(key, Tile::Key(_)));
    assert_eq!(key.get_properties().kdl, Some(KeyDoorLink { key: (1, 2), door: (1, 4) }));
    let door = map.tile(1, 4).unwrap();
    assert_eq!(door.get_state(), Some(&CommonState::locked()));
    assert_eq!(door.get_properties().kdl, None);
    let chest = map.tile(2, 3).unwrap();
    assert_eq!(chest.get_state(), Some(&CommonState::uncollected()));
    let payload = chest.get_properties().treasure.as_ref().unwrap();
    assert_eq!(payload.world_coords, Some((2, 3)));
    assert_eq!(payload.items, vec![(TreasureType::Gold, 10)]);
    assert!(map.tile(1, 1).unwrap().get_properties().treasure.is_none());
    assert!(map.tile(4, 0).is_none());
    assert!(map.tile(0, 7).is_none());
    assert!(map.tile(usize::MAX, 0).is_none());
}

#[test]
fn hidden_keys_are_drawn_as_floor_but_stay_keys() {
    let map = WorldMap::from_bytes(SMALL, 0, KeyDisplay::Hidden).unwrap();
    let key = map.tile(1, 2).unwrap();
    assert!(matches!(key, Tile::Key(_)));
    assert_eq!(key.to_symbol(), '.');
    assert_eq!(key.get_properties().kdl, Some(KeyDoorLink { key: (1, 2), door: (1, 4) }));
}

#[test]
fn two_locked_doors_and_one_key_fail() {
    let text = b"#|K|#\n~K(0,2) = D(0,1)\n";
    assert_eq!(error_of(text), MapLoadError::Validation(MapValidationError::TooManyLockedDoors));
    assert_eq!(
        error_of(text).describe(),
        "There are too many locked doors compared to the number of keys."
    );
}

#[test]
fn two_keys_and_one_locked_door_fail() {
    let text = b"#K|K#\n~K(0,1) = D(0,2)\n~K(0,3) = D(0,2)\n";
    assert_eq!(error_of(text), MapLoadError::Validation(MapValidationError::TooManyKeys));
    assert_eq!(
        error_of(text).describe(),
        "There are too many keys compared to the number of locked doors."
    );
}

#[test]
fn unlocked_doors_and_collected_treasures_do_not_count_as_locked() {
    let text = b"#\\.0#\n~T(0,3) = (1=1)\n";
    let map = load(text).unwrap();
    assert_eq!(map.tile(0, 1).unwrap().get_state(), Some(&CommonState::unlocked()));
    assert_eq!(map.tile(0, 3).unwrap().get_state(), Some(&CommonState::collected()));
    assert!(map.tile(0, 3).unwrap().get_properties().treasure.is_some());
}

#[test]
fn key_without_link_fails() {
    assert_eq!(
        error_of(b"#K|#\n~K(0,2) = D(0,2)\n"),
        MapLoadError::Validation(MapValidationError::MissingKeyLink { row: 0, col: 1 })
    );
    assert_eq!(
        error_of(b"#K|#\n"),
        MapLoadError::Validation(MapValidationError::MissingKeyLink { row: 0, col: 1 })
    );
}

#[test]
fn treasure_without_chest_fails() {
    assert_eq!(
        error_of(b"##\n#D\n~T(1,0) = (1=1)\n"),
        MapLoadError::Validation(MapValidationError::MissingChest { row: 1, col: 1 })
    );
    assert_eq!(
        error_of(b"0"),
        MapLoadError::Validation(MapValidationError::MissingChest { row: 0, col: 0 })
    );
}

#[test]
fn unrecognized_tile_fails() {
    assert_eq!(
        error_of(b"##\n#x\n"),
        MapLoadError::Format(MapFormatError::UnrecognizedTile { row: 1, col: 1, symbol: b'x' })
    );
    assert_eq!(
        error_of(b"# #"),
        MapLoadError::Format(MapFormatError::UnrecognizedTile { row: 0, col: 1, symbol: b' ' })
    );
    assert_eq!(
        error_of(&[b'#', 0xC3, 0xA9]),
        MapLoadError::Format(MapFormatError::UnrecognizedTile { row: 0, col: 1, symbol: 0xC3 })
    );
    assert_eq!(
        error_of(b"##\r"),
        MapLoadError::Format(MapFormatError::UnrecognizedTile { row: 0, col: 2, symbol: b'\r' })
    );
}

#[test]
fn malformed_directive_fails() {
    assert_eq!(
        error_of(b"###\n~K(1,2) = D(1,4)\n~oops\n"),
        MapLoadError::Format(MapFormatError::MalformedDirective { line: 2 })
    );
    assert_eq!(
        error_of(b"###\n~\n"),
        MapLoadError::Format(MapFormatError::MalformedDirective { line: 1 })
    );
    assert_eq!(
        error_of(b"###\n~K(0,0) = D(0,0)\n###\n"),
        MapLoadError::Format(MapFormatError::MalformedDirective { line: 2 })
    );
    assert_eq!(
        error_of(b"###\n~K(0,0) = D(0,0)\n\n"),
        MapLoadError::Format(MapFormatError::MalformedDirective { line: 2 })
    );
    assert_eq!(
        error_of(b"###\n~T(0,0) = (7=1)\n"),
        MapLoadError::Format(MapFormatError::MalformedDirective { line: 1 })
    );
}

#[test]
fn first_error_in_reading_order_is_reported() {
    assert_eq!(
        error_of(b"#K\nx\n~bad\n"),
        MapLoadError::Format(MapFormatError::MalformedDirective { line: 2 })
    );
    assert_eq!(
        error_of(b"#K\nx\n"),
        MapLoadError::Validation(MapValidationError::MissingKeyLink { row: 0, col: 1 })
    );
    assert_eq!(
        error_of(b"#x\nK\n"),
        MapLoadError::Format(MapFormatError::UnrecognizedTile { row: 0, col: 1, symbol: b'x' })
    );
    assert_eq!(
        error_of(b"||\n#x\n"),
        MapLoadError::Format(MapFormatError::UnrecognizedTile { row: 1, col: 1, symbol: b'x' })
    );
}

#[test]
fn first_matching_link_and_chest_are_attached() {
    let text = b"K|D\n~K(0,0) = D(0,1)\n~K(0,0) = D(9,9)\n~T(0,2) = (1=1)\n~T(0,2) = (1=2)\n";
    let map = load(text).unwrap();
    assert_eq!(
        map.tile(0, 0).unwrap().get_properties().kdl,
        Some(KeyDoorLink { key: (0, 0), door: (0, 1) })
    );
    assert_eq!(
        map.tile(0, 2).unwrap().get_properties().treasure.as_ref().unwrap().items,
        vec![(TreasureType::Gold, 1)]
    );
}

#[test]
fn empty_text_is_an_empty_map() {
    let map = load(b"").unwrap();
    assert_eq!(map.rows(), 0);
    assert_eq!(map.cols(), 0);
    assert!(map.tile(0, 0).is_none());
    let map = load(b"\n\n").unwrap();
    assert_eq!(map.rows(), 0);
    assert_eq!(map.cols(), 0);
}

#[test]
fn shorter_rows_end_in_unset_tiles() {
    let map = load(b"###\n#\n##\n").unwrap();
    assert_eq!(map.rows(), 3);
    assert_eq!(map.cols(), 3);
    assert_eq!(map.tile(1, 0).unwrap().to_symbol(), '#');
    assert_eq!(*map.tile(1, 1).unwrap(), Tile::default());
    assert_eq!(*map.tile(1, 2).unwrap(), Tile::default());
    assert_eq!(*map.tile(2, 2).unwrap(), Tile::default());
    assert_eq!(map.tile(2, 1).unwrap().get_properties().world_coordinates, (2, 1));
}

#[test]
fn carriage_returns_before_line_feeds_are_no_tiles() {
    let map = load(b"#.#\r\n#K|\r\n~K(1,1) = D(1,2)\r\n").unwrap();
    assert_eq!(map.rows(), 2);
    assert_eq!(map.cols(), 3);
    assert_eq!(map.tile(1, 2).unwrap().to_symbol(), '|');
}

#[test]
fn tile_mut_changes_one_tile() {
    let mut map = load(SMALL).unwrap();
    {
        let tile = map.tile_mut(1, 1).unwrap();
        tile.get_properties_mut().draw_character = '!';
    }
    assert_eq!(map.tile(1, 1).unwrap().to_symbol(), '!');
    assert_eq!(map.tile(1, 0).unwrap().to_symbol(), '#');
    assert_eq!(map.tile(1, 2).unwrap().to_symbol(), 'K');
    assert_eq!(map.tile(0, 1).unwrap().to_symbol(), '#');
    assert_eq!(map.tile(2, 1).unwrap().to_symbol(), '.');
    assert!(map.tile_mut(4, 0).is_none());
    assert!(map.tile_mut(0, 7).is_none());
}
