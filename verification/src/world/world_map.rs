//! A map: the grid of its tiles, and how it is read from text.

use vstd::prelude::*;

use crate::shared::search::first_match;
use crate::shared::search::lemma_first_index_is;
use crate::shared::tile::is_tile_symbol;
use crate::shared::tile::symbol_tile;
use crate::shared::tile::KEY_SYMBOL;
use crate::shared::tile::LOCKED_DOOR_SYMBOL;
use crate::shared::treasure::TreasureCollection;
use crate::shared::treasure::TreasureCollectionVariant;
use crate::shared::treasure::TreasureCollectionView;
use crate::shared::KeyDisplay;
use crate::shared::KeyDoorLink;
use crate::shared::Tile;
use crate::shared::TileKind;
use crate::shared::TilePropertiesView;
use crate::shared::TileView;
use crate::shared::WorldCoordinates;
use crate::world::errors::MapFormatError;
use crate::world::errors::MapLoadError;
use crate::world::errors::MapValidationError;
use crate::world::map_text::body_len;
use crate::world::map_text::body_lines;
use crate::world::map_text::chest_views;
use crate::world::map_text::chests_in;
use crate::world::map_text::directive_lines;
use crate::world::map_text::extract_map_lines;
use crate::world::map_text::find_malformed;
use crate::world::map_text::first_malformed;
use crate::world::map_text::links_in;
use crate::world::map_text::parse_key_door_links;
use crate::world::map_text::parse_treasure_chests;
use crate::world::map_text::split_lines;
use crate::world::map_text::text_lines;
use crate::world::theorems::theorem_loaded_map_is_sound;
use crate::world::tile_grid::grid_cell_mut;
use crate::world::tile_grid::grid_cells;
use crate::world::tile_grid::grid_cols;
use crate::world::tile_grid::grid_get;
use crate::world::tile_grid::grid_rows;
use crate::world::tile_grid::new_grid;

verus! {

/// A map: its number among the maps of a world, and the grid of its tiles.
pub struct WorldMap {
    pub id: usize,
    pub grid: grid::Grid<Tile>,
}

/// A map as a mathematical value: its number, and its tiles row by row.
pub struct MapView {
    pub id: usize,
    pub cells: Seq<Seq<TileView>>,
}

impl View for WorldMap {
    type V = MapView;

    open spec fn view(&self) -> MapView {
        MapView { id: self.id, cells: grid_cells(self.grid) }
    }
}

/// The number of rows of a grid of tiles.
pub open spec fn rows_in(cells: Seq<Seq<TileView>>) -> nat {
    cells.len()
}

/// The number of columns of a grid of tiles: the length of its first row,
/// and 0 where it has none.
pub open spec fn cols_in(cells: Seq<Seq<TileView>>) -> nat {
    if cells.len() > 0 {
        cells[0].len()
    } else {
        0
    }
}

/// Whether all rows have one length.
pub open spec fn rectangular(cells: Seq<Seq<TileView>>) -> bool {
    forall|r: int| 0 <= r < cells.len() ==> (#[trigger] cells[r]).len() == cols_in(cells)
}

/// The tile on the cell `at`, if the grid has that cell.
pub open spec fn tile_on(cells: Seq<Seq<TileView>>, at: WorldCoordinates) -> Option<TileView> {
    if at.0 < cells.len() && at.1 < cells[at.0 as int].len() {
        Some(cells[at.0 as int][at.1 as int])
    } else {
        None
    }
}

/// The grid with the tile `tile` on the cell `at`.
pub open spec fn with_tile(cells: Seq<Seq<TileView>>, at: WorldCoordinates, tile: TileView) -> Seq<
    Seq<TileView>,
> {
    cells.update(at.0 as int, cells[at.0 as int].update(at.1 as int, tile))
}

/// Whether the tiles know where they stand: every tile but a floor tile
/// holds the coordinates of its cell, a key link on a key tile starts at
/// that tile, and what a tile holds as its chest is a chest that stands on
/// that tile.
pub open spec fn anchored(cells: Seq<Seq<TileView>>) -> bool {
    forall|r: int, c: int|
        0 <= r < cells.len() && 0 <= c < cells[r].len() ==> {
            let tile = #[trigger] cells[r][c];
            &&& tile.kind != TileKind::Floor ==> tile.props.world_coordinates == (
                r as usize,
                c as usize,
            )
            &&& tile.kind == TileKind::Key ==> (tile.props.kdl matches Some(link) ==> link.key == (
                r as usize,
                c as usize,
            ))
            &&& tile.props.treasure matches Some(chest) ==> chest.world_coords == Some(
                (r as usize, c as usize),
            ) && chest.variant == TreasureCollectionVariant::TreasureChest
        }
}

impl MapView {
    /// The number of rows.
    pub open spec fn rows(self) -> nat {
        rows_in(self.cells)
    }

    /// The number of columns.
    pub open spec fn cols(self) -> nat {
        cols_in(self.cells)
    }

    /// The tile on the cell `at`, if the map has that cell.
    pub open spec fn tile(self, at: WorldCoordinates) -> Option<TileView> {
        tile_on(self.cells, at)
    }

    /// The map is a rectangle whose tiles know where they stand.
    pub open spec fn wf(self) -> bool {
        rectangular(self.cells) && anchored(self.cells)
    }
}

/// What the directives of a map provide for its tiles, and how keys are
/// drawn.
pub struct Legend {
    pub links: Seq<KeyDoorLink>,
    pub chests: Seq<TreasureCollectionView>,
    pub display: KeyDisplay,
}

/// The first link that starts at the key on `at`.
pub open spec fn link_for(links: Seq<KeyDoorLink>, at: WorldCoordinates) -> Option<KeyDoorLink> {
    first_match(links, starts_at(at))
}

/// Whether a link starts at the key on `at`.
pub open spec fn starts_at(at: WorldCoordinates) -> spec_fn(KeyDoorLink) -> bool {
    |link: KeyDoorLink| link.key == at
}

/// Whether a chest stands on `at`.
pub open spec fn stands_on(at: WorldCoordinates) -> spec_fn(TreasureCollectionView) -> bool {
    |chest: TreasureCollectionView| chest.world_coords == Some(at)
}

/// The first chest that stands on `at`.
pub open spec fn chest_on(chests: Seq<TreasureCollectionView>, at: WorldCoordinates) -> Option<
    TreasureCollectionView,
> {
    first_match(chests, stands_on(at))
}

/// The tile that the byte `b` of the body puts on the cell `at`: the tile of
/// that symbol, on that cell; a key tile with the first link that starts
/// there, a treasure tile with the first chest that stands there. An error
/// if `b` is no tile symbol, or if the link or the chest is missing.
pub open spec fn placed(b: u8, at: WorldCoordinates, legend: Legend) -> Result<
    TileView,
    MapLoadError,
> {
    if !is_tile_symbol(b as char) {
        Err(
            MapLoadError::Format(
                MapFormatError::UnrecognizedTile { row: at.0, col: at.1, symbol: b },
            ),
        )
    } else {
        let tile = symbol_tile(b as char, legend.display).at(at);
        if tile.kind == TileKind::Key {
            match link_for(legend.links, at) {
                Some(link) => Ok(
                    TileView {
                        props: TilePropertiesView { kdl: Some(link), ..tile.props },
                        ..tile
                    },
                ),
                None => Err(
                    MapLoadError::Validation(
                        MapValidationError::MissingKeyLink { row: at.0, col: at.1 },
                    ),
                ),
            }
        } else if tile.kind == TileKind::Treasure {
            match chest_on(legend.chests, at) {
                Some(chest) => Ok(
                    TileView {
                        props: TilePropertiesView { treasure: Some(chest), ..tile.props },
                        ..tile
                    },
                ),
                None => Err(
                    MapLoadError::Validation(
                        MapValidationError::MissingChest { row: at.0, col: at.1 },
                    ),
                ),
            }
        } else {
            Ok(tile)
        }
    }
}

/// The error of the first of the first `upto` bytes of a row that puts no
/// tile on its cell.
pub open spec fn row_error(line: Seq<u8>, row: int, upto: int, legend: Legend) -> Option<
    MapLoadError,
>
    decreases upto,
{
    if upto <= 0 {
        None
    } else {
        match row_error(line, row, upto - 1, legend) {
            Some(e) => Some(e),
            None => match placed(line[upto - 1], (row as usize, (upto - 1) as usize), legend) {
                Err(e) => Some(e),
                Ok(_) => None,
            },
        }
    }
}

/// The error of the first byte in the first `upto` rows of the body, row by
/// row, that puts no tile on its cell.
pub open spec fn body_error(body: Seq<Seq<u8>>, upto: int, legend: Legend) -> Option<MapLoadError>
    decreases upto,
{
    if upto <= 0 {
        None
    } else {
        match body_error(body, upto - 1, legend) {
            Some(e) => Some(e),
            None => row_error(body[upto - 1], upto - 1, body[upto - 1].len() as int, legend),
        }
    }
}

/// How often `symbol` stands among the first `upto` bytes of `line`.
pub open spec fn count_in_row(line: Seq<u8>, upto: int, symbol: u8) -> nat
    decreases upto,
{
    if upto <= 0 {
        0
    } else if line[upto - 1] == symbol {
        count_in_row(line, upto - 1, symbol) + 1
    } else {
        count_in_row(line, upto - 1, symbol)
    }
}

/// How often `symbol` stands in the first `upto` rows of the body.
pub open spec fn count_in_body(body: Seq<Seq<u8>>, upto: int, symbol: u8) -> nat
    decreases upto,
{
    if upto <= 0 {
        0
    } else {
        count_in_body(body, upto - 1, symbol) + count_in_row(
            body[upto - 1],
            body[upto - 1].len() as int,
            symbol,
        )
    }
}

/// The length of the longest of the first `upto` rows.
pub open spec fn widest(body: Seq<Seq<u8>>, upto: int) -> nat
    decreases upto,
{
    if upto <= 0 {
        0
    } else if body[upto - 1].len() > widest(body, upto - 1) {
        body[upto - 1].len()
    } else {
        widest(body, upto - 1)
    }
}

/// The tile on the cell (`r`, `c`) of the map that the body describes: the
/// tile that the byte there puts on it, and an unset tile where the row has
/// no byte.
pub open spec fn laid_tile(body: Seq<Seq<u8>>, legend: Legend, r: int, c: int) -> TileView {
    if c < body[r].len() {
        match placed(body[r][c], (r as usize, c as usize), legend) {
            Ok(tile) => tile,
            Err(_) => TileView::unset(),
        }
    } else {
        TileView::unset()
    }
}

/// The grid while the body is laid out: all rows before `row` and the first
/// `col` cells of the row `row` hold their tiles, the other cells are unset.
pub open spec fn laid_until(body: Seq<Seq<u8>>, legend: Legend, row: int, col: int) -> Seq<
    Seq<TileView>,
> {
    let cols = widest(body, body.len() as int);
    if body.len() == 0 || cols == 0 {
        Seq::empty()
    } else {
        Seq::new(
            body.len(),
            |r: int|
                Seq::new(
                    cols,
                    |c: int|
                        if r < row || (r == row && c < col) {
                            laid_tile(body, legend, r, c)
                        } else {
                            TileView::unset()
                        },
                ),
        )
    }
}

/// The grid that the body describes: as many rows as the body has lines, as
/// many columns as its longest line has bytes.
pub open spec fn laid_out(body: Seq<Seq<u8>>, legend: Legend) -> Seq<Seq<TileView>> {
    laid_until(body, legend, body.len() as int, 0)
}

/// The grid that the body describes, or the first thing that is wrong with
/// the body: a byte, row by row, that puts no tile on its cell; more keys
/// than locked doors, or fewer.
pub open spec fn laid_and_counted(body: Seq<Seq<u8>>, legend: Legend) -> Result<
    Seq<Seq<TileView>>,
    MapLoadError,
> {
    let rows = body.len() as int;
    match body_error(body, rows, legend) {
        Some(e) => Err(e),
        None => if count_in_body(body, rows, KEY_SYMBOL as u8) > count_in_body(
            body,
            rows,
            LOCKED_DOOR_SYMBOL as u8,
        ) {
            Err(MapLoadError::Validation(MapValidationError::TooManyKeys))
        } else if count_in_body(body, rows, KEY_SYMBOL as u8) < count_in_body(
            body,
            rows,
            LOCKED_DOOR_SYMBOL as u8,
        ) {
            Err(MapLoadError::Validation(MapValidationError::TooManyLockedDoors))
        } else {
            Ok(laid_out(body, legend))
        },
    }
}

/// The grid that the text of a map describes, or the first thing that is
/// wrong with the text: a line of the directive block that is no directive;
/// a body with more cells than a map can hold; a byte of the body, row by
/// row, that is no tile symbol, a key without a link or a treasure without
/// a chest; more keys than locked doors, or fewer.
pub open spec fn loaded(bytes: Seq<u8>, display: KeyDisplay) -> Result<
    Seq<Seq<TileView>>,
    MapLoadError,
> {
    let lines = text_lines(bytes);
    let body = body_lines(lines);
    let rows = body.len() as int;
    let legend = Legend {
        links: links_in(directive_lines(lines)),
        chests: chests_in(directive_lines(lines)),
        display,
    };
    let bad = first_malformed(lines, body_len(lines));
    if bad < lines.len() {
        Err(MapLoadError::Format(MapFormatError::MalformedDirective { line: bad as usize }))
    } else if rows * widest(body, rows) > usize::MAX {
        Err(MapLoadError::Format(MapFormatError::GridTooLarge))
    } else {
        laid_and_counted(body, legend)
    }
}

/// The body is a part of the lines.
proof fn lemma_body_len(lines: Seq<Seq<u8>>)
    ensures
        0 <= body_len(lines) <= lines.len(),
    decreases lines.len(),
{
    if lines.len() != 0 && !crate::world::map_text::is_directive(lines[0]) {
        lemma_body_len(lines.skip(1));
    }
}

/// No row is longer than the longest.
pub proof fn lemma_widest(body: Seq<Seq<u8>>, upto: int, r: int)
    requires
        0 <= r < upto <= body.len(),
    ensures
        body[r].len() <= widest(body, upto),
    decreases upto,
{
    if r < upto - 1 {
        lemma_widest(body, upto - 1, r);
    }
}

/// The first link in `links` that starts at the key on `at`.
fn find_link(links: &Vec<KeyDoorLink>, at: WorldCoordinates) -> (found: Option<KeyDoorLink>)
    ensures
        found == link_for(links@, at),
{
    let ghost wanted = starts_at(at);
    let mut i: usize = 0;
    while i < links.len()
        invariant
            i <= links.len(),
            wanted == starts_at(at),
            forall|j: int| 0 <= j < i ==> !wanted(#[trigger] links@[j]),
        decreases links.len() - i,
    {
        let link = links[i];
        if link.key.0 == at.0 && link.key.1 == at.1 {
            proof {
                lemma_first_index_is(links@, wanted, i as int);
            }
            return Some(link);
        }
        i += 1;
    }
    proof {
        lemma_first_index_is(links@, wanted, i as int);
    }
    None
}

/// The index of the first chest in `chests` that stands on `at`.
fn find_chest(chests: &Vec<TreasureCollection>, at: WorldCoordinates) -> (found: Option<usize>)
    ensures
        match found {
            Some(i) => i < chests.len() && chest_on(chest_views(chests@), at) == Some(
                chests@[i as int]@,
            ),
            None => chest_on(chest_views(chests@), at) is None,
        },
{
    let ghost wanted = stands_on(at);
    let ghost views = chest_views(chests@);
    let mut i: usize = 0;
    while i < chests.len()
        invariant
            i <= chests.len(),
            views == chest_views(chests@),
            wanted == stands_on(at),
            forall|j: int| 0 <= j < i ==> !wanted(#[trigger] views[j]),
        decreases chests.len() - i,
    {
        let stands_here = match chests[i].world_coords {
            Some(cell) => cell.0 == at.0 && cell.1 == at.1,
            None => false,
        };
        assert(views[i as int] == chests@[i as int]@);
        if stands_here {
            proof {
                lemma_first_index_is(views, wanted, i as int);
            }
            return Some(i);
        }
        i += 1;
    }
    proof {
        lemma_first_index_is(views, wanted, i as int);
    }
    None
}

/// The tile that the byte `b` puts on the cell `at`.
fn place_tile(
    b: u8,
    at: WorldCoordinates,
    links: &Vec<KeyDoorLink>,
    chests: &Vec<TreasureCollection>,
    display: KeyDisplay,
) -> (tile: Result<Tile, MapLoadError>)
    ensures
        match tile {
            Ok(t) => placed(
                b,
                at,
                Legend { links: links@, chests: chest_views(chests@), display },
            ) == Ok::<TileView, MapLoadError>(t@),
            Err(e) => placed(
                b,
                at,
                Legend { links: links@, chests: chest_views(chests@), display },
            ) == Err::<TileView, MapLoadError>(e),
        },
{
    let symbol = b as char;
    if !Tile::is_symbol(symbol) {
        return Err(
            MapLoadError::Format(
                MapFormatError::UnrecognizedTile { row: at.0, col: at.1, symbol: b },
            ),
        );
    }
    let mut tile = Tile::from_symbol(symbol, display);
    tile.get_properties_mut().set_position(at);
    match &tile {
        Tile::Key(_) => {
            match find_link(links, at) {
                Some(link) => {
                    tile.get_properties_mut().link_door(link);
                    Ok(tile)
                },
                None => Err(
                    MapLoadError::Validation(
                        MapValidationError::MissingKeyLink { row: at.0, col: at.1 },
                    ),
                ),
            }
        },
        Tile::Treasure(_, _) => {
            match find_chest(chests, at) {
                Some(i) => {
                    let chest = chests[i].clone();
                    tile.get_properties_mut().treasure = Some(chest);
                    Ok(tile)
                },
                None => Err(
                    MapLoadError::Validation(
                        MapValidationError::MissingChest { row: at.0, col: at.1 },
                    ),
                ),
            }
        },
        _ => Ok(tile),
    }
}

impl WorldMap {
    /// The number of rows of the map.
    pub fn rows(&self) -> (rows: usize)
        ensures
            rows == self@.rows(),
    {
        grid_rows(&self.grid)
    }

    /// The number of columns of the map, which is the length of each of its
    /// rows.
    pub fn cols(&self) -> (cols: usize)
        ensures
            cols == self@.cols(),
            rectangular(self@.cells),
    {
        if grid_rows(&self.grid) == 0 {
            0
        } else {
            let cols = grid_cols(&self.grid);
            assert(grid_cells(self.grid)[0].len() == cols);
            cols
        }
    }

    /// The tile on the cell (`row`, `col`), if the map has that cell.
    pub fn tile(&self, row: usize, col: usize) -> (tile: Option<&Tile>)
        ensures
            match tile {
                Some(t) => self@.tile((row, col)) == Some(t@),
                None => self@.tile((row, col)) is None,
            },
    {
        grid_get(&self.grid, row, col)
    }

    /// The tile on the cell (`row`, `col`), to change it, if the map has that
    /// cell. All other tiles stay.
    pub fn tile_mut(&mut self, row: usize, col: usize) -> (tile: Option<&mut Tile>)
        ensures
            final(self).id == old(self).id,
            match tile {
                Some(t) => {
                    &&& old(self)@.tile((row, col)) == Some(t@)
                    &&& final(self)@.cells == with_tile(old(self)@.cells, (row, col), final(t)@)
                },
                None => old(self)@.tile((row, col)) is None && final(self)@ == old(self)@,
            },
    {
        if grid_get(&self.grid, row, col).is_some() {
            Some(grid_cell_mut(&mut self.grid, row, col))
        } else {
            None
        }
    }

    /// Reads a map from its text and gives it the number `assigned_id`.
    ///
    /// The body of the text becomes the grid, one tile for each byte; where
    /// the lines of the body differ in length, the shorter rows end in unset
    /// tiles. The directives provide the links of the key tiles and the
    /// chests of the treasure tiles. Key tiles draw their symbol as `display`
    /// says. No map comes back if anything is wrong with the text.
    ///
    /// All tile symbols and all bytes of a directive are ASCII, so the text
    /// needs no decoding: a byte that is not ASCII is no tile symbol in the
    /// body and malforms a directive.
    pub fn from_bytes(bytes: &[u8], assigned_id: usize, display: KeyDisplay) -> (loaded_map: Result<
        WorldMap,
        MapLoadError,
    >)
        ensures
            match loaded_map {
                Ok(map) => loaded(bytes@, display) == Ok::<Seq<Seq<TileView>>, MapLoadError>(
                    map@.cells,
                ) && map@.id == assigned_id && map@.wf(),
                Err(e) => loaded(bytes@, display) == Err::<Seq<Seq<TileView>>, MapLoadError>(e),
            },
    {
        let lines = split_lines(bytes);
        match find_malformed(&lines) {
            Some(line) => {
                return Err(MapLoadError::Format(MapFormatError::MalformedDirective { line }));
            },
            None => {},
        }
        let key_door_links = parse_key_door_links(&lines);
        let treasure_chests = parse_treasure_chests(&lines);
        let body = extract_map_lines(&lines);
        let ghost rows_text = body_lines(text_lines(bytes@));
        let ghost legend = Legend {
            links: key_door_links@,
            chests: chest_views(treasure_chests@),
            display,
        };
        let rows = body.len();
        proof {
            lemma_body_len(text_lines(bytes@));
        }
        assert(rows_text.len() == rows);
        assert forall|i: int| 0 <= i < rows implies (#[trigger] body@[i]).1@ == rows_text[i] by {}

        let mut cols: usize = 0;
        let mut n: usize = 0;
        while n < rows
            invariant
                n <= rows == body@.len() == rows_text.len(),
                forall|i: int| 0 <= i < rows ==> (#[trigger] body@[i]).1@ == rows_text[i],
                cols == widest(rows_text, n as int),
            decreases rows - n,
        {
            if body[n].1.len() > cols {
                cols = body[n].1.len();
            }
            n += 1;
        }
        if rows.checked_mul(cols).is_none() {
            return Err(MapLoadError::Format(MapFormatError::GridTooLarge));
        }
        let mut grid = new_grid(rows, cols);
        assert(grid_cells(grid) =~~= laid_until(rows_text, legend, 0, 0));
        assert(loaded(bytes@, display) == laid_and_counted(rows_text, legend));

        let mut key_count: u128 = 0;
        let mut locked_door_count: u128 = 0;
        let mut row: usize = 0;
        while row < rows
            invariant
                row <= rows == body@.len() == rows_text.len(),
                forall|i: int| 0 <= i < rows ==> (#[trigger] body@[i]).1@ == rows_text[i],
                cols == widest(rows_text, rows as int),
                legend == (Legend {
                    links: key_door_links@,
                    chests: chest_views(treasure_chests@),
                    display,
                }),
                grid_cells(grid) == laid_until(rows_text, legend, row as int, 0),
                loaded(bytes@, display) == laid_and_counted(rows_text, legend),
                body_error(rows_text, row as int, legend) is None,
                key_count == count_in_body(rows_text, row as int, KEY_SYMBOL as u8),
                locked_door_count == count_in_body(rows_text, row as int, LOCKED_DOOR_SYMBOL as u8),
                key_count <= row * 0x1_0000_0000_0000_0000,
                locked_door_count <= row * 0x1_0000_0000_0000_0000,
            decreases rows - row,
        {
            let ghost line = rows_text[row as int];
            let width = body[row].1.len();
            let ghost keys_before = key_count;
            let ghost doors_before = locked_door_count;
            proof {
                lemma_widest(rows_text, rows as int, row as int);
            }
            let mut col: usize = 0;
            while col < width
                invariant
                    row < rows == body@.len() == rows_text.len(),
                    col <= width == line.len() <= cols,
                    line == rows_text[row as int],
                    body@[row as int].1@ == line,
                    cols == widest(rows_text, rows as int),
                    legend == (Legend {
                        links: key_door_links@,
                        chests: chest_views(treasure_chests@),
                        display,
                    }),
                    grid_cells(grid) == laid_until(rows_text, legend, row as int, col as int),
                    loaded(bytes@, display) == laid_and_counted(rows_text, legend),
                    body_error(rows_text, row as int, legend) is None,
                    row_error(line, row as int, col as int, legend) is None,
                    key_count == keys_before + count_in_row(line, col as int, KEY_SYMBOL as u8),
                    locked_door_count == doors_before + count_in_row(
                        line,
                        col as int,
                        LOCKED_DOOR_SYMBOL as u8,
                    ),
                    key_count <= keys_before + col,
                    locked_door_count <= doors_before + col,
                    keys_before <= row * 0x1_0000_0000_0000_0000,
                    doors_before <= row * 0x1_0000_0000_0000_0000,
                decreases width - col,
            {
                let b = body[row].1[col];
                let tile = match place_tile(b, (row, col), &key_door_links, &treasure_chests, display) {
                    Ok(tile) => tile,
                    Err(e) => {
                        proof {
                            assert(row_error(line, row as int, col + 1, legend) == Some(e));
                            lemma_row_error_stays(line, row as int, col + 1, width as int, legend);
                            lemma_body_error_stays(rows_text, row + 1, rows as int, legend);
                        }
                        return Err(e);
                    },
                };
                if b == KEY_SYMBOL as u8 {
                    key_count += 1;
                }
                if b == LOCKED_DOOR_SYMBOL as u8 {
                    locked_door_count += 1;
                }
                let ghost before = grid_cells(grid);
                let ghost view = tile@;
                let cell = grid_cell_mut(&mut grid, row, col);
                *cell = tile;
                proof {
                    assert(laid_tile(rows_text, legend, row as int, col as int) == view);
                    assert(with_tile(before, (row, col), view) =~~= laid_until(
                        rows_text,
                        legend,
                        row as int,
                        col + 1,
                    ));
                }
                col += 1;
            }
            proof {
                assert(laid_until(rows_text, legend, row as int, width as int) =~~= laid_until(
                    rows_text,
                    legend,
                    row + 1,
                    0,
                ));
            }
            row += 1;
        }
        if key_count > locked_door_count {
            return Err(MapLoadError::Validation(MapValidationError::TooManyKeys));
        }
        if key_count < locked_door_count {
            return Err(MapLoadError::Validation(MapValidationError::TooManyLockedDoors));
        }
        proof {
            theorem_loaded_map_is_sound(bytes@, display);
        }
        Ok(WorldMap { id: assigned_id, grid })
    }
}

/// An error among the first bytes of a row stays the error of the row.
proof fn lemma_row_error_stays(line: Seq<u8>, row: int, upto: int, end: int, legend: Legend)
    requires
        0 <= upto <= end,
        row_error(line, row, upto, legend) is Some,
    ensures
        row_error(line, row, end, legend) == row_error(line, row, upto, legend),
    decreases end - upto,
{
    if upto < end {
        lemma_row_error_stays(line, row, upto, end - 1, legend);
    }
}

/// An error among the first rows of a body stays the error of the body.
proof fn lemma_body_error_stays(body: Seq<Seq<u8>>, upto: int, end: int, legend: Legend)
    requires
        0 <= upto <= end,
        body_error(body, upto, legend) is Some,
    ensures
        body_error(body, end, legend) == body_error(body, upto, legend),
    decreases end - upto,
{
    if upto < end {
        lemma_body_error_stays(body, upto, end - 1, legend);
    }
}

} // verus!
