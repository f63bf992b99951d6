use vstd::prelude::*;

use crate::shared::traits::Positionable;
use crate::shared::treasure::TreasureCollection;
use crate::shared::treasure::TreasureCollectionView;
use crate::shared::Column;
use crate::shared::CommonState;
use crate::shared::KeyDoorLink;
use crate::shared::Row;
use crate::shared::WorldCoordinates;

verus! {

/// The symbol of a locked door.
pub const LOCKED_DOOR_SYMBOL: char = '|';

/// The symbol of an unlocked door.
pub const UNLOCKED_DOOR_SYMBOL: char = '\\';

/// The symbol of a floor tile.
pub const FLOOR_SYMBOL: char = '.';

/// The symbol of a key tile.
pub const KEY_SYMBOL: char = 'K';

/// The symbol of a treasure that was not collected yet.
pub const UNCOLLECTED_TREASURE_SYMBOL: char = 'D';

/// The symbol of a treasure that was collected.
pub const COLLECTED_TREASURE_SYMBOL: char = '0';

/// The symbol of a wall.
pub const WALL_SYMBOL: char = '#';

/// The symbol that a tile draws before it was given one.
pub const UNSET_SYMBOL: char = '?';

/// How key tiles are drawn: with their own symbol, or hidden as floor.
#[derive(Clone, Copy, Debug, PartialEq, Eq, Structural)]
pub enum KeyDisplay {
    Revealed,
    Hidden,
}

/// The variant of a tile, without its data.
#[derive(Clone, Copy, Debug, PartialEq, Eq, Structural)]
pub enum TileKind {
    Door,
    Floor,
    Key,
    Treasure,
    Wall,
}

/// What every tile holds, whatever its variant: its cell, the symbol it
/// draws, the chest that stands on it and the key link that it carries.
#[derive(Debug, PartialEq, Eq)]
pub struct TileProperties {
    pub row: Row,
    pub col: Column,
    pub world_coordinates: WorldCoordinates,
    pub draw_character: char,
    pub treasure: Option<TreasureCollection>,
    pub kdl: Option<KeyDoorLink>,
}

/// The properties of a tile as a mathematical value.
pub struct TilePropertiesView {
    pub row: Row,
    pub col: Column,
    pub world_coordinates: WorldCoordinates,
    pub draw_character: char,
    pub treasure: Option<TreasureCollectionView>,
    pub kdl: Option<KeyDoorLink>,
}

impl View for TileProperties {
    type V = TilePropertiesView;

    open spec fn view(&self) -> TilePropertiesView {
        TilePropertiesView {
            row: self.row,
            col: self.col,
            world_coordinates: self.world_coordinates,
            draw_character: self.draw_character,
            treasure: match self.treasure {
                Some(chest) => Some(chest@),
                None => None,
            },
            kdl: self.kdl,
        }
    }
}

impl TilePropertiesView {
    /// The properties of a tile that was given nothing yet.
    pub open spec fn unset() -> TilePropertiesView {
        TilePropertiesView {
            row: 0,
            col: 0,
            world_coordinates: (0, 0),
            draw_character: UNSET_SYMBOL,
            treasure: None,
            kdl: None,
        }
    }

    /// These properties on the cell `coords`.
    pub open spec fn at(self, coords: WorldCoordinates) -> TilePropertiesView {
        TilePropertiesView { row: coords.0, col: coords.1, world_coordinates: coords, ..self }
    }
}

impl TileProperties {
    /// Puts the tile on the cell `coords`.
    pub fn set_position(&mut self, coords: WorldCoordinates)
        ensures
            final(self)@ == old(self)@.at(coords),
    {
        self.row = coords.0;
        self.col = coords.1;
        self.world_coordinates = coords;
    }

    /// Gives the tile the key link `kdl`.
    pub fn link_door(&mut self, kdl: KeyDoorLink)
        ensures
            final(self)@ == (TilePropertiesView { kdl: Some(kdl), ..old(self)@ }),
    {
        self.kdl = Some(kdl);
    }
}

impl Clone for TileProperties {
    /// A copy of these properties.
    fn clone(&self) -> (copy: TileProperties)
        ensures
            copy@ == self@,
    {
        let treasure = match &self.treasure {
            Some(chest) => Some(chest.clone()),
            None => None,
        };
        TileProperties {
            row: self.row,
            col: self.col,
            world_coordinates: self.world_coordinates,
            draw_character: self.draw_character,
            treasure,
            kdl: self.kdl,
        }
    }
}

impl Default for TileProperties {
    fn default() -> (p: TileProperties)
        ensures
            p@ == TilePropertiesView::unset(),
    {
        TileProperties {
            row: 0,
            col: 0,
            world_coordinates: (0, 0),
            draw_character: UNSET_SYMBOL,
            treasure: None,
            kdl: None,
        }
    }
}

/// One cell of a map. Doors and treasures carry a state; walls, floors and
/// keys have none.
#[derive(Debug, PartialEq, Eq)]
pub enum Tile {
    Door(TileProperties, CommonState),
    Floor(TileProperties),
    Key(TileProperties),
    Treasure(TileProperties, CommonState),
    Wall(TileProperties),
}

/// A tile as a mathematical value: its variant, its properties, and its
/// state if the variant has one.
pub struct TileView {
    pub kind: TileKind,
    pub props: TilePropertiesView,
    pub state: Option<CommonState>,
}

impl View for Tile {
    type V = TileView;

    open spec fn view(&self) -> TileView {
        TileView { kind: self.kind(), props: self.properties()@, state: self.state() }
    }
}

impl TileView {
    /// The tile with which a new map is filled: a floor tile that was given
    /// nothing yet.
    pub open spec fn unset() -> TileView {
        TileView { kind: TileKind::Floor, props: TilePropertiesView::unset(), state: None }
    }

    /// Whether the tile is a door that is locked.
    pub open spec fn is_locked_door(self) -> bool {
        self.kind == TileKind::Door && self.state == Some(CommonState::locked())
    }

    /// Whether the tile is a door that is unlocked.
    pub open spec fn is_unlocked_door(self) -> bool {
        self.kind == TileKind::Door && self.state == Some(CommonState::unlocked())
    }

    /// Whether the tile is a treasure that was not collected yet.
    pub open spec fn is_uncollected_treasure(self) -> bool {
        self.kind == TileKind::Treasure && self.state == Some(CommonState::uncollected())
    }

    /// This tile on the cell `coords`.
    pub open spec fn at(self, coords: WorldCoordinates) -> TileView {
        TileView { props: self.props.at(coords), ..self }
    }

    /// This tile with the state `state`, if its variant has a state.
    pub open spec fn with_state(self, state: CommonState) -> TileView {
        if self.state is Some {
            TileView { state: Some(state), ..self }
        } else {
            self
        }
    }
}

/// Whether `c` is one of the symbols of which a map is written.
pub open spec fn is_tile_symbol(c: char) -> bool {
    ||| c == LOCKED_DOOR_SYMBOL
    ||| c == UNLOCKED_DOOR_SYMBOL
    ||| c == FLOOR_SYMBOL
    ||| c == KEY_SYMBOL
    ||| c == UNCOLLECTED_TREASURE_SYMBOL
    ||| c == COLLECTED_TREASURE_SYMBOL
    ||| c == WALL_SYMBOL
}

/// The symbol that the tile written as `c` draws.
pub open spec fn drawn_symbol(c: char, display: KeyDisplay) -> char {
    if c == KEY_SYMBOL && display == KeyDisplay::Hidden {
        FLOOR_SYMBOL
    } else {
        c
    }
}

/// The variant of the tile written as `c`.
pub open spec fn symbol_kind(c: char) -> TileKind {
    if c == LOCKED_DOOR_SYMBOL || c == UNLOCKED_DOOR_SYMBOL {
        TileKind::Door
    } else if c == FLOOR_SYMBOL {
        TileKind::Floor
    } else if c == KEY_SYMBOL {
        TileKind::Key
    } else if c == UNCOLLECTED_TREASURE_SYMBOL || c == COLLECTED_TREASURE_SYMBOL {
        TileKind::Treasure
    } else {
        TileKind::Wall
    }
}

/// The state of the tile written as `c`.
pub open spec fn symbol_state(c: char) -> Option<CommonState> {
    if c == LOCKED_DOOR_SYMBOL {
        Some(CommonState::locked())
    } else if c == UNLOCKED_DOOR_SYMBOL {
        Some(CommonState::unlocked())
    } else if c == UNCOLLECTED_TREASURE_SYMBOL {
        Some(CommonState::uncollected())
    } else if c == COLLECTED_TREASURE_SYMBOL {
        Some(CommonState::collected())
    } else {
        None
    }
}

/// The tile written as `c`: it stands on no cell yet and holds neither chest
/// nor key link.
pub open spec fn symbol_tile(c: char, display: KeyDisplay) -> TileView {
    TileView {
        kind: symbol_kind(c),
        props: TilePropertiesView {
            draw_character: drawn_symbol(c, display),
            ..TilePropertiesView::unset()
        },
        state: symbol_state(c),
    }
}

impl Tile {
    /// The variant of the tile.
    pub open spec fn kind(self) -> TileKind {
        match self {
            Tile::Door(_, _) => TileKind::Door,
            Tile::Floor(_) => TileKind::Floor,
            Tile::Key(_) => TileKind::Key,
            Tile::Treasure(_, _) => TileKind::Treasure,
            Tile::Wall(_) => TileKind::Wall,
        }
    }

    /// The properties of the tile.
    pub open spec fn properties(self) -> TileProperties {
        match self {
            Tile::Door(props, _) => props,
            Tile::Floor(props) => props,
            Tile::Key(props) => props,
            Tile::Treasure(props, _) => props,
            Tile::Wall(props) => props,
        }
    }

    /// The state of the tile, if its variant has one.
    pub open spec fn state(self) -> Option<CommonState> {
        match self {
            Tile::Door(_, state) => Some(state),
            Tile::Treasure(_, state) => Some(state),
            _ => None,
        }
    }

    /// This tile with the properties `props`.
    pub open spec fn with_properties(self, props: TileProperties) -> Tile {
        match self {
            Tile::Door(_, state) => Tile::Door(props, state),
            Tile::Floor(_) => Tile::Floor(props),
            Tile::Key(_) => Tile::Key(props),
            Tile::Treasure(_, state) => Tile::Treasure(props, state),
            Tile::Wall(_) => Tile::Wall(props),
        }
    }

    /// The properties of the tile, to change them. The variant and the state
    /// of the tile stay.
    pub fn get_properties_mut(&mut self) -> (props: &mut TileProperties)
        ensures
            *props == old(self).properties(),
            *final(self) == old(self).with_properties(*final(props)),
    {
        match self {
            Tile::Door(props, _) => props,
            Tile::Floor(props) => props,
            Tile::Key(props) => props,
            Tile::Wall(props) => props,
            Tile::Treasure(props, _) => props,
        }
    }

    /// The properties of the tile.
    pub fn get_properties(&self) -> (props: &TileProperties)
        ensures
            *props == self.properties(),
    {
        match self {
            Tile::Door(props, _) => props,
            Tile::Floor(props) => props,
            Tile::Key(props) => props,
            Tile::Wall(props) => props,
            Tile::Treasure(props, _) => props,
        }
    }

    /// Sets the state of a door or a treasure. A tile of another variant
    /// stays as it is.
    pub fn change_state(&mut self, new_state: CommonState)
        ensures
            final(self)@ == old(self)@.with_state(new_state),
            final(self).properties() == old(self).properties(),
    {
        match self {
            Tile::Door(_, state) => *state = new_state,
            Tile::Treasure(_, state) => *state = new_state,
            _ => {},
        }
    }

    /// The state of a door or a treasure; `None` for the other variants.
    pub fn get_state(&self) -> (state: Option<&CommonState>)
        ensures
            match state {
                Some(s) => self.state() == Some(*s),
                None => self.state() is None,
            },
    {
        match self {
            Tile::Door(_, state) => Some(state),
            Tile::Treasure(_, state) => Some(state),
            Tile::Floor(_) | Tile::Key(_) | Tile::Wall(_) => None,
        }
    }

    /// Tells whether `c` is one of the symbols of which a map is written.
    pub fn is_symbol(c: char) -> (b: bool)
        ensures
            b == is_tile_symbol(c),
    {
        c == LOCKED_DOOR_SYMBOL || c == UNLOCKED_DOOR_SYMBOL || c == FLOOR_SYMBOL || c
            == KEY_SYMBOL || c == UNCOLLECTED_TREASURE_SYMBOL || c == COLLECTED_TREASURE_SYMBOL
            || c == WALL_SYMBOL
    }

    /// The tile that the symbol `id` stands for. A key tile draws its own
    /// symbol where keys are revealed, and the floor symbol where they are
    /// hidden; every other tile draws the symbol it was written with.
    pub fn from_symbol(id: char, display: KeyDisplay) -> (tile: Tile)
        requires
            is_tile_symbol(id),
        ensures
            tile@ == symbol_tile(id, display),
    {
        if id == LOCKED_DOOR_SYMBOL {
            Tile::Door(Self::blank(LOCKED_DOOR_SYMBOL), CommonState::locked())
        } else if id == UNLOCKED_DOOR_SYMBOL {
            Tile::Door(Self::blank(UNLOCKED_DOOR_SYMBOL), CommonState::unlocked())
        } else if id == FLOOR_SYMBOL {
            Tile::Floor(Self::blank(FLOOR_SYMBOL))
        } else if id == KEY_SYMBOL {
            match display {
                KeyDisplay::Revealed => Tile::Key(Self::blank(KEY_SYMBOL)),
                KeyDisplay::Hidden => Tile::Key(Self::blank(FLOOR_SYMBOL)),
            }
        } else if id == UNCOLLECTED_TREASURE_SYMBOL {
            Tile::Treasure(Self::blank(UNCOLLECTED_TREASURE_SYMBOL), CommonState::uncollected())
        } else if id == COLLECTED_TREASURE_SYMBOL {
            Tile::Treasure(Self::blank(COLLECTED_TREASURE_SYMBOL), CommonState::collected())
        } else {
            Tile::Wall(Self::blank(WALL_SYMBOL))
        }
    }

    /// Properties that hold nothing but the symbol to draw.
    fn blank(draw_character: char) -> (props: TileProperties)
        ensures
            props@ == (TilePropertiesView { draw_character, ..TilePropertiesView::unset() }),
    {
        TileProperties {
            row: 0,
            col: 0,
            world_coordinates: (0, 0),
            draw_character,
            treasure: None,
            kdl: None,
        }
    }

    /// The symbol that the tile draws.
    pub fn to_symbol(&self) -> (c: char)
        ensures
            c == self@.props.draw_character,
    {
        self.get_properties().draw_character
    }

    /// A tile read from a symbol draws that symbol again; the one exception
    /// is a key tile where keys are hidden, which draws the floor symbol.
    pub proof fn lemma_symbol_round_trip(c: char, display: KeyDisplay)
        requires
            is_tile_symbol(c),
        ensures
            c != KEY_SYMBOL ==> symbol_tile(c, display).props.draw_character == c,
            symbol_tile(KEY_SYMBOL, KeyDisplay::Revealed).props.draw_character == KEY_SYMBOL,
            symbol_tile(KEY_SYMBOL, KeyDisplay::Hidden).props.draw_character == FLOOR_SYMBOL,
    {
    }

    /// Symbols other than the two of a concealed key stand for different
    /// tiles: the tile tells the symbol it was read from.
    pub proof fn lemma_symbols_distinct(a: char, b: char, display: KeyDisplay)
        requires
            is_tile_symbol(a),
            is_tile_symbol(b),
            symbol_tile(a, display) == symbol_tile(b, display),
        ensures
            a == b,
    {
    }
}

impl Clone for Tile {
    /// A copy of this tile.
    fn clone(&self) -> (copy: Tile)
        ensures
            copy@ == self@,
    {
        match self {
            Tile::Door(props, state) => Tile::Door(props.clone(), *state),
            Tile::Floor(props) => Tile::Floor(props.clone()),
            Tile::Key(props) => Tile::Key(props.clone()),
            Tile::Treasure(props, state) => Tile::Treasure(props.clone(), *state),
            Tile::Wall(props) => Tile::Wall(props.clone()),
        }
    }
}

impl Default for Tile {
    /// A floor tile that was given nothing yet.
    fn default() -> (tile: Tile)
        ensures
            tile@ == TileView::unset(),
    {
        Tile::Floor(TileProperties::default())
    }
}

impl Positionable for Tile {
    open spec fn spec_row(&self) -> Row {
        self.properties().row
    }

    open spec fn spec_col(&self) -> Column {
        self.properties().col
    }

    /// The row of the cell on which the tile stands.
    fn row(&self) -> (r: Row) {
        self.get_properties().row
    }

    /// The column of the cell on which the tile stands.
    fn col(&self) -> (c: Column) {
        self.get_properties().col
    }
}

} // verus!
