//! What a renderer needs to paint the world: the symbols of the active map,
//! with the player on its cell, and where to put them on a screen.

use vstd::prelude::*;

use crate::player::Player;
use crate::shared::traits::Positionable;
use crate::shared::TileView;
use crate::world::world_controller::WorldController;
use crate::world::world_map::cols_in;
use crate::world::world_map::rectangular;

verus! {

/// A rectangle on a screen: its upper left corner and its size.
#[derive(Debug, Clone, Copy, PartialEq, Eq, Structural)]
pub struct Area {
    pub x: u16,
    pub y: u16,
    pub width: u16,
    pub height: u16,
}

/// The rectangle of the size `width` times `height` in the middle of `r`,
/// cut to the size of `r` where it is larger.
pub open spec fn centered(width: u16, height: u16, r: Area) -> Area {
    Area {
        x: (r.x + (if r.width > width {
            r.width - width
        } else {
            0
        }) / 2) as u16,
        y: (r.y + (if r.height > height {
            r.height - height
        } else {
            0
        }) / 2) as u16,
        width: if width < r.width {
            width
        } else {
            r.width
        },
        height: if height < r.height {
            height
        } else {
            r.height
        },
    }
}

/// Puts a rectangle of the size `width` times `height` in the middle of `r`.
pub fn centered_rect(width: u16, height: u16, r: Area) -> (area: Area)
    requires
        r.x + r.width <= u16::MAX,
        r.y + r.height <= u16::MAX,
    ensures
        area == centered(width, height, r),
{
    let x = r.x + (if r.width > width {
        r.width - width
    } else {
        0
    }) / 2;
    let y = r.y + (if r.height > height {
        r.height - height
    } else {
        0
    }) / 2;
    Area {
        x,
        y,
        width: if width < r.width {
            width
        } else {
            r.width
        },
        height: if height < r.height {
            height
        } else {
            r.height
        },
    }
}

/// The symbol to paint on the cell (`r`, `c`): that of the player where the
/// player stands, and that of the tile elsewhere.
pub open spec fn painted(
    cells: Seq<Seq<TileView>>,
    player_at: (usize, usize),
    player_symbol: char,
    r: int,
    c: int,
) -> char {
    if r == player_at.0 && c == player_at.1 {
        player_symbol
    } else {
        cells[r][c].props.draw_character
    }
}

/// Whether `picture` shows `cells` with the player on its cell: one row of
/// symbols for each row of the map, one symbol for each cell.
pub open spec fn shows(
    picture: Seq<Vec<char>>,
    cells: Seq<Seq<TileView>>,
    player_at: (usize, usize),
    player_symbol: char,
) -> bool {
    &&& picture.len() == cells.len()
    &&& forall|r: int|
        0 <= r < picture.len() ==> (#[trigger] picture[r])@.len() == cells[r].len()
    &&& forall|r: int, c: int|
        0 <= r < picture.len() && 0 <= c < cells[r].len() ==> (#[trigger] picture[r]@[c])
            == painted(cells, player_at, player_symbol, r, c)
}

/// The world as a renderer sees it: the controller and the player.
pub struct WorldView<'wview> {
    world: &'wview WorldController,
    player: &'wview Player,
}

impl<'wview> WorldView<'wview> {
    /// The world that the view shows.
    pub closed spec fn world(&self) -> &WorldController {
        self.world
    }

    /// The player that the view shows.
    pub closed spec fn player(&self) -> &Player {
        self.player
    }

    /// A view of `world` with `player` in it.
    pub fn new(world: &'wview WorldController, player: &'wview Player) -> (view: Self)
        ensures
            view.world() == world,
            view.player() == player,
    {
        Self { world, player }
    }

    /// The symbols to paint, row by row: the active map, with the player on
    /// the cell where it stands. Nothing where the world has no map.
    pub fn render(&self) -> (picture: Vec<Vec<char>>)
        ensures
            shows(
                picture@,
                self.world().active_cells(),
                (self.player().spec_row(), self.player().spec_col()),
                self.player()@.draw,
            ),
    {
        self.world.generate_map(self.player)
    }
}

impl WorldController {
    /// The symbols to paint, row by row: the active map, with `player` on the
    /// cell where it stands. Nothing where the world has no map.
    pub fn generate_map(&self, player: &Player) -> (picture: Vec<Vec<char>>)
        ensures
            shows(
                picture@,
                self.active_cells(),
                (player.spec_row(), player.spec_col()),
                player@.draw,
            ),
    {
        let mut picture: Vec<Vec<char>> = Vec::new();
        if self.maps.len() == 0 {
            return picture;
        }
        let map = &self.maps[0];
        let ghost cells = self.active_cells();
        let player_row = player.row();
        let player_col = player.col();
        let player_symbol = player.to_symbol();
        let rows = map.rows();
        let cols = map.cols();
        let mut row: usize = 0;
        while row < rows
            invariant
                row <= rows == cells.len(),
                rectangular(cells),
                cols == cols_in(cells),
                cells == map@.cells,
                picture@.len() == row,
                forall|r: int| 0 <= r < row ==> (#[trigger] picture@[r])@.len() == cells[r].len(),
                forall|r: int, c: int|
                    0 <= r < row && 0 <= c < cells[r].len() ==> (#[trigger] picture@[r]@[c])
                        == painted(cells, (player_row, player_col), player_symbol, r, c),
            decreases rows - row,
        {
            let mut line: Vec<char> = Vec::new();
            let mut col: usize = 0;
            while col < cols
                invariant
                    row < rows == cells.len(),
                    cells == map@.cells,
                    col <= cols == cells[row as int].len(),
                    line@.len() == col,
                    forall|c: int|
                        0 <= c < col ==> (#[trigger] line@[c]) == painted(
                            cells,
                            (player_row, player_col),
                            player_symbol,
                            row as int,
                            c,
                        ),
                decreases cols - col,
            {
                let symbol = match map.tile(row, col) {
                    Some(tile) => tile.to_symbol(),
                    None => player_symbol,
                };
                if row == player_row && col == player_col {
                    line.push(player_symbol);
                } else {
                    line.push(symbol);
                }
                col += 1;
            }
            picture.push(line);
            row += 1;
        }
        picture
    }
}

} // verus!
