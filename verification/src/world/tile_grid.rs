//! The grid of tiles of a map: `grid::Grid`, with what this library relies
//! on of it.

use vstd::prelude::*;

use crate::shared::Tile;
use crate::shared::TileView;

verus! {

/// Declares `grid::Grid`, a rectangle of elements that is addressed by row
/// and column. Nothing is claimed of what is inside it.
#[verifier::external_type_specification]
#[verifier::external_body]
#[verifier::reject_recursive_types(T)]
pub struct ExGrid<T>(grid::Grid<T>);

/// The tiles that a grid holds, row by row: the element `c` of the element
/// `r` is the tile on the cell (`r`, `c`). A grid is a rectangle, so all rows
/// have one length.
pub uninterp spec fn grid_cells(g: grid::Grid<Tile>) -> Seq<Seq<TileView>>;

/// `rows` rows of `cols` tiles, each as a new map holds it.
pub open spec fn unset_cells(rows: nat, cols: nat) -> Seq<Seq<TileView>> {
    Seq::new(rows, |r: int| Seq::new(cols, |c: int| TileView::unset()))
}

/// Calls `Grid::new`, which makes a grid of `rows` times `cols` tiles and
/// fills it with `Tile::default()`; with no rows or no columns the grid is
/// empty and has neither. `Grid::new` panics where the number of cells
/// leaves the range of `usize`.
#[verifier::external_body]
pub(crate) fn new_grid(rows: usize, cols: usize) -> (g: grid::Grid<Tile>)
    requires
        rows * cols <= usize::MAX,
    ensures
        grid_cells(g) == (if rows == 0 || cols == 0 {
            Seq::<Seq<TileView>>::empty()
        } else {
            unset_cells(rows as nat, cols as nat)
        }),
{
    grid::Grid::new(rows, cols)
}

/// Calls `Grid::rows`: the number of rows.
#[verifier::external_body]
pub(crate) fn grid_rows(g: &grid::Grid<Tile>) -> (rows: usize)
    ensures
        rows == grid_cells(*g).len(),
{
    g.rows()
}

/// Calls `Grid::cols`: the number of columns, which is the length of every
/// row.
#[verifier::external_body]
pub(crate) fn grid_cols(g: &grid::Grid<Tile>) -> (cols: usize)
    ensures
        forall|r: int| 0 <= r < grid_cells(*g).len() ==> (#[trigger] grid_cells(*g)[r]).len() == cols,
{
    g.cols()
}

/// Calls `Grid::get`: the tile on the cell (`row`, `col`), or `None` where the
/// grid has no such cell.
#[verifier::external_body]
pub(crate) fn grid_get(g: &grid::Grid<Tile>, row: usize, col: usize) -> (tile: Option<&Tile>)
    ensures
        match tile {
            Some(t) => row < grid_cells(*g).len() && col < grid_cells(*g)[row as int].len() && t@
                == grid_cells(*g)[row as int][col as int],
            None => !(row < grid_cells(*g).len() && col < grid_cells(*g)[row as int].len()),
        },
{
    g.get(row, col)
}

/// Calls `Grid::index_mut`, the index operator of a grid that is borrowed
/// mutably: the tile on the cell (`row`, `col`), to change it. All other
/// tiles stay. The operator panics where the grid has no such cell.
#[verifier::external_body]
pub(crate) fn grid_cell_mut(g: &mut grid::Grid<Tile>, row: usize, col: usize) -> (tile: &mut Tile)
    requires
        row < grid_cells(*old(g)).len(),
        col < grid_cells(*old(g))[row as int].len(),
    ensures
        tile@ == grid_cells(*old(g))[row as int][col as int],
        grid_cells(*final(g)) == grid_cells(*old(g)).update(
            row as int,
            grid_cells(*old(g))[row as int].update(col as int, final(tile)@),
        ),
{
    &mut g[(row, col)]
}

} // verus!
