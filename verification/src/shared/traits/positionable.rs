use vstd::prelude::*;

use crate::shared::Column;
use crate::shared::Row;

verus! {

/// An entity that stands on a cell.
pub trait Positionable: Sized {
    /// The row of the cell on which the entity stands.
    spec fn spec_row(&self) -> Row;

    /// The column of the cell on which the entity stands.
    spec fn spec_col(&self) -> Column;

    fn row(&self) -> (r: Row)
        ensures
            r == self.spec_row(),
    ;

    fn col(&self) -> (c: Column)
        ensures
            c == self.spec_col(),
    ;
}

} // verus!
