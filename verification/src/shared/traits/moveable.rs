use vstd::prelude::*;

use crate::shared::traits::Positionable;
use crate::shared::Column;
use crate::shared::MoveDirection;
use crate::shared::Row;

verus! {

/// An entity that moves in two steps: it proposes a cell, and then commits
/// the proposal or leaves it.
pub trait Moveable: Positionable {
    /// The row of the proposed cell.
    spec fn spec_new_row(&self) -> Row;

    /// The column of the proposed cell.
    spec fn spec_new_col(&self) -> Column;

    /// Whether the entity can propose a move in `direction`: whether the
    /// proposed cell has coordinates that the entity can hold.
    spec fn can_propose(&self, direction: MoveDirection) -> bool;

    /// The entity after it has proposed a move in `direction`.
    spec fn proposing(&self, direction: MoveDirection) -> Self;

    /// The entity after it has committed its proposal.
    spec fn committed(&self) -> Self;

    fn new_row(&self) -> (r: Row)
        ensures
            r == self.spec_new_row(),
    ;

    fn new_col(&self) -> (c: Column)
        ensures
            c == self.spec_new_col(),
    ;

    /// Tells whether `translate` may be called with `direction`.
    fn can_translate(&self, direction: MoveDirection) -> (b: bool)
        ensures
            b == self.can_propose(direction),
    ;

    /// Proposes a move in `direction`. The entity stays where it stands.
    fn translate(&mut self, direction: MoveDirection) -> (moved: &Self)
        requires
            old(self).can_propose(direction),
        ensures
            *final(self) == old(self).proposing(direction),
            *moved == old(self).proposing(direction),
            final(self).spec_row() == old(self).spec_row(),
            final(self).spec_col() == old(self).spec_col(),
    ;

    /// Commits the proposal: the entity now stands on the proposed cell, and
    /// the proposal stays as it is.
    fn translate_into(&mut self)
        ensures
            *final(self) == old(self).committed(),
            final(self).spec_row() == old(self).spec_new_row(),
            final(self).spec_col() == old(self).spec_new_col(),
            final(self).spec_new_row() == old(self).spec_new_row(),
            final(self).spec_new_col() == old(self).spec_new_col(),
    ;
}

} // verus!
