use vstd::prelude::*;

verus! {

/// The state of a lockable or collectible tile.
///
/// A door is `locked()` or `unlocked()`; a treasure is `uncollected()` or
/// `collected()`. The two pairs share their identifiers, so a state only has
/// a meaning together with the tile that carries it.
#[derive(Debug, PartialEq, Eq, Structural, Clone, Copy, Hash)]
pub struct CommonState(pub u8);

impl CommonState {
    /// The state of a door that was opened.
    #[verifier::allow_in_spec]
    pub fn unlocked() -> CommonState
        returns
            CommonState(1),
    {
        CommonState(1)
    }

    /// The state of a treasure that was picked up.
    #[verifier::allow_in_spec]
    pub fn collected() -> CommonState
        returns
            CommonState(1),
    {
        CommonState(1)
    }

    /// The state of a door that still needs its key.
    #[verifier::allow_in_spec]
    pub fn locked() -> CommonState
        returns
            CommonState(2),
    {
        CommonState(2)
    }

    /// The state of a treasure that still lies in its chest.
    #[verifier::allow_in_spec]
    pub fn uncollected() -> CommonState
        returns
            CommonState(2),
    {
        CommonState(2)
    }

    /// The identifier of the state: 1 for unlocked and collected, 2 for locked
    /// and uncollected.
    pub fn to_id(&self) -> (id: usize)
        ensures
            id == self.0,
    {
        self.0 as usize
    }
}

} // verus!
