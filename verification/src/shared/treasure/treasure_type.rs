use vstd::prelude::*;

verus! {

/// The kinds of treasure.
#[derive(Clone, Copy, Debug, PartialEq, Eq, Structural, Hash)]
pub enum TreasureType {
    Gold,
    Potion,
    Armor,
    Weapon,
}

impl TreasureType {
    /// The identifier of each kind: 1 for gold, 2 for a potion, 3 for armor,
    /// 4 for a weapon.
    pub open spec fn id(self) -> usize {
        match self {
            TreasureType::Gold => 1,
            TreasureType::Potion => 2,
            TreasureType::Armor => 3,
            TreasureType::Weapon => 4,
        }
    }

    /// Whether `id` identifies a kind of treasure.
    pub open spec fn valid_id(id: usize) -> bool {
        1 <= id <= 4
    }

    /// The kind that `id` identifies.
    pub open spec fn of_id(id: usize) -> TreasureType {
        if id == 1 {
            TreasureType::Gold
        } else if id == 2 {
            TreasureType::Potion
        } else if id == 3 {
            TreasureType::Armor
        } else {
            TreasureType::Weapon
        }
    }

    /// The identifier of this kind.
    pub fn to_id(&self) -> (id: usize)
        ensures
            id == self.id(),
            TreasureType::valid_id(id),
    {
        match self {
            TreasureType::Gold => 1,
            TreasureType::Potion => 2,
            TreasureType::Armor => 3,
            TreasureType::Weapon => 4,
        }
    }

    /// Tells whether `id` identifies a kind of treasure.
    pub fn is_valid_id(id: usize) -> (b: bool)
        ensures
            b == TreasureType::valid_id(id),
    {
        1 <= id && id <= 4
    }

    /// The kind that `id` identifies.
    pub fn from_id(id: usize) -> (t: TreasureType)
        requires
            TreasureType::valid_id(id),
        ensures
            t == TreasureType::of_id(id),
            t.id() == id,
    {
        if id == 1 {
            TreasureType::Gold
        } else if id == 2 {
            TreasureType::Potion
        } else if id == 3 {
            TreasureType::Armor
        } else {
            TreasureType::Weapon
        }
    }

    /// Identifiers and kinds correspond one to one.
    pub proof fn lemma_id_round_trip(t: TreasureType)
        ensures
            TreasureType::valid_id(t.id()),
            TreasureType::of_id(t.id()) == t,
    {
    }
}

} // verus!
