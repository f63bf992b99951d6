use vstd::prelude::*;

use crate::shared::treasure::TreasureID;
use crate::shared::treasure::TreasureQuantity;
use crate::shared::treasure::TreasureType;
use crate::shared::WorldCoordinates;

verus! {

/// What a treasure collection is used for.
///
/// * `Uninst`: not decided yet; the state in which a builder starts.
/// * `TreasureChest`: the content of a treasure tile.
/// * `PlayerInventory`: what a player carries.
#[derive(Clone, Copy, Debug, PartialEq, Eq, Structural)]
pub enum TreasureCollectionVariant {
    Uninst,
    TreasureChest,
    PlayerInventory,
}

impl Default for TreasureCollectionVariant {
    fn default() -> (v: TreasureCollectionVariant)
        ensures
            v == TreasureCollectionVariant::Uninst,
    {
        TreasureCollectionVariant::Uninst
    }
}

/// Quantities of treasure, by kind, in the order in which they were added.
/// A chest knows the cell it stands on; an inventory has no cell.
#[derive(Debug, PartialEq, Eq)]
pub struct TreasureCollection {
    pub variant: TreasureCollectionVariant,
    pub items: Vec<(TreasureType, TreasureQuantity)>,
    pub world_coords: Option<WorldCoordinates>,
}

/// A treasure collection as a mathematical value.
pub struct TreasureCollectionView {
    pub variant: TreasureCollectionVariant,
    pub items: Seq<(TreasureType, TreasureQuantity)>,
    pub world_coords: Option<WorldCoordinates>,
}

impl View for TreasureCollection {
    type V = TreasureCollectionView;

    open spec fn view(&self) -> TreasureCollectionView {
        TreasureCollectionView {
            variant: self.variant,
            items: self.items@,
            world_coords: self.world_coords,
        }
    }
}

/// The sum of the quantities that `items` holds of `kind`.
pub open spec fn quantity_of(items: Seq<(TreasureType, TreasureQuantity)>, kind: TreasureType) -> nat
    decreases items.len(),
{
    if items.len() == 0 {
        0
    } else if items[0].0 == kind {
        items[0].1 as nat + quantity_of(items.skip(1), kind)
    } else {
        quantity_of(items.skip(1), kind)
    }
}

/// The items that a list of identifiers and quantities stands for.
pub open spec fn typed_items(raw: Seq<(TreasureID, TreasureQuantity)>) -> Seq<
    (TreasureType, TreasureQuantity),
> {
    raw.map_values(|p: (TreasureID, TreasureQuantity)| (TreasureType::of_id(p.0), p.1))
}

/// Whether every identifier in `raw` names a kind of treasure.
pub open spec fn all_ids_valid(raw: Seq<(TreasureID, TreasureQuantity)>) -> bool {
    forall|i: int| 0 <= i < raw.len() ==> TreasureType::valid_id(#[trigger] raw[i].0)
}

impl TreasureCollectionView {
    /// A chest stands on a cell, an inventory on none, and a collection that
    /// is in use is one of the two.
    pub open spec fn wf(self) -> bool {
        match self.variant {
            TreasureCollectionVariant::TreasureChest => self.world_coords is Some,
            TreasureCollectionVariant::PlayerInventory => self.world_coords is None,
            TreasureCollectionVariant::Uninst => false,
        }
    }
}

impl TreasureCollection {
    /// Starts a collection whose variant is not decided yet.
    pub fn builder() -> (b: TreasureCollectionBuilder)
        ensures
            b@ == (TreasureCollectionView {
                variant: TreasureCollectionVariant::Uninst,
                items: Seq::empty(),
                world_coords: None,
            }),
    {
        TreasureCollectionBuilder {
            variant: TreasureCollectionVariant::Uninst,
            items: Vec::new(),
            world_coords: None,
        }
    }
}

impl Clone for TreasureCollection {
    /// A copy of this collection.
    fn clone(&self) -> (copy: TreasureCollection)
        ensures
            copy@ == self@,
    {
        let mut items: Vec<(TreasureType, TreasureQuantity)> = Vec::new();
        let mut i: usize = 0;
        while i < self.items.len()
            invariant
                i <= self.items.len(),
                items@ == self.items@.take(i as int),
            decreases self.items.len() - i,
        {
            let item = self.items[i];
            items.push(item);
            i += 1;
        }
        assert(self.items@.take(self.items.len() as int) =~= self.items@);
        TreasureCollection { variant: self.variant, items, world_coords: self.world_coords }
    }
}

/// Puts a treasure collection together step by step.
pub struct TreasureCollectionBuilder {
    variant: TreasureCollectionVariant,
    items: Vec<(TreasureType, TreasureQuantity)>,
    world_coords: Option<WorldCoordinates>,
}

impl View for TreasureCollectionBuilder {
    type V = TreasureCollectionView;

    /// The collection that `build` would hand out now.
    closed spec fn view(&self) -> TreasureCollectionView {
        TreasureCollectionView {
            variant: self.variant,
            items: self.items@,
            world_coords: self.world_coords,
        }
    }
}

impl TreasureCollectionBuilder {
    /// Starts a collection of the given variant, with no items and no cell.
    pub fn new(variant: TreasureCollectionVariant) -> (b: TreasureCollectionBuilder)
        ensures
            b@ == (TreasureCollectionView { variant, items: Seq::empty(), world_coords: None }),
    {
        TreasureCollectionBuilder { variant, items: Vec::with_capacity(1), world_coords: None }
    }

    /// Adds the items that `items` lists by identifier, in their order, behind
    /// those that are there already.
    pub fn items(self, items: &[(TreasureID, TreasureQuantity)]) -> (b: TreasureCollectionBuilder)
        requires
            self@.variant != TreasureCollectionVariant::Uninst,
            all_ids_valid(items@),
        ensures
            b@ == (TreasureCollectionView {
                items: self@.items + typed_items(items@),
                ..self@
            }),
    {
        let mut builder = self;
        let mut i: usize = 0;
        while i < items.len()
            invariant
                i <= items.len(),
                all_ids_valid(items@),
                builder.variant == self.variant,
                builder.world_coords == self.world_coords,
                builder.items@ == self.items@ + typed_items(items@).take(i as int),
            decreases items.len() - i,
        {
            let (id, quantity) = items[i];
            builder.items.push((TreasureType::from_id(id), quantity));
            i += 1;
        }
        assert(typed_items(items@).take(items.len() as int) =~= typed_items(items@));
        builder
    }

    /// Sets the cell on which the chest stands.
    pub fn coords(self, coords: WorldCoordinates) -> (b: TreasureCollectionBuilder)
        requires
            self@.variant == TreasureCollectionVariant::TreasureChest,
        ensures
            b@ == (TreasureCollectionView { world_coords: Some(coords), ..self@ }),
    {
        let mut builder = self;
        builder.world_coords = Some(coords);
        builder
    }

    /// Hands out the collection.
    pub fn build(self) -> (c: TreasureCollection)
        ensures
            c@ == self@,
    {
        TreasureCollection {
            variant: self.variant,
            items: self.items,
            world_coords: self.world_coords,
        }
    }
}

} // verus!
