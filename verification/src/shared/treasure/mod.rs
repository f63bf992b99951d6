//! Treasure: its kinds, and the collections that hold it.

use vstd::prelude::*;

pub mod treasure_collection;
pub mod treasure_type;

pub use treasure_collection::TreasureCollection;
pub use treasure_collection::TreasureCollectionBuilder;
pub use treasure_collection::TreasureCollectionVariant;
pub use treasure_collection::TreasureCollectionView;
pub use treasure_type::TreasureType;

verus! {

/// The identifier of a kind of treasure.
pub type TreasureID = usize;

/// A quantity of treasure.
pub type TreasureQuantity = u64;

} // verus!
