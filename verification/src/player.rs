use vstd::prelude::*;

use crate::shared::search::first_index;
use crate::shared::search::lemma_first_index;
use crate::shared::search::lemma_first_index_is;
use crate::shared::traits::Moveable;
use crate::shared::traits::Positionable;
use crate::shared::treasure::TreasureCollection;
use crate::shared::treasure::TreasureCollectionBuilder;
use crate::shared::treasure::TreasureCollectionVariant;
use crate::shared::treasure::TreasureCollectionView;
use crate::shared::treasure::TreasureQuantity;
use crate::shared::treasure::TreasureType;
use crate::shared::Column;
use crate::shared::KeyDoorLink;
use crate::shared::MoveDirection;
use crate::shared::Position;
use crate::shared::Row;
use crate::shared::WorldCoordinates;

verus! {

/// The player: where it stands, where it proposes to go, where it stood
/// before, the keys it carries and its inventory.
#[derive(Debug, PartialEq, Eq)]
pub struct Player {
    draw: char,
    position: Position,
    new_position: Position,
    previous_position: Position,
    pub keyring: Vec<KeyDoorLink>,
    pub inventory: TreasureCollection,
}

/// A player as a mathematical value.
pub struct PlayerView {
    pub draw: char,
    pub position: Position,
    pub new_position: Position,
    pub previous_position: Position,
    pub keyring: Seq<KeyDoorLink>,
    pub inventory: TreasureCollectionView,
}

/// The index of the first item of `kind` in `items`, or the length of
/// `items` if there is none.
pub open spec fn first_of_kind(items: Seq<(TreasureType, TreasureQuantity)>, kind: TreasureType) -> int {
    first_index(items, of_kind(kind))
}

/// Whether an item is of `kind`.
pub open spec fn of_kind(kind: TreasureType) -> spec_fn((TreasureType, TreasureQuantity)) -> bool {
    |item: (TreasureType, TreasureQuantity)| item.0 == kind
}

/// Whether a link opens the door on `door`.
pub open spec fn opens(door: WorldCoordinates) -> spec_fn(KeyDoorLink) -> bool {
    |link: KeyDoorLink| link.door == door
}

/// `items` after `quantity` of `kind` was added: the quantity goes to the
/// first item of that kind, or to a new item behind the others if there is
/// none. `None` if the sum leaves the range of a quantity.
pub open spec fn deposit(
    items: Seq<(TreasureType, TreasureQuantity)>,
    kind: TreasureType,
    quantity: TreasureQuantity,
) -> Option<Seq<(TreasureType, TreasureQuantity)>> {
    let i = first_of_kind(items, kind);
    if i < items.len() {
        if items[i].1 + quantity <= u64::MAX {
            Some(items.update(i, (kind, (items[i].1 + quantity) as u64)))
        } else {
            None
        }
    } else {
        Some(items.push((kind, quantity)))
    }
}

/// `items` after every item of `added` was deposited, first to last. `None`
/// if one of the sums leaves the range of a quantity.
pub open spec fn deposit_all(
    items: Seq<(TreasureType, TreasureQuantity)>,
    added: Seq<(TreasureType, TreasureQuantity)>,
) -> Option<Seq<(TreasureType, TreasureQuantity)>>
    decreases added.len(),
{
    if added.len() == 0 {
        Some(items)
    } else {
        match deposit(items, added[0].0, added[0].1) {
            Some(next) => deposit_all(next, added.skip(1)),
            None => None,
        }
    }
}

/// The index of the first link in `keyring` that opens the door on `door`,
/// or the length of `keyring` if there is none.
pub open spec fn first_key_for(keyring: Seq<KeyDoorLink>, door: WorldCoordinates) -> int {
    first_index(keyring, opens(door))
}

/// `first_of_kind` is an index at which an item of `kind` stands, with none
/// before it; or the length of `items`, and no item is of `kind`.
pub proof fn lemma_first_of_kind(items: Seq<(TreasureType, TreasureQuantity)>, kind: TreasureType)
    ensures
        0 <= first_of_kind(items, kind) <= items.len(),
        first_of_kind(items, kind) < items.len() ==> items[first_of_kind(items, kind)].0 == kind,
        forall|j: int| 0 <= j < first_of_kind(items, kind) ==> (#[trigger] items[j]).0 != kind,
{
    lemma_first_index(items, of_kind(kind));
}

/// `first_key_for` is an index at which a link to `door` stands, with none
/// before it; or the length of `keyring`, and no link leads to `door`.
pub proof fn lemma_first_key_for(keyring: Seq<KeyDoorLink>, door: WorldCoordinates)
    ensures
        0 <= first_key_for(keyring, door) <= keyring.len(),
        first_key_for(keyring, door) < keyring.len() ==> keyring[first_key_for(
            keyring,
            door,
        )].door == door,
        forall|j: int| 0 <= j < first_key_for(keyring, door) ==> (#[trigger] keyring[j]).door != door,
{
    lemma_first_index(keyring, opens(door));
}

impl View for Player {
    type V = PlayerView;

    closed spec fn view(&self) -> PlayerView {
        PlayerView {
            draw: self.draw,
            position: self.position,
            new_position: self.new_position,
            previous_position: self.previous_position,
            keyring: self.keyring@,
            inventory: self.inventory@,
        }
    }
}

impl PlayerView {
    /// The inventory is an inventory, and its first item is the gold.
    pub open spec fn wf(self) -> bool {
        &&& self.inventory.variant == TreasureCollectionVariant::PlayerInventory
        &&& self.inventory.wf()
        &&& self.inventory.items.len() > 0
        &&& self.inventory.items[0].0 == TreasureType::Gold
    }

    /// The gold that the player owns.
    pub open spec fn gold(self) -> TreasureQuantity {
        self.inventory.items[0].1
    }

    /// Whether the player can propose a move in `direction`: whether the
    /// image of its position under the transform of the move can be built.
    pub open spec fn can_propose(self, direction: MoveDirection) -> bool {
        direction.transform().fits(self.position)
    }

    /// The player after it proposed a move in `direction`: the proposal is
    /// the image of its position under the transform of the move, and the
    /// previous position is where it stands.
    pub open spec fn proposing(self, direction: MoveDirection) -> PlayerView {
        PlayerView {
            new_position: direction.transform().image(self.position),
            previous_position: self.position,
            ..self
        }
    }

    /// The player after it committed its proposal.
    pub open spec fn committed(self) -> PlayerView {
        PlayerView { position: self.new_position, ..self }
    }
}

impl Player {
    /// Whether the inventory is an inventory whose first item is the gold.
    pub open spec fn wf(&self) -> bool {
        self@.wf()
    }

    /// A player who stands on `position`, proposes nothing else, carries no
    /// key and owns no gold.
    pub fn new(draw: char, position: Position) -> (player: Player)
        ensures
            player.wf(),
            player@ == (PlayerView {
                draw,
                position,
                new_position: position,
                previous_position: position,
                keyring: Seq::empty(),
                inventory: TreasureCollectionView {
                    variant: TreasureCollectionVariant::PlayerInventory,
                    items: seq![(TreasureType::Gold, 0u64)],
                    world_coords: None,
                },
            }),
    {
        let gold: [(usize, TreasureQuantity); 1] = [(TreasureType::Gold.to_id(), 0)];
        let inventory = TreasureCollectionBuilder::new(
            TreasureCollectionVariant::PlayerInventory,
        ).items(gold.as_slice()).build();
        proof {
            assert(inventory@.items =~= seq![(TreasureType::Gold, 0u64)]);
        }
        Player {
            new_position: position,
            previous_position: position,
            keyring: Vec::new(),
            draw,
            position,
            inventory,
        }
    }

    /// Tells whether the inventory is an inventory whose first item is the
    /// gold.
    pub fn is_wf(&self) -> (b: bool)
        ensures
            b == self.wf(),
    {
        let is_inventory = match self.inventory.variant {
            TreasureCollectionVariant::PlayerInventory => true,
            _ => false,
        };
        let has_gold = self.inventory.items.len() > 0 && match self.inventory.items[0].0 {
            TreasureType::Gold => true,
            _ => false,
        };
        is_inventory && self.inventory.world_coords.is_none() && has_gold
    }

    /// The gold that the player owns.
    pub fn gold_qty(&self) -> (gold: u64)
        requires
            self.wf(),
        ensures
            gold == self@.gold(),
    {
        self.inventory.items[0].1
    }

    /// Adds `quantity` to the gold that the player owns.
    pub fn add_gold(&mut self, quantity: u64)
        requires
            old(self).wf(),
            old(self)@.gold() + quantity <= u64::MAX,
        ensures
            final(self).wf(),
            final(self)@ == (PlayerView {
                inventory: TreasureCollectionView {
                    items: old(self)@.inventory.items.update(
                        0,
                        (TreasureType::Gold, (old(self)@.gold() + quantity) as u64),
                    ),
                    ..old(self)@.inventory
                },
                ..old(self)@
            }),
    {
        let gold = self.inventory.items[0].1;
        self.inventory.items[0] = (TreasureType::Gold, gold + quantity);
    }

    /// The symbol that the player draws.
    pub fn to_symbol(&self) -> (c: char)
        ensures
            c == self@.draw,
    {
        self.draw
    }

    /// Puts the link `link` on the keyring, behind the others.
    pub fn add_key(&mut self, link: KeyDoorLink)
        ensures
            final(self)@ == (PlayerView { keyring: old(self)@.keyring.push(link), ..old(self)@ }),
    {
        self.keyring.push(link);
    }

    /// Takes the first link that opens the door on `door` off the keyring and
    /// hands it out; `None`, and the keyring stays, if there is no such link.
    pub fn take_key_for(&mut self, door: WorldCoordinates) -> (link: Option<KeyDoorLink>)
        ensures
            ({
                let keys = old(self)@.keyring;
                let i = first_key_for(keys, door);
                if i < keys.len() {
                    &&& link == Some(keys[i])
                    &&& final(self)@ == (PlayerView { keyring: keys.remove(i), ..old(self)@ })
                } else {
                    &&& link is None
                    &&& final(self)@ == old(self)@
                }
            }),
    {
        let ghost wanted = opens(door);
        let mut i: usize = 0;
        while i < self.keyring.len()
            invariant
                i <= self.keyring.len(),
                *self == *old(self),
                wanted == opens(door),
                forall|j: int| 0 <= j < i ==> !wanted(#[trigger] self.keyring@[j]),
            decreases self.keyring.len() - i,
        {
            let link = self.keyring[i];
            if link.door.0 == door.0 && link.door.1 == door.1 {
                proof {
                    lemma_first_index_is(self.keyring@, wanted, i as int);
                }
                let taken = self.keyring.remove(i);
                return Some(taken);
            }
            i += 1;
        }
        proof {
            lemma_first_index_is(self.keyring@, wanted, i as int);
        }
        None
    }

    /// Adds the items of `added` to the inventory, each to the first item of
    /// its kind or, if there is none, as a new item behind the others.
    /// Answers `false`, and leaves the inventory as it is, if one of the sums
    /// would leave the range of a quantity.
    pub fn receive(&mut self, added: &Vec<(TreasureType, TreasureQuantity)>) -> (done: bool)
        ensures
            match deposit_all(old(self)@.inventory.items, added@) {
                Some(items) => done && final(self)@ == (PlayerView {
                    inventory: TreasureCollectionView { items, ..old(self)@.inventory },
                    ..old(self)@
                }),
                None => !done && final(self)@ == old(self)@,
            },
    {
        let ghost start = self.inventory.items@;
        let mut items: Vec<(TreasureType, TreasureQuantity)> = Vec::new();
        let mut k: usize = 0;
        while k < self.inventory.items.len()
            invariant
                k <= self.inventory.items.len(),
                *self == *old(self),
                items@ == self.inventory.items@.take(k as int),
            decreases self.inventory.items.len() - k,
        {
            let item = self.inventory.items[k];
            items.push(item);
            k += 1;
        }
        assert(items@ =~= start);
        assert(added@.skip(0) =~= added@);
        let mut i: usize = 0;
        while i < added.len()
            invariant
                i <= added.len(),
                *self == *old(self),
                start == old(self)@.inventory.items,
                deposit_all(start, added@) == deposit_all(items@, added@.skip(i as int)),
            decreases added.len() - i,
        {
            let (kind, quantity) = added[i];
            let ghost before = items@;
            let ghost rest = added@.skip(i as int);
            proof {
                assert(rest[0] == added@[i as int]);
                assert(rest.skip(1) =~= added@.skip(i + 1));
            }
            let ghost wanted = of_kind(kind);
            let mut j: usize = 0;
            while j < items.len() && !same_kind(items[j].0, kind)
                invariant
                    j <= items.len(),
                    items@ == before,
                    wanted == of_kind(kind),
                    forall|m: int| 0 <= m < j ==> !wanted(#[trigger] items@[m]),
                decreases items.len() - j,
            {
                j += 1;
            }
            proof {
                lemma_first_index_is(items@, wanted, j as int);
            }
            if j < items.len() {
                let held = items[j].1;
                if held > u64::MAX - quantity {
                    return false;
                }
                items[j] = (kind, held + quantity);
            } else {
                items.push((kind, quantity));
            }
            i += 1;
        }
        proof {
            assert(added@.skip(added.len() as int).len() == 0);
        }
        self.inventory.items = items;
        true
    }
}

/// Tells whether two kinds of treasure are the same.
fn same_kind(a: TreasureType, b: TreasureType) -> (same: bool)
    ensures
        same == (a == b),
{
    a == b
}

impl Clone for Player {
    /// A copy of this player.
    fn clone(&self) -> (copy: Player)
        ensures
            copy@ == self@,
    {
        let mut keyring: Vec<KeyDoorLink> = Vec::new();
        let mut i: usize = 0;
        while i < self.keyring.len()
            invariant
                i <= self.keyring.len(),
                keyring@ == self.keyring@.take(i as int),
            decreases self.keyring.len() - i,
        {
            keyring.push(self.keyring[i]);
            i += 1;
        }
        assert(self.keyring@.take(self.keyring.len() as int) =~= self.keyring@);
        Player {
            draw: self.draw,
            position: self.position,
            new_position: self.new_position,
            previous_position: self.previous_position,
            keyring,
            inventory: self.inventory.clone(),
        }
    }
}

impl Positionable for Player {
    open spec fn spec_row(&self) -> Row {
        self@.position.y as usize
    }

    open spec fn spec_col(&self) -> Column {
        self@.position.x as usize
    }

    /// The row on which the player stands: the `y` of its position, cut to
    /// the width of an index.
    fn row(&self) -> (r: Row) {
        #[verifier::truncate]
        (self.position.y as Row)
    }

    /// The column on which the player stands: the `x` of its position, cut
    /// to the width of an index.
    fn col(&self) -> (c: Column) {
        #[verifier::truncate]
        (self.position.x as Column)
    }
}

impl Moveable for Player {
    open spec fn spec_new_row(&self) -> Row {
        self@.new_position.y as usize
    }

    open spec fn spec_new_col(&self) -> Column {
        self@.new_position.x as usize
    }

    open spec fn can_propose(&self, direction: MoveDirection) -> bool {
        self@.can_propose(direction)
    }

    closed spec fn proposing(&self, direction: MoveDirection) -> Player {
        Player {
            new_position: self@.proposing(direction).new_position,
            previous_position: self.position,
            ..*self
        }
    }

    closed spec fn committed(&self) -> Player {
        Player { position: self.new_position, ..*self }
    }

    fn new_row(&self) -> (r: Row) {
        #[verifier::truncate]
        (self.new_position.y as Row)
    }

    fn new_col(&self) -> (c: Column) {
        #[verifier::truncate]
        (self.new_position.x as Column)
    }

    fn can_translate(&self, direction: MoveDirection) -> (b: bool) {
        direction.translate().can_apply(&self.position)
    }

    fn translate(&mut self, direction: MoveDirection) -> (moved: &Player)
        ensures
            final(self)@ == old(self)@.proposing(direction),
    {
        self.previous_position = self.position;
        self.new_position = direction.translate().apply(&self.position);
        self
    }

    fn translate_into(&mut self)
        ensures
            final(self)@ == old(self)@.committed(),
    {
        self.position = self.new_position;
    }
}

impl Player {
    /// What a proposal and a commit do to a player, as mathematical values.
    pub proof fn lemma_moves(self, direction: MoveDirection)
        ensures
            self.proposing(direction)@ == self@.proposing(direction),
            self.committed()@ == self@.committed(),
    {
    }
}

} // verus!
