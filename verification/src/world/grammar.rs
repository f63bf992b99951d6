//! The directives as they are written: every line that is put together as
//! the grammar says is read, and is read as what it says.

use vstd::prelude::*;

use crate::shared::treasure::treasure_collection::typed_items;
use crate::shared::treasure::TreasureCollectionVariant;
use crate::shared::treasure::TreasureCollectionView;
use crate::shared::treasure::TreasureID;
use crate::shared::treasure::TreasureQuantity;
use crate::shared::treasure::TreasureType;
use crate::shared::KeyDoorLink;
use crate::world::map_text::chest_middle;
use crate::world::map_text::chest_of;
use crate::world::map_text::chest_open;
use crate::world::map_text::close;
use crate::world::map_text::comma;
use crate::world::map_text::coords_at;
use crate::world::map_text::decimal;
use crate::world::map_text::digits_end;
use crate::world::map_text::equals;
use crate::world::map_text::equals_at;
use crate::world::map_text::stands_at;
use crate::world::map_text::is_digit;
use crate::world::map_text::item_at;
use crate::world::map_text::item_gap;
use crate::world::map_text::items_at;
use crate::world::map_text::key_open;
use crate::world::map_text::link_middle;
use crate::world::map_text::link_of;
use crate::world::map_text::number_at;
use crate::world::map_text::spaced_equals;

verus! {

/// Whether `digits` writes a number that is at most `max`: one or more
/// digits, with leading zeros or without.
pub open spec fn writes_number(digits: Seq<u8>, max: nat) -> bool {
    &&& digits.len() > 0
    &&& forall|i: int| 0 <= i < digits.len() ==> is_digit(#[trigger] digits[i])
    &&& decimal(digits) <= max
}

/// An item as it is written: the digits of its identifier, the digits of
/// its quantity, and whether its `=` stands between spaces.
pub struct WrittenItem {
    pub id: Seq<u8>,
    pub quantity: Seq<u8>,
    pub spaced: bool,
}

impl WrittenItem {
    /// Whether the item names a kind of treasure and a quantity.
    pub open spec fn valid(self) -> bool {
        &&& writes_number(self.id, usize::MAX as nat)
        &&& TreasureType::valid_id(decimal(self.id) as usize)
        &&& writes_number(self.quantity, u64::MAX as nat)
    }

    /// The text of the item: `id=qty` or `id = qty`.
    pub open spec fn text(self) -> Seq<u8> {
        self.id + (if self.spaced {
            spaced_equals()
        } else {
            equals()
        }) + self.quantity
    }

    /// The identifier and the quantity that the item names.
    pub open spec fn value(self) -> (TreasureID, TreasureQuantity) {
        (decimal(self.id) as usize, decimal(self.quantity) as u64)
    }
}

/// The text of a list of items: the items with `, ` between them.
pub open spec fn items_text(items: Seq<WrittenItem>) -> Seq<u8>
    decreases items.len(),
{
    if items.len() == 0 {
        Seq::empty()
    } else if items.len() == 1 {
        items[0].text()
    } else {
        items[0].text() + item_gap() + items_text(items.skip(1))
    }
}

/// The identifiers and quantities that a list of items names.
pub open spec fn items_value(items: Seq<WrittenItem>) -> Seq<(TreasureID, TreasureQuantity)> {
    items.map_values(|item: WrittenItem| item.value())
}

/// The text of a key link: `~K(r,c) = D(r,c)`.
pub open spec fn link_text(
    key_row: Seq<u8>,
    key_col: Seq<u8>,
    door_row: Seq<u8>,
    door_col: Seq<u8>,
) -> Seq<u8> {
    key_open() + key_row + comma() + key_col + link_middle() + door_row + comma() + door_col
        + close()
}

/// The text of a chest: `~T(r,c) = (items)`.
pub open spec fn chest_text(row: Seq<u8>, col: Seq<u8>, items: Seq<WrittenItem>) -> Seq<u8> {
    chest_open() + row + comma() + col + chest_middle() + items_text(items) + close()
}

/// A run of `len` digits at `from` that no digit follows ends behind its
/// last digit.
proof fn lemma_run_ends(s: Seq<u8>, from: int, len: int)
    requires
        0 <= from,
        0 <= len,
        from + len <= s.len(),
        forall|i: int| from <= i < from + len ==> is_digit(#[trigger] s[i]),
        from + len == s.len() || !is_digit(s[from + len]),
    ensures
        digits_end(s, from) == from + len,
    decreases len,
{
    if len > 0 {
        lemma_run_ends(s, from + 1, len - 1);
    }
}

/// A number that stands between `before` and `after` is read at the length
/// of `before`, if no digit follows it.
proof fn lemma_number_is_read(before: Seq<u8>, digits: Seq<u8>, after: Seq<u8>, max: nat)
    requires
        writes_number(digits, max),
        after.len() == 0 || !is_digit(after[0]),
    ensures
        number_at(before + digits + after, before.len() as int, max) == Some(
            (decimal(digits), (before.len() + digits.len()) as int),
        ),
{
    let s = before + digits + after;
    let from = before.len() as int;
    assert forall|i: int| from <= i < from + digits.len() implies is_digit(#[trigger] s[i]) by {
        assert(s[i] == digits[i - from]);
    }
    if after.len() != 0 {
        assert(s[from + digits.len()] == after[0]);
    }
    lemma_run_ends(s, from, digits.len() as int);
    assert(s.subrange(from, from + digits.len()) =~= digits);
}

/// What stands between `before` and `after` stands at the length of
/// `before`.
proof fn lemma_literal_is_found(before: Seq<u8>, lit: Seq<u8>, after: Seq<u8>)
    ensures
        stands_at(before + lit + after, before.len() as int, lit),
{
    let s = before + lit + after;
    assert(s.subrange(before.len() as int, (before.len() + lit.len()) as int) =~= lit);
}

/// A cell that stands between `before` and `after` as `r,c` is read at the
/// length of `before`, if no digit follows it.
proof fn lemma_coords_are_read(
    before: Seq<u8>,
    row: Seq<u8>,
    col: Seq<u8>,
    after: Seq<u8>,
)
    requires
        writes_number(row, usize::MAX as nat),
        writes_number(col, usize::MAX as nat),
        after.len() == 0 || !is_digit(after[0]),
    ensures
        coords_at(before + row + comma() + col + after, before.len() as int) == Some(
            (
                (decimal(row) as usize, decimal(col) as usize),
                (before.len() + row.len() + 1 + col.len()) as int,
            ),
        ),
{
    let s = before + row + comma() + col + after;
    assert(s =~= before + row + (comma() + col + after));
    lemma_number_is_read(before, row, comma() + col + after, usize::MAX as nat);
    assert(s =~= (before + row) + comma() + (col + after));
    lemma_literal_is_found(before + row, comma(), col + after);
    assert(s =~= (before + row + comma()) + col + after);
    lemma_number_is_read(before + row + comma(), col, after, usize::MAX as nat);
}

/// An item that stands between `before` and `after` is read at the length
/// of `before`, if no digit follows it.
proof fn lemma_item_is_read(before: Seq<u8>, item: WrittenItem, after: Seq<u8>)
    requires
        item.valid(),
        after.len() == 0 || !is_digit(after[0]),
    ensures
        item_at(before + item.text() + after, before.len() as int) == Some(
            (item.value(), (before.len() + item.text().len()) as int),
        ),
{
    let sign = if item.spaced {
        spaced_equals()
    } else {
        equals()
    };
    let s = before + item.text() + after;
    assert(s =~= before + item.id + (sign + item.quantity + after));
    assert((sign + item.quantity + after)[0] == sign[0]);
    lemma_number_is_read(before, item.id, sign + item.quantity + after, usize::MAX as nat);
    assert(s =~= (before + item.id) + sign + (item.quantity + after));
    lemma_literal_is_found(before + item.id, sign, item.quantity + after);
    let p = (before.len() + item.id.len()) as int;
    if !item.spaced {
        assert(s[p] == 61u8);
        assert(!stands_at(s, p, spaced_equals())) by {
            if stands_at(s, p, spaced_equals()) {
                assert(s.subrange(p, p + 3)[0] == spaced_equals()[0]);
            }
        }
    }
    assert(equals_at(s, p) == Some(p + sign.len()));
    assert(s =~= (before + item.id + sign) + item.quantity + after);
    lemma_number_is_read(before + item.id + sign, item.quantity, after, u64::MAX as nat);
}

/// The text of valid items begins with a digit, holds at least one byte,
/// and holds nothing but what items are written with.
proof fn lemma_items_text_starts(items: Seq<WrittenItem>)
    requires
        items.len() > 0,
        forall|i: int| 0 <= i < items.len() ==> (#[trigger] items[i]).valid(),
    ensures
        items_text(items).len() > 0,
        is_digit(items_text(items)[0]),
{
    let first = items[0];
    assert(first.valid());
    assert(first.text()[0] == first.id[0]);
    if items.len() > 1 {
        assert(items_text(items)[0] == first.text()[0]);
    }
}

/// Three ways to put five parts together.
proof fn lemma_regroup_five(a: Seq<u8>, b: Seq<u8>, c: Seq<u8>, d: Seq<u8>, e: Seq<u8>)
    ensures
        a + (b + c + d) + e == a + b + (c + d + e),
        a + (b + c + d) + e == (a + b) + c + (d + e),
        a + (b + c + d) + e == (a + b + c) + d + e,
{
    assert(a + (b + c + d) + e =~= a + b + (c + d + e));
    assert(a + (b + c + d) + e =~= (a + b) + c + (d + e));
    assert(a + (b + c + d) + e =~= (a + b + c) + d + e);
}

/// An item with `, ` and further items behind it is read as the first of
/// those items.
proof fn lemma_item_and_more(
    s: Seq<u8>,
    pos: int,
    item: (TreasureID, TreasureQuantity),
    end: int,
    rest: Seq<(TreasureID, TreasureQuantity)>,
    last: int,
)
    requires
        item_at(s, pos) == Some((item, end)),
        pos < end,
        stands_at(s, end, item_gap()),
        items_at(s, end + 2) == Some((rest, last)),
    ensures
        items_at(s, pos) == Some((seq![item] + rest, last)),
{
}

/// An item with no `, ` behind it is read as the only item.
proof fn lemma_item_alone(
    s: Seq<u8>,
    pos: int,
    item: (TreasureID, TreasureQuantity),
    end: int,
)
    requires
        item_at(s, pos) == Some((item, end)),
        0 <= end,
        end == s.len() || s[end] != 44u8,
    ensures
        items_at(s, pos) == Some((seq![item], end)),
{
    if stands_at(s, end, item_gap()) {
        assert(s.subrange(end, end + 2)[0] == item_gap()[0]);
    }
}

/// Items that stand between `before` and `after` are read at the length of
/// `before`, if what follows them is neither a digit nor a comma.
proof fn lemma_items_are_read(before: Seq<u8>, items: Seq<WrittenItem>, after: Seq<u8>)
    requires
        items.len() > 0,
        forall|i: int| 0 <= i < items.len() ==> (#[trigger] items[i]).valid(),
        after.len() == 0 || (!is_digit(after[0]) && after[0] != 44u8),
    ensures
        items_at(before + items_text(items) + after, before.len() as int) == Some(
            (items_value(items), (before.len() + items_text(items).len()) as int),
        ),
    decreases items.len(),
{
    let s = before + items_text(items) + after;
    let first = items[0];
    assert(first.valid());
    let end = (before.len() + first.text().len()) as int;
    if items.len() == 1 {
        lemma_item_is_read(before, first, after);
        if after.len() != 0 {
            assert(s[end] == after[0]);
        }
        lemma_item_alone(s, before.len() as int, first.value(), end);
        assert(items_value(items) =~= seq![first.value()]);
    } else {
        let rest = items.skip(1);
        assert forall|i: int| 0 <= i < rest.len() implies (#[trigger] rest[i]).valid() by {
            assert(rest[i] == items[i + 1]);
        }
        lemma_regroup_five(before, first.text(), item_gap(), items_text(rest), after);
        let tail = item_gap() + items_text(rest) + after;
        assert(tail[0] == 44u8);
        lemma_item_is_read(before, first, tail);
        lemma_literal_is_found(before + first.text(), item_gap(), items_text(rest) + after);
        lemma_items_are_read(before + first.text() + item_gap(), rest, after);
        assert(items_value(items) =~= seq![first.value()] + items_value(rest));
        lemma_item_and_more(
            s,
            before.len() as int,
            first.value(),
            end,
            items_value(rest),
            (before.len() + items_text(items).len()) as int,
        );
    }
}

/// The text of a key link, put together in the ways in which it is read.
proof fn lemma_link_text_parts(
    key_row: Seq<u8>,
    key_col: Seq<u8>,
    door_row: Seq<u8>,
    door_col: Seq<u8>,
)
    ensures
        ({
            let line = link_text(key_row, key_col, door_row, door_col);
            let key = key_row + comma() + key_col;
            let door = door_row + comma() + door_col;
            &&& line.len() == 3 + key.len() + 6 + door.len() + 1
            &&& line[1] == 75u8
            &&& line == Seq::<u8>::empty() + key_open() + (key + link_middle() + door + close())
            &&& line == key_open() + key_row + comma() + key_col + (link_middle() + door + close())
            &&& line == key_open() + key + link_middle() + (door + close())
            &&& line == key_open() + key + link_middle() + door_row + comma() + door_col + close()
            &&& line == key_open() + key + link_middle() + door + close() + Seq::<u8>::empty()
        }),
{
    let line = link_text(key_row, key_col, door_row, door_col);
    let key = key_row + comma() + key_col;
    let door = door_row + comma() + door_col;
    assert(line =~= Seq::<u8>::empty() + key_open() + (key + link_middle() + door + close()));
    assert(line =~= key_open() + key_row + comma() + key_col + (link_middle() + door + close()));
    assert(line =~= key_open() + key + link_middle() + (door + close()));
    assert(line =~= key_open() + key + link_middle() + door_row + comma() + door_col + close());
    assert(line =~= key_open() + key + link_middle() + door + close() + Seq::<u8>::empty());
}

/// The text of a chest, put together in the ways in which it is read.
proof fn lemma_chest_text_parts(row: Seq<u8>, col: Seq<u8>, items: Seq<WrittenItem>)
    ensures
        ({
            let line = chest_text(row, col, items);
            let cell = row + comma() + col;
            let list = items_text(items);
            &&& line.len() == 3 + cell.len() + 5 + list.len() + 1
            &&& line[1] == 84u8
            &&& line == Seq::<u8>::empty() + chest_open() + (cell + chest_middle() + list + close())
            &&& line == chest_open() + row + comma() + col + (chest_middle() + list + close())
            &&& line == chest_open() + cell + chest_middle() + (list + close())
            &&& line == chest_open() + cell + chest_middle() + list + close()
            &&& line == chest_open() + cell + chest_middle() + list + close() + Seq::<u8>::empty()
        }),
{
    let line = chest_text(row, col, items);
    let cell = row + comma() + col;
    let list = items_text(items);
    assert(line =~= Seq::<u8>::empty() + chest_open() + (cell + chest_middle() + list + close()));
    assert(line =~= chest_open() + row + comma() + col + (chest_middle() + list + close()));
    assert(line =~= chest_open() + cell + chest_middle() + (list + close()));
    assert(line =~= chest_open() + cell + chest_middle() + list + close());
    assert(line =~= chest_open() + cell + chest_middle() + list + close() + Seq::<u8>::empty());
}

/// What the parts of a key link text are read as.
proof fn lemma_link_parts_are_read(
    key_row: Seq<u8>,
    key_col: Seq<u8>,
    door_row: Seq<u8>,
    door_col: Seq<u8>,
)
    requires
        writes_number(key_row, usize::MAX as nat),
        writes_number(key_col, usize::MAX as nat),
        writes_number(door_row, usize::MAX as nat),
        writes_number(door_col, usize::MAX as nat),
    ensures
        ({
            let line = link_text(key_row, key_col, door_row, door_col);
            let p = 3 + key_row.len() + 1 + key_col.len();
            let q = p + 6 + door_row.len() + 1 + door_col.len();
            &&& line.len() == q + 1
            &&& line[1] == 75u8
            &&& stands_at(line, 0, key_open())
            &&& coords_at(line, 3) == Some(
                ((decimal(key_row) as usize, decimal(key_col) as usize), p as int),
            )
            &&& stands_at(line, p as int, link_middle())
            &&& coords_at(line, (p + 6) as int) == Some(
                ((decimal(door_row) as usize, decimal(door_col) as usize), q as int),
            )
            &&& stands_at(line, q as int, close())
        }),
{
    let none = Seq::<u8>::empty();
    let key = key_row + comma() + key_col;
    let door = door_row + comma() + door_col;
    lemma_link_text_parts(key_row, key_col, door_row, door_col);
    lemma_literal_is_found(none, key_open(), key + link_middle() + door + close());
    assert((link_middle() + door + close())[0] == 41u8);
    lemma_coords_are_read(key_open(), key_row, key_col, link_middle() + door + close());
    lemma_literal_is_found(key_open() + key, link_middle(), door + close());
    lemma_coords_are_read(key_open() + key + link_middle(), door_row, door_col, close());
    lemma_literal_is_found(key_open() + key + link_middle() + door, close(), none);
}

/// What the parts of a chest text are read as.
proof fn lemma_chest_parts_are_read(row: Seq<u8>, col: Seq<u8>, items: Seq<WrittenItem>)
    requires
        writes_number(row, usize::MAX as nat),
        writes_number(col, usize::MAX as nat),
        items.len() > 0,
        forall|i: int| 0 <= i < items.len() ==> (#[trigger] items[i]).valid(),
    ensures
        ({
            let line = chest_text(row, col, items);
            let p = 3 + row.len() + 1 + col.len();
            let q = p + 5 + items_text(items).len();
            &&& line.len() == q + 1
            &&& line[1] == 84u8
            &&& stands_at(line, 0, chest_open())
            &&& coords_at(line, 3) == Some(((decimal(row) as usize, decimal(col) as usize), p as int))
            &&& stands_at(line, p as int, chest_middle())
            &&& items_at(line, (p + 5) as int) == Some((items_value(items), q as int))
            &&& stands_at(line, q as int, close())
        }),
{
    let none = Seq::<u8>::empty();
    let cell = row + comma() + col;
    let list = items_text(items);
    lemma_chest_text_parts(row, col, items);
    lemma_literal_is_found(none, chest_open(), cell + chest_middle() + list + close());
    assert((chest_middle() + list + close())[0] == 41u8);
    lemma_coords_are_read(chest_open(), row, col, chest_middle() + list + close());
    lemma_literal_is_found(chest_open() + cell, chest_middle(), list + close());
    lemma_items_are_read(chest_open() + cell + chest_middle(), items, close());
    lemma_literal_is_found(chest_open() + cell + chest_middle() + list, close(), none);
}

/// A line whose parts are read as those of a key link is read as that
/// link, and as no chest.
proof fn lemma_link_is_put_together(
    line: Seq<u8>,
    key: (usize, usize),
    door: (usize, usize),
    p: int,
    q: int,
)
    requires
        line.len() == q + 1,
        line.len() > 1,
        line[1] == 75u8,
        stands_at(line, 0, key_open()),
        coords_at(line, 3) == Some((key, p)),
        stands_at(line, p, link_middle()),
        coords_at(line, p + 6) == Some((door, q)),
        stands_at(line, q, close()),
    ensures
        link_of(line) == Some(KeyDoorLink { key, door }),
        chest_of(line) is None,
{
    if stands_at(line, 0, chest_open()) {
        assert(line.subrange(0, 3)[1] == chest_open()[1]);
    }
}

/// A line whose parts are read as those of a chest is read as that chest,
/// and as no key link.
proof fn lemma_chest_is_put_together(
    line: Seq<u8>,
    at: (usize, usize),
    items: Seq<(TreasureID, TreasureQuantity)>,
    p: int,
    q: int,
)
    requires
        line.len() == q + 1,
        line.len() > 1,
        line[1] == 84u8,
        stands_at(line, 0, chest_open()),
        coords_at(line, 3) == Some((at, p)),
        stands_at(line, p, chest_middle()),
        items_at(line, p + 5) == Some((items, q)),
        stands_at(line, q, close()),
    ensures
        chest_of(line) == Some(
            TreasureCollectionView {
                variant: TreasureCollectionVariant::TreasureChest,
                items: typed_items(items),
                world_coords: Some(at),
            },
        ),
        link_of(line) is None,
{
    if stands_at(line, 0, key_open()) {
        assert(line.subrange(0, 3)[1] == key_open()[1]);
    }
}

/// Every key link that is written as the grammar says is read, and read as
/// the link from the cell it names first to the cell it names second.
pub proof fn theorem_written_link_is_read(
    key_row: Seq<u8>,
    key_col: Seq<u8>,
    door_row: Seq<u8>,
    door_col: Seq<u8>,
)
    requires
        writes_number(key_row, usize::MAX as nat),
        writes_number(key_col, usize::MAX as nat),
        writes_number(door_row, usize::MAX as nat),
        writes_number(door_col, usize::MAX as nat),
    ensures
        link_of(link_text(key_row, key_col, door_row, door_col)) == Some(
            KeyDoorLink {
                key: (decimal(key_row) as usize, decimal(key_col) as usize),
                door: (decimal(door_row) as usize, decimal(door_col) as usize),
            },
        ),
        chest_of(link_text(key_row, key_col, door_row, door_col)) is None,
{
    let p = 3 + key_row.len() + 1 + key_col.len();
    let q = p + 6 + door_row.len() + 1 + door_col.len();
    lemma_link_parts_are_read(key_row, key_col, door_row, door_col);
    lemma_link_is_put_together(
        link_text(key_row, key_col, door_row, door_col),
        (decimal(key_row) as usize, decimal(key_col) as usize),
        (decimal(door_row) as usize, decimal(door_col) as usize),
        p as int,
        q as int,
    );
}

/// Every chest that is written as the grammar says is read, and read as
/// the chest on the cell it names, with the items it lists in their order.
pub proof fn theorem_written_chest_is_read(row: Seq<u8>, col: Seq<u8>, items: Seq<WrittenItem>)
    requires
        writes_number(row, usize::MAX as nat),
        writes_number(col, usize::MAX as nat),
        items.len() > 0,
        forall|i: int| 0 <= i < items.len() ==> (#[trigger] items[i]).valid(),
    ensures
        chest_of(chest_text(row, col, items)) == Some(
            TreasureCollectionView {
                variant: TreasureCollectionVariant::TreasureChest,
                items: typed_items(items_value(items)),
                world_coords: Some((decimal(row) as usize, decimal(col) as usize)),
            },
        ),
        link_of(chest_text(row, col, items)) is None,
{
    let p = 3 + row.len() + 1 + col.len();
    let q = p + 5 + items_text(items).len();
    lemma_chest_parts_are_read(row, col, items);
    lemma_chest_is_put_together(
        chest_text(row, col, items),
        (decimal(row) as usize, decimal(col) as usize),
        items_value(items),
        p as int,
        q as int,
    );
}

/// Every byte of a run of digits is a digit.
proof fn lemma_run_holds_digits(s: Seq<u8>, from: int, i: int)
    requires
        0 <= from <= i < digits_end(s, from),
    ensures
        i < s.len(),
        is_digit(s[i]),
    decreases s.len() - from,
{
    if from < s.len() && is_digit(s[from]) && from < i {
        lemma_run_holds_digits(s, from + 1, i);
    }
}

/// A number that is read is written as a number, between its start and the
/// index behind it.
proof fn lemma_read_number_is_written(s: Seq<u8>, from: int, max: nat)
    requires
        number_at(s, from, max) is Some,
    ensures
        ({
            let found = number_at(s, from, max)->0;
            &&& 0 <= from < found.1 <= s.len()
            &&& found.1 == digits_end(s, from)
            &&& writes_number(s.subrange(from, found.1), max)
            &&& found.0 == decimal(s.subrange(from, found.1))
        }),
{
    let end = digits_end(s, from);
    lemma_run_holds_digits(s, from, end - 1);
    let digits = s.subrange(from, end);
    assert forall|i: int| 0 <= i < digits.len() implies is_digit(#[trigger] digits[i]) by {
        lemma_run_holds_digits(s, from, from + i);
        assert(digits[i] == s[from + i]);
    }
}

/// A cell that is read is written as two numbers with a comma between
/// them.
proof fn lemma_read_coords_are_written(s: Seq<u8>, pos: int)
    requires
        coords_at(s, pos) is Some,
    ensures
        ({
            let found = coords_at(s, pos)->0;
            let mid = digits_end(s, pos);
            &&& 0 <= pos < mid < mid + 1 < found.1 <= s.len()
            &&& writes_number(s.subrange(pos, mid), usize::MAX as nat)
            &&& writes_number(s.subrange(mid + 1, found.1), usize::MAX as nat)
            &&& s.subrange(pos, found.1) == s.subrange(pos, mid) + comma() + s.subrange(
                mid + 1,
                found.1,
            )
        }),
{
    let found = coords_at(s, pos)->0;
    let end = found.1;
    let mid = digits_end(s, pos);
    lemma_read_number_is_written(s, pos, usize::MAX as nat);
    lemma_read_number_is_written(s, mid + 1, usize::MAX as nat);
    assert(s.subrange(mid, mid + 1) == comma());
    assert(s.subrange(pos, end) =~= s.subrange(pos, mid) + s.subrange(mid, mid + 1) + s.subrange(
        mid + 1,
        end,
    ));
}

/// A line that is made of five parts, one behind the other, is their
/// concatenation.
proof fn lemma_five_parts(line: Seq<u8>, a: int, b: int, c: int, d: int)
    requires
        0 <= a <= b <= c <= d <= line.len(),
    ensures
        line == line.subrange(0, a) + line.subrange(a, b) + line.subrange(b, c) + line.subrange(
            c,
            d,
        ) + line.subrange(d, line.len() as int),
{
    assert(line =~= line.subrange(0, a) + line.subrange(a, b) + line.subrange(b, c)
        + line.subrange(c, d) + line.subrange(d, line.len() as int));
}

/// The text of a link is its five parts: the opening, the first cell, the
/// middle, the second cell and the closing.
proof fn lemma_link_text_is_five_parts(
    key_row: Seq<u8>,
    key_col: Seq<u8>,
    door_row: Seq<u8>,
    door_col: Seq<u8>,
)
    ensures
        link_text(key_row, key_col, door_row, door_col) == key_open() + (key_row + comma()
            + key_col) + link_middle() + (door_row + comma() + door_col) + close(),
{
    assert(link_text(key_row, key_col, door_row, door_col) =~= key_open() + (key_row + comma()
        + key_col) + link_middle() + (door_row + comma() + door_col) + close());
}

/// Where a key link is read, its parts stand: the opening, the first cell,
/// the middle, the second cell and the closing, one behind the other up to
/// the end of the line.
proof fn lemma_read_link_has_parts(line: Seq<u8>)
    requires
        link_of(line) is Some,
    ensures
        ({
            let p = (coords_at(line, 3)->0).1;
            let q = (coords_at(line, p + 6)->0).1;
            &&& coords_at(line, 3) is Some
            &&& coords_at(line, p + 6) is Some
            &&& 3 <= p <= p + 6 <= q
            &&& q + 1 == line.len()
            &&& line.subrange(0, 3) == key_open()
            &&& line.subrange(p, p + 6) == link_middle()
            &&& line.subrange(q, line.len() as int) == close()
        }),
{
    let p = (coords_at(line, 3)->0).1;
    lemma_read_coords_are_written(line, 3);
    lemma_read_coords_are_written(line, p + 6);
}

/// Every line that is read as a key link is written as the grammar says:
/// it is the text of a link whose four numbers are the digits that stand in
/// the line.
pub proof fn theorem_read_link_is_written(line: Seq<u8>)
    requires
        link_of(line) is Some,
    ensures
        exists|key_row: Seq<u8>, key_col: Seq<u8>, door_row: Seq<u8>, door_col: Seq<u8>|
            {
                &&& writes_number(key_row, usize::MAX as nat)
                &&& writes_number(key_col, usize::MAX as nat)
                &&& writes_number(door_row, usize::MAX as nat)
                &&& writes_number(door_col, usize::MAX as nat)
                &&& line == #[trigger] link_text(key_row, key_col, door_row, door_col)
            },
{
    lemma_read_link_has_parts(line);
    let p = (coords_at(line, 3)->0).1;
    let q = (coords_at(line, p + 6)->0).1;
    let m1 = digits_end(line, 3);
    let m2 = digits_end(line, p + 6);
    lemma_read_coords_are_written(line, 3);
    lemma_read_coords_are_written(line, p + 6);
    let key_row = line.subrange(3, m1);
    let key_col = line.subrange(m1 + 1, p);
    let door_row = line.subrange(p + 6, m2);
    let door_col = line.subrange(m2 + 1, q);
    lemma_five_parts(line, 3, p, p + 6, q);
    lemma_link_text_is_five_parts(key_row, key_col, door_row, door_col);
    assert(line == link_text(key_row, key_col, door_row, door_col));
}

/// The item that stands at `pos`, as it is written there.
spec fn item_written_at(s: Seq<u8>, pos: int) -> WrittenItem {
    let mid = digits_end(s, pos);
    let found = item_at(s, pos)->0;
    WrittenItem {
        id: s.subrange(pos, mid),
        quantity: s.subrange((equals_at(s, mid)->0), found.1),
        spaced: stands_at(s, mid, spaced_equals()),
    }
}

/// The items that stand at `pos`, as they are written there.
spec fn items_written_at(s: Seq<u8>, pos: int) -> Seq<WrittenItem>
    decreases s.len() - pos,
{
    match item_at(s, pos) {
        Some((item, end)) => if pos < end && stands_at(s, end, item_gap()) {
            seq![item_written_at(s, pos)] + items_written_at(s, end + 2)
        } else {
            seq![item_written_at(s, pos)]
        },
        None => Seq::empty(),
    }
}

/// An item that is read is written as an item, between its start and the
/// index behind it.
proof fn lemma_read_item_is_written(s: Seq<u8>, pos: int)
    requires
        item_at(s, pos) is Some,
    ensures
        ({
            let found = item_at(s, pos)->0;
            let item = item_written_at(s, pos);
            &&& 0 <= pos < found.1 <= s.len()
            &&& item.valid()
            &&& item.value() == found.0
            &&& s.subrange(pos, found.1) == item.text()
        }),
{
    let found = item_at(s, pos)->0;
    let mid = digits_end(s, pos);
    let q = equals_at(s, mid)->0;
    let item = item_written_at(s, pos);
    lemma_read_number_is_written(s, pos, usize::MAX as nat);
    lemma_read_number_is_written(s, q, u64::MAX as nat);
    let sign = if item.spaced {
        spaced_equals()
    } else {
        equals()
    };
    assert(s.subrange(mid, q) == sign);
    assert(s.subrange(pos, found.1) =~= s.subrange(pos, mid) + s.subrange(mid, q) + s.subrange(
        q,
        found.1,
    ));
}

/// A text that is made of three parts, one behind the other, is their
/// concatenation.
proof fn lemma_three_parts(s: Seq<u8>, a: int, b: int, c: int, d: int)
    requires
        0 <= a <= b <= c <= d <= s.len(),
    ensures
        s.subrange(a, d) == s.subrange(a, b) + s.subrange(b, c) + s.subrange(c, d),
{
    assert(s.subrange(a, d) =~= s.subrange(a, b) + s.subrange(b, c) + s.subrange(c, d));
}

/// Items that are read are written as items, between their start and the
/// index behind them.
proof fn lemma_read_items_are_written(s: Seq<u8>, pos: int)
    requires
        items_at(s, pos) is Some,
    ensures
        ({
            let found = items_at(s, pos)->0;
            let items = items_written_at(s, pos);
            &&& 0 <= pos < found.1 <= s.len()
            &&& items.len() > 0
            &&& forall|i: int| 0 <= i < items.len() ==> (#[trigger] items[i]).valid()
            &&& items_value(items) == found.0
            &&& s.subrange(pos, found.1) == items_text(items)
        }),
    decreases s.len() - pos,
{
    let first = item_at(s, pos)->0;
    let end = first.1;
    let item = item_written_at(s, pos);
    lemma_read_item_is_written(s, pos);
    if pos < end && stands_at(s, end, item_gap()) {
        lemma_read_items_are_written(s, end + 2);
        let rest = items_written_at(s, end + 2);
        let items = items_written_at(s, pos);
        let last = (items_at(s, end + 2)->0).1;
        assert(items == seq![item] + rest);
        assert forall|i: int| 0 <= i < items.len() implies (#[trigger] items[i]).valid() by {
            if i > 0 {
                assert(items[i] == rest[i - 1]);
            }
        }
        assert(items_value(items) =~= seq![item.value()] + items_value(rest));
        assert(items.skip(1) =~= rest);
        lemma_three_parts(s, pos, end, end + 2, last);
        assert(s.subrange(end, end + 2) == item_gap());
    } else {
        let items = items_written_at(s, pos);
        assert(items_value(items) =~= seq![item.value()]);
    }
}

/// The text of a chest is its five parts: the opening, the cell, the
/// middle, the items and the closing.
proof fn lemma_chest_text_is_five_parts(row: Seq<u8>, col: Seq<u8>, items: Seq<WrittenItem>)
    ensures
        chest_text(row, col, items) == chest_open() + (row + comma() + col) + chest_middle()
            + items_text(items) + close(),
{
    assert(chest_text(row, col, items) =~= chest_open() + (row + comma() + col) + chest_middle()
        + items_text(items) + close());
}

/// Where a chest is read, its parts stand: the opening, the cell, the
/// middle, the items and the closing, one behind the other up to the end of
/// the line.
proof fn lemma_read_chest_has_parts(line: Seq<u8>)
    requires
        chest_of(line) is Some,
    ensures
        ({
            let p = (coords_at(line, 3)->0).1;
            let q = (items_at(line, p + 5)->0).1;
            &&& coords_at(line, 3) is Some
            &&& items_at(line, p + 5) is Some
            &&& 3 <= p <= p + 5 <= q
            &&& q + 1 == line.len()
            &&& line.subrange(0, 3) == chest_open()
            &&& line.subrange(p, p + 5) == chest_middle()
            &&& line.subrange(q, line.len() as int) == close()
        }),
{
    let p = (coords_at(line, 3)->0).1;
    lemma_read_coords_are_written(line, 3);
    lemma_read_items_are_written(line, p + 5);
}

/// Every line that is read as a chest is written as the grammar says: it
/// is the text of a chest whose numbers and items are those that stand in
/// the line.
pub proof fn theorem_read_chest_is_written(line: Seq<u8>)
    requires
        chest_of(line) is Some,
    ensures
        exists|row: Seq<u8>, col: Seq<u8>, items: Seq<WrittenItem>|
            {
                &&& writes_number(row, usize::MAX as nat)
                &&& writes_number(col, usize::MAX as nat)
                &&& items.len() > 0
                &&& forall|i: int| 0 <= i < items.len() ==> (#[trigger] items[i]).valid()
                &&& line == #[trigger] chest_text(row, col, items)
            },
{
    lemma_read_chest_has_parts(line);
    let p = (coords_at(line, 3)->0).1;
    let q = (items_at(line, p + 5)->0).1;
    let mid = digits_end(line, 3);
    lemma_read_coords_are_written(line, 3);
    lemma_read_items_are_written(line, p + 5);
    let row = line.subrange(3, mid);
    let col = line.subrange(mid + 1, p);
    let items = items_written_at(line, p + 5);
    lemma_five_parts(line, 3, p, p + 5, q);
    lemma_chest_text_is_five_parts(row, col, items);
    assert(line == chest_text(row, col, items));
}

} // verus!
