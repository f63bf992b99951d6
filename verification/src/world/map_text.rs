//! The text of a map: its lines, and the grammar of its directives.
//!
//! A map is written as lines of tile symbols, the body, followed by
//! directive lines. The directive block starts at the first line that begins
//! with `~`. A directive is a key link, `~K(r,c) = D(r,c)`, or a chest,
//! `~T(r,c) = (id=qty, id=qty)`, with one or more items; the `=` of an item
//! may stand between two single spaces. Every number is a run of the digits
//! `0` to `9`.

use vstd::prelude::*;

use crate::shared::treasure::TreasureCollection;
use crate::shared::treasure::TreasureCollectionBuilder;
use crate::shared::treasure::TreasureCollectionVariant;
use crate::shared::treasure::TreasureCollectionView;
use crate::shared::treasure::TreasureID;
use crate::shared::treasure::TreasureQuantity;
use crate::shared::treasure::TreasureType;
use crate::shared::treasure::treasure_collection::typed_items;
use crate::shared::KeyDoorLink;
use crate::shared::WorldCoordinates;

verus! {

/// The byte that ends a line.
pub const NEWLINE: u8 = 10;

/// The byte that may stand before the end of a line.
pub const CARRIAGE_RETURN: u8 = 13;

/// The byte with which a directive line begins.
pub const TILDE: u8 = 126;

/// The index of the first line end in `s` at or behind `from`, or the length
/// of `s` if there is none.
pub open spec fn line_end(s: Seq<u8>, from: int) -> int
    decreases s.len() - from,
{
    if from >= s.len() {
        s.len() as int
    } else if s[from] == NEWLINE {
        from
    } else {
        line_end(s, from + 1)
    }
}

/// `line` without the carriage return at its end, if it has one.
pub open spec fn trim_cr(line: Seq<u8>) -> Seq<u8> {
    if line.len() > 0 && line.last() == CARRIAGE_RETURN {
        line.drop_last()
    } else {
        line
    }
}

/// The lines of `s` from the index `from` on.
pub open spec fn lines_from(s: Seq<u8>, from: int) -> Seq<Seq<u8>>
    decreases s.len() - from,
{
    if from >= s.len() || from < 0 {
        Seq::empty()
    } else {
        let end = line_end(s, from);
        if from <= end < s.len() {
            seq![trim_cr(s.subrange(from, end))] + lines_from(s, end + 1)
        } else {
            seq![s.subrange(from, s.len() as int)]
        }
    }
}

/// The lines of a text. A line ends with a line feed, or with a carriage
/// return and a line feed; neither belongs to the line. The last line needs
/// no line end, and a text that ends with a line end has no empty line
/// behind it.
pub open spec fn text_lines(s: Seq<u8>) -> Seq<Seq<u8>> {
    lines_from(s, 0)
}

/// The byte sequences that a list of lines holds.
pub open spec fn rows_of(lines: Seq<Vec<u8>>) -> Seq<Seq<u8>> {
    lines.map_values(|line: Vec<u8>| line@)
}

/// Whether a line begins the directive block, or belongs to it by its first
/// byte.
pub open spec fn is_directive(line: Seq<u8>) -> bool {
    line.len() > 0 && line[0] == TILDE
}

/// The number of lines that stand before the first directive line.
pub open spec fn body_len(lines: Seq<Seq<u8>>) -> int
    decreases lines.len(),
{
    if lines.len() == 0 {
        0
    } else if is_directive(lines[0]) {
        0
    } else {
        1 + body_len(lines.skip(1))
    }
}

/// The lines of the body: those before the first directive line.
pub open spec fn body_lines(lines: Seq<Seq<u8>>) -> Seq<Seq<u8>> {
    lines.take(body_len(lines))
}

/// The lines of the directive block: the first directive line and all
/// behind it.
pub open spec fn directive_lines(lines: Seq<Seq<u8>>) -> Seq<Seq<u8>> {
    lines.skip(body_len(lines))
}

/// Whether `b` is one of the digits `0` to `9`.
pub open spec fn is_digit(b: u8) -> bool {
    48 <= b <= 57
}

/// The index of the first byte at or behind `from` that is no digit, or the
/// length of `s`.
pub open spec fn digits_end(s: Seq<u8>, from: int) -> int
    decreases s.len() - from,
{
    if from >= s.len() {
        s.len() as int
    } else if !is_digit(s[from]) {
        from
    } else {
        digits_end(s, from + 1)
    }
}

/// The number that a run of digits writes, in base ten.
pub open spec fn decimal(digits: Seq<u8>) -> nat
    decreases digits.len(),
{
    if digits.len() == 0 {
        0
    } else {
        decimal(digits.drop_last()) * 10 + (digits.last() - 48) as nat
    }
}

/// The number written at `from`, with the index behind it: one or more
/// digits whose value is at most `max`.
pub open spec fn number_at(s: Seq<u8>, from: int, max: nat) -> Option<(nat, int)> {
    let end = digits_end(s, from);
    if 0 <= from < end && decimal(s.subrange(from, end)) <= max {
        Some((decimal(s.subrange(from, end)), end))
    } else {
        None
    }
}

/// Whether `lit` stands in `s` at the index `pos`.
pub open spec fn stands_at(s: Seq<u8>, pos: int, lit: Seq<u8>) -> bool {
    0 <= pos && pos + lit.len() <= s.len() && s.subrange(pos, pos + lit.len()) == lit
}

/// `~K(`
pub open spec fn key_open() -> Seq<u8> {
    seq![126u8, 75u8, 40u8]
}

/// `~T(`
pub open spec fn chest_open() -> Seq<u8> {
    seq![126u8, 84u8, 40u8]
}

/// `,`
pub open spec fn comma() -> Seq<u8> {
    seq![44u8]
}

/// `) = D(`
pub open spec fn link_middle() -> Seq<u8> {
    seq![41u8, 32u8, 61u8, 32u8, 68u8, 40u8]
}

/// `) = (`
pub open spec fn chest_middle() -> Seq<u8> {
    seq![41u8, 32u8, 61u8, 32u8, 40u8]
}

/// `)`
pub open spec fn close() -> Seq<u8> {
    seq![41u8]
}

/// `, `
pub open spec fn item_gap() -> Seq<u8> {
    seq![44u8, 32u8]
}

/// ` = `
pub open spec fn spaced_equals() -> Seq<u8> {
    seq![32u8, 61u8, 32u8]
}

/// `=`
pub open spec fn equals() -> Seq<u8> {
    seq![61u8]
}

/// The cell written at `pos` as `r,c`, with the index behind it. Both
/// numbers must be indices.
pub open spec fn coords_at(s: Seq<u8>, pos: int) -> Option<(WorldCoordinates, int)> {
    match number_at(s, pos, usize::MAX as nat) {
        Some((row, p)) => if stands_at(s, p, comma()) {
            match number_at(s, p + 1, usize::MAX as nat) {
                Some((col, q)) => Some(((row as usize, col as usize), q)),
                None => None,
            }
        } else {
            None
        },
        None => None,
    }
}

/// The index behind the `=` of an item, which may stand between two single
/// spaces.
pub open spec fn equals_at(s: Seq<u8>, pos: int) -> Option<int> {
    if stands_at(s, pos, spaced_equals()) {
        Some(pos + 3)
    } else if stands_at(s, pos, equals()) {
        Some(pos + 1)
    } else {
        None
    }
}

/// The item written at `pos` as `id=qty`, with the index behind it. The
/// identifier must name a kind of treasure, and the quantity must be one.
pub open spec fn item_at(s: Seq<u8>, pos: int) -> Option<((TreasureID, TreasureQuantity), int)> {
    match number_at(s, pos, usize::MAX as nat) {
        Some((id, p)) => if TreasureType::valid_id(id as usize) {
            match equals_at(s, p) {
                Some(q) => match number_at(s, q, u64::MAX as nat) {
                    Some((quantity, end)) => Some(((id as usize, quantity as u64), end)),
                    None => None,
                },
                None => None,
            }
        } else {
            None
        },
        None => None,
    }
}

/// The items written at `pos`, one or more with `, ` between them, and the
/// index behind the last.
pub open spec fn items_at(s: Seq<u8>, pos: int) -> Option<
    (Seq<(TreasureID, TreasureQuantity)>, int),
>
    decreases s.len() - pos,
{
    match item_at(s, pos) {
        Some((item, end)) => if pos < end && stands_at(s, end, item_gap()) {
            match items_at(s, end + 2) {
                Some((rest, last)) => Some((seq![item] + rest, last)),
                None => None,
            }
        } else {
            Some((seq![item], end))
        },
        None => None,
    }
}

/// The key link that `line` writes, if it is a key link directive:
/// `~K(r,c) = D(r,c)`.
pub open spec fn link_of(line: Seq<u8>) -> Option<KeyDoorLink> {
    if stands_at(line, 0, key_open()) {
        match coords_at(line, 3) {
            Some((key, p)) => if stands_at(line, p, link_middle()) {
                match coords_at(line, p + 6) {
                    Some((door, q)) => if stands_at(line, q, close()) && q + 1 == line.len() {
                        Some(KeyDoorLink { key, door })
                    } else {
                        None
                    },
                    None => None,
                }
            } else {
                None
            },
            None => None,
        }
    } else {
        None
    }
}

/// The chest that `line` writes, if it is a chest directive:
/// `~T(r,c) = (id=qty, id=qty)`.
pub open spec fn chest_of(line: Seq<u8>) -> Option<TreasureCollectionView> {
    if stands_at(line, 0, chest_open()) {
        match coords_at(line, 3) {
            Some((at, p)) => if stands_at(line, p, chest_middle()) {
                match items_at(line, p + 5) {
                    Some((items, q)) => if stands_at(line, q, close()) && q + 1 == line.len() {
                        Some(
                            TreasureCollectionView {
                                variant: TreasureCollectionVariant::TreasureChest,
                                items: typed_items(items),
                                world_coords: Some(at),
                            },
                        )
                    } else {
                        None
                    },
                    None => None,
                }
            } else {
                None
            },
            None => None,
        }
    } else {
        None
    }
}

/// Whether `line` is a directive: a key link or a chest.
pub open spec fn well_formed(line: Seq<u8>) -> bool {
    link_of(line) is Some || chest_of(line) is Some
}

/// The index of the first line at or behind `from` that is no directive, or
/// the number of lines if all are.
pub open spec fn first_malformed(lines: Seq<Seq<u8>>, from: int) -> int
    decreases lines.len() - from,
{
    if from >= lines.len() {
        lines.len() as int
    } else if !well_formed(lines[from]) {
        from
    } else {
        first_malformed(lines, from + 1)
    }
}

/// The key links that `lines` write, in their order. Lines that write none
/// are passed over.
pub open spec fn links_in(lines: Seq<Seq<u8>>) -> Seq<KeyDoorLink>
    decreases lines.len(),
{
    if lines.len() == 0 {
        Seq::empty()
    } else {
        match link_of(lines.last()) {
            Some(link) => links_in(lines.drop_last()).push(link),
            None => links_in(lines.drop_last()),
        }
    }
}

/// The chests that `lines` write, in their order. Lines that write none are
/// passed over.
pub open spec fn chests_in(lines: Seq<Seq<u8>>) -> Seq<TreasureCollectionView>
    decreases lines.len(),
{
    if lines.len() == 0 {
        Seq::empty()
    } else {
        match chest_of(lines.last()) {
            Some(chest) => chests_in(lines.drop_last()).push(chest),
            None => chests_in(lines.drop_last()),
        }
    }
}

/// The chests of a list as mathematical values.
pub open spec fn chest_views(chests: Seq<TreasureCollection>) -> Seq<TreasureCollectionView> {
    chests.map_values(|chest: TreasureCollection| chest@)
}

/// Every chest that a directive writes is a chest, and stands on a cell.
pub proof fn lemma_chests_in_are_chests(lines: Seq<Seq<u8>>)
    ensures
        forall|i: int|
            0 <= i < chests_in(lines).len() ==> (#[trigger] chests_in(lines)[i]).variant
                == TreasureCollectionVariant::TreasureChest && chests_in(lines)[i].world_coords
                is Some,
    decreases lines.len(),
{
    if lines.len() != 0 {
        lemma_chests_in_are_chests(lines.drop_last());
    }
}

/// The value of a run of digits does not shrink when digits are added
/// behind it.
pub proof fn lemma_decimal_prefix(digits: Seq<u8>, k: int)
    requires
        0 <= k <= digits.len(),
    ensures
        decimal(digits.take(k)) <= decimal(digits),
    decreases digits.len(),
{
    if k == digits.len() {
        assert(digits.take(k) =~= digits);
    } else {
        lemma_decimal_prefix(digits.drop_last(), k);
        assert(digits.drop_last().take(k) =~= digits.take(k));
    }
}

/// The line end found from `from` is found from every index between.
proof fn lemma_line_end_bounds(s: Seq<u8>, from: int)
    requires
        0 <= from <= s.len(),
    ensures
        from <= line_end(s, from) <= s.len(),
    decreases s.len() - from,
{
    if from < s.len() && s[from] != NEWLINE {
        lemma_line_end_bounds(s, from + 1);
    }
}

/// The end of a run of digits lies between its start and the end of the
/// text.
proof fn lemma_digits_end_bounds(s: Seq<u8>, from: int)
    requires
        0 <= from <= s.len(),
    ensures
        from <= digits_end(s, from) <= s.len(),
    decreases s.len() - from,
{
    if from < s.len() && is_digit(s[from]) {
        lemma_digits_end_bounds(s, from + 1);
    }
}

/// A copy of the bytes of `bytes` from `from` up to `to`.
fn copy_range(bytes: &[u8], from: usize, to: usize) -> (copy: Vec<u8>)
    requires
        from <= to <= bytes@.len(),
    ensures
        copy@ == bytes@.subrange(from as int, to as int),
{
    let mut copy: Vec<u8> = Vec::new();
    let mut i: usize = from;
    while i < to
        invariant
            from <= i <= to <= bytes@.len(),
            copy@ == bytes@.subrange(from as int, i as int),
        decreases to - i,
    {
        copy.push(bytes[i]);
        assert(bytes@.subrange(from as int, i as int).push(bytes@[i as int]) =~= bytes@.subrange(
            from as int,
            i + 1,
        ));
        i += 1;
    }
    copy
}

/// Splits a text into its lines.
pub fn split_lines(bytes: &[u8]) -> (lines: Vec<Vec<u8>>)
    ensures
        rows_of(lines@) == text_lines(bytes@),
{
    let mut lines: Vec<Vec<u8>> = Vec::new();
    let mut start: usize = 0;
    assert(rows_of(lines@) =~= Seq::<Seq<u8>>::empty());
    while start < bytes.len()
        invariant
            start <= bytes@.len(),
            text_lines(bytes@) == rows_of(lines@) + lines_from(bytes@, start as int),
        decreases bytes@.len() - start,
    {
        let mut end: usize = start;
        while end < bytes.len() && bytes[end] != NEWLINE
            invariant
                start <= end <= bytes@.len(),
                line_end(bytes@, end as int) == line_end(bytes@, start as int),
            decreases bytes@.len() - end,
        {
            end += 1;
        }
        let ghost before = rows_of(lines@);
        if end < bytes.len() {
            let mut stop: usize = end;
            if stop > start && bytes[stop - 1] == CARRIAGE_RETURN {
                stop -= 1;
            }
            let line = copy_range(bytes, start, stop);
            proof {
                let whole = bytes@.subrange(start as int, end as int);
                if stop < end {
                    assert(whole.last() == bytes@[end - 1]);
                    assert(whole.drop_last() =~= bytes@.subrange(start as int, stop as int));
                }
                assert(line@ == trim_cr(whole));
            }
            lines.push(line);
            proof {
                assert(rows_of(lines@) =~= before.push(line@));
                assert(before + (seq![line@] + lines_from(bytes@, end + 1)) =~= before.push(line@)
                    + lines_from(bytes@, end + 1));
            }
            start = end + 1;
        } else {
            let line = copy_range(bytes, start, end);
            lines.push(line);
            proof {
                assert(rows_of(lines@) =~= before.push(line@));
                assert(before + seq![line@] =~= before.push(line@));
                assert(lines_from(bytes@, end as int) =~= Seq::<Seq<u8>>::empty());
            }
            start = end;
        }
    }
    lines
}

/// The index of the first line that begins with `~`, or the number of lines
/// if there is none: the number of lines that form the body.
pub fn body_length(lines: &Vec<Vec<u8>>) -> (n: usize)
    ensures
        n == body_len(rows_of(lines@)),
        n <= lines.len(),
{
    let ghost rows = rows_of(lines@);
    let mut n: usize = 0;
    assert(rows.skip(0) =~= rows);
    while n < lines.len() && !(lines[n].len() > 0 && lines[n][0] == TILDE)
        invariant
            n <= lines.len(),
            rows == rows_of(lines@),
            body_len(rows) == n + body_len(rows.skip(n as int)),
        decreases lines.len() - n,
    {
        proof {
            let rest = rows.skip(n as int);
            assert(rest[0] == lines@[n as int]@);
            assert(rest.skip(1) =~= rows.skip(n + 1));
        }
        n += 1;
    }
    proof {
        let rest = rows.skip(n as int);
        if n < lines.len() {
            assert(rest[0] == lines@[n as int]@);
        }
    }
    n
}

/// The lines of the body, each with the number of its row.
pub fn extract_map_lines(lines: &Vec<Vec<u8>>) -> (body: Vec<(usize, Vec<u8>)>)
    ensures
        body@.len() == body_len(rows_of(lines@)),
        forall|i: int|
            0 <= i < body@.len() ==> (#[trigger] body@[i]).0 == i && body@[i].1@ == body_lines(
                rows_of(lines@),
            )[i],
{
    let n = body_length(lines);
    let mut body: Vec<(usize, Vec<u8>)> = Vec::new();
    let mut i: usize = 0;
    while i < n
        invariant
            i <= n <= lines.len(),
            n == body_len(rows_of(lines@)),
            body@.len() == i,
            forall|j: int| 0 <= j < i ==> (#[trigger] body@[j]).0 == j && body@[j].1@ == lines@[j]@,
        decreases n - i,
    {
        let line = copy_range(lines[i].as_slice(), 0, lines[i].len());
        assert(lines@[i as int]@.subrange(0, lines@[i as int]@.len() as int) =~= lines@[i as int]@);
        body.push((i, line));
        i += 1;
    }
    body
}

/// Tells whether `lit` stands in `line` at `pos`.
fn expect(line: &[u8], pos: usize, lit: &[u8]) -> (found: bool)
    ensures
        found == stands_at(line@, pos as int, lit@),
{
    if lit.len() > line.len() || pos > line.len() - lit.len() {
        return false;
    }
    let mut i: usize = 0;
    while i < lit.len()
        invariant
            i <= lit@.len(),
            pos + lit@.len() <= line@.len() <= usize::MAX,
            forall|j: int| 0 <= j < i ==> line@[pos + j] == lit@[j],
        decreases lit@.len() - i,
    {
        if line[pos + i] != lit[i] {
            assert(line@.subrange(pos as int, pos + lit@.len())[i as int] != lit@[i as int]);
            return false;
        }
        i += 1;
    }
    assert(line@.subrange(pos as int, pos + lit@.len()) =~= lit@);
    true
}

/// Reads the number written at `from`: one or more digits whose value is at
/// most `max`. Hands out the value and the index behind the digits.
fn scan_number(line: &[u8], from: usize, max: u64) -> (found: Option<(u64, usize)>)
    ensures
        match found {
            Some((value, end)) => number_at(line@, from as int, max as nat) == Some(
                (value as nat, end as int),
            ) && from < end <= line@.len(),
            None => number_at(line@, from as int, max as nat) is None,
        },
{
    if from >= line.len() {
        return None;
    }
    let mut value: u64 = 0;
    let mut i: usize = from;
    proof {
        assert(line@.subrange(from as int, from as int) =~= Seq::<u8>::empty());
    }
    while i < line.len() && 48 <= line[i] && line[i] <= 57
        invariant
            from <= i <= line@.len(),
            digits_end(line@, i as int) == digits_end(line@, from as int),
            value == decimal(line@.subrange(from as int, i as int)),
            value <= max,
        decreases line@.len() - i,
    {
        let digit = line[i] - 48;
        let next: u128 = (value as u128) * 10 + (digit as u128);
        proof {
            let longer = line@.subrange(from as int, i + 1);
            assert(longer.drop_last() =~= line@.subrange(from as int, i as int));
            assert(longer.last() == line@[i as int]);
            assert(decimal(longer) == next);
        }
        if next > max as u128 {
            proof {
                lemma_digits_end_bounds(line@, i + 1);
                let end = digits_end(line@, from as int);
                let all = line@.subrange(from as int, end);
                lemma_decimal_prefix(all, i + 1 - from);
                assert(all.take(i + 1 - from) =~= line@.subrange(from as int, i + 1));
            }
            return None;
        }
        value = next as u64;
        i += 1;
    }
    if i == from {
        None
    } else {
        Some((value, i))
    }
}

/// Reads the cell written at `pos` as `r,c`.
fn scan_coords(line: &[u8], pos: usize) -> (found: Option<(WorldCoordinates, usize)>)
    ensures
        match found {
            Some((cell, end)) => coords_at(line@, pos as int) == Some((cell, end as int)) && pos
                < end <= line@.len(),
            None => coords_at(line@, pos as int) is None,
        },
{
    let comma: [u8; 1] = [44];
    assert(comma@ =~= self::comma());
    assert(line@.len() == line.len());
    match scan_number(line, pos, usize::MAX as u64) {
        Some((row, p)) => {
            if !expect(line, p, comma.as_slice()) {
                return None;
            }
            match scan_number(line, p + 1, usize::MAX as u64) {
                Some((col, q)) => Some(((row as usize, col as usize), q)),
                None => None,
            }
        },
        None => None,
    }
}

/// Reads the item written at `pos` as `id=qty`.
fn scan_item(line: &[u8], pos: usize) -> (found: Option<((TreasureID, TreasureQuantity), usize)>)
    ensures
        match found {
            Some((item, end)) => item_at(line@, pos as int) == Some((item, end as int)) && pos
                < end <= line@.len() && TreasureType::valid_id(item.0),
            None => item_at(line@, pos as int) is None,
        },
{
    let spaced: [u8; 3] = [32, 61, 32];
    let bare: [u8; 1] = [61];
    assert(spaced@ =~= spaced_equals());
    assert(bare@ =~= equals());
    assert(line@.len() == line.len());
    match scan_number(line, pos, usize::MAX as u64) {
        Some((id, p)) => {
            if !TreasureType::is_valid_id(id as usize) {
                return None;
            }
            let q = if expect(line, p, spaced.as_slice()) {
                p + 3
            } else if expect(line, p, bare.as_slice()) {
                p + 1
            } else {
                return None;
            };
            match scan_number(line, q, u64::MAX) {
                Some((quantity, end)) => Some(((id as usize, quantity), end)),
                None => None,
            }
        },
        None => None,
    }
}

/// `found` with the items `before` in front of its items.
spec fn behind(
    before: Seq<(TreasureID, TreasureQuantity)>,
    found: Option<(Seq<(TreasureID, TreasureQuantity)>, int)>,
) -> Option<(Seq<(TreasureID, TreasureQuantity)>, int)> {
    match found {
        Some((items, end)) => Some((before + items, end)),
        None => None,
    }
}

/// Reads the items written at `pos`, one or more with `, ` between them.
fn scan_items(line: &[u8], pos: usize) -> (found: Option<
    (Vec<(TreasureID, TreasureQuantity)>, usize),
>)
    ensures
        match found {
            Some((items, end)) => items_at(line@, pos as int) == Some((items@, end as int)) && end
                <= line@.len() && crate::shared::treasure::treasure_collection::all_ids_valid(
                items@,
            ),
            None => items_at(line@, pos as int) is None,
        },
{
    let gap: [u8; 2] = [44, 32];
    assert(gap@ =~= item_gap());
    if pos > line.len() {
        return None;
    }
    let mut items: Vec<(TreasureID, TreasureQuantity)> = Vec::new();
    let mut at: usize = pos;
    assert(behind(items@, items_at(line@, at as int)) =~= items_at(line@, pos as int)) by {
        match items_at(line@, pos as int) {
            Some((found, end)) => {
                assert(Seq::<(TreasureID, TreasureQuantity)>::empty() + found =~= found);
            },
            None => {},
        }
    }
    loop
        invariant
            at <= line@.len() <= usize::MAX,
            gap@ == item_gap(),
            items_at(line@, pos as int) == behind(items@, items_at(line@, at as int)),
            crate::shared::treasure::treasure_collection::all_ids_valid(items@),
        decreases line@.len() - at,
    {
        match scan_item(line, at) {
            Some((item, end)) => {
                let ghost before = items@;
                items.push(item);
                if expect(line, end, gap.as_slice()) {
                    proof {
                        match items_at(line@, end + 2) {
                            Some((rest, last)) => {
                                assert(before + (seq![item] + rest) =~= before.push(item) + rest);
                            },
                            None => {},
                        }
                    }
                    at = end + 2;
                } else {
                    proof {
                        assert(before + seq![item] =~= before.push(item));
                    }
                    return Some((items, end));
                }
            },
            None => {
                return None;
            },
        }
    }
}

/// Reads a key link directive; `None` if `line` is none.
pub fn parse_link(line: &[u8]) -> (link: Option<KeyDoorLink>)
    ensures
        link == link_of(line@),
{
    let open: [u8; 3] = [126, 75, 40];
    let middle: [u8; 6] = [41, 32, 61, 32, 68, 40];
    let close: [u8; 1] = [41];
    assert(open@ =~= key_open());
    assert(middle@ =~= link_middle());
    assert(close@ =~= self::close());
    assert(line@.len() == line.len());
    if !expect(line, 0, open.as_slice()) {
        return None;
    }
    match scan_coords(line, 3) {
        Some((key, p)) => {
            if !expect(line, p, middle.as_slice()) {
                return None;
            }
            match scan_coords(line, p + 6) {
                Some((door, q)) => {
                    if expect(line, q, close.as_slice()) && q + 1 == line.len() {
                        Some(KeyDoorLink { key, door })
                    } else {
                        None
                    }
                },
                None => None,
            }
        },
        None => None,
    }
}

/// Reads a chest directive; `None` if `line` is none.
pub fn parse_chest(line: &[u8]) -> (chest: Option<TreasureCollection>)
    ensures
        match chest {
            Some(c) => chest_of(line@) == Some(c@) && c@.wf(),
            None => chest_of(line@) is None,
        },
{
    let open: [u8; 3] = [126, 84, 40];
    let middle: [u8; 5] = [41, 32, 61, 32, 40];
    let close: [u8; 1] = [41];
    assert(open@ =~= chest_open());
    assert(middle@ =~= chest_middle());
    assert(close@ =~= self::close());
    assert(line@.len() == line.len());
    if !expect(line, 0, open.as_slice()) {
        return None;
    }
    match scan_coords(line, 3) {
        Some((at, p)) => {
            if !expect(line, p, middle.as_slice()) {
                return None;
            }
            match scan_items(line, p + 5) {
                Some((items, q)) => {
                    if expect(line, q, close.as_slice()) && q + 1 == line.len() {
                        let chest = TreasureCollectionBuilder::new(
                            TreasureCollectionVariant::TreasureChest,
                        ).coords(at).items(items.as_slice()).build();
                        assert(chest@.items =~= typed_items(items@));
                        Some(chest)
                    } else {
                        None
                    }
                },
                None => None,
            }
        },
        None => None,
    }
}

/// The key links that the directive block writes, in their order.
pub fn parse_key_door_links(lines: &Vec<Vec<u8>>) -> (links: Vec<KeyDoorLink>)
    ensures
        links@ == links_in(directive_lines(rows_of(lines@))),
{
    let first = body_length(lines);
    let ghost block = directive_lines(rows_of(lines@));
    let mut links: Vec<KeyDoorLink> = Vec::new();
    let mut i: usize = first;
    assert(block.take(0) =~= Seq::<Seq<u8>>::empty());
    while i < lines.len()
        invariant
            first <= i <= lines.len(),
            first == body_len(rows_of(lines@)),
            block == directive_lines(rows_of(lines@)),
            links@ == links_in(block.take(i - first)),
        decreases lines.len() - i,
    {
        proof {
            let longer = block.take(i + 1 - first);
            assert(longer.drop_last() =~= block.take(i - first));
            assert(longer.last() == lines@[i as int]@);
        }
        match parse_link(lines[i].as_slice()) {
            Some(link) => {
                links.push(link);
            },
            None => {},
        }
        i += 1;
    }
    assert(block.take(lines.len() - first) =~= block);
    links
}

/// The chests that the directive block writes, in their order.
pub fn parse_treasure_chests(lines: &Vec<Vec<u8>>) -> (chests: Vec<TreasureCollection>)
    ensures
        chest_views(chests@) == chests_in(directive_lines(rows_of(lines@))),
{
    let first = body_length(lines);
    let ghost block = directive_lines(rows_of(lines@));
    let mut chests: Vec<TreasureCollection> = Vec::new();
    let mut i: usize = first;
    assert(block.take(0) =~= Seq::<Seq<u8>>::empty());
    assert(chest_views(chests@) =~= Seq::<TreasureCollectionView>::empty());
    while i < lines.len()
        invariant
            first <= i <= lines.len(),
            first == body_len(rows_of(lines@)),
            block == directive_lines(rows_of(lines@)),
            chest_views(chests@) == chests_in(block.take(i - first)),
        decreases lines.len() - i,
    {
        proof {
            let longer = block.take(i + 1 - first);
            assert(longer.drop_last() =~= block.take(i - first));
            assert(longer.last() == lines@[i as int]@);
        }
        let ghost before = chest_views(chests@);
        match parse_chest(lines[i].as_slice()) {
            Some(chest) => {
                let ghost view = chest@;
                chests.push(chest);
                assert(chest_views(chests@) =~= before.push(view));
            },
            None => {},
        }
        i += 1;
    }
    assert(block.take(lines.len() - first) =~= block);
    chests
}

/// The index of the first line of the directive block that is no directive;
/// `None` if every line of the block is one.
pub fn find_malformed(lines: &Vec<Vec<u8>>) -> (found: Option<usize>)
    ensures
        match found {
            Some(i) => i < lines.len() && i == first_malformed(
                rows_of(lines@),
                body_len(rows_of(lines@)),
            ),
            None => first_malformed(rows_of(lines@), body_len(rows_of(lines@))) == lines.len(),
        },
{
    let first = body_length(lines);
    let mut i: usize = first;
    while i < lines.len()
        invariant
            first <= i <= lines.len(),
            first == body_len(rows_of(lines@)),
            first_malformed(rows_of(lines@), first as int) == first_malformed(
                rows_of(lines@),
                i as int,
            ),
        decreases lines.len() - i,
    {
        let line = lines[i].as_slice();
        assert(line@ == rows_of(lines@)[i as int]);
        let is_link = parse_link(line).is_some();
        let is_chest = parse_chest(line).is_some();
        if !is_link && !is_chest {
            assert(!well_formed(rows_of(lines@)[i as int]));
            return Some(i);
        }
        i += 1;
    }
    None
}

} // verus!
