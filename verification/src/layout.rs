//! The bytes of a value: what its header slot holds and what its body holds.
//!
//! A value written at the end of a buffer of length `pos` puts
//! `slot_bytes(v, pos)` into its header slot and appends
//! `body_bytes(v, pos)`. Values stored inline have an empty body. A segment
//! has a slot of two little-endian `u32`: the position of its body and a
//! count, which is a number of bytes for byte arrays, text and nested
//! structures and a number of elements for lists and optional values.

use vstd::prelude::*;
use vstd::utf8::encode_utf8;
use crate::endian::{le_bytes, unsigned};
use crate::field::Val;

verus! {

/// The header slot of a segment: pointer, then count.
pub open spec fn segment_header(pos: int, count: int) -> Seq<u8> {
    le_bytes(pos as nat, 4) + le_bytes(count as nat, 4)
}

/// The width of the header slot of `v`.
pub open spec fn slot_len(v: Val) -> nat {
    match v {
        Val::U8(_) | Val::I8(_) => 1,
        Val::U16(_) | Val::I16(_) => 2,
        Val::U32(_) | Val::I32(_) => 4,
        Val::U64(_) | Val::I64(_) => 8,
        Val::Hash(_) | Val::PublicKey(_) => 32,
        Val::Signature(_) => 64,
        Val::Timestamp(_) | Val::Duration(_) => 12,
        Val::Uuid(_) | Val::Decimal(_) => 16,
        Val::Bytes(_) | Val::Str(_) | Val::Struct(_) | Val::List(_) | Val::Optional(_) => 8,
    }
}

/// The number of bytes in the body of `v`.
pub open spec fn body_len(v: Val) -> nat
    decreases v,
{
    match v {
        Val::Bytes(b) => b.len(),
        Val::Str(s) => encode_utf8(s).len(),
        Val::Struct(fields) => slots_len(fields) + bodies_len(fields),
        Val::List(items) => slots_len(items) + bodies_len(items),
        Val::Optional(Some(value)) => slot_len(*value) + body_len(*value),
        _ => 0,
    }
}

/// The widths of the header slots of `items`, added up.
pub open spec fn slots_len(items: Seq<Val>) -> nat
    decreases items.len(),
{
    if items.len() == 0 {
        0
    } else {
        slots_len(items.drop_last()) + slot_len(items.last())
    }
}

/// The lengths of the bodies of `items`, added up.
pub open spec fn bodies_len(items: Seq<Val>) -> nat
    decreases items,
{
    if items.len() == 0 {
        0
    } else {
        bodies_len(items.drop_last()) + body_len(items.last())
    }
}

/// What the header slot of `v` holds when the body of `v` starts at `pos`.
pub open spec fn slot_bytes(v: Val, pos: int) -> Seq<u8> {
    match v {
        Val::U8(x) => le_bytes(x as nat, 1),
        Val::U16(x) => le_bytes(x as nat, 2),
        Val::U32(x) => le_bytes(x as nat, 4),
        Val::U64(x) => le_bytes(x as nat, 8),
        Val::I8(x) => le_bytes(unsigned(x as int, 1), 1),
        Val::I16(x) => le_bytes(unsigned(x as int, 2), 2),
        Val::I32(x) => le_bytes(unsigned(x as int, 4), 4),
        Val::I64(x) => le_bytes(unsigned(x as int, 8), 8),
        Val::Hash(a) => a,
        Val::PublicKey(a) => a,
        Val::Signature(a) => a,
        Val::Timestamp(t) => le_bytes(unsigned(t.secs as int, 8), 8) + le_bytes(t.nanos as nat, 4),
        Val::Duration(d) => le_bytes(unsigned(d.secs as int, 8), 8) + le_bytes(
            unsigned(d.nanos as int, 4),
            4,
        ),
        Val::Uuid(a) => a,
        Val::Decimal(a) => a,
        Val::Bytes(b) => segment_header(pos, b.len() as int),
        Val::Str(s) => segment_header(pos, encode_utf8(s).len() as int),
        Val::Struct(fields) => segment_header(pos, (slots_len(fields) + bodies_len(fields)) as int),
        Val::List(items) => segment_header(pos, items.len() as int),
        Val::Optional(None) => segment_header(pos, 0),
        Val::Optional(Some(_)) => segment_header(pos, 1),
    }
}

/// The body of `v` when it starts at `pos`. A nested structure counts its
/// pointers from its own first byte, a list from the start of the buffer
/// that holds it.
pub open spec fn body_bytes(v: Val, pos: int) -> Seq<u8>
    decreases v, 0nat,
{
    match v {
        Val::Bytes(b) => b,
        Val::Str(s) => encode_utf8(s),
        Val::Struct(fields) => record_bytes(fields, 0),
        Val::List(items) => record_bytes(items, pos),
        Val::Optional(Some(value)) => slot_bytes(*value, pos + slot_len(*value)) + body_bytes(
            *value,
            pos + slot_len(*value),
        ),
        _ => Seq::empty(),
    }
}

/// The header slots of `items` followed by their bodies, the first slot
/// lying at `base`.
pub open spec fn record_bytes(items: Seq<Val>, base: int) -> Seq<u8>
    decreases items, 1nat,
{
    slots_bytes(items, base + slots_len(items)) + bodies_bytes(items, base + slots_len(items))
}

/// The header slots of `items` when the first body starts at `start` and
/// each next body follows the one before.
pub open spec fn slots_bytes(items: Seq<Val>, start: int) -> Seq<u8>
    decreases items.len(),
{
    if items.len() == 0 {
        Seq::empty()
    } else {
        slots_bytes(items.drop_last(), start) + slot_bytes(
            items.last(),
            start + bodies_len(items.drop_last()),
        )
    }
}

/// The bodies of `items`, one after the other, the first starting at `start`.
pub open spec fn bodies_bytes(items: Seq<Val>, start: int) -> Seq<u8>
    decreases items, 0nat,
{
    if items.len() == 0 {
        Seq::empty()
    } else {
        bodies_bytes(items.drop_last(), start) + body_bytes(
            items.last(),
            start + bodies_len(items.drop_last()),
        )
    }
}

/// The buffer after `v` was written into the slot at `from` of `buf`: the
/// slot holds the header of `v`, the body of `v` follows the old content.
pub open spec fn written(buf: Seq<u8>, v: Val, from: int) -> Seq<u8> {
    buf.subrange(0, from) + slot_bytes(v, buf.len() as int) + buf.subrange(
        from + slot_len(v),
        buf.len() as int,
    ) + body_bytes(v, buf.len() as int)
}


/// One more item adds its slot and its body to the sums.
pub proof fn lemma_lens_step(items: Seq<Val>, k: int)
    requires
        0 <= k < items.len(),
    ensures
        slots_len(items.take(k + 1)) == slots_len(items.take(k)) + slot_len(items[k]),
        bodies_len(items.take(k + 1)) == bodies_len(items.take(k)) + body_len(items[k]),
{
    assert(items.take(k + 1).drop_last() =~= items.take(k));
}

/// The sums over a part are no larger than over the whole.
pub proof fn lemma_lens_prefix(items: Seq<Val>, k: int)
    requires
        0 <= k <= items.len(),
    ensures
        slots_len(items.take(k)) <= slots_len(items),
        bodies_len(items.take(k)) <= bodies_len(items),
    decreases items.len(),
{
    if k == items.len() {
        assert(items.take(k) =~= items);
    } else {
        lemma_lens_prefix(items.drop_last(), k);
        assert(items.drop_last().take(k) =~= items.take(k));
    }
}

/// Every slot is at least one byte wide.
pub proof fn lemma_slots_len_lower(items: Seq<Val>)
    ensures
        items.len() <= slots_len(items),
    decreases items.len(),
{
    if items.len() > 0 {
        lemma_slots_len_lower(items.drop_last());
    }
}

/// One more item adds its slot and its body to the bytes.
pub proof fn lemma_bytes_step(items: Seq<Val>, start: int, k: int)
    requires
        0 <= k < items.len(),
    ensures
        slots_bytes(items.take(k + 1), start) == slots_bytes(items.take(k), start) + slot_bytes(
            items[k],
            start + bodies_len(items.take(k)),
        ),
        bodies_bytes(items.take(k + 1), start) == bodies_bytes(items.take(k), start) + body_bytes(
            items[k],
            start + bodies_len(items.take(k)),
        ),
{
    assert(items.take(k + 1).drop_last() =~= items.take(k));
}

} // verus!
