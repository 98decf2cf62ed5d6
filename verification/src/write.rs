//! Writing a value into a buffer.

use vstd::prelude::*;
use crate::endian::{lemma_radix_values, push_int, push_uint};
use crate::error::EncodingError;
use crate::field::{Val, Value, lemma_views, views};
use crate::layout::{
    bodies_bytes, bodies_len, body_bytes, body_len, lemma_bytes_step, lemma_lens_prefix,
    lemma_lens_step, lemma_slots_len_lower, record_bytes, slot_bytes, slot_len, slots_bytes,
    slots_len, written,
};
use crate::offset::Offset;

verus! {

/// The width of the header slot of `value`.
pub fn slot_size(value: &Value) -> (r: u32)
    ensures
        r == slot_len(value@),
{
    match value {
        Value::U8(_) | Value::I8(_) => 1,
        Value::U16(_) | Value::I16(_) => 2,
        Value::U32(_) | Value::I32(_) => 4,
        Value::U64(_) | Value::I64(_) => 8,
        Value::Hash(_) | Value::PublicKey(_) => 32,
        Value::Signature(_) => 64,
        Value::Timestamp(_) | Value::Duration(_) => 12,
        Value::Uuid(_) | Value::Decimal(_) => 16,
        Value::Bytes(_)
        | Value::Str(_)
        | Value::Struct(_)
        | Value::List(_)
        | Value::Optional(_) => 8,
    }
}

/// The number of bytes in the body of `value`, if it can be addressed by a
/// `u32`.
pub fn body_size(value: &Value) -> (r: Option<u32>)
    ensures
        r == if body_len(value@) <= u32::MAX {
            Some(body_len(value@) as u32)
        } else {
            None
        },
    decreases value, 0nat,
{
    match value {
        Value::Bytes(bytes) => {
            if bytes.len() <= u32::MAX as usize {
                Some(bytes.len() as u32)
            } else {
                None
            }
        },
        Value::Str(text) => {
            let len = text.as_str().as_bytes().len();
            if len <= u32::MAX as usize {
                Some(len as u32)
            } else {
                None
            }
        },
        Value::Struct(fields) => record_size(fields),
        Value::List(items) => record_size(items),
        Value::Optional(Some(value)) => match body_size(value) {
            Some(body) => body.checked_add(slot_size(value)),
            None => None,
        },
        _ => Some(0),
    }
}

/// The number of bytes that the slots and the bodies of `items` take
/// together, if it can be addressed by a `u32`.
pub fn record_size(items: &Vec<Value>) -> (r: Option<u32>)
    ensures
        r == if slots_len(views(items@)) + bodies_len(views(items@)) <= u32::MAX {
            Some((slots_len(views(items@)) + bodies_len(views(items@))) as u32)
        } else {
            None
        },
    decreases items, 1nat,
{
    let ghost vals = views(items@);
    let mut total: u32 = 0;
    let mut k: usize = 0;
    proof {
        lemma_views(items@);
        assert(vals.take(0) =~= Seq::<Val>::empty());
    }
    while k < items.len()
        invariant
            k <= items@.len(),
            vals == views(items@),
            vals.len() == items@.len(),
            forall|i: int| 0 <= i < items@.len() ==> (#[trigger] vals[i]) == items@[i]@,
            total == slots_len(vals.take(k as int)) + bodies_len(vals.take(k as int)),
        decreases items@.len() - k,
    {
        proof {
            lemma_lens_step(vals, k as int);
            lemma_lens_prefix(vals, k + 1);
        }
        let slot = slot_size(&items[k]);
        let body = match body_size(&items[k]) {
            Some(body) => body,
            None => {
                return None;
            },
        };
        let sum = match slot.checked_add(body) {
            Some(sum) => sum,
            None => {
                return None;
            },
        };
        total = match total.checked_add(sum) {
            Some(total) => total,
            None => {
                return None;
            },
        };
        k += 1;
    }
    assert(vals.take(k as int) =~= vals);
    Some(total)
}

/// Appends the header slot of `value` to `out`, for a body that starts at
/// `pos`.
pub fn push_slot(value: &Value, pos: u32, out: &mut Vec<u8>)
    requires
        body_len(value@) <= u32::MAX,
    ensures
        final(out)@ == old(out)@ + slot_bytes(value@, pos as int),
{
    proof {
        lemma_radix_values();
    }
    match value {
        Value::U8(x) => push_uint(out, *x as u64, 1),
        Value::U16(x) => push_uint(out, *x as u64, 2),
        Value::U32(x) => push_uint(out, *x as u64, 4),
        Value::U64(x) => push_uint(out, *x, 8),
        Value::I8(x) => push_int(out, *x as i64, 1),
        Value::I16(x) => push_int(out, *x as i64, 2),
        Value::I32(x) => push_int(out, *x as i64, 4),
        Value::I64(x) => push_int(out, *x, 8),
        Value::Hash(a) => out.extend_from_slice(a.as_slice()),
        Value::PublicKey(a) => out.extend_from_slice(a.as_slice()),
        Value::Signature(a) => out.extend_from_slice(a.as_slice()),
        Value::Timestamp(t) => {
            push_int(out, t.secs, 8);
            push_uint(out, t.nanos as u64, 4);
        },
        Value::Duration(d) => {
            push_int(out, d.secs, 8);
            push_int(out, d.nanos as i64, 4);
        },
        Value::Uuid(a) => out.extend_from_slice(a.as_slice()),
        Value::Decimal(a) => out.extend_from_slice(a.as_slice()),
        Value::Bytes(bytes) => {
            push_uint(out, pos as u64, 4);
            push_uint(out, bytes.len() as u64, 4);
        },
        Value::Str(text) => {
            push_uint(out, pos as u64, 4);
            push_uint(out, text.as_str().as_bytes().len() as u64, 4);
        },
        Value::Struct(fields) => {
            let size = match record_size(fields) {
                Some(size) => size,
                None => vstd::pervasive::unreached(),
            };
            push_uint(out, pos as u64, 4);
            push_uint(out, size as u64, 4);
        },
        Value::List(items) => {
            proof {
                lemma_views(items@);
                lemma_slots_len_lower(views(items@));
            }
            push_uint(out, pos as u64, 4);
            push_uint(out, items.len() as u64, 4);
        },
        Value::Optional(None) => {
            push_uint(out, pos as u64, 4);
            push_uint(out, 0, 4);
        },
        Value::Optional(Some(_)) => {
            push_uint(out, pos as u64, 4);
            push_uint(out, 1, 4);
        },
    }
}

/// Appends the body of `value` to `out`, for a body that starts at `pos`.
pub fn push_body(value: &Value, pos: u32, out: &mut Vec<u8>)
    requires
        pos + body_len(value@) <= u32::MAX,
    ensures
        final(out)@ == old(out)@ + body_bytes(value@, pos as int),
    decreases value, 0nat,
{
    match value {
        Value::Bytes(bytes) => out.extend_from_slice(bytes.as_slice()),
        Value::Str(text) => out.extend_from_slice(text.as_str().as_bytes()),
        Value::Struct(fields) => push_record(fields, 0, out),
        Value::List(items) => push_record(items, pos, out),
        Value::Optional(Some(value)) => {
            let start = pos + slot_size(value);
            push_slot(value, start, out);
            push_body(value, start, out);
        },
        _ => {
            assert(old(out)@ + Seq::<u8>::empty() =~= old(out)@);
        },
    }
}

/// Appends the header slots of `items` and then their bodies to `out`, for
/// a first slot that lies at `base`.
pub fn push_record(items: &Vec<Value>, base: u32, out: &mut Vec<u8>)
    requires
        base + slots_len(views(items@)) + bodies_len(views(items@)) <= u32::MAX,
    ensures
        final(out)@ == old(out)@ + record_bytes(views(items@), base as int),
    decreases items, 1nat,
{
    let ghost vals = views(items@);
    proof {
        lemma_views(items@);
        assert(vals.take(0) =~= Seq::<Val>::empty());
    }
    let mut start: u32 = base;
    let mut k: usize = 0;
    while k < items.len()
        invariant
            k <= items@.len(),
            vals == views(items@),
            vals.len() == items@.len(),
            base + slots_len(vals) + bodies_len(vals) <= u32::MAX,
            forall|i: int| 0 <= i < items@.len() ==> (#[trigger] vals[i]) == items@[i]@,
            start == base + slots_len(vals.take(k as int)),
        decreases items@.len() - k,
    {
        proof {
            lemma_lens_step(vals, k as int);
            lemma_lens_prefix(vals, k + 1);
            assert(vals[k as int] == items@[k as int]@);
        }
        start = start + slot_size(&items[k]);
        k += 1;
    }
    assert(vals.take(k as int) =~= vals);
    let mut pos: u32 = start;
    k = 0;
    assert(old(out)@ + Seq::<u8>::empty() =~= old(out)@);
    while k < items.len()
        invariant
            k <= items@.len(),
            vals == views(items@),
            vals.len() == items@.len(),
            forall|i: int| 0 <= i < items@.len() ==> (#[trigger] vals[i]) == items@[i]@,
            start + bodies_len(vals) <= u32::MAX,
            pos == start + bodies_len(vals.take(k as int)),
            out@ == old(out)@ + slots_bytes(vals.take(k as int), start as int),
        decreases items@.len() - k,
    {
        proof {
            lemma_lens_step(vals, k as int);
            lemma_lens_prefix(vals, k + 1);
            lemma_bytes_step(vals, start as int, k as int);
        }
        push_slot(&items[k], pos, out);
        let body = match body_size(&items[k]) {
            Some(body) => body,
            None => vstd::pervasive::unreached(),
        };
        pos = pos + body;
        k += 1;
    }
    assert(vals.take(k as int) =~= vals);
    let ghost slots = out@;
    pos = start;
    k = 0;
    assert(slots + Seq::<u8>::empty() =~= slots);
    while k < items.len()
        invariant
            k <= items@.len(),
            vals == views(items@),
            vals.len() == items@.len(),
            forall|i: int| 0 <= i < items@.len() ==> (#[trigger] vals[i]) == items@[i]@,
            start + bodies_len(vals) <= u32::MAX,
            pos == start + bodies_len(vals.take(k as int)),
            out@ == slots + bodies_bytes(vals.take(k as int), start as int),
        decreases items@.len() - k,
    {
        proof {
            lemma_lens_step(vals, k as int);
            lemma_lens_prefix(vals, k + 1);
            lemma_bytes_step(vals, start as int, k as int);
        }
        push_body(&items[k], pos, out);
        let body = match body_size(&items[k]) {
            Some(body) => body,
            None => vstd::pervasive::unreached(),
        };
        pos = pos + body;
        k += 1;
    }
    assert(vals.take(k as int) =~= vals);
}

/// Writes `value` into the header slot `[from, to)` of `buffer` and
/// appends its body. The slot must lie in the buffer and have the width of
/// the value's header, and the buffer with the body must stay addressable
/// by a `u32`.
pub fn write(value: &Value, buffer: &mut Vec<u8>, from: Offset, to: Offset)
    requires
        writable(old(buffer)@, value@, from as int, to as int),
    ensures
        final(buffer)@ == written(old(buffer)@, value@, from as int),
{
    let pos = buffer.len() as u32;
    let mut slot: Vec<u8> = Vec::new();
    push_slot(value, pos, &mut slot);
    assert(slot@ =~= slot_bytes(value@, pos as int));
    proof {
        lemma_slot_bytes_len(value@, pos as int);
    }
    let mut i: usize = 0;
    while i < slot.len()
        invariant
            i <= slot@.len(),
            from + slot@.len() == to,
            to <= buffer@.len(),
            buffer@.len() == old(buffer)@.len(),
            forall|j: int| 0 <= j < i ==> buffer@[from + j] == slot@[j],
            forall|j: int|
                0 <= j < buffer@.len() && !(from <= j < from + i) ==> buffer@[j] == old(buffer)@[j],
        decreases slot@.len() - i,
    {
        buffer[from as usize + i] = slot[i];
        i += 1;
    }
    assert(buffer@ =~= old(buffer)@.subrange(0, from as int) + slot@ + old(buffer)@.subrange(
        from + slot_len(value@),
        old(buffer)@.len() as int,
    ));
    push_body(value, pos, buffer);
}

/// Whether `v` can be written into the slot `[from, to)` of `buf`: the
/// slot has the width of the header of `v` and lies in the buffer, and the
/// buffer with the body of `v` stays addressable by a `u32`.
pub open spec fn writable(buf: Seq<u8>, v: Val, from: int, to: int) -> bool {
    &&& from + slot_len(v) == to
    &&& to <= buf.len()
    &&& buf.len() + body_len(v) <= u32::MAX
}

/// Why `v` cannot be written into the slot `[from, to)` of `buf`, if it
/// cannot: a slot that ends before it starts and a buffer that would grow
/// beyond the reach of a `u32` give `OffsetOverflow`; a slot of another
/// width than the header of `v`, or one that reaches beyond the buffer,
/// gives `UnexpectedlyShortPayload`.
pub open spec fn write_error(buf: Seq<u8>, v: Val, from: int, to: int) -> Option<EncodingError> {
    if to < from {
        Some(EncodingError::OffsetOverflow)
    } else if to - from != slot_len(v) || to > buf.len() {
        Some(EncodingError::UnexpectedlyShortPayload)
    } else if buf.len() + body_len(v) > u32::MAX {
        Some(EncodingError::OffsetOverflow)
    } else {
        None
    }
}

/// Writes `value` into the header slot `[from, to)` of `buffer` and
/// appends its body, if that can be done; otherwise the buffer stays as it
/// is and the error says why.
pub fn try_write(value: &Value, buffer: &mut Vec<u8>, from: Offset, to: Offset) -> (r: Result<
    (),
    EncodingError,
>)
    ensures
        match r {
            Ok(_) => {
                &&& writable(old(buffer)@, value@, from as int, to as int)
                &&& final(buffer)@ == written(old(buffer)@, value@, from as int)
            },
            Err(e) => {
                &&& write_error(old(buffer)@, value@, from as int, to as int) == Some(e)
                &&& final(buffer)@ == old(buffer)@
            },
        },
{
    if to < from {
        return Err(EncodingError::OffsetOverflow);
    }
    if to - from != slot_size(value) || to as usize > buffer.len() {
        return Err(EncodingError::UnexpectedlyShortPayload);
    }
    let body = match body_size(value) {
        Some(body) => body,
        None => {
            return Err(EncodingError::OffsetOverflow);
        },
    };
    if buffer.len() > (u32::MAX - body) as usize {
        return Err(EncodingError::OffsetOverflow);
    }
    write(value, buffer, from, to);
    Ok(())
}

/// The header slot of a value has the width of its type.
pub proof fn lemma_slot_bytes_len(v: Val, pos: int)
    requires
        match v {
            Val::Hash(a) | Val::PublicKey(a) => a.len() == 32,
            Val::Signature(a) => a.len() == 64,
            Val::Uuid(a) | Val::Decimal(a) => a.len() == 16,
            _ => true,
        },
    ensures
        slot_bytes(v, pos).len() == slot_len(v),
{
    crate::endian::lemma_le_bytes_len(0, 0);
    match v {
        Val::U8(x) => crate::endian::lemma_le_bytes_len(x as nat, 1),
        Val::U16(x) => crate::endian::lemma_le_bytes_len(x as nat, 2),
        Val::U32(x) => crate::endian::lemma_le_bytes_len(x as nat, 4),
        Val::U64(x) => crate::endian::lemma_le_bytes_len(x as nat, 8),
        Val::I8(x) => crate::endian::lemma_le_bytes_len(crate::endian::unsigned(x as int, 1), 1),
        Val::I16(x) => crate::endian::lemma_le_bytes_len(crate::endian::unsigned(x as int, 2), 2),
        Val::I32(x) => crate::endian::lemma_le_bytes_len(crate::endian::unsigned(x as int, 4), 4),
        Val::I64(x) => crate::endian::lemma_le_bytes_len(crate::endian::unsigned(x as int, 8), 8),
        Val::Timestamp(t) => {
            crate::endian::lemma_le_bytes_len(crate::endian::unsigned(t.secs as int, 8), 8);
            crate::endian::lemma_le_bytes_len(t.nanos as nat, 4);
        },
        Val::Duration(d) => {
            crate::endian::lemma_le_bytes_len(crate::endian::unsigned(d.secs as int, 8), 8);
            crate::endian::lemma_le_bytes_len(crate::endian::unsigned(d.nanos as int, 4), 4);
        },
        Val::Bytes(b) => lemma_segment_header_len(pos, b.len() as int),
        Val::Str(s) => lemma_segment_header_len(pos, vstd::utf8::encode_utf8(s).len() as int),
        Val::Struct(fields) => lemma_segment_header_len(
            pos,
            (slots_len(fields) + bodies_len(fields)) as int,
        ),
        Val::List(items) => lemma_segment_header_len(pos, items.len() as int),
        Val::Optional(None) => lemma_segment_header_len(pos, 0),
        Val::Optional(Some(_)) => lemma_segment_header_len(pos, 1),
        _ => {},
    }
}

/// A segment header is eight bytes wide.
pub proof fn lemma_segment_header_len(pos: int, count: int)
    ensures
        crate::layout::segment_header(pos, count).len() == 8,
{
    crate::endian::lemma_le_bytes_len(pos as nat, 4);
    crate::endian::lemma_le_bytes_len(count as nat, 4);
}

} // verus!
