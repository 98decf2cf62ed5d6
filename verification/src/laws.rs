//! What holds of the codec as a whole.
//!
//! - `lemma_write_check_read`: a value that was written is accepted by
//!   `check`, the mark ends at the end of the buffer, and `read` gives the
//!   value back. `lemma_struct_round_trip` says the same of a whole
//!   message.
//! - `lemma_check_again`: validation is repeatable.
//! - `lemma_pointer_overflow` and `lemma_empty_segment_in_header`: two
//!   kinds of segment headers that are always refused, and with which
//!   error.
//! - `lemma_read_typed`: what is read from an accepted buffer is a value
//!   of the type that was asked for.
//!
//! The other lemmas are the steps that lead there.

use vstd::prelude::*;
use vstd::utf8::{encode_utf8, encode_utf8_decode_utf8, encode_utf8_valid_utf8};
use crate::check::{
    check_field, check_fields, check_items, check_record, lemma_schema_size_step, segment_count,
    segment_pos,
};
use crate::endian::{
    le_bytes, le_value, lemma_le_bytes_len, lemma_le_value_of_bytes, lemma_radix_values,
    lemma_signed_of_unsigned, unsigned,
};
use crate::error::EncodingError;
use crate::field::{Ty, Val, all_of_type, has_type, have_types, header_size, schema_size};
use crate::layout::{
    bodies_bytes, bodies_len, body_bytes, body_len, lemma_lens_prefix, lemma_lens_step,
    record_bytes, segment_header, slot_bytes, slot_len, slots_bytes, slots_len, written,
};
use crate::read::{read_field, read_fields, read_items, segment_body};

verus! {

/// A sequence of `n` fields of one type.
pub open spec fn repeated(item: Ty, n: nat) -> Seq<Ty> {
    Seq::new(n, |i: int| item)
}

/// The header slot of a value has the width that its type gives it.
pub proof fn lemma_slot_typed(v: Val, ty: Ty, pos: int)
    requires
        has_type(v, ty),
    ensures
        slot_len(v) == header_size(ty),
        slot_bytes(v, pos).len() == header_size(ty),
{
    crate::write::lemma_slot_bytes_len(v, pos);
}

/// The header slots of typed values are as wide as the header of their
/// schema, part for part.
pub proof fn lemma_slots_len_schema(vals: Seq<Val>, tys: Seq<Ty>, k: int)
    requires
        have_types(vals, tys),
        0 <= k <= vals.len(),
    ensures
        slots_len(vals.take(k)) == schema_size(tys.take(k)),
    decreases k,
{
    if k > 0 {
        lemma_slots_len_schema(vals, tys, k - 1);
        lemma_lens_step(vals, k - 1);
        lemma_schema_size_step(tys, k - 1);
        lemma_slot_typed(vals[k - 1], tys[k - 1], 0);
    } else {
        assert(vals.take(0) =~= Seq::<Val>::empty());
        assert(tys.take(0) =~= Seq::<Ty>::empty());
    }
}

/// The header of `n` fields of one type is `n` slots wide.
pub proof fn lemma_schema_size_repeated(item: Ty, n: nat)
    ensures
        schema_size(repeated(item, n)) == n * header_size(item),
    decreases n,
{
    if n > 0 {
        lemma_schema_size_repeated(item, (n - 1) as nat);
        assert(repeated(item, n).drop_last() =~= repeated(item, (n - 1) as nat));
        assert(n * header_size(item) == (n - 1) * header_size(item) + header_size(item))
            by (nonlinear_arith);
    } else {
        assert(0 * header_size(item) == 0);
    }
}

/// The elements of a list have the types of a schema that repeats the
/// element type.
pub proof fn lemma_list_typed(items: Seq<Val>, item: Ty)
    requires
        all_of_type(items, item),
    ensures
        have_types(items, repeated(item, items.len())),
{
    let tys = repeated(item, items.len());
    assert forall|i: int| 0 <= i < tys.len() implies has_type(#[trigger] items[i], tys[i]) by {
        assert(has_type(items[i], item));
    }
}

/// The body of a typed value is as long as `body_len` says.
pub proof fn lemma_body_bytes_len(v: Val, ty: Ty, pos: int)
    requires
        has_type(v, ty),
    ensures
        body_bytes(v, pos).len() == body_len(v),
    decreases v, 0nat,
{
    match (v, ty) {
        (Val::Struct(vals), Ty::Struct(_, fields)) => {
            lemma_record_bytes_len(vals, fields, slots_len(vals) as int);
            assert(body_bytes(v, pos) == record_bytes(vals, 0));
        },
        (Val::List(items), Ty::List(item)) => {
            lemma_list_typed(items, *item);
            lemma_record_bytes_len(items, repeated(*item, items.len()), pos + slots_len(items));
            assert(body_bytes(v, pos) == record_bytes(items, pos));
        },
        (Val::Optional(Some(value)), Ty::Optional(item)) => {
            lemma_slot_typed(*value, *item, pos + slot_len(*value));
            lemma_body_bytes_len(*value, *item, pos + slot_len(*value));
        },
        _ => {},
    }
}

/// The slots and the bodies of typed values are as long as `slots_len` and
/// `bodies_len` say.
pub proof fn lemma_record_bytes_len(vals: Seq<Val>, tys: Seq<Ty>, start: int)
    requires
        have_types(vals, tys),
    ensures
        slots_bytes(vals, start).len() == slots_len(vals),
        bodies_bytes(vals, start).len() == bodies_len(vals),
    decreases vals, vals.len() + 1,
{
    if vals.len() > 0 {
        let n = vals.len() - 1;
        assert(have_types(vals.drop_last(), tys.drop_last()));
        lemma_record_bytes_len(vals.drop_last(), tys.drop_last(), start);
        assert(has_type(vals[n], tys[n]));
        lemma_slot_typed(vals.last(), tys[n], start + bodies_len(vals.drop_last()));
        lemma_body_bytes_len(vals.last(), tys[n], start + bodies_len(vals.drop_last()));
    }
}

/// Where the slot and the body of the `k`-th value lie among the slots and
/// the bodies of all.
pub proof fn lemma_locate(vals: Seq<Val>, tys: Seq<Ty>, start: int, k: int)
    requires
        have_types(vals, tys),
        0 <= k < vals.len(),
    ensures
        slots_len(vals.take(k + 1)) <= slots_len(vals),
        bodies_len(vals.take(k + 1)) <= bodies_len(vals),
        slots_bytes(vals, start).len() == slots_len(vals),
        bodies_bytes(vals, start).len() == bodies_len(vals),
        slots_bytes(vals, start).subrange(
            slots_len(vals.take(k)) as int,
            slots_len(vals.take(k + 1)) as int,
        ) == slot_bytes(vals[k], start + bodies_len(vals.take(k))),
        bodies_bytes(vals, start).subrange(
            bodies_len(vals.take(k)) as int,
            bodies_len(vals.take(k + 1)) as int,
        ) == body_bytes(vals[k], start + bodies_len(vals.take(k))),
    decreases vals.len(),
{
    let n = vals.len() - 1;
    let front = vals.drop_last();
    lemma_lens_prefix(vals, k + 1);
    lemma_lens_step(vals, k);
    lemma_record_bytes_len(vals, tys, start);
    assert(have_types(front, tys.drop_last()));
    lemma_record_bytes_len(front, tys.drop_last(), start);
    assert(has_type(vals[n], tys[n]));
    lemma_slot_typed(vals.last(), tys[n], start + bodies_len(front));
    lemma_body_bytes_len(vals.last(), tys[n], start + bodies_len(front));
    if k == n {
        assert(vals.take(k) =~= front);
        assert(vals.take(k + 1) =~= vals);
        assert(slots_bytes(vals, start).subrange(
            slots_len(front) as int,
            slots_len(vals) as int,
        ) =~= slot_bytes(vals[k], start + bodies_len(front)));
        assert(bodies_bytes(vals, start).subrange(
            bodies_len(front) as int,
            bodies_len(vals) as int,
        ) =~= body_bytes(vals[k], start + bodies_len(front)));
    } else {
        lemma_locate(front, tys.drop_last(), start, k);
        assert(front.take(k) =~= vals.take(k));
        assert(front.take(k + 1) =~= vals.take(k + 1));
        assert(slots_bytes(vals, start).subrange(
            slots_len(vals.take(k)) as int,
            slots_len(vals.take(k + 1)) as int,
        ) =~= slots_bytes(front, start).subrange(
            slots_len(vals.take(k)) as int,
            slots_len(vals.take(k + 1)) as int,
        ));
        assert(bodies_bytes(vals, start).subrange(
            bodies_len(vals.take(k)) as int,
            bodies_len(vals.take(k + 1)) as int,
        ) =~= bodies_bytes(front, start).subrange(
            bodies_len(vals.take(k)) as int,
            bodies_len(vals.take(k + 1)) as int,
        ));
    }
}

/// Elements of one type are checked and read as the fields of a schema
/// that repeats the type.
pub proof fn lemma_items_as_fields(
    item: Ty,
    n: nat,
    buf: Seq<u8>,
    k: nat,
    start: int,
    mark: int,
)
    requires
        k <= n,
    ensures
        check_items(item, buf, start, (n - k) as nat, mark) == check_fields(
            repeated(item, n),
            buf,
            k,
            start,
            mark,
        ),
        read_items(item, buf, start, (n - k) as nat) == read_fields(
            repeated(item, n),
            buf,
            k,
            start,
        ),
    decreases n - k,
{
    if k < n {
        assert(repeated(item, n)[k as int] == item);
        match check_field(item, buf, start, start + header_size(item), mark) {
            Ok(next) => {
                lemma_items_as_fields(item, n, buf, k + 1, start + header_size(item), next);
            },
            Err(_) => {
                lemma_items_as_fields(item, n, buf, k + 1, start + header_size(item), mark);
            },
        }
    }
}


/// A number that was written into a slot is the number that the slot spells.
pub proof fn lemma_slot_value(buf: Seq<u8>, from: int, value: nat, width: nat)
    requires
        value < crate::endian::radix(width),
        buf.subrange(from, from + width) == le_bytes(value, width),
    ensures
        le_value(buf.subrange(from, from + width)) == value,
{
    lemma_le_value_of_bytes(value, width);
}

/// A range that holds two parts one after the other holds each of them.
pub proof fn lemma_split(buf: Seq<u8>, from: int, first: Seq<u8>, second: Seq<u8>)
    requires
        0 <= from,
        from + first.len() + second.len() <= buf.len(),
        buf.subrange(from, from + first.len() + second.len()) == first + second,
    ensures
        buf.subrange(from, from + first.len()) == first,
        buf.subrange(from + first.len(), from + first.len() + second.len()) == second,
{
    let whole = buf.subrange(from, from + first.len() + second.len());
    assert(buf.subrange(from, from + first.len()) =~= whole.subrange(0, first.len() as int));
    assert(whole.subrange(0, first.len() as int) =~= first);
    let end = (first.len() + second.len()) as int;
    assert(buf.subrange(from + first.len(), from + end) =~= whole.subrange(
        first.len() as int,
        end,
    ));
    assert(whole.subrange(first.len() as int, end) =~= second);
}

/// A segment header that was written is the pointer and the count that the
/// slot spells.
pub proof fn lemma_segment_header(buf: Seq<u8>, from: int, pos: int, count: int)
    requires
        0 <= from,
        from + 8 <= buf.len(),
        0 <= pos <= u32::MAX,
        0 <= count <= u32::MAX,
        buf.subrange(from, from + 8) == segment_header(pos, count),
    ensures
        segment_pos(buf, from) == pos,
        segment_count(buf, from) == count,
{
    lemma_radix_values();
    lemma_le_bytes_len(pos as nat, 4);
    lemma_le_bytes_len(count as nat, 4);
    lemma_split(buf, from, le_bytes(pos as nat, 4), le_bytes(count as nat, 4));
    lemma_slot_value(buf, from, pos as nat, 4);
    lemma_slot_value(buf, from + 4, count as nat, 4);
}

/// A buffer that holds the header slot of a typed value at `from` and its
/// body at `pos`, behind the slot, is accepted with the mark at `pos`; the
/// mark moves to the end of the body, and the value is read back.
pub proof fn lemma_field_round_trip(ty: Ty, v: Val, buf: Seq<u8>, from: int, pos: int)
    requires
        has_type(v, ty),
        0 <= from,
        from + header_size(ty) <= pos,
        pos + body_len(v) <= buf.len(),
        pos + body_len(v) <= u32::MAX,
        buf.subrange(from, from + header_size(ty)) == slot_bytes(v, pos),
        buf.subrange(pos, pos + body_len(v)) == body_bytes(v, pos),
    ensures
        check_field(ty, buf, from, from + header_size(ty), pos) == Ok::<int, EncodingError>(
            pos + body_len(v),
        ),
        read_field(ty, buf, from) == v,
    decreases v, 0nat,
{
    lemma_radix_values();
    let to = from + header_size(ty);
    match (v, ty) {
        (Val::U8(x), Ty::U8) => {
            lemma_slot_value(buf, from, x as nat, 1);
        },
        (Val::U16(x), Ty::U16) => {
            lemma_slot_value(buf, from, x as nat, 2);
        },
        (Val::U32(x), Ty::U32) => {
            lemma_slot_value(buf, from, x as nat, 4);
        },
        (Val::U64(x), Ty::U64) => {
            lemma_slot_value(buf, from, x as nat, 8);
        },
        (Val::I8(x), Ty::I8) => {
            lemma_signed_of_unsigned(x as int, 1);
            lemma_slot_value(buf, from, unsigned(x as int, 1), 1);
        },
        (Val::I16(x), Ty::I16) => {
            lemma_signed_of_unsigned(x as int, 2);
            lemma_slot_value(buf, from, unsigned(x as int, 2), 2);
        },
        (Val::I32(x), Ty::I32) => {
            lemma_signed_of_unsigned(x as int, 4);
            lemma_slot_value(buf, from, unsigned(x as int, 4), 4);
        },
        (Val::I64(x), Ty::I64) => {
            lemma_signed_of_unsigned(x as int, 8);
            lemma_slot_value(buf, from, unsigned(x as int, 8), 8);
        },
        (Val::Timestamp(t), Ty::Timestamp) => {
            let secs = le_bytes(unsigned(t.secs as int, 8), 8);
            let nanos = le_bytes(t.nanos as nat, 4);
            lemma_le_bytes_len(unsigned(t.secs as int, 8), 8);
            lemma_le_bytes_len(t.nanos as nat, 4);
            lemma_split(buf, from, secs, nanos);
            lemma_signed_of_unsigned(t.secs as int, 8);
            lemma_slot_value(buf, from, unsigned(t.secs as int, 8), 8);
            lemma_slot_value(buf, from + 8, t.nanos as nat, 4);
        },
        (Val::Duration(d), Ty::Duration) => {
            let secs = le_bytes(unsigned(d.secs as int, 8), 8);
            let nanos = le_bytes(unsigned(d.nanos as int, 4), 4);
            lemma_le_bytes_len(unsigned(d.secs as int, 8), 8);
            lemma_le_bytes_len(unsigned(d.nanos as int, 4), 4);
            lemma_split(buf, from, secs, nanos);
            lemma_signed_of_unsigned(d.secs as int, 8);
            lemma_signed_of_unsigned(d.nanos as int, 4);
            lemma_slot_value(buf, from, unsigned(d.secs as int, 8), 8);
            lemma_slot_value(buf, from + 8, unsigned(d.nanos as int, 4), 4);
        },
        (Val::Bytes(b), Ty::Bytes) => {
            lemma_segment_header(buf, from, pos, b.len() as int);
        },
        (Val::Str(s), Ty::Str) => {
            lemma_segment_header(buf, from, pos, encode_utf8(s).len() as int);
            encode_utf8_valid_utf8(s);
            encode_utf8_decode_utf8(s);
        },
        (Val::Struct(vals), Ty::Struct(_, fields)) => {
            let len = slots_len(vals) + bodies_len(vals);
            let body = buf.subrange(pos, pos + len);
            assert(have_types(vals, fields));
            assert(body_bytes(v, pos) == record_bytes(vals, 0));
            lemma_segment_header(buf, from, pos, len as int);
            assert(body.subrange(0, len as int) =~= body);
            assert(vals.take(0) =~= Seq::<Val>::empty());
            lemma_record_round_trip(fields, vals, body, 0, 0);
            lemma_slots_len_schema(vals, fields, vals.len() as int);
            assert(vals.take(vals.len() as int) =~= vals);
            assert(fields.take(vals.len() as int) =~= fields);
            assert(vals.skip(0) =~= vals);
            assert(segment_body(buf, from) == body);
        },
        (Val::List(items), Ty::List(item)) => {
            let n = items.len();
            let tys = repeated(*item, n);
            assert(body_bytes(v, pos) == record_bytes(items, pos));
            lemma_list_typed(items, *item);
            crate::layout::lemma_slots_len_lower(items);
            lemma_segment_header(buf, from, pos, n as int);
            lemma_slots_len_schema(items, tys, n as int);
            assert(items.take(n as int) =~= items);
            assert(tys.take(n as int) =~= tys);
            lemma_schema_size_repeated(*item, n);
            assert(items.take(0) =~= Seq::<Val>::empty());
            lemma_record_round_trip(tys, items, buf, pos, 0);
            lemma_items_as_fields(*item, n, buf, 0, pos, pos + slots_len(items));
            assert(items.skip(0) =~= items);
        },
        (Val::Optional(None), Ty::Optional(item)) => {
            lemma_segment_header(buf, from, pos, 0);
        },
        (Val::Optional(Some(value)), Ty::Optional(item)) => {
            let start = pos + header_size(*item);
            lemma_segment_header(buf, from, pos, 1);
            lemma_slot_typed(*value, *item, start);
            lemma_body_bytes_len(*value, *item, start);
            lemma_split(buf, pos, slot_bytes(*value, start), body_bytes(*value, start));
            lemma_field_round_trip(*item, *value, buf, pos, start);
            crate::check::lemma_check_one_item(*item, buf, pos, start);
            assert(1 * header_size(*item) == header_size(*item));
        },
        _ => {},
    }
}

/// A buffer that holds the slots of typed values from `base` on and their
/// bodies behind the slots is accepted field by field, and the values are
/// read back.
pub proof fn lemma_record_round_trip(
    tys: Seq<Ty>,
    vals: Seq<Val>,
    buf: Seq<u8>,
    base: int,
    k: nat,
)
    requires
        have_types(vals, tys),
        0 <= base,
        base + slots_len(vals) + bodies_len(vals) <= buf.len(),
        base + slots_len(vals) + bodies_len(vals) <= u32::MAX,
        buf.subrange(base, base + slots_len(vals) + bodies_len(vals)) == record_bytes(vals, base),
        k <= vals.len(),
    ensures
        check_fields(
            tys,
            buf,
            k,
            base + slots_len(vals.take(k as int)),
            base + slots_len(vals) + bodies_len(vals.take(k as int)),
        ) == Ok::<int, EncodingError>(base + slots_len(vals) + bodies_len(vals)),
        read_fields(tys, buf, k, base + slots_len(vals.take(k as int))) == vals.skip(k as int),
    decreases vals, vals.len() - k + 1,
{
    let start = base + slots_len(vals);
    let i = k as int;
    if i < vals.len() {
        let a0 = slots_len(vals.take(i)) as int;
        let a1 = slots_len(vals.take(i + 1)) as int;
        let b0 = bodies_len(vals.take(i)) as int;
        let b1 = bodies_len(vals.take(i + 1)) as int;
        let width = slots_len(vals) as int;
        let from = base + a0;
        let pos = start + b0;
        let whole = buf.subrange(base, base + slots_len(vals) + bodies_len(vals));
        lemma_locate(vals, tys, start, i);
        lemma_lens_step(vals, i);
        lemma_lens_prefix(vals, i);
        lemma_slot_typed(vals[i], tys[i], pos);
        assert(buf.subrange(from, from + header_size(tys[i])) =~= whole.subrange(a0, a1));
        assert(whole.subrange(a0, a1) =~= slots_bytes(vals, start).subrange(a0, a1));
        assert(buf.subrange(pos, pos + body_len(vals[i])) =~= whole.subrange(
            width + b0,
            width + b1,
        ));
        assert(whole.subrange(width + b0, width + b1) =~= bodies_bytes(vals, start).subrange(
            b0,
            b1,
        ));
        lemma_field_round_trip(tys[i], vals[i], buf, from, pos);
        lemma_record_round_trip(tys, vals, buf, base, k + 1);
        assert(vals.skip(i) =~= seq![vals[i]] + vals.skip(i + 1));
    } else {
        assert(vals.take(i) =~= vals);
        assert(vals.skip(i) =~= Seq::<Val>::empty());
    }
}

/// A value that was written is accepted and read back: after `v` was
/// written into the slot at `from` of `buf`, `check` with the mark at the
/// old end of the buffer succeeds, the new mark is the new end of the
/// buffer, and `read` gives `v`.
pub proof fn lemma_write_check_read(ty: Ty, v: Val, buf: Seq<u8>, from: int)
    requires
        has_type(v, ty),
        0 <= from,
        from + header_size(ty) <= buf.len(),
        buf.len() + body_len(v) <= u32::MAX,
    ensures
        written(buf, v, from).len() == buf.len() + body_len(v),
        check_field(ty, written(buf, v, from), from, from + header_size(ty), buf.len() as int)
            == Ok::<int, EncodingError>(written(buf, v, from).len() as int),
        read_field(ty, written(buf, v, from), from) == v,
{
    let out = written(buf, v, from);
    let pos = buf.len() as int;
    lemma_slot_typed(v, ty, pos);
    lemma_body_bytes_len(v, ty, pos);
    assert(out.subrange(from, from + header_size(ty)) =~= slot_bytes(v, pos));
    assert(out.subrange(pos, pos + body_len(v)) =~= body_bytes(v, pos));
    lemma_field_round_trip(ty, v, out, from, pos);
}

/// A structured message that was encoded on its own is accepted, the mark
/// ends at the end of the message, and its fields are read back.
pub proof fn lemma_struct_round_trip(fields: Seq<Ty>, vals: Seq<Val>)
    requires
        have_types(vals, fields),
        slots_len(vals) + bodies_len(vals) <= u32::MAX,
    ensures
        record_bytes(vals, 0).len() == slots_len(vals) + bodies_len(vals),
        check_record(fields, record_bytes(vals, 0)) == Ok::<int, EncodingError>(
            record_bytes(vals, 0).len() as int,
        ),
        read_fields(fields, record_bytes(vals, 0), 0, 0) == vals,
{
    let buf = record_bytes(vals, 0);
    lemma_record_bytes_len(vals, fields, slots_len(vals) as int);
    assert(buf.subrange(0, buf.len() as int) =~= buf);
    assert(vals.take(0) =~= Seq::<Val>::empty());
    lemma_record_round_trip(fields, vals, buf, 0, 0);
    lemma_slots_len_schema(vals, fields, vals.len() as int);
    assert(vals.take(vals.len() as int) =~= vals);
    assert(fields.take(vals.len() as int) =~= fields);
    assert(vals.skip(0) =~= vals);
}

/// Whether a field of type `ty` is a segment.
pub open spec fn is_segment(ty: Ty) -> bool {
    ty is Bytes || ty is Str || ty is Struct || ty is List || ty is Optional
}

/// Validation is repeatable: two results that both are what `check`
/// promises for one buffer, one slot and one mark are equal.
pub proof fn lemma_check_again(
    ty: Ty,
    buf: Seq<u8>,
    from: int,
    to: int,
    mark: int,
    first: Result<crate::offset::CheckedOffset, EncodingError>,
    second: Result<crate::offset::CheckedOffset, EncodingError>,
)
    requires
        crate::offset::offset_view(first) == check_field(ty, buf, from, to, mark),
        crate::offset::offset_view(second) == check_field(ty, buf, from, to, mark),
    ensures
        first == second,
{
}

/// A segment whose pointer is `u32::MAX` and whose count is not zero is
/// refused with `OffsetOverflow`.
pub proof fn lemma_pointer_overflow(ty: Ty, buf: Seq<u8>, from: int, mark: int)
    requires
        is_segment(ty),
        0 <= from,
        from + 8 <= buf.len(),
        segment_pos(buf, from) == u32::MAX,
        segment_count(buf, from) != 0,
    ensures
        check_field(ty, buf, from, from + 8, mark) == Err::<int, EncodingError>(
            EncodingError::OffsetOverflow,
        ),
{
    let count = segment_count(buf, from);
    match ty {
        Ty::List(item) => {
            assert(count * header_size(*item) >= 1) by (nonlinear_arith)
                requires
                    count >= 1,
                    header_size(*item) >= 1,
            ;
        },
        Ty::Optional(item) => {
            assert(count * header_size(*item) >= 1) by (nonlinear_arith)
                requires
                    count >= 1,
                    header_size(*item) >= 1,
            ;
        },
        _ => {},
    }
}

/// A segment whose count is zero and whose pointer lies before the end of
/// its own header slot is refused with `UnexpectedlyShortPayload`.
pub proof fn lemma_empty_segment_in_header(ty: Ty, buf: Seq<u8>, from: int, mark: int)
    requires
        is_segment(ty),
        0 <= from,
        from + 8 <= buf.len(),
        segment_count(buf, from) == 0,
        segment_pos(buf, from) < from + 8,
    ensures
        check_field(ty, buf, from, from + 8, mark) == Err::<int, EncodingError>(
            EncodingError::UnexpectedlyShortPayload,
        ),
{
    crate::endian::lemma_le_value_bound(buf.subrange(from, from + 4));
    lemma_radix_values();
}


/// What is read from a field that `check` accepts is a value of the
/// field's type.
pub proof fn lemma_read_typed(ty: Ty, buf: Seq<u8>, from: int, to: int, mark: int)
    requires
        0 <= from,
        check_field(ty, buf, from, to, mark) is Ok,
    ensures
        has_type(read_field(ty, buf, from), ty),
    decreases ty, 0nat,
{
    match ty {
        Ty::Struct(_, fields) => {
            let body = segment_body(buf, from);
            lemma_read_fields_typed(fields, body, 0, 0, schema_size(fields) as int);
            assert(fields.skip(0) =~= fields);
        },
        Ty::List(item) => {
            let pos = segment_pos(buf, from);
            let count = segment_count(buf, from);
            lemma_read_items_typed(
                *item,
                buf,
                pos,
                count as nat,
                pos + count * header_size(*item),
            );
        },
        Ty::Optional(item) => {
            let pos = segment_pos(buf, from);
            if segment_count(buf, from) == 1 {
                assert(1 * header_size(*item) == header_size(*item));
                crate::check::lemma_check_one_item(*item, buf, pos, pos + header_size(*item));
                lemma_read_typed(
                    *item,
                    buf,
                    pos,
                    pos + header_size(*item),
                    pos + header_size(*item),
                );
            }
        },
        _ => {},
    }
}

/// What is read from fields that `check` accepts are values of the
/// fields' types.
pub proof fn lemma_read_fields_typed(
    fields: Seq<Ty>,
    buf: Seq<u8>,
    k: nat,
    offset: int,
    mark: int,
)
    requires
        0 <= offset,
        k <= fields.len(),
        check_fields(fields, buf, k, offset, mark) is Ok,
    ensures
        have_types(read_fields(fields, buf, k, offset), fields.skip(k as int)),
    decreases fields, fields.len() - k + 1,
{
    let i = k as int;
    if i < fields.len() {
        let size = header_size(fields[i]);
        let next = check_field(fields[i], buf, offset, offset + size, mark)->Ok_0;
        lemma_read_typed(fields[i], buf, offset, offset + size, mark);
        lemma_read_fields_typed(fields, buf, k + 1, offset + size, next);
        let rest = read_fields(fields, buf, k + 1, offset + size);
        let all = read_fields(fields, buf, k, offset);
        assert(all =~= seq![read_field(fields[i], buf, offset)] + rest);
        assert(rest.len() == fields.skip(i + 1).len());
        assert(all.len() == fields.skip(i).len());
        assert forall|j: int| 0 <= j < fields.skip(i).len() implies has_type(
            #[trigger] all[j],
            fields.skip(i)[j],
        ) by {
            if j > 0 {
                assert(all[j] == rest[j - 1]);
                assert(fields.skip(i)[j] == fields.skip(i + 1)[j - 1]);
            }
        }
    }
}

/// What is read from elements that `check` accepts are values of the
/// element type, and there are as many as the count says.
pub proof fn lemma_read_items_typed(
    item: Ty,
    buf: Seq<u8>,
    start: int,
    remaining: nat,
    mark: int,
)
    requires
        0 <= start,
        check_items(item, buf, start, remaining, mark) is Ok,
    ensures
        read_items(item, buf, start, remaining).len() == remaining,
        all_of_type(read_items(item, buf, start, remaining), item),
    decreases item, remaining + 1,
{
    if remaining > 0 {
        let size = header_size(item);
        let next = check_field(item, buf, start, start + size, mark)->Ok_0;
        lemma_read_typed(item, buf, start, start + size, mark);
        lemma_read_items_typed(item, buf, start + size, (remaining - 1) as nat, next);
        let rest = read_items(item, buf, start + size, (remaining - 1) as nat);
        let all = read_items(item, buf, start, remaining);
        assert(all =~= seq![read_field(item, buf, start)] + rest);
        assert forall|j: int| 0 <= j < all.len() implies has_type(#[trigger] all[j], item) by {
            if j > 0 {
                assert(all[j] == rest[j - 1]);
            }
        }
    }
}

/// What is read from a structured message that `check_struct` accepts are
/// values of the types of its fields.
pub proof fn lemma_read_struct_typed(fields: Seq<Ty>, buf: Seq<u8>)
    requires
        check_record(fields, buf) is Ok,
    ensures
        have_types(read_fields(fields, buf, 0, 0), fields),
{
    lemma_read_fields_typed(fields, buf, 0, 0, schema_size(fields) as int);
    assert(fields.skip(0) =~= fields);
}

} // verus!
