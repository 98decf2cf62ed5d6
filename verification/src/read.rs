//! Reading a field out of a buffer that `check` has accepted.

use vstd::prelude::*;
use vstd::slice::slice_subrange;
use vstd::utf8::decode_utf8;
use crate::check::{
    check_field, check_fields, check_items, check_record, segment_count, segment_pos, utf8_text,
};
use crate::endian::{le_value, lemma_radix_values, read_int_at, read_uint_at, signed};
use crate::field::{
    FieldType, Ty, Val, Value, header_size, lemma_types, lemma_views_push, schema_size, types,
    views,
};
use crate::offset::Offset;
use crate::time::{Duration, Timestamp};

verus! {

/// The value of type `ty` whose header slot starts at `from`.
pub open spec fn read_field(ty: Ty, buf: Seq<u8>, from: int) -> Val
    decreases ty, 0nat,
{
    match ty {
        Ty::U8 => Val::U8(le_value(buf.subrange(from, from + 1)) as u8),
        Ty::U16 => Val::U16(le_value(buf.subrange(from, from + 2)) as u16),
        Ty::U32 => Val::U32(le_value(buf.subrange(from, from + 4)) as u32),
        Ty::U64 => Val::U64(le_value(buf.subrange(from, from + 8)) as u64),
        Ty::I8 => Val::I8(signed(le_value(buf.subrange(from, from + 1)), 1) as i8),
        Ty::I16 => Val::I16(signed(le_value(buf.subrange(from, from + 2)), 2) as i16),
        Ty::I32 => Val::I32(signed(le_value(buf.subrange(from, from + 4)), 4) as i32),
        Ty::I64 => Val::I64(signed(le_value(buf.subrange(from, from + 8)), 8) as i64),
        Ty::Hash => Val::Hash(buf.subrange(from, from + 32)),
        Ty::PublicKey => Val::PublicKey(buf.subrange(from, from + 32)),
        Ty::Signature => Val::Signature(buf.subrange(from, from + 64)),
        Ty::Timestamp => Val::Timestamp(
            Timestamp {
                secs: signed(le_value(buf.subrange(from, from + 8)), 8) as i64,
                nanos: le_value(buf.subrange(from + 8, from + 12)) as u32,
            },
        ),
        Ty::Duration => Val::Duration(
            Duration {
                secs: signed(le_value(buf.subrange(from, from + 8)), 8) as i64,
                nanos: signed(le_value(buf.subrange(from + 8, from + 12)), 4) as i32,
            },
        ),
        Ty::Uuid => Val::Uuid(buf.subrange(from, from + 16)),
        Ty::Decimal => Val::Decimal(buf.subrange(from, from + 16)),
        Ty::Bytes => Val::Bytes(segment_body(buf, from)),
        Ty::Str => Val::Str(decode_utf8(segment_body(buf, from))),
        Ty::Struct(_, fields) => Val::Struct(
            read_fields(fields, segment_body(buf, from), 0, 0),
        ),
        Ty::List(item) => Val::List(
            read_items(*item, buf, segment_pos(buf, from), segment_count(buf, from) as nat),
        ),
        Ty::Optional(item) => Val::Optional(
            if segment_count(buf, from) == 0 {
                None
            } else {
                Some(Box::new(read_field(*item, buf, segment_pos(buf, from))))
            },
        ),
    }
}

/// The bytes that the segment header at `from` points to, for a segment
/// whose count is a number of bytes.
pub open spec fn segment_body(buf: Seq<u8>, from: int) -> Seq<u8> {
    buf.subrange(segment_pos(buf, from), segment_pos(buf, from) + segment_count(buf, from))
}

/// The values of the fields from the `k`-th on, the `k`-th slot lying at
/// `offset`.
pub open spec fn read_fields(fields: Seq<Ty>, buf: Seq<u8>, k: nat, offset: int) -> Seq<Val>
    decreases fields, fields.len() - k + 1,
{
    if k >= fields.len() {
        Seq::empty()
    } else {
        seq![read_field(fields[k as int], buf, offset)] + read_fields(
            fields,
            buf,
            k + 1,
            offset + header_size(fields[k as int]),
        )
    }
}

/// The values of `remaining` elements of type `item` whose slots lie side
/// by side from `start` on.
pub open spec fn read_items(item: Ty, buf: Seq<u8>, start: int, remaining: nat) -> Seq<Val>
    decreases item, remaining + 1,
{
    if remaining == 0 {
        Seq::empty()
    } else {
        seq![read_field(item, buf, start)] + read_items(
            item,
            buf,
            start + header_size(item),
            (remaining - 1) as nat,
        )
    }
}

/// Whether `check` accepts the field at `[from, to)` for some position of
/// the high-water mark.
pub open spec fn readable(ty: Ty, buf: Seq<u8>, from: int, to: int) -> bool {
    exists|mark: int| (#[trigger] check_field(ty, buf, from, to, mark)) is Ok
}

/// Whether `check_struct` accepts `buf` as a message with these fields.
pub open spec fn readable_struct(fields: Seq<Ty>, buf: Seq<u8>) -> bool {
    check_record(fields, buf) is Ok
}

/// A copy of `buffer[at .. at + N]`.
pub fn array_at<const N: usize>(buffer: &[u8], at: usize) -> (r: [u8; N])
    requires
        at + N <= buffer@.len(),
    ensures
        r@ == buffer@.subrange(at as int, at + N),
{
    let len = buffer.len();
    let mut out = [0u8; N];
    let mut i: usize = 0;
    while i < N
        invariant
            i <= N,
            at + N <= len == buffer@.len(),
            forall|j: int| 0 <= j < i ==> out@[j] == buffer@[at + j],
        decreases N - i,
    {
        out[i] = buffer[at + i];
        i += 1;
    }
    assert(out@ =~= buffer@.subrange(at as int, at + N));
    out
}

/// A copy of `buffer[from .. to]`.
fn bytes_at(buffer: &[u8], from: usize, to: usize) -> (r: Vec<u8>)
    requires
        from <= to <= buffer@.len(),
    ensures
        r@ == buffer@.subrange(from as int, to as int),
{
    vstd::slice::slice_to_vec(slice_subrange(buffer, from, to))
}

/// Reads the value of type `ty` from the header slot `[from, to)`. The
/// field must have been accepted by `check`.
pub fn read(ty: &FieldType, buffer: &[u8], from: Offset, to: Offset) -> (v: Value)
    requires
        readable(ty@, buffer@, from as int, to as int),
    ensures
        v@ == read_field(ty@, buffer@, from as int),
    decreases ty, 0nat,
{
    let ghost mark = choose|mark: int|
        (#[trigger] check_field(ty@, buffer@, from as int, to as int, mark)) is Ok;
    proof {
        lemma_radix_values();
    }
    let len = buffer.len();
    let at = from as usize;
    match ty {
        FieldType::U8 => Value::U8(read_uint_at(buffer, at, 1) as u8),
        FieldType::U16 => Value::U16(read_uint_at(buffer, at, 2) as u16),
        FieldType::U32 => Value::U32(read_uint_at(buffer, at, 4) as u32),
        FieldType::U64 => Value::U64(read_uint_at(buffer, at, 8)),
        FieldType::I8 => Value::I8(read_int_at(buffer, at, 1) as i8),
        FieldType::I16 => Value::I16(read_int_at(buffer, at, 2) as i16),
        FieldType::I32 => Value::I32(read_int_at(buffer, at, 4) as i32),
        FieldType::I64 => Value::I64(read_int_at(buffer, at, 8)),
        FieldType::Hash => Value::Hash(array_at::<32>(buffer, at)),
        FieldType::PublicKey => Value::PublicKey(array_at::<32>(buffer, at)),
        FieldType::Signature => Value::Signature(array_at::<64>(buffer, at)),
        FieldType::Timestamp => {
            let secs = read_int_at(buffer, at, 8);
            let nanos = read_uint_at(buffer, at + 8, 4) as u32;
            Value::Timestamp(Timestamp { secs, nanos })
        },
        FieldType::Duration => {
            let secs = read_int_at(buffer, at, 8);
            let nanos = read_int_at(buffer, at + 8, 4) as i32;
            Value::Duration(Duration { secs, nanos })
        },
        FieldType::Uuid => Value::Uuid(array_at::<16>(buffer, at)),
        FieldType::Decimal => Value::Decimal(array_at::<16>(buffer, at)),
        FieldType::Bytes => {
            let pos = read_uint_at(buffer, at, 4) as usize;
            let count = read_uint_at(buffer, at + 4, 4) as usize;
            Value::Bytes(bytes_at(buffer, pos, pos + count))
        },
        FieldType::Str => {
            let pos = read_uint_at(buffer, at, 4) as usize;
            let count = read_uint_at(buffer, at + 4, 4) as usize;
            match utf8_text(slice_subrange(buffer, pos, pos + count)) {
                Some(text) => Value::Str(text.to_owned()),
                None => vstd::pervasive::unreached(),
            }
        },
        FieldType::Struct(_, fields) => {
            let pos = read_uint_at(buffer, at, 4) as usize;
            let count = read_uint_at(buffer, at + 4, 4) as usize;
            Value::Struct(read_struct(fields, slice_subrange(buffer, pos, pos + count)))
        },
        FieldType::List(item) => {
            let size = item.field_size();
            let pos = read_uint_at(buffer, at, 4) as u32;
            let count = read_uint_at(buffer, at + 4, 4) as u32;
            let ghost end = pos + count * size;
            let ghost mut mark = end;
            let mut out: Vec<Value> = Vec::new();
            let mut start = pos;
            let mut remaining = count;
            assert(views(out@) =~= Seq::<Val>::empty());
            while remaining > 0
                invariant
                    *ty == FieldType::List(*item),
                    size == header_size((**item)@),
                    start + remaining * size == end <= u32::MAX,
                    check_items((**item)@, buffer@, start as int, remaining as nat, mark) is Ok,
                    views(out@) + read_items((**item)@, buffer@, start as int, remaining as nat)
                        =~= read_items((**item)@, buffer@, pos as int, count as nat),
                decreases remaining,
            {
                assert(start + size + (remaining - 1) * size == end) by (nonlinear_arith)
                    requires
                        start + remaining * size == end,
                ;
                assert((remaining - 1) * size >= 0) by (nonlinear_arith)
                    requires
                        remaining >= 1,
                        size >= 0,
                ;
                let ghost before = out@;
                assert(ty->List_0 == *item);
                let value = read(item, buffer, start, start + size);
                proof {
                    mark = check_field((**item)@, buffer@, start as int, start + size, mark)->Ok_0;
                    lemma_views_push(before, value);
                }
                out.push(value);
                start = start + size;
                remaining -= 1;
            }
            Value::List(out)
        },
        FieldType::Optional(item) => {
            let size = item.field_size();
            let pos = read_uint_at(buffer, at, 4) as u32;
            let count = read_uint_at(buffer, at + 4, 4) as u32;
            if count == 0 {
                Value::Optional(None)
            } else {
                proof {
                    assert(count * size == size) by (nonlinear_arith)
                        requires
                            count == 1,
                    ;
                    crate::check::lemma_check_one_item(
                        (**item)@,
                        buffer@,
                        pos as int,
                        pos + size,
                    );
                }
                Value::Optional(Some(Box::new(read(item, buffer, pos, pos + size))))
            }
        },
    }
}

/// Reads the values of the fields of a structured message that fills
/// `buffer`. The message must have been accepted by `check_struct`.
pub fn read_struct(fields: &Vec<FieldType>, buffer: &[u8]) -> (values: Vec<Value>)
    requires
        readable_struct(types(fields@), buffer@),
    ensures
        views(values@) == read_fields(types(fields@), buffer@, 0, 0),
    decreases fields, 1nat,
{
    let ghost tys = types(fields@);
    let ghost mut mark = schema_size(tys) as int;
    let mut out: Vec<Value> = Vec::new();
    let mut k: usize = 0;
    let mut offset: u32 = 0;
    proof {
        lemma_types(fields@);
        assert(views(out@) =~= Seq::<Val>::empty());
        assert(tys.take(0) =~= Seq::<Ty>::empty());
    }
    while k < fields.len()
        invariant
            k <= fields@.len(),
            tys == types(fields@),
            tys.len() == fields@.len(),
            forall|i: int| 0 <= i < fields@.len() ==> (#[trigger] tys[i]) == fields@[i]@,
            offset == schema_size(tys.take(k as int)),
            schema_size(tys) <= u32::MAX,
            check_fields(tys, buffer@, k as nat, offset as int, mark) is Ok,
            views(out@) + read_fields(tys, buffer@, k as nat, offset as int) =~= read_fields(
                tys,
                buffer@,
                0,
                0,
            ),
        decreases fields@.len() - k,
    {
        proof {
            crate::check::lemma_schema_size_step(tys, k as int);
            crate::check::lemma_schema_size_prefix(tys, k + 1);
            assert(tys[k as int] == fields@[k as int]@);
        }
        let ghost before = out@;
        let size = fields[k].field_size();
        let value = read(&fields[k], buffer, offset, offset + size);
        proof {
            mark = check_field(tys[k as int], buffer@, offset as int, offset + size, mark)->Ok_0;
            lemma_views_push(before, value);
        }
        out.push(value);
        offset = offset + size;
        k += 1;
    }
    out
}

} // verus!
