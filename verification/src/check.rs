//! Validation of a buffer that nobody vouches for.
//!
//! `check` decides from the bytes alone whether a field can be read. It
//! threads a high-water mark through the fields: the mark is where the
//! bodies accepted so far end, and it moves to the end of each body that
//! is accepted. The rules, in the order in which they are applied:
//!
//! - a header slot that ends before it starts is an `OffsetOverflow`;
//! - a header slot that is not as wide as the header of the type, or that
//!   reaches beyond the buffer, is an `UnexpectedlyShortPayload`;
//! - a segment whose count times the width of its elements, or whose
//!   pointer plus that, is no `u32` is an `OffsetOverflow`;
//! - a body that starts before the end of the slot that points to it, or
//!   before the mark, is an `IncorrectPointer`, and an
//!   `UnexpectedlyShortPayload` where the count is zero;
//! - a body that reaches beyond the buffer is an
//!   `UnexpectedlyShortPayload`;
//! - then the content is judged: a duration must be written in the
//!   accepted way (`DurationOverflow`), text must be UTF-8 (`InvalidUtf8`),
//!   a nested structure must hold its header (`UnexpectedlyShortPayload`)
//!   and each of its fields in turn, the elements of a list are judged in
//!   turn, and an optional value holds one element at most
//!   (`OffsetOverflow`).
//!
//! A body may start behind the mark: bytes between two bodies are passed
//! over.

use vstd::prelude::*;
use vstd::slice::slice_subrange;
use vstd::utf8::{decode_utf8, valid_utf8};
use crate::endian::{le_value, read_int_at, read_uint_at, signed, lemma_radix_values};
use crate::error::EncodingError;
use crate::field::{FieldType, Ty, header_size, lemma_types, schema_size, types};
use crate::offset::{CheckedOffset, offset_view};
use crate::time::{Duration, duration_valid};

verus! {

/// The pointer in the segment header at `from`.
pub open spec fn segment_pos(buf: Seq<u8>, from: int) -> int {
    le_value(buf.subrange(from, from + 4)) as int
}

/// The count in the segment header at `from`.
pub open spec fn segment_count(buf: Seq<u8>, from: int) -> int {
    le_value(buf.subrange(from + 4, from + 8)) as int
}

/// The seconds of the duration stored at `from`.
pub open spec fn stored_secs(buf: Seq<u8>, from: int) -> int {
    signed(le_value(buf.subrange(from, from + 8)), 8)
}

/// The nanoseconds of the duration stored at `from`.
pub open spec fn stored_nanos(buf: Seq<u8>, from: int) -> int {
    signed(le_value(buf.subrange(from + 8, from + 12)), 4)
}

/// The outcome for the segment whose header lies at `[from, to)` and whose
/// elements are `item_size` wide: the end of its body, or why it is refused.
pub open spec fn check_segment(
    buf: Seq<u8>,
    from: int,
    to: int,
    mark: int,
    item_size: int,
) -> Result<int, EncodingError> {
    let pos = segment_pos(buf, from);
    let count = segment_count(buf, from);
    let end = pos + count * item_size;
    if count * item_size > u32::MAX || end > u32::MAX {
        Err(EncodingError::OffsetOverflow)
    } else if pos < to || pos < mark {
        if count == 0 {
            Err(EncodingError::UnexpectedlyShortPayload)
        } else {
            Err(EncodingError::IncorrectPointer)
        }
    } else if end > buf.len() {
        Err(EncodingError::UnexpectedlyShortPayload)
    } else {
        Ok(end)
    }
}

/// The outcome for the field of type `ty` whose header slot is `[from, to)`,
/// when the bodies before it end at `mark`: the new mark, or why the field
/// is refused. Fields stored inline leave the mark where it is.
pub open spec fn check_field(ty: Ty, buf: Seq<u8>, from: int, to: int, mark: int) -> Result<
    int,
    EncodingError,
>
    decreases ty, 0nat,
{
    if to < from {
        Err(EncodingError::OffsetOverflow)
    } else if to - from != header_size(ty) || to > buf.len() {
        Err(EncodingError::UnexpectedlyShortPayload)
    } else {
        match ty {
            Ty::Duration => if duration_valid(stored_secs(buf, from), stored_nanos(buf, from)) {
                Ok(mark)
            } else {
                Err(EncodingError::DurationOverflow)
            },
            Ty::Bytes => check_segment(buf, from, to, mark, 1),
            Ty::Str => match check_segment(buf, from, to, mark, 1) {
                Err(e) => Err(e),
                Ok(end) => if valid_utf8(buf.subrange(segment_pos(buf, from), end)) {
                    Ok(end)
                } else {
                    Err(EncodingError::InvalidUtf8)
                },
            },
            Ty::Struct(_, fields) => match check_segment(buf, from, to, mark, 1) {
                Err(e) => Err(e),
                Ok(end) => match check_record(fields, buf.subrange(segment_pos(buf, from), end)) {
                    Err(e) => Err(e),
                    Ok(_) => Ok(end),
                },
            },
            Ty::List(item) => match check_segment(
                buf,
                from,
                to,
                mark,
                header_size(*item) as int,
            ) {
                Err(e) => Err(e),
                Ok(end) => check_items(
                    *item,
                    buf,
                    segment_pos(buf, from),
                    segment_count(buf, from) as nat,
                    end,
                ),
            },
            Ty::Optional(item) => match check_segment(
                buf,
                from,
                to,
                mark,
                header_size(*item) as int,
            ) {
                Err(e) => Err(e),
                Ok(end) => if segment_count(buf, from) > 1 {
                    Err(EncodingError::OffsetOverflow)
                } else {
                    check_items(
                        *item,
                        buf,
                        segment_pos(buf, from),
                        segment_count(buf, from) as nat,
                        end,
                    )
                },
            },
            _ => Ok(mark),
        }
    }
}

/// The outcome for a structured message that fills `buf`: its header has
/// the width that `fields` give it, and each field is accepted in turn, the
/// mark starting at the end of the header.
pub open spec fn check_record(fields: Seq<Ty>, buf: Seq<u8>) -> Result<int, EncodingError>
    decreases fields, fields.len() + 2,
{
    if schema_size(fields) > u32::MAX {
        Err(EncodingError::OffsetOverflow)
    } else if buf.len() < schema_size(fields) {
        Err(EncodingError::UnexpectedlyShortPayload)
    } else {
        check_fields(fields, buf, 0, 0, schema_size(fields) as int)
    }
}

/// The outcome for the fields from the `k`-th on, the `k`-th slot lying at
/// `offset`.
pub open spec fn check_fields(
    fields: Seq<Ty>,
    buf: Seq<u8>,
    k: nat,
    offset: int,
    mark: int,
) -> Result<int, EncodingError>
    decreases fields, fields.len() - k + 1,
{
    if k >= fields.len() {
        Ok(mark)
    } else {
        match check_field(
            fields[k as int],
            buf,
            offset,
            offset + header_size(fields[k as int]),
            mark,
        ) {
            Err(e) => Err(e),
            Ok(next) => check_fields(
                fields,
                buf,
                k + 1,
                offset + header_size(fields[k as int]),
                next,
            ),
        }
    }
}

/// The outcome for `remaining` elements of type `item` whose slots lie side
/// by side from `start` on.
pub open spec fn check_items(
    item: Ty,
    buf: Seq<u8>,
    start: int,
    remaining: nat,
    mark: int,
) -> Result<int, EncodingError>
    decreases item, remaining + 1,
{
    if remaining == 0 {
        Ok(mark)
    } else {
        match check_field(item, buf, start, start + header_size(item), mark) {
            Err(e) => Err(e),
            Ok(next) => check_items(
                item,
                buf,
                start + header_size(item),
                (remaining - 1) as nat,
                next,
            ),
        }
    }
}

/// One element is checked as a field.
pub proof fn lemma_check_one_item(item: Ty, buf: Seq<u8>, start: int, mark: int)
    ensures
        check_items(item, buf, start, 1, mark) == check_field(
            item,
            buf,
            start,
            start + header_size(item),
            mark,
        ),
{
    match check_field(item, buf, start, start + header_size(item), mark) {
        Ok(next) => {
            assert(check_items(item, buf, start + header_size(item), 0, next) == Ok::<
                int,
                EncodingError,
            >(next));
        },
        Err(_) => {},
    }
}

/// `std::str::from_utf8`: the text that `bytes` encode, if they are valid
/// UTF-8, and nothing otherwise.
#[verifier::external_body]
pub(crate) fn utf8_text(bytes: &[u8]) -> (r: Option<&str>)
    ensures
        r is Some <==> valid_utf8(bytes@),
        r matches Some(text) ==> text@ == decode_utf8(bytes@),
{
    std::str::from_utf8(bytes).ok()
}


/// The header of the first `k + 1` fields is that of the first `k` and the
/// slot of the next.
pub proof fn lemma_schema_size_step(fields: Seq<Ty>, k: int)
    requires
        0 <= k < fields.len(),
    ensures
        schema_size(fields.take(k + 1)) == schema_size(fields.take(k)) + header_size(fields[k]),
{
    assert(fields.take(k + 1).drop_last() =~= fields.take(k));
}

/// A part of the header is no wider than the whole.
pub proof fn lemma_schema_size_prefix(fields: Seq<Ty>, k: int)
    requires
        0 <= k <= fields.len(),
    ensures
        schema_size(fields.take(k)) <= schema_size(fields),
    decreases fields.len(),
{
    if k == fields.len() {
        assert(fields.take(k) =~= fields);
    } else {
        lemma_schema_size_prefix(fields.drop_last(), k);
        assert(fields.drop_last().take(k) =~= fields.take(k));
    }
}

/// The width of the header of a structured message with these fields.
pub fn schema_header_size(fields: &Vec<FieldType>) -> (r: Result<CheckedOffset, EncodingError>)
    ensures
        offset_view(r) == crate::offset::offset_result(schema_size(types(fields@)) as int),
{
    let ghost tys = types(fields@);
    let mut total = CheckedOffset::new(0);
    let mut k: usize = 0;
    proof {
        lemma_types(fields@);
        assert(tys.take(0) =~= Seq::<Ty>::empty());
    }
    while k < fields.len()
        invariant
            k <= fields@.len(),
            tys == types(fields@),
            tys.len() == fields@.len(),
            forall|i: int| 0 <= i < fields@.len() ==> (#[trigger] tys[i]) == fields@[i]@,
            total@ == schema_size(tys.take(k as int)),
        decreases fields@.len() - k,
    {
        proof {
            lemma_schema_size_step(tys, k as int);
            lemma_schema_size_prefix(tys, k + 1);
            assert(tys[k as int] == fields@[k as int]@);
        }
        match total.checked_add(CheckedOffset::new(fields[k].field_size())) {
            Ok(sum) => {
                total = sum;
            },
            Err(e) => {
                return Err(e);
            },
        }
        k += 1;
    }
    assert(tys.take(k as int) =~= tys);
    Ok(total)
}

/// The header slot `[r.0, r.1)` of the `k`-th of the fields `fields`: it
/// starts where the slots of the fields before it end. `OffsetOverflow`
/// where the slot does not end within the reach of a `u32`.
pub fn field_range(fields: &Vec<FieldType>, k: usize) -> (r: Result<
    (CheckedOffset, CheckedOffset),
    EncodingError,
>)
    requires
        k < fields@.len(),
    ensures
        match r {
            Ok((from, to)) => {
                &&& from@ == schema_size(types(fields@).take(k as int))
                &&& to@ == schema_size(types(fields@).take(k + 1))
            },
            Err(e) => {
                &&& e == EncodingError::OffsetOverflow
                &&& schema_size(types(fields@).take(k + 1)) > u32::MAX
            },
        },
{
    let ghost tys = types(fields@);
    let mut from = CheckedOffset::new(0);
    let mut i: usize = 0;
    proof {
        lemma_types(fields@);
        assert(tys.take(0) =~= Seq::<Ty>::empty());
    }
    while i < k
        invariant
            i <= k < fields@.len(),
            tys == types(fields@),
            tys.len() == fields@.len(),
            forall|j: int| 0 <= j < fields@.len() ==> (#[trigger] tys[j]) == fields@[j]@,
            from@ == schema_size(tys.take(i as int)),
        decreases k - i,
    {
        proof {
            lemma_schema_size_step(tys, i as int);
            lemma_schema_size_prefix(tys.take(k + 1), i + 1);
            assert(tys.take(k + 1).take(i + 1) =~= tys.take(i + 1));
            assert(tys[i as int] == fields@[i as int]@);
        }
        from = match from.checked_add(CheckedOffset::new(fields[i].field_size())) {
            Ok(next) => next,
            Err(e) => {
                return Err(e);
            },
        };
        i += 1;
    }
    proof {
        lemma_schema_size_step(tys, k as int);
        assert(tys[k as int] == fields@[k as int]@);
    }
    match from.checked_add(CheckedOffset::new(fields[k].field_size())) {
        Ok(to) => Ok((from, to)),
        Err(e) => Err(e),
    }
}

/// Reads and judges the segment header at `[from, to)`; on success the
/// pointer, the count and the end of the body.
fn check_segment_header(
    buffer: &[u8],
    from: CheckedOffset,
    to: CheckedOffset,
    latest_segment: CheckedOffset,
    item_size: u32,
) -> (r: Result<(CheckedOffset, CheckedOffset, CheckedOffset), EncodingError>)
    requires
        to@ - from@ == 8,
        to@ <= buffer@.len(),
    ensures
        match r {
            Ok((pos, count, end)) => {
                &&& check_segment(buffer@, from@, to@, latest_segment@, item_size as int) == Ok::<
                    int,
                    EncodingError,
                >(end@)
                &&& pos@ == segment_pos(buffer@, from@)
                &&& count@ == segment_count(buffer@, from@)
                &&& end@ == pos@ + count@ * item_size
            },
            Err(e) => check_segment(buffer@, from@, to@, latest_segment@, item_size as int)
                == Err::<int, EncodingError>(e),
        },
{
    proof {
        lemma_radix_values();
    }
    let at = from.unchecked_offset() as usize;
    let pos = CheckedOffset::new(read_uint_at(buffer, at, 4) as u32);
    let count = CheckedOffset::new(read_uint_at(buffer, at + 4, 4) as u32);
    let size = match count.checked_mul(CheckedOffset::new(item_size)) {
        Ok(size) => size,
        Err(e) => {
            return Err(e);
        },
    };
    let end = match pos.checked_add(size) {
        Ok(end) => end,
        Err(e) => {
            return Err(e);
        },
    };
    if pos.unchecked_offset() < to.unchecked_offset() || pos.unchecked_offset()
        < latest_segment.unchecked_offset() {
        if count.unchecked_offset() == 0 {
            return Err(EncodingError::UnexpectedlyShortPayload);
        }
        return Err(EncodingError::IncorrectPointer);
    }
    if end.unchecked_offset() as usize > buffer.len() {
        return Err(EncodingError::UnexpectedlyShortPayload);
    }
    Ok((pos, count, end))
}

/// Validates the field of type `ty` whose header slot is `[from, to)`.
/// `latest_segment` is where the bodies before it end; the result is where
/// they end after it.
pub fn check(
    ty: &FieldType,
    buffer: &[u8],
    from: CheckedOffset,
    to: CheckedOffset,
    latest_segment: CheckedOffset,
) -> (r: Result<CheckedOffset, EncodingError>)
    ensures
        offset_view(r) == check_field(ty@, buffer@, from@, to@, latest_segment@),
    decreases ty, 0nat,
{
    let width = match to.checked_sub(from) {
        Ok(width) => width,
        Err(e) => {
            return Err(e);
        },
    };
    if width.unchecked_offset() != ty.field_size() || to.unchecked_offset() as usize
        > buffer.len() {
        return Err(EncodingError::UnexpectedlyShortPayload);
    }
    match ty {
        FieldType::Duration => {
            proof {
                lemma_radix_values();
            }
            let at = from.unchecked_offset() as usize;
            let secs = read_int_at(buffer, at, 8);
            let nanos = read_int_at(buffer, at + 8, 4);
            let duration = Duration { secs, nanos: nanos as i32 };
            if duration.is_valid() {
                Ok(latest_segment)
            } else {
                Err(EncodingError::DurationOverflow)
            }
        },
        FieldType::Bytes => {
            match check_segment_header(buffer, from, to, latest_segment, 1) {
                Ok((_, _, end)) => Ok(end),
                Err(e) => Err(e),
            }
        },
        FieldType::Str => {
            match check_segment_header(buffer, from, to, latest_segment, 1) {
                Ok((pos, _, end)) => {
                    let body = slice_subrange(
                        buffer,
                        pos.unchecked_offset() as usize,
                        end.unchecked_offset() as usize,
                    );
                    if utf8_text(body).is_some() {
                        Ok(end)
                    } else {
                        Err(EncodingError::InvalidUtf8)
                    }
                },
                Err(e) => Err(e),
            }
        },
        FieldType::Struct(_, fields) => {
            match check_segment_header(buffer, from, to, latest_segment, 1) {
                Ok((pos, _, end)) => {
                    let body = slice_subrange(
                        buffer,
                        pos.unchecked_offset() as usize,
                        end.unchecked_offset() as usize,
                    );
                    match check_struct(fields, body) {
                        Ok(_) => Ok(end),
                        Err(e) => Err(e),
                    }
                },
                Err(e) => Err(e),
            }
        },
        FieldType::List(item) => {
            let size = item.field_size();
            match check_segment_header(buffer, from, to, latest_segment, size) {
                Ok((pos, count, end)) => {
                    let mut remaining = count.unchecked_offset();
                    let mut start = pos;
                    let mut mark = end;
                    while remaining > 0
                        invariant
                            *ty == FieldType::List(*item),
                            size == header_size((**item)@),
                            start@ + remaining * size == end@,
                            check_field(ty@, buffer@, from@, to@, latest_segment@) == check_items(
                                (**item)@,
                                buffer@,
                                start@,
                                remaining as nat,
                                mark@,
                            ),
                        decreases remaining,
                    {
                        assert(start@ + size + (remaining - 1) * size == end@) by (nonlinear_arith)
                            requires
                                start@ + remaining * size == end@,
                        ;
                        assert((remaining - 1) * size >= 0) by (nonlinear_arith)
                            requires
                                remaining >= 1,
                                size >= 0,
                        ;
                        let next = CheckedOffset::new(start.unchecked_offset() + size);
                        match check(item, buffer, start, next, mark) {
                            Ok(m) => {
                                mark = m;
                            },
                            Err(e) => {
                                return Err(e);
                            },
                        }
                        start = next;
                        remaining -= 1;
                    }
                    Ok(mark)
                },
                Err(e) => Err(e),
            }
        },
        FieldType::Optional(item) => {
            let size = item.field_size();
            match check_segment_header(buffer, from, to, latest_segment, size) {
                Ok((pos, count, end)) => {
                    if count.unchecked_offset() > 1 {
                        Err(EncodingError::OffsetOverflow)
                    } else if count.unchecked_offset() == 0 {
                        Ok(end)
                    } else {
                        proof {
                            assert(count@ * size == size) by (nonlinear_arith)
                                requires
                                    count@ == 1,
                            ;
                            lemma_check_one_item((**item)@, buffer@, pos@, end@);
                        }
                        check(item, buffer, pos, end, end)
                    }
                },
                Err(e) => Err(e),
            }
        },
        _ => Ok(latest_segment),
    }
}

/// Validates a structured message with the fields `fields` that fills
/// `buffer`. The result is where the bodies of its fields end.
pub fn check_struct(fields: &Vec<FieldType>, buffer: &[u8]) -> (r: Result<
    CheckedOffset,
    EncodingError,
>)
    ensures
        offset_view(r) == check_record(types(fields@), buffer@),
    decreases fields, 1nat,
{
    let header = match schema_header_size(fields) {
        Ok(header) => header,
        Err(e) => {
            return Err(e);
        },
    };
    if buffer.len() < header.unchecked_offset() as usize {
        return Err(EncodingError::UnexpectedlyShortPayload);
    }
    let ghost tys = types(fields@);
    let mut k: usize = 0;
    let mut offset = CheckedOffset::new(0);
    let mut mark = header;
    proof {
        lemma_types(fields@);
        assert(tys.take(0) =~= Seq::<Ty>::empty());
    }
    while k < fields.len()
        invariant
            k <= fields@.len(),
            tys == types(fields@),
            tys.len() == fields@.len(),
            forall|i: int| 0 <= i < fields@.len() ==> (#[trigger] tys[i]) == fields@[i]@,
            offset@ == schema_size(tys.take(k as int)),
            schema_size(tys) <= u32::MAX,
            check_record(tys, buffer@) == check_fields(tys, buffer@, k as nat, offset@, mark@),
        decreases fields@.len() - k,
    {
        proof {
            lemma_schema_size_step(tys, k as int);
            lemma_schema_size_prefix(tys, k + 1);
            assert(tys[k as int] == fields@[k as int]@);
        }
        let next = CheckedOffset::new(offset.unchecked_offset() + fields[k].field_size());
        match check(&fields[k], buffer, offset, next, mark) {
            Ok(m) => {
                mark = m;
            },
            Err(e) => {
                return Err(e);
            },
        }
        offset = next;
        k += 1;
    }
    Ok(mark)
}

} // verus!
