//! Whole messages: a structured message encoded on its own, and decoding
//! that validates before it reads.

use vstd::prelude::*;
use crate::check::{check, check_field, check_record, check_struct};
use crate::error::EncodingError;
use crate::field::{FieldType, Value, types, views};
use crate::layout::{bodies_len, record_bytes, slots_len};
use crate::offset::CheckedOffset;
use crate::read::{read, read_field, read_fields, read_struct};
use crate::write::{push_record, record_size};

verus! {

/// The bytes of a structured message with the field values `fields`: the
/// header slots in order, then the bodies in order, pointers counted from
/// the first byte. `None` if the message would not be addressable by a
/// `u32`.
pub fn encode_struct(fields: &Vec<Value>) -> (r: Option<Vec<u8>>)
    ensures
        r matches Some(bytes) ==> bytes@ == record_bytes(views(fields@), 0),
        r is Some <==> slots_len(views(fields@)) + bodies_len(views(fields@)) <= u32::MAX,
{
    match record_size(fields) {
        Some(_) => {
            let mut out: Vec<u8> = Vec::new();
            push_record(fields, 0, &mut out);
            assert(out@ =~= record_bytes(views(fields@), 0));
            Some(out)
        },
        None => None,
    }
}

/// Validates `buffer` as a structured message with the fields `fields` and
/// reads the field values. Fails exactly when `check_struct` fails, with
/// its error.
pub fn decode_struct(fields: &Vec<FieldType>, buffer: &[u8]) -> (r: Result<
    Vec<Value>,
    EncodingError,
>)
    ensures
        match r {
            Ok(values) => check_record(types(fields@), buffer@) is Ok && views(values@)
                == read_fields(types(fields@), buffer@, 0, 0),
            Err(e) => check_record(types(fields@), buffer@) == Err::<int, EncodingError>(e),
        },
{
    match check_struct(fields, buffer) {
        Ok(_) => Ok(read_struct(fields, buffer)),
        Err(e) => Err(e),
    }
}

/// Validates the field of type `ty` at `[from, to)` and reads it. Fails
/// exactly when `check` fails, with its error; on success the value comes
/// with the new high-water mark.
pub fn decode(
    ty: &FieldType,
    buffer: &[u8],
    from: CheckedOffset,
    to: CheckedOffset,
    latest_segment: CheckedOffset,
) -> (r: Result<(Value, CheckedOffset), EncodingError>)
    ensures
        match r {
            Ok((value, mark)) => {
                &&& check_field(ty@, buffer@, from@, to@, latest_segment@) == Ok::<
                    int,
                    EncodingError,
                >(mark@)
                &&& value@ == read_field(ty@, buffer@, from@)
            },
            Err(e) => check_field(ty@, buffer@, from@, to@, latest_segment@) == Err::<
                int,
                EncodingError,
            >(e),
        },
{
    match check(ty, buffer, from, to, latest_segment) {
        Ok(mark) => {
            let value = read(ty, buffer, from.unchecked_offset(), to.unchecked_offset());
            Ok((value, mark))
        },
        Err(e) => Err(e),
    }
}

} // verus!
