use std::str::FromStr;

use byteorder::{ByteOrder, LittleEndian};
use chrono::TimeDelta;
use rust_decimal::Decimal;
use uuid::Uuid;

use exonum::check::{check, check_struct, field_range, schema_header_size};
use exonum::codec::{decode_struct, encode_struct};
use exonum::error::EncodingError;
use exonum::field::{FieldType, Value};
use exonum::typing::conforms;
use exonum::write::{body_size, slot_size};
use exonum::offset::{CheckedOffset, Offset};
use exonum::read::read;
use exonum::time::Duration;

fn record(fields: Vec<(&str, FieldType)>) -> FieldType {
    let names = fields.iter().map(|field| field.0.to_string()).collect();
    let types = fields.into_iter().map(|field| field.1).collect();
    FieldType::Struct(names, types)
}

fn parent_type() -> FieldType {
    let child = record(vec![("child", FieldType::Hash)]);
    record(vec![("child", child)])
}

fn list_of(item: FieldType) -> FieldType {
    FieldType::List(Box::new(item))
}

fn duration_of(value: TimeDelta) -> Duration {
    Duration { secs: value.num_seconds(), nanos: value.subsec_nanos() }
}

fn assert_write_check_read(input: Value, ty: &FieldType, header_size: Offset) {
    let mut buffer = vec![0; header_size as usize];
    exonum::write::write(&input, &mut buffer, 0, header_size);
    check(ty, &buffer, 0.into(), header_size.into(), header_size.into()).unwrap();
    let new_buffer = buffer.clone();
    //clear buffer
    let len = buffer.len();
    buffer.clear();
    //and fill old buffer with zeros
    buffer.resize(len, 0);

    check(ty, &new_buffer, 0.into(), header_size.into(), header_size.into()).unwrap();
    let output = read(ty, &new_buffer, 0, header_size);
    assert_eq!(input, output);
}

fn expect_duration_check_error(secs: i64, nanos: i32) {
    // Size of duration is sizeof(i64) + sizeof(i32).
    let header_size = 12;

    let mut raw_duration: Vec<u8> = vec![0; header_size];

    LittleEndian::write_i64(&mut raw_duration[0 as usize..8 as usize], secs);
    LittleEndian::write_i32(&mut raw_duration[8 as usize..header_size as usize], nanos);

    let start_offset = CheckedOffset::new(0 as Offset);
    let end_offset = CheckedOffset::new(header_size as Offset);
    let error = check(&FieldType::Duration, &raw_duration, start_offset, end_offset, end_offset)
        .expect_err("Check should return DurationOverflow error for incorrect buffer");
    assert_eq!(error, EncodingError::DurationOverflow);
}

#[test]
#[should_panic(expected = "Found error in check: UnexpectedlyShortPayload")]
fn test_zero_size_segment() {
    let buf = vec![
        8, 0, 0, 0, // not overlap
        0, 0, 0, 0, 0,
    ]; // but with zero size

    check(&parent_type(), &buf, 0.into(), 8.into(), 8.into()).expect("Found error in check");
}

#[test]
#[should_panic(expected = "Found error in check: UnexpectedlyShortPayload")]
fn test_incorrect_pointer() {
    let buf = vec![
        8, 0, 0, 0, // not overlap
        0, 0, 0, 0, 0,
    ]; // but with zero size

    check(&parent_type(), &buf, 0.into(), 8.into(), 8.into()).expect("Found error in check");
}

#[test]
#[should_panic(expected = "Found error in check: OffsetOverflow")]
fn test_read_overflow_arithmetic() {
    let pos = <u32>::max_value();
    let buf = vec![255; 0];

    check(&FieldType::Bytes, &buf, pos.into(), 8.into(), pos.into())
        .expect("Found error in check");
}

#[test]
fn test_str_segment() {
    let mut buf = vec![0; 8];
    let s = "test юникодной строчки efw_adqq ss/adfq";
    exonum::write::write(&Value::Str(s.to_string()), &mut buf, 0, 8);
    check(&FieldType::Str, &buf, 0.into(), 8.into(), 8.into()).unwrap();

    let buf2 = buf.clone();
    check(&FieldType::Str, &buf2, 0.into(), 8.into(), 8.into()).unwrap();
    let s2 = match read(&FieldType::Str, &buf2, 0, 8) {
        Value::Str(text) => text,
        other => panic!("not a text: {:?}", other),
    };
    assert_eq!(s2, s);
}

#[test]
fn test_vec_segment() {
    let dat = vec![1u8, 2, 3, 5, 10];
    assert_write_check_read(Value::Bytes(dat.clone()), &FieldType::Bytes, 8);
    let items = dat.into_iter().map(Value::U8).collect();
    assert_write_check_read(Value::List(items), &list_of(FieldType::U8), 8);
}

#[test]
fn test_u16_segment() {
    let dat = vec![1u16, 3, 10, 15, 23, 4, 45];
    let items = dat.into_iter().map(Value::U16).collect();
    assert_write_check_read(Value::List(items), &list_of(FieldType::U16), 8);
}

#[test]
fn test_i16_segment() {
    let dat = vec![1i16, 3, 10, 15, 23, 4, 45];
    let items = dat.into_iter().map(Value::I16).collect();
    assert_write_check_read(Value::List(items), &list_of(FieldType::I16), 8);
}

#[test]
fn test_u32_segment() {
    let dat = vec![1u32, 3, 10, 15, 23, 4, 45];
    let items = dat.into_iter().map(Value::U32).collect();
    assert_write_check_read(Value::List(items), &list_of(FieldType::U32), 8);
}

#[test]
fn test_i32_segment() {
    let dat = vec![1i32, 3, 10, 15, 23, 4, 45];
    let items = dat.into_iter().map(Value::I32).collect();
    assert_write_check_read(Value::List(items), &list_of(FieldType::I32), 8);
}

#[test]
fn test_u64_segment() {
    let dat = vec![1u64, 3, 10, 15, 23, 4, 45];
    let items = dat.into_iter().map(Value::U64).collect();
    assert_write_check_read(Value::List(items), &list_of(FieldType::U64), 8);
}

#[test]
fn test_i64_segment() {
    let dat = vec![1i64, 3, 10, 15, 23, 4, 45];
    let items = dat.into_iter().map(Value::I64).collect();
    assert_write_check_read(Value::List(items), &list_of(FieldType::I64), 8);
}

#[test]
fn test_uuid_segment() {
    let uuid = Uuid::nil();
    assert_write_check_read(Value::Uuid(*uuid.as_bytes()), &FieldType::Uuid, 16);

    let uuid = Uuid::parse_str("936DA01F9ABD4d9d80C702AF85C822A8").unwrap();
    assert_write_check_read(Value::Uuid(*uuid.as_bytes()), &FieldType::Uuid, 16);

    let mut buffer = vec![0; 16];
    exonum::write::write(&Value::Uuid(*uuid.as_bytes()), &mut buffer, 0, 16);
    match read(&FieldType::Uuid, &buffer, 0, 16) {
        Value::Uuid(bytes) => assert_eq!(Uuid::from_bytes(bytes), uuid),
        other => panic!("not a uuid: {:?}", other),
    }
}

#[test]
fn test_decimal() {
    let decimal = Decimal::new(202, 2);
    assert_write_check_read(Value::Decimal(decimal.serialize()), &FieldType::Decimal, 16);
    let pi = Decimal::from_str("3.1415926535897932384626433832").unwrap();
    assert_write_check_read(Value::Decimal(pi.serialize()), &FieldType::Decimal, 16);

    let mut buffer = vec![0; 16];
    exonum::write::write(&Value::Decimal(pi.serialize()), &mut buffer, 0, 16);
    match read(&FieldType::Decimal, &buffer, 0, 16) {
        Value::Decimal(bytes) => assert_eq!(Decimal::deserialize(bytes), pi),
        other => panic!("not a decimal: {:?}", other),
    }
}

#[test]
fn test_check_invalid_duration_too_big() {
    let secs = i64::max_value();
    let nanos = i32::max_value();

    expect_duration_check_error(secs, nanos);
}

#[test]
fn test_check_invalid_duration_too_low() {
    let secs = i64::min_value();
    let nanos = i32::min_value();

    expect_duration_check_error(secs, nanos);
}

#[test]
fn test_check_invalid_duration_wrong_representation() {
    // Different signs of values are forbidden to avoid multiple representations of same duration.
    let secs = 1;
    let nanos = -1;
    expect_duration_check_error(secs, nanos);

    let secs = -1;
    let nanos = 1;
    expect_duration_check_error(secs, nanos);

    // Amount of nanoseconds greater of equal to one second is forbidden.
    let secs = 0;
    let nanos = 1_000_000_000;
    expect_duration_check_error(secs, nanos);

    let secs = 0;
    let nanos = -1_000_000_000;
    expect_duration_check_error(secs, nanos);
}

#[test]
fn test_check_valid_duration_that_exceeds_max_value() {
    let secs: i64 = TimeDelta::MAX.num_seconds();
    let max_duration_nanos = TimeDelta::MAX - TimeDelta::seconds(secs);
    let mut nanos: i32 = max_duration_nanos.num_nanoseconds().unwrap() as i32;
    nanos += 1;

    expect_duration_check_error(secs, nanos);
}

#[test]
fn test_duration_segment() {
    // Size of duration is sizeof(i64) + sizeof(i32).
    let header_size = 12;

    let zero_duration = TimeDelta::zero();
    assert_write_check_read(Value::Duration(duration_of(zero_duration)), &FieldType::Duration, header_size);

    let max_duration = TimeDelta::MAX;
    assert_write_check_read(Value::Duration(duration_of(max_duration)), &FieldType::Duration, header_size);

    let min_duration = TimeDelta::MIN;
    assert_write_check_read(Value::Duration(duration_of(min_duration)), &FieldType::Duration, header_size);

    // Composite durations for all correct combination of values sign.
    let durations = [(10, 0), (0, 10), (10, 10), (0, -10), (-10, 0), (-10, -10)];

    for value in durations.iter() {
        let duration = TimeDelta::seconds(value.0) + TimeDelta::nanoseconds(value.1);
        assert_eq!(duration_of(duration), Duration { secs: value.0, nanos: value.1 as i32 });
        assert_write_check_read(Value::Duration(duration_of(duration)), &FieldType::Duration, header_size);
    }
}

#[test]
fn test_byte_array() {
    let mut buf = vec![255; 8];
    let arr = [2u8, 5, 2, 3, 56, 3];

    exonum::write::write(&Value::Bytes(arr.to_vec()), &mut buf, 0, 8);
    check(&FieldType::Bytes, &buf, 0.into(), 8.into(), 8.into()).unwrap();

    let buf2 = buf.clone();
    check(&FieldType::Bytes, &buf2, 0.into(), 8.into(), 8.into()).unwrap();
    let dat2 = match read(&FieldType::Bytes, &buf2, 0, 8) {
        Value::Bytes(bytes) => bytes,
        other => panic!("not a byte array: {:?}", other),
    };
    assert_eq!(dat2, arr);
    assert_eq!(buf.len(), 8 + arr.len());
}

#[test]
fn test_segments_of_arrays() {
    let mut buf = vec![255; 64];
    let v1 = [1u8, 2, 3];
    let v2 = [1u8, 3];
    let v3 = [2u8, 5, 2, 3, 56, 3];

    let dat = Value::List(vec![
        Value::Bytes(v1.to_vec()),
        Value::Bytes(v2.to_vec()),
        Value::Bytes(v3.to_vec()),
    ]);
    let ty = list_of(FieldType::Bytes);
    exonum::write::write(&dat, &mut buf, 48, 56);
    check(&ty, &buf, 48.into(), 56.into(), 64.into()).unwrap();

    let buf2 = buf.clone();
    check(&ty, &buf2, 48.into(), 56.into(), 64.into()).unwrap();
    let dat2 = read(&ty, &buf2, 48, 56);
    assert_eq!(dat2, dat);
    //48 spaces + 8 segment of vec + 8 spaces = 64 +
    // + v1_segment + v2_segment + v3_segment +
    // + v1_body + v2_body + v3_body
    assert_eq!(buf.len(), 64 + v1.len() + v2.len() + v3.len() + 3 * 8);
}

#[test]
fn test_segments_of_raw_buffers() {
    let buf = vec![255_u8; 1];

    let input = Value::List(vec![
        Value::Bytes(buf.clone()),
        Value::Bytes(buf.clone()),
        Value::Bytes(buf.clone()),
    ]);
    assert_write_check_read(input, &list_of(FieldType::Bytes), 8);
}

#[test]
fn test_empty_segments() {
    let dat = Value::List(vec![]);
    assert_write_check_read(dat, &list_of(FieldType::Bytes), 8);
}

#[test]
fn test_correct_encoding_struct() {
    let no_fields = encode_struct(&vec![]).unwrap();
    assert_eq!(no_fields, Vec::<u8>::new());
    assert_eq!(decode_struct(&vec![], &no_fields).unwrap(), vec![]);

    let one_field = encode_struct(&vec![Value::U64(0)]).unwrap();
    assert_eq!(one_field, vec![0; 8]);
    drop(one_field);

    let two_fields = encode_struct(&vec![Value::U32(0), Value::U32(0)]).unwrap();
    assert_eq!(two_fields, vec![0; 8]);
    drop(two_fields);

    let three_fields = encode_struct(&vec![Value::U16(0), Value::U16(0), Value::U32(0)]).unwrap();
    assert_eq!(three_fields, vec![0; 8]);
    drop(three_fields);
}

fn segment_types() -> Vec<FieldType> {
    vec![
        FieldType::Bytes,
        FieldType::Str,
        parent_type(),
        list_of(FieldType::U16),
        FieldType::Optional(Box::new(FieldType::U64)),
    ]
}

#[test]
fn test_pointer_at_max_with_a_count_overflows() {
    let buf = vec![255, 255, 255, 255, 1, 0, 0, 0];
    for ty in segment_types() {
        let result = check(&ty, &buf, 0.into(), 8.into(), 8.into());
        assert_eq!(result, Err(EncodingError::OffsetOverflow), "{:?}", ty);
    }
    let buf = vec![255, 255, 255, 255, 255, 255, 255, 255];
    let result = check(&list_of(FieldType::Signature), &buf, 0.into(), 8.into(), 8.into());
    assert_eq!(result, Err(EncodingError::OffsetOverflow));
}

#[test]
fn test_empty_segment_that_points_into_its_header() {
    for pointer in [0u8, 4, 7] {
        let buf = vec![pointer, 0, 0, 0, 0, 0, 0, 0, 9, 9];
        for ty in segment_types() {
            let result = check(&ty, &buf, 0.into(), 8.into(), 8.into());
            assert_eq!(result, Err(EncodingError::UnexpectedlyShortPayload), "{:?}", ty);
        }
    }
}

#[test]
fn test_body_before_the_mark_is_refused() {
    // the body would start at 8, but an earlier body ends at 10
    let buf = vec![8, 0, 0, 0, 2, 0, 0, 0, 1, 2, 3, 4];
    let result = check(&FieldType::Bytes, &buf, 0.into(), 8.into(), 10.into());
    assert_eq!(result, Err(EncodingError::IncorrectPointer));
    // a body inside the header
    let buf = vec![4, 0, 0, 0, 2, 0, 0, 0, 1, 2, 3, 4];
    let result = check(&FieldType::Bytes, &buf, 0.into(), 8.into(), 0.into());
    assert_eq!(result, Err(EncodingError::IncorrectPointer));
    // at the mark it is accepted, and the mark moves to its end
    let buf = vec![10, 0, 0, 0, 2, 0, 0, 0, 1, 2, 3, 4];
    let result = check(&FieldType::Bytes, &buf, 0.into(), 8.into(), 10.into());
    assert_eq!(result, Ok(CheckedOffset::new(12)));
}

#[test]
fn test_body_beyond_the_buffer_is_refused() {
    let buf = vec![8, 0, 0, 0, 5, 0, 0, 0, 1, 2, 3, 4];
    let result = check(&FieldType::Bytes, &buf, 0.into(), 8.into(), 8.into());
    assert_eq!(result, Err(EncodingError::UnexpectedlyShortPayload));
    let buf = vec![13, 0, 0, 0, 0, 0, 0, 0, 1, 2, 3, 4];
    let result = check(&FieldType::Bytes, &buf, 0.into(), 8.into(), 8.into());
    assert_eq!(result, Err(EncodingError::UnexpectedlyShortPayload));
}

#[test]
fn test_slot_that_does_not_fit_is_refused() {
    let buf = vec![0; 4];
    let result = check(&FieldType::U64, &buf, 0.into(), 8.into(), 8.into());
    assert_eq!(result, Err(EncodingError::UnexpectedlyShortPayload));
    let result = check(&FieldType::U64, &buf, 0.into(), 4.into(), 4.into());
    assert_eq!(result, Err(EncodingError::UnexpectedlyShortPayload));
    let result = check(&FieldType::U32, &buf, 4.into(), 0.into(), 4.into());
    assert_eq!(result, Err(EncodingError::OffsetOverflow));
    let result = check(&FieldType::U32, &buf, 0.into(), 4.into(), 4.into());
    assert_eq!(result, Ok(CheckedOffset::new(4)));
}

#[test]
fn test_text_that_is_not_utf8_is_refused() {
    let buf = vec![8, 0, 0, 0, 2, 0, 0, 0, 0xc3, 0x28];
    let result = check(&FieldType::Str, &buf, 0.into(), 8.into(), 8.into());
    assert_eq!(result, Err(EncodingError::InvalidUtf8));
    let result = check(&FieldType::Bytes, &buf, 0.into(), 8.into(), 8.into());
    assert_eq!(result, Ok(CheckedOffset::new(10)));
}

#[test]
fn test_check_is_repeatable() {
    let mut buf = vec![0; 16];
    let value = Value::List(vec![Value::Str("one".to_string()), Value::Str("two".to_string())]);
    let ty = list_of(FieldType::Str);
    exonum::write::write(&value, &mut buf, 8, 16);
    let first = check(&ty, &buf, 8.into(), 16.into(), 16.into());
    let second = check(&ty, &buf, 8.into(), 16.into(), 16.into());
    let copy = buf.clone();
    let third = check(&ty, &copy, 8.into(), 16.into(), 16.into());
    assert_eq!(first, Ok(CheckedOffset::new(buf.len() as u32)));
    assert_eq!(first, second);
    assert_eq!(first, third);
}

#[test]
fn test_integers_are_little_endian() {
    let mut buf = vec![0; 15];
    exonum::write::write(&Value::U32(0x0102_0304), &mut buf, 0, 4);
    exonum::write::write(&Value::I16(-2), &mut buf, 4, 6);
    exonum::write::write(&Value::U8(7), &mut buf, 6, 7);
    exonum::write::write(&Value::I64(-1_000_000), &mut buf, 7, 15);
    let mut expected = vec![4, 3, 2, 1, 0xfe, 0xff, 7];
    expected.extend_from_slice(&(-1_000_000i64).to_le_bytes());
    assert_eq!(buf, expected);
    assert_eq!(read(&FieldType::U32, &buf, 0, 4), Value::U32(0x0102_0304));
    assert_eq!(read(&FieldType::I16, &buf, 4, 6), Value::I16(-2));
    assert_eq!(read(&FieldType::U8, &buf, 6, 7), Value::U8(7));
    assert_eq!(read(&FieldType::I64, &buf, 7, 15), Value::I64(-1_000_000));
    assert_eq!(read(&FieldType::U16, &buf, 4, 6), Value::U16(0xfffe));
    assert_eq!(read(&FieldType::I8, &buf, 5, 6), Value::I8(-1));
}

#[test]
fn test_integer_extremes_round_trip() {
    assert_write_check_read(Value::U8(u8::MAX), &FieldType::U8, 1);
    assert_write_check_read(Value::I8(i8::MIN), &FieldType::I8, 1);
    assert_write_check_read(Value::U16(u16::MAX), &FieldType::U16, 2);
    assert_write_check_read(Value::I16(i16::MIN), &FieldType::I16, 2);
    assert_write_check_read(Value::U32(u32::MAX), &FieldType::U32, 4);
    assert_write_check_read(Value::I32(i32::MIN), &FieldType::I32, 4);
    assert_write_check_read(Value::U64(u64::MAX), &FieldType::U64, 8);
    assert_write_check_read(Value::I64(i64::MIN), &FieldType::I64, 8);
    assert_write_check_read(Value::I64(i64::MAX), &FieldType::I64, 8);
}

#[test]
fn test_timestamp_layout() {
    let time = exonum::time::Timestamp { secs: -5, nanos: 999_999_999 };
    let mut buf = vec![0; 12];
    exonum::write::write(&Value::Timestamp(time), &mut buf, 0, 12);
    let mut expected = (-5i64).to_le_bytes().to_vec();
    expected.extend_from_slice(&999_999_999u32.to_le_bytes());
    assert_eq!(buf, expected);
    assert_write_check_read(Value::Timestamp(time), &FieldType::Timestamp, 12);
}

#[test]
fn test_duration_layout() {
    let duration = Duration::new(-10, -10).unwrap();
    let mut buf = vec![0; 12];
    exonum::write::write(&Value::Duration(duration), &mut buf, 0, 12);
    let mut expected = (-10i64).to_le_bytes().to_vec();
    expected.extend_from_slice(&(-10i32).to_le_bytes());
    assert_eq!(buf, expected);
    assert_eq!(Duration::new(1, -1), None);
    assert_eq!(Duration::new(0, 1_000_000_000), None);
    assert_eq!(Duration::new(10, 10), Some(Duration { secs: 10, nanos: 10 }));
    assert_eq!(Duration::new(9_223_372_036_854_775, 807_000_000).map(|d| d.secs), Some(9_223_372_036_854_775));
    assert_eq!(Duration::new(9_223_372_036_854_775, 807_000_001), None);
    assert_eq!(Duration::new(-9_223_372_036_854_775, -807_000_001), None);
    assert_eq!(Duration::new(9_223_372_036_854_776, 0), None);
}

#[test]
fn test_optional_values() {
    let ty = FieldType::Optional(Box::new(FieldType::Str));
    assert_write_check_read(Value::Optional(None), &ty, 8);
    assert_write_check_read(Value::Optional(Some(Box::new(Value::Str("Baz".to_string())))), &ty, 8);

    let mut buf = vec![0; 8];
    exonum::write::write(&Value::Optional(Some(Box::new(Value::U16(0x0a0b)))), &mut buf, 0, 8);
    assert_eq!(buf, vec![8, 0, 0, 0, 1, 0, 0, 0, 0x0b, 0x0a]);
    let mut buf = vec![0; 8];
    exonum::write::write(&Value::Optional(None), &mut buf, 0, 8);
    assert_eq!(buf, vec![8, 0, 0, 0, 0, 0, 0, 0]);

    // an optional value holds one element at most
    let buf = vec![8, 0, 0, 0, 2, 0, 0, 0, 1, 1];
    let ty = FieldType::Optional(Box::new(FieldType::U8));
    let result = check(&ty, &buf, 0.into(), 8.into(), 8.into());
    assert_eq!(result, Err(EncodingError::OffsetOverflow));
    let result = check(&list_of(FieldType::U8), &buf, 0.into(), 8.into(), 8.into());
    assert_eq!(result, Ok(CheckedOffset::new(10)));
}

#[test]
fn test_nested_structures() {
    let inner = record(vec![("name", FieldType::Str), ("id", FieldType::U32)]);
    let outer = record(vec![
        ("first", FieldType::U8),
        ("inner", inner.clone()),
        ("list", list_of(inner)),
        ("last", FieldType::Bytes),
    ]);
    let one = Value::Struct(vec![Value::Str("one".to_string()), Value::U32(1)]);
    let two = Value::Struct(vec![Value::Str("".to_string()), Value::U32(2)]);
    let value = Value::Struct(vec![
        Value::U8(9),
        one,
        Value::List(vec![two, Value::Struct(vec![Value::Str("three".to_string()), Value::U32(3)])]),
        Value::Bytes(vec![7; 5]),
    ]);
    assert!(conforms(&value, &outer));
    assert_write_check_read(value, &outer, 8);
}

#[test]
fn test_pointers_of_a_nested_structure_count_from_its_start() {
    let inner = Value::Struct(vec![Value::Bytes(vec![0xaa, 0xbb])]);
    let mut buf = vec![0xff; 20];
    exonum::write::write(&inner, &mut buf, 4, 12);
    let mut expected = vec![0xff; 4];
    expected.extend_from_slice(&[20, 0, 0, 0, 10, 0, 0, 0]);
    expected.extend_from_slice(&[0xff; 8]);
    // the structure: a header of one slot that points to offset 8 of the structure
    expected.extend_from_slice(&[8, 0, 0, 0, 2, 0, 0, 0, 0xaa, 0xbb]);
    assert_eq!(buf, expected);
}

#[test]
fn test_sizes() {
    let value = Value::List(vec![
        Value::Bytes(vec![1, 2, 3]),
        Value::Bytes(vec![1, 3]),
        Value::Bytes(vec![2, 5, 2, 3, 56, 3]),
    ]);
    assert_eq!(slot_size(&value), 8);
    assert_eq!(body_size(&value), Some(3 * 8 + 3 + 2 + 6));
    assert_eq!(body_size(&Value::U64(1)), Some(0));
    assert_eq!(slot_size(&Value::Signature([0; 64])), 64);
    assert_eq!(body_size(&Value::Str("юни".to_string())), Some(6));
    assert_eq!(body_size(&Value::Optional(Some(Box::new(Value::U16(1))))), Some(2));
    assert_eq!(FieldType::Timestamp.field_size(), 12);
    assert_eq!(parent_type().field_size(), 8);
}

#[test]
fn test_conforms() {
    assert!(conforms(&Value::U8(1), &FieldType::U8));
    assert!(!conforms(&Value::U8(1), &FieldType::I8));
    assert!(!conforms(&Value::Duration(Duration { secs: 1, nanos: -1 }), &FieldType::Duration));
    assert!(conforms(&Value::Duration(Duration { secs: -1, nanos: -1 }), &FieldType::Duration));
    assert!(conforms(&Value::List(vec![]), &list_of(FieldType::U8)));
    assert!(!conforms(&Value::List(vec![Value::U8(1), Value::U16(1)]), &list_of(FieldType::U8)));
    assert!(!conforms(&Value::Struct(vec![]), &parent_type()));
    assert!(conforms(&Value::Optional(None), &FieldType::Optional(Box::new(FieldType::U8))));
}

#[test]
fn test_decode_struct_reports_the_error_of_check() {
    let fields = vec![FieldType::U16, FieldType::Str];
    let bytes = encode_struct(&vec![Value::U16(5), Value::Str("abc".to_string())]).unwrap();
    assert_eq!(bytes, vec![5, 0, 10, 0, 0, 0, 3, 0, 0, 0, b'a', b'b', b'c']);
    assert_eq!(
        decode_struct(&fields, &bytes).unwrap(),
        vec![Value::U16(5), Value::Str("abc".to_string())]
    );
    assert_eq!(
        decode_struct(&fields, &bytes[..9]).unwrap_err(),
        EncodingError::UnexpectedlyShortPayload
    );
    assert_eq!(
        decode_struct(&fields, &bytes[..12]).unwrap_err(),
        EncodingError::UnexpectedlyShortPayload
    );
    let mut broken = bytes.clone();
    broken[2] = 9;
    assert_eq!(decode_struct(&fields, &broken).unwrap_err(), EncodingError::IncorrectPointer);
    let mut broken = bytes.clone();
    broken[12] = 0xff;
    assert_eq!(decode_struct(&fields, &broken).unwrap_err(), EncodingError::InvalidUtf8);
}

#[test]
fn test_decode_field() {
    let buf = vec![8, 0, 0, 0, 2, 0, 0, 0, 1, 2];
    let (value, mark) =
        exonum::codec::decode(&FieldType::Bytes, &buf, 0.into(), 8.into(), 8.into()).unwrap();
    assert_eq!(value, Value::Bytes(vec![1, 2]));
    assert_eq!(mark, CheckedOffset::new(10));
    let error =
        exonum::codec::decode(&FieldType::Bytes, &buf[..9], 0.into(), 8.into(), 8.into());
    assert_eq!(error.unwrap_err(), EncodingError::UnexpectedlyShortPayload);
}

#[test]
fn test_checked_offsets() {
    let a = CheckedOffset::new(u32::MAX - 1);
    let one = CheckedOffset::new(1);
    let two = CheckedOffset::new(2);
    assert_eq!(a.checked_add(one), Ok(CheckedOffset::new(u32::MAX)));
    assert_eq!(a.checked_add(two), Err(EncodingError::OffsetOverflow));
    assert_eq!(one.checked_sub(two), Err(EncodingError::OffsetOverflow));
    assert_eq!(two.checked_sub(one), Ok(one));
    assert_eq!(a.checked_mul(two), Err(EncodingError::OffsetOverflow));
    assert_eq!(CheckedOffset::new(0x8000).checked_mul(CheckedOffset::new(0x1_0000)), Ok(CheckedOffset::new(0x8000_0000)));
    assert_eq!(a.checked_div(two), Ok(CheckedOffset::new(0x7fff_ffff)));
    assert_eq!(a.checked_div(CheckedOffset::new(0)), Err(EncodingError::OffsetOverflow));
    assert_eq!(a.unchecked_offset(), u32::MAX - 1);
    assert_eq!(CheckedOffset::from(7u32), CheckedOffset::new(7));
}

#[test]
fn test_field_ranges() {
    let fields = vec![FieldType::U16, FieldType::Hash, FieldType::Str, FieldType::Duration];
    let ranges: Vec<(u32, u32)> = (0..fields.len())
        .map(|k| field_range(&fields, k).unwrap())
        .map(|(from, to)| (from.unchecked_offset(), to.unchecked_offset()))
        .collect();
    assert_eq!(ranges, vec![(0, 2), (2, 34), (34, 42), (42, 54)]);
    assert_eq!(schema_header_size(&fields), Ok(CheckedOffset::new(54)));
    assert_eq!(schema_header_size(&vec![]), Ok(CheckedOffset::new(0)));
}

#[test]
fn test_check_struct_threads_the_mark() {
    let fields = vec![FieldType::Bytes, FieldType::U8, FieldType::Bytes];
    let values = vec![Value::Bytes(vec![1, 2]), Value::U8(3), Value::Bytes(vec![4])];
    let bytes = encode_struct(&values).unwrap();
    assert_eq!(bytes, vec![17, 0, 0, 0, 2, 0, 0, 0, 3, 19, 0, 0, 0, 1, 0, 0, 0, 1, 2, 4]);
    assert_eq!(check_struct(&fields, &bytes), Ok(CheckedOffset::new(20)));
    // the second body before the first
    let swapped = vec![18, 0, 0, 0, 2, 0, 0, 0, 3, 17, 0, 0, 0, 1, 0, 0, 0, 4, 1, 2];
    assert_eq!(check_struct(&fields, &swapped), Err(EncodingError::IncorrectPointer));
    // the two bodies over each other
    let shared = vec![17, 0, 0, 0, 2, 0, 0, 0, 3, 18, 0, 0, 0, 1, 0, 0, 0, 1, 2, 4];
    assert_eq!(check_struct(&fields, &shared), Err(EncodingError::IncorrectPointer));
    // a body inside the header
    let inside = vec![16, 0, 0, 0, 2, 0, 0, 0, 3, 19, 0, 0, 0, 1, 0, 0, 0, 1, 2, 4];
    assert_eq!(check_struct(&fields, &inside), Err(EncodingError::IncorrectPointer));
}

#[test]
fn test_try_write() {
    let mut buf = vec![0; 8];
    let value = Value::Bytes(vec![1, 2, 3]);
    assert_eq!(exonum::write::try_write(&value, &mut buf, 8, 0), Err(EncodingError::OffsetOverflow));
    assert_eq!(
        exonum::write::try_write(&value, &mut buf, 0, 4),
        Err(EncodingError::UnexpectedlyShortPayload)
    );
    assert_eq!(
        exonum::write::try_write(&value, &mut buf, 4, 12),
        Err(EncodingError::UnexpectedlyShortPayload)
    );
    assert_eq!(buf, vec![0; 8]);
    assert_eq!(exonum::write::try_write(&value, &mut buf, 0, 8), Ok(()));
    assert_eq!(buf, vec![8, 0, 0, 0, 3, 0, 0, 0, 1, 2, 3]);
}
