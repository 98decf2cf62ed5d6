use chrono::Utc;
use serde_json::Number;

use exonum::check::check;
use exonum::field::{FieldType, Value};
use exonum::helpers::{Height, Round, ValidatorId};
use exonum::hex::{from_hex, to_hex};
use exonum::json::{from_json, to_json, well_named, Json};
use exonum::messages::{Block, BlockResponse, Precommit, Propose};
use exonum::read::read;
use exonum::schema::{message_from_json, message_to_json, message_type};
use exonum::time::{Duration, Timestamp};
use exonum::write::body_size;

fn to_serde(json: &Json) -> serde_json::Value {
    match json {
        Json::Null => serde_json::Value::Null,
        Json::Bool(b) => serde_json::Value::Bool(*b),
        Json::Number(n) => {
            if *n >= 0 {
                serde_json::Value::Number(Number::from(u64::try_from(*n).unwrap()))
            } else {
                serde_json::Value::Number(Number::from(i64::try_from(*n).unwrap()))
            }
        }
        Json::String(s) => serde_json::Value::String(s.clone()),
        Json::Array(items) => serde_json::Value::Array(items.iter().map(to_serde).collect()),
        Json::Object(members) => {
            let mut map = serde_json::Map::new();
            for (name, member) in members {
                map.insert(name.clone(), to_serde(member));
            }
            serde_json::Value::Object(map)
        }
    }
}

fn from_serde(value: &serde_json::Value) -> Json {
    match value {
        serde_json::Value::Null => Json::Null,
        serde_json::Value::Bool(b) => Json::Bool(*b),
        serde_json::Value::Number(n) => match n.as_u64() {
            Some(n) => Json::Number(n as i128),
            None => Json::Number(n.as_i64().unwrap() as i128),
        },
        serde_json::Value::String(s) => Json::String(s.clone()),
        serde_json::Value::Array(items) => Json::Array(items.iter().map(from_serde).collect()),
        serde_json::Value::Object(map) => {
            Json::Object(map.iter().map(|(name, member)| (name.clone(), from_serde(member))).collect())
        }
    }
}

fn object(members: Vec<(&str, serde_json::Value)>) -> serde_json::Value {
    let mut map = serde_json::Map::new();
    for (name, member) in members {
        map.insert(name.to_string(), member);
    }
    serde_json::Value::Object(map)
}

fn bar_type() -> FieldType {
    FieldType::Struct(vec!["name".to_string()], vec![FieldType::Str])
}

fn foo_type() -> FieldType {
    FieldType::Struct(
        vec!["opt1".to_string(), "opt2".to_string()],
        vec![
            FieldType::Optional(Box::new(FieldType::U32)),
            FieldType::Optional(Box::new(bar_type())),
        ],
    )
}

fn foo(opt1: Option<u32>, opt2: Option<&str>) -> Value {
    let opt1 = opt1.map(|x| Box::new(Value::U32(x)));
    let opt2 = opt2.map(|name| Box::new(Value::Struct(vec![Value::Str(name.to_string())])));
    Value::Struct(vec![Value::Optional(opt1), Value::Optional(opt2)])
}

#[test]
fn test_option_serialization_roundtrip() {
    let baz = || object(vec![("name", serde_json::Value::String("Baz".to_string()))]);
    let opts = vec![
        (
            foo(None, None),
            object(vec![("opt1", serde_json::Value::Null), ("opt2", serde_json::Value::Null)]),
        ),
        (
            foo(Some(0xFFFFFFFF), None),
            object(vec![
                ("opt1", serde_json::Value::Number(Number::from(4294967295_u32))),
                ("opt2", serde_json::Value::Null),
            ]),
        ),
        (
            foo(Some(0xFFFFFFFF), Some("Baz")),
            object(vec![
                ("opt1", serde_json::Value::Number(Number::from(4294967295_u32))),
                ("opt2", baz()),
            ]),
        ),
        (foo(None, Some("Baz")), object(vec![("opt1", serde_json::Value::Null), ("opt2", baz())])),
    ];

    for (x, json_x) in opts.iter() {
        let ty = foo_type();
        let size = ty.field_size();
        let mut buffer = vec![0; size as usize];

        let serialized = to_serde(&to_json(x, &ty).unwrap());
        assert_eq!(*json_x, serialized);
        let value = from_json(&from_serde(&serialized), &ty).unwrap();
        exonum::write::write(&value, &mut buffer, 0, size);
        check(&ty, &buffer, 0.into(), size.into(), size.into()).unwrap();
        let foo = read(&ty, &buffer, 0, size);
        assert_eq!(*x, foo);
    }
}

#[test]
fn test_precommit_json_roundtrip() {
    let time = Utc::now();
    let precommit = Precommit::new(
        ValidatorId(65_123),
        Height(123_123_123),
        Round(321_321_312),
        &exonum::crypto::hash(&[1, 2, 3]),
        &exonum::crypto::hash(&[3, 2, 1]),
        Timestamp { secs: time.timestamp(), nanos: time.timestamp_subsec_nanos() },
    );
    let json_str = serde_json::to_string(&to_serde(&message_to_json(&precommit))).unwrap();
    assert!(json_str.len() > 0);
    let parsed: serde_json::Value = serde_json::from_str(&json_str).unwrap();
    let precommit1: Precommit = message_from_json(&from_serde(&parsed)).unwrap();
    assert_eq!(precommit, precommit1);
}

#[test]
fn test_propose_json_shape() {
    let propose = Propose::new(
        ValidatorId(1),
        Height(2),
        Round(3),
        &exonum::crypto::Hash([0xab; 32]),
        &[exonum::crypto::Hash([0x01; 32]), exonum::crypto::Hash([0xf0; 32])],
    );
    let expected = object(vec![
        ("validator", serde_json::Value::Number(Number::from(1))),
        ("height", serde_json::Value::Number(Number::from(2))),
        ("round", serde_json::Value::Number(Number::from(3))),
        ("prev_hash", serde_json::Value::String("ab".repeat(32))),
        (
            "transactions",
            serde_json::Value::Array(vec![
                serde_json::Value::String("01".repeat(32)),
                serde_json::Value::String("f0".repeat(32)),
            ]),
        ),
    ]);
    assert_eq!(to_serde(&message_to_json(&propose)), expected);
    // members are found by name, in whatever order they come
    let back: Propose = message_from_json(&from_serde(&expected)).unwrap();
    assert_eq!(back, propose);
}

#[test]
fn test_block_response_json_roundtrip() {
    let time = Timestamp { secs: 1_500_000_000, nanos: 1 };
    let block =
        Block::new(ValidatorId(3), Height(9), 2, &exonum::crypto::hash(&[1]), &exonum::crypto::hash(&[2]), &exonum::crypto::hash(&[3]));
    let precommits = vec![Precommit::new(
        ValidatorId(0),
        Height(9),
        Round(1),
        &exonum::crypto::hash(&[4]),
        &exonum::crypto::hash(&[5]),
        time,
    )];
    let response = BlockResponse::new(
        &exonum::crypto::PublicKey([5; 32]),
        block,
        precommits,
        &[exonum::crypto::hash(&[6])],
    );
    let json = message_to_json(&response);
    let back: BlockResponse = message_from_json(&json).unwrap();
    assert_eq!(back, response);
    assert!(well_named(&message_type::<BlockResponse>()));
}

#[test]
fn test_json_rejects_what_is_no_value() {
    assert_eq!(from_json(&Json::Number(256), &FieldType::U8), None);
    assert_eq!(from_json(&Json::Number(255), &FieldType::U8), Some(Value::U8(255)));
    assert_eq!(from_json(&Json::Number(-129), &FieldType::I8), None);
    assert_eq!(from_json(&Json::Number(-128), &FieldType::I8), Some(Value::I8(-128)));
    assert_eq!(from_json(&Json::Number(u64::MAX as i128 + 1), &FieldType::U64), None);
    assert_eq!(from_json(&Json::Bool(true), &FieldType::U8), None);
    assert_eq!(from_json(&Json::String("0a".to_string()), &FieldType::Hash), None);
    assert_eq!(from_json(&Json::String("0A".to_string()), &FieldType::Bytes), None);
    assert_eq!(from_json(&Json::String("0a1".to_string()), &FieldType::Bytes), None);
    assert_eq!(
        from_json(&Json::String("0a10".to_string()), &FieldType::Bytes),
        Some(Value::Bytes(vec![10, 16]))
    );
    assert_eq!(from_json(&Json::Object(vec![]), &bar_type()), None);
    assert_eq!(from_json(&Json::Null, &bar_type()), None);
    let wrong_sign = Json::Object(vec![
        ("secs".to_string(), Json::Number(1)),
        ("nanos".to_string(), Json::Number(-1)),
    ]);
    assert_eq!(from_json(&wrong_sign, &FieldType::Duration), None);
    let fine = Json::Object(vec![
        ("nanos".to_string(), Json::Number(-1)),
        ("secs".to_string(), Json::Number(-1)),
    ]);
    assert_eq!(
        from_json(&fine, &FieldType::Duration),
        Some(Value::Duration(Duration { secs: -1, nanos: -1 }))
    );
}

#[test]
fn test_to_json_rejects_a_value_of_another_type() {
    assert_eq!(to_json(&Value::U8(1), &FieldType::U16), None);
    assert_eq!(to_json(&foo(None, None), &bar_type()), None);
    let nameless = FieldType::Struct(vec![], vec![FieldType::Str]);
    assert!(!well_named(&nameless));
    assert_eq!(to_json(&Value::Struct(vec![Value::Str("x".to_string())]), &nameless), None);
    assert_eq!(to_json(&Value::I64(i64::MIN), &FieldType::I64), Some(Json::Number(i64::MIN as i128)));
    assert_eq!(body_size(&foo(None, None)), Some(16));
}

#[test]
fn test_hex() {
    assert_eq!(to_hex(&[]), "");
    assert_eq!(to_hex(&[0x00, 0x0f, 0xa0, 0xff, 0x9c]), "000fa0ff9c");
    assert_eq!(from_hex("000fa0ff9c"), Some(vec![0x00, 0x0f, 0xa0, 0xff, 0x9c]));
    assert_eq!(from_hex(""), Some(vec![]));
    assert_eq!(from_hex("0"), None);
    assert_eq!(from_hex("0g"), None);
    assert_eq!(from_hex("g0"), None);
    assert_eq!(from_hex("FF"), None);
    assert_eq!(from_hex("ю0"), None);
    assert_eq!(from_hex(" 00"), None);
}
