use chrono::{DateTime, Utc};

use exonum::check::check;
use exonum::crypto::{gen_keypair, gen_keypair_from_seed, hash, sign, verify};
use exonum::envelope::Message;
use exonum::error::EncodingError;
use exonum::field::{FieldType, Value};
use exonum::helpers::{Height, Round, ValidatorId};
use exonum::messages::{
    Block, BlockRequest, BlockResponse, Connect, ConsensusMessage, Precommit, Prevote, Propose,
    Status, BLOCK_REQUEST_TAG, CONNECT_TAG, PROPOSE_TAG,
};
use exonum::read::read;
use exonum::json::Json;
use exonum::schema::{
    decode_message, encode_message, message_from_json, message_to_json, message_type,
    StructuredMessage,
};
use exonum::time::Timestamp;

const VALIDATOR: ValidatorId = ValidatorId(65_123);
const HEIGHT: Height = Height(123_123_123);
const ROUND: Round = Round(321_321_312);
const USER_AGENT: &str = "exonum 0.1.0/rustc/linux";

fn timestamp_of(time: DateTime<Utc>) -> Timestamp {
    Timestamp { secs: time.timestamp(), nanos: time.timestamp_subsec_nanos() }
}

fn time_of(timestamp: Timestamp) -> DateTime<Utc> {
    DateTime::from_timestamp(timestamp.secs, timestamp.nanos).unwrap()
}

fn to_serde(json: &Json) -> serde_json::Value {
    match json {
        Json::Null => serde_json::Value::Null,
        Json::Bool(b) => serde_json::Value::Bool(*b),
        Json::Number(n) => match u64::try_from(*n) {
            Ok(n) => serde_json::Value::Number(serde_json::Number::from(n)),
            Err(_) => serde_json::Value::Number(serde_json::Number::from(i64::try_from(*n).unwrap())),
        },
        Json::String(s) => serde_json::Value::String(s.clone()),
        Json::Array(items) => serde_json::Value::Array(items.iter().map(to_serde).collect()),
        Json::Object(members) => serde_json::Value::Object(
            members.iter().map(|(name, member)| (name.clone(), to_serde(member))).collect(),
        ),
    }
}

fn from_serde(value: &serde_json::Value) -> Json {
    match value {
        serde_json::Value::Null => Json::Null,
        serde_json::Value::Bool(b) => Json::Bool(*b),
        serde_json::Value::Number(n) => match n.as_u64() {
            Some(n) => Json::Number(n as i128),
            None => Json::Number(n.as_i64().unwrap() as i128),
        },
        serde_json::Value::String(s) => Json::String(s.clone()),
        serde_json::Value::Array(items) => Json::Array(items.iter().map(from_serde).collect()),
        serde_json::Value::Object(map) => Json::Object(
            map.iter().map(|(name, member)| (name.clone(), from_serde(member))).collect(),
        ),
    }
}

fn assert_write_check_read(input: Value, ty: &FieldType, header_size: u32) {
    let mut buffer = vec![0; header_size as usize];
    exonum::write::write(&input, &mut buffer, 0, header_size);
    check(ty, &buffer, 0.into(), header_size.into(), header_size.into()).unwrap();
    let new_buffer = buffer.clone();
    //clear buffer
    let len = buffer.len();
    buffer.clear();
    //and fill old buffer with zeros
    buffer.resize(len, 0);

    check(ty, &new_buffer, 0.into(), header_size.into(), header_size.into()).unwrap();
    let output = read(ty, &new_buffer, 0, header_size);
    assert_eq!(input, output);
}

fn assert_encode_decode<M: StructuredMessage + PartialEq + std::fmt::Debug>(message: &M) {
    let bytes = encode_message(message).unwrap();
    let decoded: M = decode_message(&bytes).unwrap();
    assert_eq!(&decoded, message);
}

#[test]
fn test_segments_of_status_messages() {
    let m1 = Status::new(Height(2), &hash(&[]));
    let m2 = Status::new(Height(4), &hash(&[1]));
    let m3 = Status::new(Height(5), &hash(&[3]));

    let dat = Value::List(vec![
        Value::Struct(m1.to_values()),
        Value::Struct(m2.to_values()),
        Value::Struct(m3.to_values()),
    ]);
    let ty = FieldType::List(Box::new(message_type::<Status>()));
    assert_write_check_read(dat, &ty, 8);
}

fn test_connect(addr: &str) {
    let time = Utc::now();
    let (public_key, secret_key) = gen_keypair();

    // write
    let connect = Connect::new(addr, timestamp_of(time), USER_AGENT);
    let signed =
        Message::concrete(&ConsensusMessage::Connect(connect), public_key, &secret_key).unwrap();
    // read
    assert_eq!(*signed.author(), public_key);
    assert_eq!(signed.tag(), CONNECT_TAG);
    let connect = match signed.open().unwrap() {
        ConsensusMessage::Connect(connect) => connect,
        other => panic!("not a connect message: {:?}", other),
    };
    assert_eq!(connect.pub_addr(), addr);
    assert_eq!(time_of(connect.time()), time);
    assert_eq!(connect.user_agent(), USER_AGENT);
}

#[test]
fn test_connect_ipv4() {
    test_connect("18.34.3.4:7777");
}

#[test]
fn test_connect_ipv6() {
    test_connect("[::1]:7777");
}

#[test]
fn test_propose() {
    let prev_hash = hash(&[1, 2, 3]);
    let txs = vec![hash(&[1]), hash(&[2]), hash(&[2])];

    // write
    let propose = Propose::new(VALIDATOR, HEIGHT, ROUND, &prev_hash, &txs);
    // read
    assert_eq!(propose.validator(), VALIDATOR);
    assert_eq!(propose.height(), HEIGHT);
    assert_eq!(propose.round(), ROUND);
    assert_eq!(propose.prev_hash(), &prev_hash);
    assert_eq!(propose.transactions().len(), 3);
    assert_eq!(propose.transactions()[0], txs[0]);
    assert_eq!(propose.transactions()[1], txs[1]);
    assert_eq!(propose.transactions()[2], txs[2]);

    // the same after a trip through the wire
    let bytes = encode_message(&propose).unwrap();
    let propose: Propose = decode_message(&bytes).unwrap();
    assert_eq!(propose.validator(), VALIDATOR);
    assert_eq!(propose.height(), HEIGHT);
    assert_eq!(propose.round(), ROUND);
    assert_eq!(propose.prev_hash(), &prev_hash);
    assert_eq!(propose.transactions().len(), 3);
    assert_eq!(propose.transactions()[0], txs[0]);
    assert_eq!(propose.transactions()[1], txs[1]);
    assert_eq!(propose.transactions()[2], txs[2]);
    assert_eq!(propose.transactions()[1], propose.transactions()[2]);
}

#[test]
fn test_prevote() {
    let propose_hash = hash(&[1, 2, 3]);
    let locked_round = Round(654_345);

    // write
    let prevote = Prevote::new(VALIDATOR, HEIGHT, ROUND, &propose_hash, locked_round);
    // read
    assert_eq!(prevote.validator(), VALIDATOR);
    assert_eq!(prevote.height(), HEIGHT);
    assert_eq!(prevote.round(), ROUND);
    assert_eq!(prevote.propose_hash(), &propose_hash);
    assert_eq!(prevote.locked_round(), locked_round);
    assert_encode_decode(&prevote);
}

#[test]
fn test_precommit() {
    let propose_hash = hash(&[1, 2, 3]);
    let block_hash = hash(&[3, 2, 1]);
    let time = Utc::now();

    // write
    let precommit =
        Precommit::new(VALIDATOR, HEIGHT, ROUND, &propose_hash, &block_hash, timestamp_of(time));
    // read
    assert_eq!(precommit.validator(), VALIDATOR);
    assert_eq!(precommit.height(), HEIGHT);
    assert_eq!(precommit.round(), ROUND);
    assert_eq!(precommit.propose_hash(), &propose_hash);
    assert_eq!(precommit.block_hash(), &block_hash);
    assert_eq!(time_of(precommit.time()), time);
    let json_str = serde_json::to_string(&to_serde(&message_to_json(&precommit))).unwrap();
    assert!(json_str.len() > 0);
    let parsed: serde_json::Value = serde_json::from_str(&json_str).unwrap();
    let precommit1: Precommit = message_from_json(&from_serde(&parsed)).unwrap();
    assert_eq!(precommit, precommit1);
    assert_encode_decode(&precommit);
}

#[test]
fn test_status() {
    let last_hash = hash(&[3, 2, 1]);

    // write
    let commit = Status::new(HEIGHT, &last_hash);
    // read
    assert_eq!(commit.height(), HEIGHT);
    assert_eq!(commit.last_hash(), &last_hash);
    assert_encode_decode(&commit);
}

#[test]
fn test_empty_block() {
    let (pub_key, _secret_key) = gen_keypair();

    let content = Block::new(
        ValidatorId::zero(),
        Height(200),
        1,
        &hash(&[1]),
        &hash(&[2]),
        &hash(&[3]),
    );

    let precommits = Vec::new();
    let transactions = Vec::new();
    let block = BlockResponse::new(&pub_key, content.clone(), precommits.clone(), &transactions);

    assert_eq!(block.to(), &pub_key);
    assert_eq!(block.block(), &content);
    assert_eq!(block.precommits(), precommits);
    assert_eq!(block.transactions().to_vec(), transactions);
    assert_encode_decode(&block);
}

#[test]
fn test_request_block() {
    let (public_key, _secret_key) = gen_keypair();

    // write
    let request = BlockRequest::new(&public_key, Height(1));
    // read
    assert_eq!(request.height(), Height(1));
    assert_eq!(request.to(), &public_key);
    assert_encode_decode(&request);
}

#[test]
fn test_block_response_with_content() {
    let (pub_key, _) = gen_keypair_from_seed(&[7; 32]);
    let content = Block::new(ValidatorId(3), Height(9), 2, &hash(&[1]), &hash(&[2]), &hash(&[3]));
    let time = Timestamp { secs: 1_500_000_000, nanos: 123_456_789 };
    let precommits = vec![
        Precommit::new(ValidatorId(0), Height(9), Round(1), &hash(&[4]), &hash(&[5]), time),
        Precommit::new(ValidatorId(2), Height(9), Round(1), &hash(&[4]), &hash(&[5]), time),
    ];
    let transactions = vec![hash(&[6]), hash(&[7])];
    let block = BlockResponse::new(&pub_key, content, precommits.clone(), &transactions);
    assert_eq!(block.precommits(), precommits);
    assert_encode_decode(&block);
    // header: key 32, block 8, precommits 8, transactions 8;
    // block body 2 + 8 + 4 + 3 * 32; two precommits of 8 + 90 each; two hashes
    let bytes = encode_message(&block).unwrap();
    assert_eq!(bytes.len(), 56 + 110 + 2 * (8 + 90) + 2 * 32);
}

#[test]
fn test_propose_exact_bytes() {
    let prev_hash = exonum::crypto::Hash([0xab; 32]);
    let txs = vec![exonum::crypto::Hash([1; 32]), exonum::crypto::Hash([2; 32])];
    let propose = Propose::new(ValidatorId(0x0102), Height(5), Round(7), &prev_hash, &txs);
    let bytes = encode_message(&propose).unwrap();
    let mut expected = vec![0x02, 0x01];
    expected.extend_from_slice(&[5, 0, 0, 0, 0, 0, 0, 0]);
    expected.extend_from_slice(&[7, 0, 0, 0]);
    expected.extend_from_slice(&[0xab; 32]);
    expected.extend_from_slice(&[54, 0, 0, 0, 2, 0, 0, 0]);
    expected.extend_from_slice(&[1; 32]);
    expected.extend_from_slice(&[2; 32]);
    assert_eq!(bytes, expected);
}

#[test]
fn test_decode_rejects_wrong_tag() {
    assert_eq!(
        ConsensusMessage::decode(7, &[]).unwrap_err(),
        EncodingError::IncorrectMessageType
    );
    assert_eq!(
        ConsensusMessage::decode(u16::MAX, &[0; 64]).unwrap_err(),
        EncodingError::IncorrectMessageType
    );
}

#[test]
fn test_decode_rejects_short_payload() {
    let request = BlockRequest::new(&exonum::crypto::PublicKey([9; 32]), Height(1));
    let bytes = encode_message(&request).unwrap();
    assert_eq!(bytes.len(), 40);
    assert_eq!(
        ConsensusMessage::decode(BLOCK_REQUEST_TAG, &bytes[..39]).unwrap_err(),
        EncodingError::UnexpectedlyShortPayload
    );
    assert_eq!(
        ConsensusMessage::decode(BLOCK_REQUEST_TAG, &bytes).unwrap(),
        ConsensusMessage::BlockRequest(request)
    );
}

#[test]
fn test_sign_and_verify() {
    let (public_key, secret_key) = gen_keypair_from_seed(&[1; 32]);
    let (other_key, _) = gen_keypair_from_seed(&[2; 32]);
    let data = [1u8, 2, 3, 4];
    let signature = sign(&data, &secret_key);
    assert!(verify(&signature, &data, &public_key));
    assert!(!verify(&signature, &[1u8, 2, 3, 5], &public_key));
    assert!(!verify(&signature, &data, &other_key));
    assert_eq!(sign(&data, &secret_key), signature);
}

#[test]
fn test_hash_known_value() {
    // SHA-256 of the empty input.
    let expected = [
        0xe3, 0xb0, 0xc4, 0x42, 0x98, 0xfc, 0x1c, 0x14, 0x9a, 0xfb, 0xf4, 0xc8, 0x99, 0x6f, 0xb9,
        0x24, 0x27, 0xae, 0x41, 0xe4, 0x64, 0x9b, 0x93, 0x4c, 0xa4, 0x95, 0x99, 0x1b, 0x78, 0x52,
        0xb8, 0x55,
    ];
    assert_eq!(hash(&[]).0, expected);
    assert_ne!(hash(&[0]).0, expected);
}

#[test]
fn test_keypair_known_value() {
    // The first test vector of RFC 8032.
    let seed = [
        0x9d, 0x61, 0xb1, 0x9d, 0xef, 0xfd, 0x5a, 0x60, 0xba, 0x84, 0x4a, 0xf4, 0x92, 0xec, 0x2c,
        0xc4, 0x44, 0x49, 0xc5, 0x69, 0x7b, 0x32, 0x69, 0x19, 0x70, 0x3b, 0xac, 0x03, 0x1c, 0xae,
        0x7f, 0x60,
    ];
    let public = [
        0xd7, 0x5a, 0x98, 0x01, 0x82, 0xb1, 0x0a, 0xb7, 0xd5, 0x4b, 0xfe, 0xd3, 0xc9, 0x64, 0x07,
        0x3a, 0x0e, 0xe1, 0x72, 0xf3, 0xda, 0xa6, 0x23, 0x25, 0xaf, 0x02, 0x1a, 0x68, 0xf7, 0x07,
        0x51, 0x1a,
    ];
    let (public_key, secret_key) = gen_keypair_from_seed(&seed);
    assert_eq!(public_key.0, public);
    assert_eq!(secret_key.0, seed);
    let signature = sign(&[], &secret_key);
    assert_eq!(signature.0[..4], [0xe5, 0x56, 0x43, 0x00]);
}

#[test]
fn test_signature_tamper_detection() {
    let (public_key, secret_key) = gen_keypair_from_seed(&[3; 32]);
    let txs = vec![hash(&[1])];
    let propose = Propose::new(VALIDATOR, HEIGHT, ROUND, &hash(&[1, 2, 3]), &txs);
    let signed =
        Message::concrete(&ConsensusMessage::Propose(propose.clone()), public_key, &secret_key)
            .unwrap();
    assert!(signed.verify());
    assert_eq!(signed.tag(), PROPOSE_TAG);
    assert_eq!(signed.open().unwrap(), ConsensusMessage::Propose(propose));

    for i in 0..signed.body().len() {
        let mut tampered = signed.clone();
        tampered.body[i] ^= 1 << (i % 8);
        assert!(!tampered.verify(), "a flip in byte {} went unseen", i);
    }
    let mut tampered = signed.clone();
    tampered.body[0] ^= 0xff;
    assert_eq!(tampered.open().unwrap_err(), EncodingError::SignatureInvalid);
    // the same verdict when asked again
    assert_eq!(tampered.open().unwrap_err(), EncodingError::SignatureInvalid);
    let mut tampered = signed.clone();
    tampered.signature.0[63] ^= 1;
    assert_eq!(tampered.open().unwrap_err(), EncodingError::SignatureInvalid);
    let (other_key, _) = gen_keypair_from_seed(&[4; 32]);
    let mut forged = signed.clone();
    forged.author = other_key;
    assert_eq!(forged.open().unwrap_err(), EncodingError::SignatureInvalid);
}

#[test]
fn test_envelope_of_a_stranger_is_refused() {
    let (public_key, _) = gen_keypair_from_seed(&[5; 32]);
    let (_, secret_key) = gen_keypair_from_seed(&[6; 32]);
    let status = Status::new(Height(1), &hash(&[]));
    let signed =
        Message::concrete(&ConsensusMessage::Status(status), public_key, &secret_key).unwrap();
    assert!(!signed.verify());
    assert_eq!(signed.open().unwrap_err(), EncodingError::SignatureInvalid);
}

#[test]
fn test_envelope_wire_round_trip() {
    let (public_key, secret_key) = gen_keypair_from_seed(&[8; 32]);
    let request = BlockRequest::new(&public_key, Height(77));
    let signed =
        Message::concrete(&ConsensusMessage::BlockRequest(request.clone()), public_key, &secret_key)
            .unwrap();
    let wire = encode_message(&signed).unwrap();
    // tag 2, author 32, body pointer and count 8, signature 64, then the body of 40 bytes
    assert_eq!(wire.len(), 106 + 40);
    let received: Message = decode_message(&wire).unwrap();
    assert_eq!(received, signed);
    assert_eq!(received.open().unwrap(), ConsensusMessage::BlockRequest(request));

    let mut broken = wire.clone();
    broken[34] = 0; // the pointer of the body now lies inside the header
    assert_eq!(
        decode_message::<Message>(&broken).unwrap_err(),
        EncodingError::IncorrectPointer
    );
}
