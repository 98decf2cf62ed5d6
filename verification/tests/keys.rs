use exonum::crypto::{gen_keypair_from_seed, PublicKey, SecretKey, Signature};
use exonum::error::StorageError;
use exonum::keys::{hash_from_base64, keypair_texts, load_base64_value, load_keypair};

#[test]
fn test_saved_keypair_loads_back() {
    let (public_key, secret_key) = gen_keypair_from_seed(&[9; 32]);
    let (public_text, secret_text) = keypair_texts(&public_key, &secret_key);
    assert_eq!(secret_text, "CQkJCQkJCQkJCQkJCQkJCQkJCQkJCQkJCQkJCQkJCQk=");
    let loaded = load_keypair(Some(&public_text), Some(&secret_text)).unwrap();
    assert_eq!(loaded, (public_key, secret_key));
}

#[test]
fn test_load_base64_value() {
    assert_eq!(load_base64_value(Some("aGVsbG8="), "greeting").unwrap(), b"hello".to_vec());
    let missing = load_base64_value(None, "greeting").unwrap_err();
    assert_eq!(missing.message, "Unable to find value with given key greeting");
    let garbled = load_base64_value(Some("aGVsbG8"), "public_key").unwrap_err();
    assert_eq!(garbled.message, "Unable to find value with given key public_key");
}

#[test]
fn test_load_keypair_errors_come_in_order() {
    let key = "CQkJCQkJCQkJCQkJCQkJCQkJCQkJCQkJCQkJCQkJCQk=";
    let short = "aGVsbG8=";
    let message = |result: Result<(PublicKey, SecretKey), StorageError>| result.unwrap_err().message;
    assert_eq!(
        message(load_keypair(None, None)),
        "Unable to find value with given key public_key"
    );
    assert_eq!(
        message(load_keypair(Some(short), None)),
        "Unable to find value with given key secret_key"
    );
    assert_eq!(
        message(load_keypair(Some("?"), Some(key))),
        "Unable to find value with given key public_key"
    );
    assert_eq!(message(load_keypair(Some(short), Some(short))), "Unable to read public key");
    assert_eq!(message(load_keypair(Some(key), Some(short))), "Unable to read secret key");
    assert!(load_keypair(Some(key), Some(key)).is_ok());
}

#[test]
fn test_hash_from_base64() {
    let hash = exonum::crypto::hash(&[1, 2, 3]);
    let (text, _) = keypair_texts(&PublicKey(hash.0), &SecretKey([0; 32]));
    assert_eq!(hash_from_base64(&text).unwrap(), hash);
    assert_eq!(
        hash_from_base64("aGVsbG8=").unwrap_err().message,
        "Unable to decode transaction hash"
    );
    assert_eq!(
        hash_from_base64("not base64").unwrap_err().message,
        "Unable to decode transaction hash"
    );
}

#[test]
fn test_from_slice() {
    assert_eq!(exonum::crypto::Hash::from_slice(&[7; 32]), Some(exonum::crypto::Hash([7; 32])));
    assert_eq!(exonum::crypto::Hash::from_slice(&[7; 31]), None);
    assert_eq!(exonum::crypto::Hash::zero(), exonum::crypto::Hash([0; 32]));
    assert_eq!(PublicKey::from_slice(&[7; 32]), Some(PublicKey([7; 32])));
    assert_eq!(PublicKey::from_slice(&[7; 33]), None);
    assert_eq!(SecretKey::from_slice(&[7; 32]), Some(SecretKey([7; 32])));
    assert_eq!(SecretKey::from_slice(&[]), None);
    let mut bytes = [7u8; 64];
    bytes[63] = 1;
    assert_eq!(Signature::from_slice(&bytes), Some(Signature(bytes)));
    assert_eq!(Signature::from_slice(&bytes[..32]), None);
}
