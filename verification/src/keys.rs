//! Keys as text: what a client keeps between requests, and how the keys
//! are read back from it.

use base64::Engine;
use vstd::prelude::*;
use vstd::string::StringExecFns;
use crate::crypto::{PublicKey, SecretKey};
use crate::error::StorageError;

verus! {

/// The standard base64 text of `bytes`, with padding.
pub uninterp spec fn base64_text(bytes: Seq<u8>) -> Seq<char>;

/// The bytes that `text` stands for in standard base64 with padding, if it
/// is such a text.
pub uninterp spec fn base64_bytes(text: Seq<char>) -> Option<Seq<u8>>;

/// `base64::Engine::encode` of the `STANDARD` engine: the text is a
/// function of the bytes alone. The call panics where the length of the
/// text would be no `usize`, which a gigabyte of bytes stays clear of.
#[verifier::external_body]
fn base64_encode(bytes: &[u8]) -> (r: String)
    requires
        bytes@.len() < 0x4000_0000,
    ensures
        r@ == base64_text(bytes@),
{
    base64::engine::general_purpose::STANDARD.encode(bytes)
}

/// `base64::Engine::decode` of the `STANDARD` engine: the bytes, or
/// nothing where the text is refused, a function of the text alone.
#[verifier::external_body]
fn base64_decode(text: &str) -> (r: Option<Vec<u8>>)
    ensures
        match r {
            Some(bytes) => base64_bytes(text@) == Some(bytes@),
            None => base64_bytes(text@) is None,
        },
{
    base64::engine::general_purpose::STANDARD.decode(text).ok()
}

impl StorageError {
    /// The error with the message `message`.
    pub fn new(message: String) -> (r: StorageError)
        ensures
            r.message == message,
    {
        StorageError { message }
    }
}

/// The message of the error for a value that is missing under `key` or is
/// no base64 text.
pub open spec fn missing_value(key: Seq<char>) -> Seq<char> {
    "Unable to find value with given key "@ + key
}

/// The texts under which a client keeps a key pair: the public key, then
/// the secret key.
pub fn keypair_texts(public_key: &PublicKey, secret_key: &SecretKey) -> (r: (String, String))
    ensures
        r.0@ == base64_text(public_key@),
        r.1@ == base64_text(secret_key@),
{
    (base64_encode(public_key.0.as_slice()), base64_encode(secret_key.0.as_slice()))
}

/// The bytes kept under `key`, where `value` is what the client holds
/// under this key, if anything.
pub fn load_base64_value(value: Option<&str>, key: &str) -> (r: Result<Vec<u8>, StorageError>)
    ensures
        match r {
            Ok(bytes) => value matches Some(text) && base64_bytes(text@) == Some(bytes@),
            Err(e) => {
                &&& value matches Some(text) ==> base64_bytes(text@) is None
                &&& e.message@ == missing_value(key@)
            },
        },
{
    if let Some(text) = value {
        if let Some(bytes) = base64_decode(text) {
            return Ok(bytes);
        }
    }
    let mut message = "Unable to find value with given key ".to_owned();
    message.append(key);
    Err(StorageError::new(message))
}

/// What reading a key pair back gives: the two values are looked at in
/// turn, then the two keys are made of their bytes in turn; the first
/// step that fails decides the error.
pub open spec fn loaded_keypair(public: Option<Seq<char>>, secret: Option<Seq<char>>) -> Result<
    (Seq<u8>, Seq<u8>),
    Seq<char>,
> {
    let public_bytes = match public {
        Some(text) => base64_bytes(text),
        None => None,
    };
    let secret_bytes = match secret {
        Some(text) => base64_bytes(text),
        None => None,
    };
    if public_bytes is None {
        Err(missing_value("public_key"@))
    } else if secret_bytes is None {
        Err(missing_value("secret_key"@))
    } else if public_bytes->Some_0.len() != 32 {
        Err("Unable to read public key"@)
    } else if secret_bytes->Some_0.len() != 32 {
        Err("Unable to read secret key"@)
    } else {
        Ok((public_bytes->Some_0, secret_bytes->Some_0))
    }
}

/// The key pair that a client keeps as the texts `public` and `secret`.
pub fn load_keypair(public: Option<&str>, secret: Option<&str>) -> (r: Result<
    (PublicKey, SecretKey),
    StorageError,
>)
    ensures
        match r {
            Ok((public_key, secret_key)) => loaded_keypair(
                match public {
                    Some(text) => Some(text@),
                    None => None,
                },
                match secret {
                    Some(text) => Some(text@),
                    None => None,
                },
            ) == Ok::<(Seq<u8>, Seq<u8>), Seq<char>>((public_key@, secret_key@)),
            Err(e) => loaded_keypair(
                match public {
                    Some(text) => Some(text@),
                    None => None,
                },
                match secret {
                    Some(text) => Some(text@),
                    None => None,
                },
            ) == Err::<(Seq<u8>, Seq<u8>), Seq<char>>(e.message@),
        },
{
    let public_bytes = match load_base64_value(public, "public_key") {
        Ok(bytes) => bytes,
        Err(e) => {
            return Err(e);
        },
    };
    let secret_bytes = match load_base64_value(secret, "secret_key") {
        Ok(bytes) => bytes,
        Err(e) => {
            return Err(e);
        },
    };
    let public_key = match PublicKey::from_slice(public_bytes.as_slice()) {
        Some(key) => key,
        None => {
            return Err(StorageError::new("Unable to read public key".to_owned()));
        },
    };
    let secret_key = match SecretKey::from_slice(secret_bytes.as_slice()) {
        Some(key) => key,
        None => {
            return Err(StorageError::new("Unable to read secret key".to_owned()));
        },
    };
    Ok((public_key, secret_key))
}

/// The hash that a client names by the base64 text `text`.
pub fn hash_from_base64(text: &str) -> (r: Result<crate::crypto::Hash, StorageError>)
    ensures
        match r {
            Ok(hash) => base64_bytes(text@) == Some(hash@),
            Err(e) => {
                &&& base64_bytes(text@) matches Some(bytes) ==> bytes.len() != 32
                &&& e.message@ == "Unable to decode transaction hash"@
            },
        },
{
    if let Some(bytes) = base64_decode(text) {
        if let Some(hash) = crate::crypto::Hash::from_slice(bytes.as_slice()) {
            return Ok(hash);
        }
    }
    Err(StorageError::new("Unable to decode transaction hash".to_owned()))
}

} // verus!
