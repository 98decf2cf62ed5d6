//! Hashes, keys and signatures: SHA-256 and Ed25519.

use ed25519_dalek::{Signer, Verifier};
use rand::RngCore;
use sha2::Digest;
use vstd::prelude::*;
use crate::read::array_at;

verus! {

/// The number of bytes in a hash.
pub const HASH_SIZE: usize = 32;

/// The number of bytes in a public key.
pub const PUBLIC_KEY_LENGTH: usize = 32;

/// The number of bytes in a secret key.
pub const SECRET_KEY_LENGTH: usize = 32;

/// The number of bytes in a signature.
pub const SIGNATURE_LENGTH: usize = 64;

/// A SHA-256 digest.
#[derive(Clone, Copy, Debug, PartialEq, Eq, PartialOrd, Ord, Hash)]
pub struct Hash(pub [u8; 32]);

/// An Ed25519 public key.
#[derive(Clone, Copy, Debug, PartialEq, Eq, PartialOrd, Ord, Hash)]
pub struct PublicKey(pub [u8; 32]);

/// An Ed25519 secret key: the 32-byte seed.
#[derive(Clone, Debug, PartialEq, Eq)]
pub struct SecretKey(pub [u8; 32]);

/// An Ed25519 signature.
#[derive(Clone, Copy, Debug, PartialEq, Eq)]
pub struct Signature(pub [u8; 64]);

impl View for Hash {
    type V = Seq<u8>;

    open spec fn view(&self) -> Seq<u8> {
        self.0@
    }
}

impl View for PublicKey {
    type V = Seq<u8>;

    open spec fn view(&self) -> Seq<u8> {
        self.0@
    }
}

impl View for SecretKey {
    type V = Seq<u8>;

    open spec fn view(&self) -> Seq<u8> {
        self.0@
    }
}

impl View for Signature {
    type V = Seq<u8>;

    open spec fn view(&self) -> Seq<u8> {
        self.0@
    }
}

impl Hash {
    /// The hash that consists of `bytes`, if there are 32 of them.
    pub fn from_slice(bytes: &[u8]) -> (r: Option<Hash>)
        ensures
            r is Some <==> bytes@.len() == 32,
            r matches Some(hash) ==> hash@ == bytes@,
    {
        if bytes.len() == 32 {
            let hash = Hash(array_at::<32>(bytes, 0));
            assert(bytes@.subrange(0, 32) =~= bytes@);
            Some(hash)
        } else {
            None
        }
    }

    /// The hash of 32 zero bytes.
    pub fn zero() -> (r: Hash)
        ensures
            r@ == Seq::new(32, |i: int| 0u8),
    {
        let hash = Hash([0u8; 32]);
        assert(hash@ =~= Seq::new(32, |i: int| 0u8));
        hash
    }
}

impl PublicKey {
    /// The public key that consists of `bytes`, if there are 32 of them.
    pub fn from_slice(bytes: &[u8]) -> (r: Option<PublicKey>)
        ensures
            r is Some <==> bytes@.len() == 32,
            r matches Some(key) ==> key@ == bytes@,
    {
        if bytes.len() == 32 {
            let key = PublicKey(array_at::<32>(bytes, 0));
            assert(bytes@.subrange(0, 32) =~= bytes@);
            Some(key)
        } else {
            None
        }
    }
}

impl SecretKey {
    /// The secret key that consists of `bytes`, if there are 32 of them.
    pub fn from_slice(bytes: &[u8]) -> (r: Option<SecretKey>)
        ensures
            r is Some <==> bytes@.len() == 32,
            r matches Some(key) ==> key@ == bytes@,
    {
        if bytes.len() == 32 {
            let key = SecretKey(array_at::<32>(bytes, 0));
            assert(bytes@.subrange(0, 32) =~= bytes@);
            Some(key)
        } else {
            None
        }
    }
}

impl Signature {
    /// The signature that consists of `bytes`, if there are 64 of them.
    pub fn from_slice(bytes: &[u8]) -> (r: Option<Signature>)
        ensures
            r is Some <==> bytes@.len() == 64,
            r matches Some(signature) ==> signature@ == bytes@,
    {
        if bytes.len() == 64 {
            let signature = Signature(array_at::<64>(bytes, 0));
            assert(bytes@.subrange(0, 64) =~= bytes@);
            Some(signature)
        } else {
            None
        }
    }
}

/// The SHA-256 digest of `data`.
pub uninterp spec fn sha256(data: Seq<u8>) -> Seq<u8>;

/// The Ed25519 public key that belongs to the secret seed `seed`.
pub uninterp spec fn ed25519_public(seed: Seq<u8>) -> Seq<u8>;

/// The Ed25519 signature of `message` under the secret seed `seed`.
pub uninterp spec fn ed25519_signature(message: Seq<u8>, seed: Seq<u8>) -> Seq<u8>;

/// Whether `signature` is accepted as an Ed25519 signature of `message`
/// under the public key `public`.
pub uninterp spec fn ed25519_verifies(
    message: Seq<u8>,
    signature: Seq<u8>,
    public: Seq<u8>,
) -> bool;

/// `sha2::Sha256::digest`: the SHA-256 digest of the data, a function of
/// the data alone.
#[verifier::external_body]
fn sha256_digest(data: &[u8]) -> (r: [u8; 32])
    ensures
        r@ == sha256(data@),
{
    sha2::Sha256::digest(data).into()
}

/// `ed25519_dalek::SigningKey::from_bytes` and `verifying_key`: the bytes
/// of the public key that belongs to the seed, a function of the seed
/// alone.
#[verifier::external_body]
fn ed25519_public_key(seed: &[u8; 32]) -> (r: [u8; 32])
    ensures
        r@ == ed25519_public(seed@),
{
    ed25519_dalek::SigningKey::from_bytes(seed).verifying_key().to_bytes()
}

/// `ed25519_dalek::SigningKey::sign`: the signature is a function of the
/// message and the seed alone, and it is one that `verify` accepts for
/// this message under the public key of the seed.
#[verifier::external_body]
fn ed25519_sign(message: &[u8], seed: &[u8; 32]) -> (r: [u8; 64])
    ensures
        r@ == ed25519_signature(message@, seed@),
        ed25519_verifies(message@, r@, ed25519_public(seed@)),
{
    ed25519_dalek::SigningKey::from_bytes(seed).sign(message).to_bytes()
}

/// `ed25519_dalek::VerifyingKey::from_bytes` and `verify`: whether the
/// bytes are a public key and the signature is valid for the message under
/// it, a function of the three alone.
#[verifier::external_body]
fn ed25519_verify(message: &[u8], signature: &[u8; 64], public: &[u8; 32]) -> (r: bool)
    ensures
        r == ed25519_verifies(message@, signature@, public@),
{
    match ed25519_dalek::VerifyingKey::from_bytes(public) {
        Ok(key) => key.verify(message, &ed25519_dalek::Signature::from_bytes(signature)).is_ok(),
        Err(_) => false,
    }
}

/// `rand::RngCore::fill_bytes` on `rand::thread_rng`: 32 random bytes, of
/// which nothing is known. The call fails only where the operating system
/// has no randomness to give.
#[verifier::external_body]
fn random_seed() -> (r: [u8; 32]) {
    let mut seed = [0u8; 32];
    rand::thread_rng().fill_bytes(&mut seed);
    seed
}

/// The SHA-256 digest of `data`.
pub fn hash(data: &[u8]) -> (r: Hash)
    ensures
        r@ == sha256(data@),
{
    Hash(sha256_digest(data))
}

/// The key pair that belongs to `seed`.
pub fn gen_keypair_from_seed(seed: &[u8; 32]) -> (r: (PublicKey, SecretKey))
    ensures
        r.1@ == seed@,
        r.0@ == ed25519_public(seed@),
{
    (PublicKey(ed25519_public_key(seed)), SecretKey(*seed))
}

/// A fresh key pair from a random seed: whatever the seed, the public key
/// is the one that belongs to the secret key.
pub fn gen_keypair() -> (r: (PublicKey, SecretKey))
    ensures
        r.0@ == ed25519_public(r.1@),
{
    let seed = random_seed();
    gen_keypair_from_seed(&seed)
}

/// Signs `data` with `secret_key`.
pub fn sign(data: &[u8], secret_key: &SecretKey) -> (r: Signature)
    ensures
        r@ == ed25519_signature(data@, secret_key@),
        ed25519_verifies(data@, r@, ed25519_public(secret_key@)),
{
    Signature(ed25519_sign(data, &secret_key.0))
}

/// Whether `signature` is a valid signature of `data` by the owner of
/// `public_key`.
pub fn verify(signature: &Signature, data: &[u8], public_key: &PublicKey) -> (r: bool)
    ensures
        r == ed25519_verifies(data@, signature@, public_key@),
{
    ed25519_verify(data, &signature.0, &public_key.0)
}

} // verus!
