//! Binary encoding of structured messages for a byzantine-fault-tolerant
//! blockchain: checked offsets, the field codec, signed consensus messages
//! and read-only queries over committed blocks.
//!
//! A message is a header of fixed-width slots followed by the bodies of
//! its variable-length fields. `check` validates a buffer that comes from
//! an untrusted peer, `read` reads what `check` accepted, and `write`
//! produces the one encoding of a value. `laws` states what holds of the
//! three together.

pub mod check;
pub mod codec;
pub mod copy;
pub mod crypto;
pub mod endian;
pub mod envelope;
pub mod error;
pub mod explorer;
pub mod field;
pub mod helpers;
pub mod hex;
pub mod json;
pub mod keys;
pub mod laws;
pub mod layout;
pub mod messages;
pub mod offset;
pub mod read;
pub mod schema;
pub mod time;
pub mod typing;
pub mod value;
pub mod write;
