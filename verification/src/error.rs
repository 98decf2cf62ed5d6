//! Error kinds of the encoding layer and of the storage queries.

use vstd::prelude::*;

verus! {

/// Why a buffer was rejected.
#[derive(Clone, Copy, Debug, PartialEq, Eq, Structural)]
pub enum EncodingError {
    /// An offset or length computation left the range of `u32`.
    OffsetOverflow,
    /// A header slot or a declared body does not fit into the bytes that are there.
    UnexpectedlyShortPayload,
    /// A body starts inside the header or before the end of an earlier body.
    IncorrectPointer,
    /// A duration is not in canonical form or outside the supported range.
    DurationOverflow,
    /// A text body is not valid UTF-8.
    InvalidUtf8,
    /// A message tag names no message of the protocol.
    IncorrectMessageType,
    /// The signature of an envelope does not verify against its author.
    SignatureInvalid,
}

/// The backing store could not be read.
#[derive(Clone, Debug)]
pub struct StorageError {
    pub message: String,
}

} // verus!
