//! Message errors and the limits that messages obey.
use vstd::prelude::*;

verus! {

/// Why a message could not be written or read.
#[derive(Debug, Clone, Copy, PartialEq, Eq, Structural)]
pub enum MessageError {
    /// The buffer or a list has no room left.
    BufferFull,
    /// The body could not be written.
    EncodeFailed,
    /// The bytes are not the expected CBOR items.
    DecodeFailed,
    /// The type key is not that of the expected message.
    InvalidMessageType,
    /// A field has a key or a value that the message does not allow.
    InvalidField,
    /// A text or byte field is longer than allowed.
    FieldTooLong,
    /// A field that the message needs is absent.
    MissingField,
}

/// Identifies a transport stream.
pub type StreamId = u64;

/// Maximum encoded message size.
pub const MAX_CBOR_SIZE: usize = 1024;

/// Maximum length of text fields, in bytes.
pub const MAX_STRING_LENGTH: usize = 256;

/// Maximum number of URLs in an availability message.
pub const MAX_URLS: usize = 16;

} // verus!
