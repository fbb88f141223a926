//! What the layers of the protocol share.
pub mod big_endian;
pub mod bytes;
pub mod error;
pub mod laws;
pub mod quinn_varint;
pub mod type_key;
