//! Application protocol messages.
pub mod agent;
pub mod availability;
pub mod codes;
pub mod connection;
pub mod laws;
pub mod message;
pub mod presentation;

use crate::common::error::MAX_STRING_LENGTH;
use vstd::prelude::*;

verus! {

/// Maximum size for a single CBOR message.
pub const MAX_MESSAGE_SIZE: usize = 1024;

/// Maximum length for text fields.
pub const MAX_STRING_LEN: usize = MAX_STRING_LENGTH;

/// Maximum size for byte strings.
pub const MAX_BYTES_LEN: usize = 64;

} // verus!
