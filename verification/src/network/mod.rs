//! The network protocol: authentication between devices.
//!
//! Two devices that share a key prove this to each other with SPAKE2 before anything else
//! is exchanged. The layer does no input or output itself: it takes what happened and says
//! what is to be done.
pub mod crypto_data;
pub mod laws;
pub mod messages;
pub mod state_machine;

use crate::common::error::StreamId;
use crate::crypto::operation::{CryptoRequest, CryptoResult};
use crate::network::messages::NetworkMessage;
use vstd::prelude::*;

verus! {

/// Maximum size of an encoded message.
pub const MAX_CBOR_SIZE: usize = 1024;

/// How many outputs one input may give.
pub const MAX_OUTPUT_QUEUE: usize = 16;

/// What happened.
#[derive(Clone)]
pub enum NetworkInput<'a> {
    /// The transport is connected and ready.
    TransportConnected,
    /// A stream was opened, by us or by the peer.
    StreamOpened(StreamId),
    /// A stream was closed.
    StreamClosed(StreamId),
    /// Data came in on a stream.
    DataReceived(StreamId, &'a [u8]),
    /// A cryptographic operation is done.
    CryptoCompleted(CryptoResult),
    /// Time has passed.
    Tick(u64),
}

/// What is to be done.
#[derive(Clone)]
pub enum NetworkOutput<'a> {
    /// Open a unidirectional stream.
    OpenUniStream,
    /// Send a protocol message; the transport encodes it.
    SendMessage(NetworkMessage<'a>),
    /// Send data of the application layer as it is.
    SendData { data: &'a [u8] },
    /// Close a stream.
    CloseStream(StreamId),
    /// Close the connection.
    CloseConnection,
    /// Carry out a cryptographic operation.
    RequestCrypto(CryptoRequest<'a>),
    /// Call again at once.
    NeedsPoll,
    /// Tell the application.
    Event(NetworkEvent),
}

/// What the application is told.
#[derive(Debug, Clone, Copy, PartialEq, Eq, Structural)]
pub enum NetworkEvent {
    /// The peer is authenticated.
    Authenticated,
    /// The authentication failed.
    AuthenticationFailed(NetworkError),
}

/// Why an input was refused.
#[derive(Debug, Clone, Copy, PartialEq, Eq, Structural)]
pub enum NetworkError {
    /// The state does not allow this.
    InvalidState,
    /// A message could not be encoded.
    EncodeFailed,
    /// A message could not be decoded.
    DecodeFailed,
    /// A cryptographic operation failed.
    CryptoFailed,
    /// The authentication failed.
    AuthenticationFailed,
    /// A buffer is full.
    BufferFull,
}

} // verus!
