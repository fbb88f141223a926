//! The application protocol: agent information and presentations, over a connection that the
//! network protocol has authenticated.
pub mod commands;
pub mod laws;
pub mod messages;
pub mod receiver;
pub mod state;
pub mod state_machine;

use crate::application::messages::codes::{
    PresentationConnectionCloseReason, PresentationTerminationReason,
};
use crate::bounded::{BoundedString, BoundedVec};
use crate::common::error::{MessageError, StreamId, MAX_CBOR_SIZE};
use crate::crypto::operation::{CryptoRequest, CryptoResult};
use crate::network::NetworkError;
use vstd::prelude::*;

verus! {

/// How many outputs one input may give.
pub const MAX_OUTPUT_QUEUE: usize = 16;

/// What the user wants, or what happened.
#[derive(Clone)]
pub enum ApplicationInput<'a> {
    /// Start a presentation of a URL.
    StartPresentation { url: &'a str, presentation_id: &'a str },
    /// End a presentation.
    TerminatePresentation { presentation_id: &'a str, reason: PresentationTerminationReason },
    /// Ask whether URLs can be presented.
    CheckUrlAvailability { urls: &'a [&'a str], watch_duration: u64 },
    /// Connect to a presentation.
    OpenPresentationConnection { presentation_id: &'a str, url: &'a str },
    /// Send data to a presentation.
    SendPresentationMessage { connection_id: u64, message: &'a [u8] },
    /// Disconnect from a presentation.
    ClosePresentationConnection { connection_id: u64, reason: PresentationConnectionCloseReason },
    /// Ask for the status of the agent.
    RequestAgentStatus { status_message: Option<&'a str> },
    /// Ask for information on the agent.
    RequestAgentInfo,
    /// The transport is connected and ready.
    TransportConnected,
    /// A stream was opened.
    StreamOpened(StreamId),
    /// A stream was closed.
    StreamClosed(StreamId),
    /// Data came in on a stream.
    DataReceived(StreamId, &'a [u8]),
    /// A cryptographic operation is done.
    CryptoCompleted(CryptoResult),
    /// Time has passed.
    Tick(u64),
}

/// What is to be done.
#[derive(Clone)]
pub enum ApplicationOutput<'a> {
    /// Open a bidirectional stream.
    OpenBiStream,
    /// Send data on a stream.
    SendData { stream: StreamId, data: BoundedVec<u8, MAX_CBOR_SIZE> },
    /// Close a stream.
    CloseStream(StreamId),
    /// Close the connection.
    CloseConnection,
    /// Carry out a cryptographic operation.
    RequestCrypto(CryptoRequest<'a>),
    /// Call again.
    NeedsPoll,
    /// Tell the user.
    Event(ApplicationEvent),
}

/// What the user is told.
#[derive(Clone, PartialEq, Eq)]
pub enum ApplicationEvent {
    /// The peer is authenticated.
    Authenticated,
    /// The authentication failed.
    AuthenticationFailed,
    /// A presentation has started.
    PresentationStarted { connection_id: u64 },
    /// A presentation was rejected.
    PresentationRejected,
    /// A presentation has ended.
    PresentationTerminated {
        presentation_id: BoundedString<256>,
        reason: PresentationTerminationReason,
    },
    /// A connection to a presentation is open.
    PresentationConnectionOpened { connection_id: u64 },
    /// A presentation sent a message.
    PresentationMessageReceived { connection_id: u64, message: BoundedVec<u8, 1024> },
    /// A connection to a presentation is closed.
    PresentationConnectionClosed { connection_id: u64, reason: PresentationConnectionCloseReason },
    /// The availability of URLs changed.
    UrlAvailabilityChanged { urls: BoundedVec<BoundedString<256>, 16>, available: bool },
    /// The agent told its status.
    AgentStatusReceived { status_message: Option<BoundedString<256>> },
    /// The information on the agent changed.
    AgentInfoChanged,
    /// The number of connections to a presentation changed.
    PresentationChanged,
}

/// Why an input was refused.
#[derive(Debug, Clone, Copy, PartialEq, Eq, Structural)]
pub enum ApplicationError {
    /// The state does not allow this.
    InvalidState,
    /// A message could not be encoded.
    EncodeFailed,
    /// A message could not be decoded.
    DecodeFailed,
    /// The network layer refused the input.
    NetworkError(NetworkError),
    /// A buffer is full.
    BufferFull,
    /// The peer is not authenticated yet.
    NotAuthenticated,
}

impl From<NetworkError> for ApplicationError {
    fn from(err: NetworkError) -> (e: Self) {
        ApplicationError::NetworkError(err)
    }
}

impl vstd::std_specs::convert::FromSpecImpl<NetworkError> for ApplicationError {
    open spec fn obeys_from_spec() -> bool {
        true
    }

    open spec fn from_spec(err: NetworkError) -> ApplicationError {
        ApplicationError::NetworkError(err)
    }
}

impl From<MessageError> for ApplicationError {
    fn from(_err: MessageError) -> (e: Self) {
        ApplicationError::EncodeFailed
    }
}

impl vstd::std_specs::convert::FromSpecImpl<MessageError> for ApplicationError {
    open spec fn obeys_from_spec() -> bool {
        true
    }

    open spec fn from_spec(_err: MessageError) -> ApplicationError {
        ApplicationError::EncodeFailed
    }
}

} // verus!
