//! The enumerations of the application protocol.
use crate::cbor::code::WireCode;
use crate::common::error::MessageError;
use vstd::prelude::*;

verus! {

/// The types of application protocol messages.
#[derive(Debug, Clone, Copy, PartialEq, Eq, Structural)]
pub enum ApplicationMessageType {
    AgentInfoRequest,
    AgentInfoResponse,
    AgentStatusRequest,
    AgentStatusResponse,
    AgentInfoEvent,
    PresentationUrlAvailabilityRequest,
    PresentationUrlAvailabilityResponse,
    PresentationConnectionMessage,
    PresentationUrlAvailabilityEvent,
    PresentationStartRequest,
    PresentationStartResponse,
    PresentationTerminationRequest,
    PresentationTerminationResponse,
    PresentationTerminationEvent,
    PresentationConnectionOpenRequest,
    PresentationConnectionOpenResponse,
    PresentationConnectionCloseEvent,
    PresentationChangeEvent,
}

impl ApplicationMessageType {
    /// The type key of messages of this type.
    pub open spec fn key(self) -> u16 {
        match self {
            ApplicationMessageType::AgentInfoRequest => 10,
            ApplicationMessageType::AgentInfoResponse => 11,
            ApplicationMessageType::AgentStatusRequest => 12,
            ApplicationMessageType::AgentStatusResponse => 13,
            ApplicationMessageType::AgentInfoEvent => 120,
            ApplicationMessageType::PresentationUrlAvailabilityRequest => 14,
            ApplicationMessageType::PresentationUrlAvailabilityResponse => 15,
            ApplicationMessageType::PresentationConnectionMessage => 16,
            ApplicationMessageType::PresentationUrlAvailabilityEvent => 103,
            ApplicationMessageType::PresentationStartRequest => 104,
            ApplicationMessageType::PresentationStartResponse => 105,
            ApplicationMessageType::PresentationTerminationRequest => 106,
            ApplicationMessageType::PresentationTerminationResponse => 107,
            ApplicationMessageType::PresentationTerminationEvent => 108,
            ApplicationMessageType::PresentationConnectionOpenRequest => 109,
            ApplicationMessageType::PresentationConnectionOpenResponse => 110,
            ApplicationMessageType::PresentationConnectionCloseEvent => 113,
            ApplicationMessageType::PresentationChangeEvent => 121,
        }
    }

    /// The type with this key.
    pub open spec fn with_key(key: u16) -> Option<Self> {
        if key == 10 {
            Some(ApplicationMessageType::AgentInfoRequest)
        } else if key == 11 {
            Some(ApplicationMessageType::AgentInfoResponse)
        } else if key == 12 {
            Some(ApplicationMessageType::AgentStatusRequest)
        } else if key == 13 {
            Some(ApplicationMessageType::AgentStatusResponse)
        } else if key == 120 {
            Some(ApplicationMessageType::AgentInfoEvent)
        } else if key == 14 {
            Some(ApplicationMessageType::PresentationUrlAvailabilityRequest)
        } else if key == 15 {
            Some(ApplicationMessageType::PresentationUrlAvailabilityResponse)
        } else if key == 16 {
            Some(ApplicationMessageType::PresentationConnectionMessage)
        } else if key == 103 {
            Some(ApplicationMessageType::PresentationUrlAvailabilityEvent)
        } else if key == 104 {
            Some(ApplicationMessageType::PresentationStartRequest)
        } else if key == 105 {
            Some(ApplicationMessageType::PresentationStartResponse)
        } else if key == 106 {
            Some(ApplicationMessageType::PresentationTerminationRequest)
        } else if key == 107 {
            Some(ApplicationMessageType::PresentationTerminationResponse)
        } else if key == 108 {
            Some(ApplicationMessageType::PresentationTerminationEvent)
        } else if key == 109 {
            Some(ApplicationMessageType::PresentationConnectionOpenRequest)
        } else if key == 110 {
            Some(ApplicationMessageType::PresentationConnectionOpenResponse)
        } else if key == 113 {
            Some(ApplicationMessageType::PresentationConnectionCloseEvent)
        } else if key == 121 {
            Some(ApplicationMessageType::PresentationChangeEvent)
        } else {
            None
        }
    }

    /// The type with this key.
    pub fn from_u16(value: u16) -> (r: Result<Self, MessageError>)
        ensures
            match Self::with_key(value) {
                Some(t) => r == Ok::<Self, MessageError>(t),
                None => r == Err::<Self, MessageError>(MessageError::InvalidMessageType),
            },
            value == 10 <==> r == Ok::<Self, MessageError>(ApplicationMessageType::AgentInfoRequest),
            value == 11 <==> r == Ok::<Self, MessageError>(ApplicationMessageType::AgentInfoResponse),
            value == 12 <==> r == Ok::<Self, MessageError>(ApplicationMessageType::AgentStatusRequest),
            value == 13 <==> r == Ok::<Self, MessageError>(ApplicationMessageType::AgentStatusResponse),
            value == 120 <==> r == Ok::<Self, MessageError>(ApplicationMessageType::AgentInfoEvent),
            value == 14 <==> r == Ok::<Self, MessageError>(ApplicationMessageType::PresentationUrlAvailabilityRequest),
            value == 15 <==> r == Ok::<Self, MessageError>(ApplicationMessageType::PresentationUrlAvailabilityResponse),
            value == 16 <==> r == Ok::<Self, MessageError>(ApplicationMessageType::PresentationConnectionMessage),
            value == 103 <==> r == Ok::<Self, MessageError>(ApplicationMessageType::PresentationUrlAvailabilityEvent),
            value == 104 <==> r == Ok::<Self, MessageError>(ApplicationMessageType::PresentationStartRequest),
            value == 105 <==> r == Ok::<Self, MessageError>(ApplicationMessageType::PresentationStartResponse),
            value == 106 <==> r == Ok::<Self, MessageError>(ApplicationMessageType::PresentationTerminationRequest),
            value == 107 <==> r == Ok::<Self, MessageError>(ApplicationMessageType::PresentationTerminationResponse),
            value == 108 <==> r == Ok::<Self, MessageError>(ApplicationMessageType::PresentationTerminationEvent),
            value == 109 <==> r == Ok::<Self, MessageError>(ApplicationMessageType::PresentationConnectionOpenRequest),
            value == 110 <==> r == Ok::<Self, MessageError>(ApplicationMessageType::PresentationConnectionOpenResponse),
            value == 113 <==> r == Ok::<Self, MessageError>(ApplicationMessageType::PresentationConnectionCloseEvent),
            value == 121 <==> r == Ok::<Self, MessageError>(ApplicationMessageType::PresentationChangeEvent),
    {
        match value {
            10 => Ok(ApplicationMessageType::AgentInfoRequest),
            11 => Ok(ApplicationMessageType::AgentInfoResponse),
            12 => Ok(ApplicationMessageType::AgentStatusRequest),
            13 => Ok(ApplicationMessageType::AgentStatusResponse),
            120 => Ok(ApplicationMessageType::AgentInfoEvent),
            14 => Ok(ApplicationMessageType::PresentationUrlAvailabilityRequest),
            15 => Ok(ApplicationMessageType::PresentationUrlAvailabilityResponse),
            16 => Ok(ApplicationMessageType::PresentationConnectionMessage),
            103 => Ok(ApplicationMessageType::PresentationUrlAvailabilityEvent),
            104 => Ok(ApplicationMessageType::PresentationStartRequest),
            105 => Ok(ApplicationMessageType::PresentationStartResponse),
            106 => Ok(ApplicationMessageType::PresentationTerminationRequest),
            107 => Ok(ApplicationMessageType::PresentationTerminationResponse),
            108 => Ok(ApplicationMessageType::PresentationTerminationEvent),
            109 => Ok(ApplicationMessageType::PresentationConnectionOpenRequest),
            110 => Ok(ApplicationMessageType::PresentationConnectionOpenResponse),
            113 => Ok(ApplicationMessageType::PresentationConnectionCloseEvent),
            121 => Ok(ApplicationMessageType::PresentationChangeEvent),
            _ => Err(MessageError::InvalidMessageType),
        }
    }

    /// The type key of messages of this type.
    pub fn to_u16(self) -> (key: u16)
        ensures
            key == self.key(),
            self == ApplicationMessageType::AgentInfoRequest <==> key == 10,
            self == ApplicationMessageType::AgentInfoResponse <==> key == 11,
            self == ApplicationMessageType::AgentStatusRequest <==> key == 12,
            self == ApplicationMessageType::AgentStatusResponse <==> key == 13,
            self == ApplicationMessageType::AgentInfoEvent <==> key == 120,
            self == ApplicationMessageType::PresentationUrlAvailabilityRequest <==> key == 14,
            self == ApplicationMessageType::PresentationUrlAvailabilityResponse <==> key == 15,
            self == ApplicationMessageType::PresentationConnectionMessage <==> key == 16,
            self == ApplicationMessageType::PresentationUrlAvailabilityEvent <==> key == 103,
            self == ApplicationMessageType::PresentationStartRequest <==> key == 104,
            self == ApplicationMessageType::PresentationStartResponse <==> key == 105,
            self == ApplicationMessageType::PresentationTerminationRequest <==> key == 106,
            self == ApplicationMessageType::PresentationTerminationResponse <==> key == 107,
            self == ApplicationMessageType::PresentationTerminationEvent <==> key == 108,
            self == ApplicationMessageType::PresentationConnectionOpenRequest <==> key == 109,
            self == ApplicationMessageType::PresentationConnectionOpenResponse <==> key == 110,
            self == ApplicationMessageType::PresentationConnectionCloseEvent <==> key == 113,
            self == ApplicationMessageType::PresentationChangeEvent <==> key == 121,
    {
        match self {
            ApplicationMessageType::AgentInfoRequest => 10,
            ApplicationMessageType::AgentInfoResponse => 11,
            ApplicationMessageType::AgentStatusRequest => 12,
            ApplicationMessageType::AgentStatusResponse => 13,
            ApplicationMessageType::AgentInfoEvent => 120,
            ApplicationMessageType::PresentationUrlAvailabilityRequest => 14,
            ApplicationMessageType::PresentationUrlAvailabilityResponse => 15,
            ApplicationMessageType::PresentationConnectionMessage => 16,
            ApplicationMessageType::PresentationUrlAvailabilityEvent => 103,
            ApplicationMessageType::PresentationStartRequest => 104,
            ApplicationMessageType::PresentationStartResponse => 105,
            ApplicationMessageType::PresentationTerminationRequest => 106,
            ApplicationMessageType::PresentationTerminationResponse => 107,
            ApplicationMessageType::PresentationTerminationEvent => 108,
            ApplicationMessageType::PresentationConnectionOpenRequest => 109,
            ApplicationMessageType::PresentationConnectionOpenResponse => 110,
            ApplicationMessageType::PresentationConnectionCloseEvent => 113,
            ApplicationMessageType::PresentationChangeEvent => 121,
        }
    }

    /// Each type is the one that its key stands for, and a key stands for no more than one
    /// type.
    pub proof fn key_round_trip(self, key: u16)
        ensures
            Self::with_key(self.key()) == Some(self),
            Self::with_key(key) matches Some(t) ==> t.key() == key,
    {
    }

    /// The type keys of the protocol: each type is written with its own, and read from no
    /// other.
    pub proof fn protocol_keys(self, key: u16)
        ensures
            self == ApplicationMessageType::AgentInfoRequest <==> self.key() == 10,
            key == 10 <==> Self::with_key(key) == Some(ApplicationMessageType::AgentInfoRequest),
            self == ApplicationMessageType::AgentInfoResponse <==> self.key() == 11,
            key == 11 <==> Self::with_key(key) == Some(ApplicationMessageType::AgentInfoResponse),
            self == ApplicationMessageType::AgentStatusRequest <==> self.key() == 12,
            key == 12 <==> Self::with_key(key) == Some(ApplicationMessageType::AgentStatusRequest),
            self == ApplicationMessageType::AgentStatusResponse <==> self.key() == 13,
            key == 13 <==> Self::with_key(key) == Some(ApplicationMessageType::AgentStatusResponse),
            self == ApplicationMessageType::AgentInfoEvent <==> self.key() == 120,
            key == 120 <==> Self::with_key(key) == Some(ApplicationMessageType::AgentInfoEvent),
            self == ApplicationMessageType::PresentationUrlAvailabilityRequest <==> self.key() == 14,
            key == 14 <==> Self::with_key(key) == Some(ApplicationMessageType::PresentationUrlAvailabilityRequest),
            self == ApplicationMessageType::PresentationUrlAvailabilityResponse <==> self.key() == 15,
            key == 15 <==> Self::with_key(key) == Some(ApplicationMessageType::PresentationUrlAvailabilityResponse),
            self == ApplicationMessageType::PresentationConnectionMessage <==> self.key() == 16,
            key == 16 <==> Self::with_key(key) == Some(ApplicationMessageType::PresentationConnectionMessage),
            self == ApplicationMessageType::PresentationUrlAvailabilityEvent <==> self.key() == 103,
            key == 103 <==> Self::with_key(key) == Some(ApplicationMessageType::PresentationUrlAvailabilityEvent),
            self == ApplicationMessageType::PresentationStartRequest <==> self.key() == 104,
            key == 104 <==> Self::with_key(key) == Some(ApplicationMessageType::PresentationStartRequest),
            self == ApplicationMessageType::PresentationStartResponse <==> self.key() == 105,
            key == 105 <==> Self::with_key(key) == Some(ApplicationMessageType::PresentationStartResponse),
            self == ApplicationMessageType::PresentationTerminationRequest <==> self.key() == 106,
            key == 106 <==> Self::with_key(key) == Some(ApplicationMessageType::PresentationTerminationRequest),
            self == ApplicationMessageType::PresentationTerminationResponse <==> self.key() == 107,
            key == 107 <==> Self::with_key(key) == Some(ApplicationMessageType::PresentationTerminationResponse),
            self == ApplicationMessageType::PresentationTerminationEvent <==> self.key() == 108,
            key == 108 <==> Self::with_key(key) == Some(ApplicationMessageType::PresentationTerminationEvent),
            self == ApplicationMessageType::PresentationConnectionOpenRequest <==> self.key() == 109,
            key == 109 <==> Self::with_key(key) == Some(ApplicationMessageType::PresentationConnectionOpenRequest),
            self == ApplicationMessageType::PresentationConnectionOpenResponse <==> self.key() == 110,
            key == 110 <==> Self::with_key(key) == Some(ApplicationMessageType::PresentationConnectionOpenResponse),
            self == ApplicationMessageType::PresentationConnectionCloseEvent <==> self.key() == 113,
            key == 113 <==> Self::with_key(key) == Some(ApplicationMessageType::PresentationConnectionCloseEvent),
            self == ApplicationMessageType::PresentationChangeEvent <==> self.key() == 121,
            key == 121 <==> Self::with_key(key) == Some(ApplicationMessageType::PresentationChangeEvent),
    {
    }
}

/// What an agent can do.
#[derive(Debug, Clone, Copy, PartialEq, Eq, Structural)]
pub enum AgentCapability {
    ReceiveAudio,
    ReceiveVideo,
    ReceivePresentation,
    ControlPresentation,
    ReceiveRemotePlayback,
    ControlRemotePlayback,
    ReceiveStreaming,
    SendStreaming,
}

impl WireCode for AgentCapability {
    open spec fn code(self) -> u8 {
        match self {
            AgentCapability::ReceiveAudio => 1,
            AgentCapability::ReceiveVideo => 2,
            AgentCapability::ReceivePresentation => 3,
            AgentCapability::ControlPresentation => 4,
            AgentCapability::ReceiveRemotePlayback => 5,
            AgentCapability::ControlRemotePlayback => 6,
            AgentCapability::ReceiveStreaming => 7,
            AgentCapability::SendStreaming => 8,
        }
    }

    open spec fn codes() -> Set<u8> {
        set![1u8, 2, 3, 4, 5, 6, 7, 8]
    }

    fn from_code(code: u8) -> (r: Result<Self, MessageError>) {
        AgentCapability::from_u8(code)
    }

    fn to_code(self) -> (code: u8)
        ensures
            self == AgentCapability::ReceiveAudio <==> code == 1,
            self == AgentCapability::ReceiveVideo <==> code == 2,
            self == AgentCapability::ReceivePresentation <==> code == 3,
            self == AgentCapability::ControlPresentation <==> code == 4,
            self == AgentCapability::ReceiveRemotePlayback <==> code == 5,
            self == AgentCapability::ControlRemotePlayback <==> code == 6,
            self == AgentCapability::ReceiveStreaming <==> code == 7,
            self == AgentCapability::SendStreaming <==> code == 8,
    {
        match self {
            AgentCapability::ReceiveAudio => 1,
            AgentCapability::ReceiveVideo => 2,
            AgentCapability::ReceivePresentation => 3,
            AgentCapability::ControlPresentation => 4,
            AgentCapability::ReceiveRemotePlayback => 5,
            AgentCapability::ControlRemotePlayback => 6,
            AgentCapability::ReceiveStreaming => 7,
            AgentCapability::SendStreaming => 8,
        }
    }
}

impl AgentCapability {
    /// The member with this code.
    pub fn from_u8(value: u8) -> (r: Result<Self, MessageError>)
        ensures
            match r {
                Ok(member) => Self::codes().contains(value) && member.code() == value,
                Err(e) => e == MessageError::InvalidField && !Self::codes().contains(value),
            },
            value == 1 <==> r == Ok::<Self, MessageError>(AgentCapability::ReceiveAudio),
            value == 2 <==> r == Ok::<Self, MessageError>(AgentCapability::ReceiveVideo),
            value == 3 <==> r == Ok::<Self, MessageError>(AgentCapability::ReceivePresentation),
            value == 4 <==> r == Ok::<Self, MessageError>(AgentCapability::ControlPresentation),
            value == 5 <==> r == Ok::<Self, MessageError>(AgentCapability::ReceiveRemotePlayback),
            value == 6 <==> r == Ok::<Self, MessageError>(AgentCapability::ControlRemotePlayback),
            value == 7 <==> r == Ok::<Self, MessageError>(AgentCapability::ReceiveStreaming),
            value == 8 <==> r == Ok::<Self, MessageError>(AgentCapability::SendStreaming),
    {
        match value {
            1 => Ok(AgentCapability::ReceiveAudio),
            2 => Ok(AgentCapability::ReceiveVideo),
            3 => Ok(AgentCapability::ReceivePresentation),
            4 => Ok(AgentCapability::ControlPresentation),
            5 => Ok(AgentCapability::ReceiveRemotePlayback),
            6 => Ok(AgentCapability::ControlRemotePlayback),
            7 => Ok(AgentCapability::ReceiveStreaming),
            8 => Ok(AgentCapability::SendStreaming),
            _ => Err(MessageError::InvalidField),
        }
    }

    /// The numbers of the protocol: each member is written as its own, a member is read from
    /// each of these numbers, and from no other.
    pub proof fn protocol_numbers(self, code: u8)
        ensures
            self == AgentCapability::ReceiveAudio <==> self.code() == 1,
            self == AgentCapability::ReceiveVideo <==> self.code() == 2,
            self == AgentCapability::ReceivePresentation <==> self.code() == 3,
            self == AgentCapability::ControlPresentation <==> self.code() == 4,
            self == AgentCapability::ReceiveRemotePlayback <==> self.code() == 5,
            self == AgentCapability::ControlRemotePlayback <==> self.code() == 6,
            self == AgentCapability::ReceiveStreaming <==> self.code() == 7,
            self == AgentCapability::SendStreaming <==> self.code() == 8,
            Self::codes().contains(code) <==> (code == 1 || code == 2 || code == 3 || code == 4 || code == 5 || code == 6 || code == 7 || code == 8),
    {
    }
}

/// Result codes for presentation operations.
#[derive(Debug, Clone, Copy, PartialEq, Eq, Structural)]
pub enum PresentationResult {
    Success,
    InvalidUrl,
    InvalidPresentationId,
    Timeout,
    TransientError,
}

impl WireCode for PresentationResult {
    open spec fn code(self) -> u8 {
        match self {
            PresentationResult::Success => 1,
            PresentationResult::InvalidUrl => 10,
            PresentationResult::InvalidPresentationId => 11,
            PresentationResult::Timeout => 100,
            PresentationResult::TransientError => 101,
        }
    }

    open spec fn codes() -> Set<u8> {
        set![1u8, 10, 11, 100, 101]
    }

    fn from_code(code: u8) -> (r: Result<Self, MessageError>) {
        PresentationResult::from_u8(code)
    }

    fn to_code(self) -> (code: u8)
        ensures
            self == PresentationResult::Success <==> code == 1,
            self == PresentationResult::InvalidUrl <==> code == 10,
            self == PresentationResult::InvalidPresentationId <==> code == 11,
            self == PresentationResult::Timeout <==> code == 100,
            self == PresentationResult::TransientError <==> code == 101,
    {
        match self {
            PresentationResult::Success => 1,
            PresentationResult::InvalidUrl => 10,
            PresentationResult::InvalidPresentationId => 11,
            PresentationResult::Timeout => 100,
            PresentationResult::TransientError => 101,
        }
    }
}

impl PresentationResult {
    /// The member with this code.
    pub fn from_u8(value: u8) -> (r: Result<Self, MessageError>)
        ensures
            match r {
                Ok(member) => Self::codes().contains(value) && member.code() == value,
                Err(e) => e == MessageError::InvalidField && !Self::codes().contains(value),
            },
            value == 1 <==> r == Ok::<Self, MessageError>(PresentationResult::Success),
            value == 10 <==> r == Ok::<Self, MessageError>(PresentationResult::InvalidUrl),
            value == 11 <==> r == Ok::<Self, MessageError>(PresentationResult::InvalidPresentationId),
            value == 100 <==> r == Ok::<Self, MessageError>(PresentationResult::Timeout),
            value == 101 <==> r == Ok::<Self, MessageError>(PresentationResult::TransientError),
    {
        match value {
            1 => Ok(PresentationResult::Success),
            10 => Ok(PresentationResult::InvalidUrl),
            11 => Ok(PresentationResult::InvalidPresentationId),
            100 => Ok(PresentationResult::Timeout),
            101 => Ok(PresentationResult::TransientError),
            _ => Err(MessageError::InvalidField),
        }
    }

    /// The numbers of the protocol: each member is written as its own, a member is read from
    /// each of these numbers, and from no other.
    pub proof fn protocol_numbers(self, code: u8)
        ensures
            self == PresentationResult::Success <==> self.code() == 1,
            self == PresentationResult::InvalidUrl <==> self.code() == 10,
            self == PresentationResult::InvalidPresentationId <==> self.code() == 11,
            self == PresentationResult::Timeout <==> self.code() == 100,
            self == PresentationResult::TransientError <==> self.code() == 101,
            Self::codes().contains(code) <==> (code == 1 || code == 10 || code == 11 || code == 100 || code == 101),
    {
    }
}

/// Who terminated a presentation.
#[derive(Debug, Clone, Copy, PartialEq, Eq, Structural)]
pub enum PresentationTerminationSource {
    Controller,
    Receiver,
    Unknown,
}

impl WireCode for PresentationTerminationSource {
    open spec fn code(self) -> u8 {
        match self {
            PresentationTerminationSource::Controller => 1,
            PresentationTerminationSource::Receiver => 2,
            PresentationTerminationSource::Unknown => 255,
        }
    }

    open spec fn codes() -> Set<u8> {
        set![1u8, 2, 255]
    }

    fn from_code(code: u8) -> (r: Result<Self, MessageError>) {
        PresentationTerminationSource::from_u8(code)
    }

    fn to_code(self) -> (code: u8)
        ensures
            self == PresentationTerminationSource::Controller <==> code == 1,
            self == PresentationTerminationSource::Receiver <==> code == 2,
            self == PresentationTerminationSource::Unknown <==> code == 255,
    {
        match self {
            PresentationTerminationSource::Controller => 1,
            PresentationTerminationSource::Receiver => 2,
            PresentationTerminationSource::Unknown => 255,
        }
    }
}

impl PresentationTerminationSource {
    /// The member with this code.
    pub fn from_u8(value: u8) -> (r: Result<Self, MessageError>)
        ensures
            match r {
                Ok(member) => Self::codes().contains(value) && member.code() == value,
                Err(e) => e == MessageError::InvalidField && !Self::codes().contains(value),
            },
            value == 1 <==> r == Ok::<Self, MessageError>(PresentationTerminationSource::Controller),
            value == 2 <==> r == Ok::<Self, MessageError>(PresentationTerminationSource::Receiver),
            value == 255 <==> r == Ok::<Self, MessageError>(PresentationTerminationSource::Unknown),
    {
        match value {
            1 => Ok(PresentationTerminationSource::Controller),
            2 => Ok(PresentationTerminationSource::Receiver),
            255 => Ok(PresentationTerminationSource::Unknown),
            _ => Err(MessageError::InvalidField),
        }
    }

    /// The numbers of the protocol: each member is written as its own, a member is read from
    /// each of these numbers, and from no other.
    pub proof fn protocol_numbers(self, code: u8)
        ensures
            self == PresentationTerminationSource::Controller <==> self.code() == 1,
            self == PresentationTerminationSource::Receiver <==> self.code() == 2,
            self == PresentationTerminationSource::Unknown <==> self.code() == 255,
            Self::codes().contains(code) <==> (code == 1 || code == 2 || code == 255),
    {
    }
}

/// Why a presentation was terminated.
#[derive(Debug, Clone, Copy, PartialEq, Eq, Structural)]
pub enum PresentationTerminationReason {
    ApplicationRequest,
    UserRequest,
    ReceiverReplacedPresentation,
    ReceiverIdleTooLong,
    ReceiverAttemptedToNavigate,
    ReceiverPoweringDown,
    ReceiverError,
    Unknown,
}

impl WireCode for PresentationTerminationReason {
    open spec fn code(self) -> u8 {
        match self {
            PresentationTerminationReason::ApplicationRequest => 1,
            PresentationTerminationReason::UserRequest => 2,
            PresentationTerminationReason::ReceiverReplacedPresentation => 20,
            PresentationTerminationReason::ReceiverIdleTooLong => 30,
            PresentationTerminationReason::ReceiverAttemptedToNavigate => 31,
            PresentationTerminationReason::ReceiverPoweringDown => 100,
            PresentationTerminationReason::ReceiverError => 101,
            PresentationTerminationReason::Unknown => 255,
        }
    }

    open spec fn codes() -> Set<u8> {
        set![1u8, 2, 20, 30, 31, 100, 101, 255]
    }

    fn from_code(code: u8) -> (r: Result<Self, MessageError>) {
        PresentationTerminationReason::from_u8(code)
    }

    fn to_code(self) -> (code: u8)
        ensures
            self == PresentationTerminationReason::ApplicationRequest <==> code == 1,
            self == PresentationTerminationReason::UserRequest <==> code == 2,
            self == PresentationTerminationReason::ReceiverReplacedPresentation <==> code == 20,
            self == PresentationTerminationReason::ReceiverIdleTooLong <==> code == 30,
            self == PresentationTerminationReason::ReceiverAttemptedToNavigate <==> code == 31,
            self == PresentationTerminationReason::ReceiverPoweringDown <==> code == 100,
            self == PresentationTerminationReason::ReceiverError <==> code == 101,
            self == PresentationTerminationReason::Unknown <==> code == 255,
    {
        match self {
            PresentationTerminationReason::ApplicationRequest => 1,
            PresentationTerminationReason::UserRequest => 2,
            PresentationTerminationReason::ReceiverReplacedPresentation => 20,
            PresentationTerminationReason::ReceiverIdleTooLong => 30,
            PresentationTerminationReason::ReceiverAttemptedToNavigate => 31,
            PresentationTerminationReason::ReceiverPoweringDown => 100,
            PresentationTerminationReason::ReceiverError => 101,
            PresentationTerminationReason::Unknown => 255,
        }
    }
}

impl PresentationTerminationReason {
    /// The member with this code.
    pub fn from_u8(value: u8) -> (r: Result<Self, MessageError>)
        ensures
            match r {
                Ok(member) => Self::codes().contains(value) && member.code() == value,
                Err(e) => e == MessageError::InvalidField && !Self::codes().contains(value),
            },
            value == 1 <==> r == Ok::<Self, MessageError>(PresentationTerminationReason::ApplicationRequest),
            value == 2 <==> r == Ok::<Self, MessageError>(PresentationTerminationReason::UserRequest),
            value == 20 <==> r == Ok::<Self, MessageError>(PresentationTerminationReason::ReceiverReplacedPresentation),
            value == 30 <==> r == Ok::<Self, MessageError>(PresentationTerminationReason::ReceiverIdleTooLong),
            value == 31 <==> r == Ok::<Self, MessageError>(PresentationTerminationReason::ReceiverAttemptedToNavigate),
            value == 100 <==> r == Ok::<Self, MessageError>(PresentationTerminationReason::ReceiverPoweringDown),
            value == 101 <==> r == Ok::<Self, MessageError>(PresentationTerminationReason::ReceiverError),
            value == 255 <==> r == Ok::<Self, MessageError>(PresentationTerminationReason::Unknown),
    {
        match value {
            1 => Ok(PresentationTerminationReason::ApplicationRequest),
            2 => Ok(PresentationTerminationReason::UserRequest),
            20 => Ok(PresentationTerminationReason::ReceiverReplacedPresentation),
            30 => Ok(PresentationTerminationReason::ReceiverIdleTooLong),
            31 => Ok(PresentationTerminationReason::ReceiverAttemptedToNavigate),
            100 => Ok(PresentationTerminationReason::ReceiverPoweringDown),
            101 => Ok(PresentationTerminationReason::ReceiverError),
            255 => Ok(PresentationTerminationReason::Unknown),
            _ => Err(MessageError::InvalidField),
        }
    }

    /// The numbers of the protocol: each member is written as its own, a member is read from
    /// each of these numbers, and from no other.
    pub proof fn protocol_numbers(self, code: u8)
        ensures
            self == PresentationTerminationReason::ApplicationRequest <==> self.code() == 1,
            self == PresentationTerminationReason::UserRequest <==> self.code() == 2,
            self == PresentationTerminationReason::ReceiverReplacedPresentation <==> self.code() == 20,
            self == PresentationTerminationReason::ReceiverIdleTooLong <==> self.code() == 30,
            self == PresentationTerminationReason::ReceiverAttemptedToNavigate <==> self.code() == 31,
            self == PresentationTerminationReason::ReceiverPoweringDown <==> self.code() == 100,
            self == PresentationTerminationReason::ReceiverError <==> self.code() == 101,
            self == PresentationTerminationReason::Unknown <==> self.code() == 255,
            Self::codes().contains(code) <==> (code == 1 || code == 2 || code == 20 || code == 30 || code == 31 || code == 100 || code == 101 || code == 255),
    {
    }
}

/// Why a presentation connection was closed.
#[derive(Debug, Clone, Copy, PartialEq, Eq, Structural)]
pub enum PresentationConnectionCloseReason {
    CloseMethodCalled,
    ConnectionObjectDiscarded,
    UnrecoverableError,
}

impl WireCode for PresentationConnectionCloseReason {
    open spec fn code(self) -> u8 {
        match self {
            PresentationConnectionCloseReason::CloseMethodCalled => 1,
            PresentationConnectionCloseReason::ConnectionObjectDiscarded => 10,
            PresentationConnectionCloseReason::UnrecoverableError => 100,
        }
    }

    open spec fn codes() -> Set<u8> {
        set![1u8, 10, 100]
    }

    fn from_code(code: u8) -> (r: Result<Self, MessageError>) {
        PresentationConnectionCloseReason::from_u8(code)
    }

    fn to_code(self) -> (code: u8)
        ensures
            self == PresentationConnectionCloseReason::CloseMethodCalled <==> code == 1,
            self == PresentationConnectionCloseReason::ConnectionObjectDiscarded <==> code == 10,
            self == PresentationConnectionCloseReason::UnrecoverableError <==> code == 100,
    {
        match self {
            PresentationConnectionCloseReason::CloseMethodCalled => 1,
            PresentationConnectionCloseReason::ConnectionObjectDiscarded => 10,
            PresentationConnectionCloseReason::UnrecoverableError => 100,
        }
    }
}

impl PresentationConnectionCloseReason {
    /// The member with this code.
    pub fn from_u8(value: u8) -> (r: Result<Self, MessageError>)
        ensures
            match r {
                Ok(member) => Self::codes().contains(value) && member.code() == value,
                Err(e) => e == MessageError::InvalidField && !Self::codes().contains(value),
            },
            value == 1 <==> r == Ok::<Self, MessageError>(PresentationConnectionCloseReason::CloseMethodCalled),
            value == 10 <==> r == Ok::<Self, MessageError>(PresentationConnectionCloseReason::ConnectionObjectDiscarded),
            value == 100 <==> r == Ok::<Self, MessageError>(PresentationConnectionCloseReason::UnrecoverableError),
    {
        match value {
            1 => Ok(PresentationConnectionCloseReason::CloseMethodCalled),
            10 => Ok(PresentationConnectionCloseReason::ConnectionObjectDiscarded),
            100 => Ok(PresentationConnectionCloseReason::UnrecoverableError),
            _ => Err(MessageError::InvalidField),
        }
    }

    /// The numbers of the protocol: each member is written as its own, a member is read from
    /// each of these numbers, and from no other.
    pub proof fn protocol_numbers(self, code: u8)
        ensures
            self == PresentationConnectionCloseReason::CloseMethodCalled <==> self.code() == 1,
            self == PresentationConnectionCloseReason::ConnectionObjectDiscarded <==> self.code() == 10,
            self == PresentationConnectionCloseReason::UnrecoverableError <==> self.code() == 100,
            Self::codes().contains(code) <==> (code == 1 || code == 10 || code == 100),
    {
    }
}

/// Whether a URL can be presented.
#[derive(Debug, Clone, Copy, PartialEq, Eq, Structural)]
pub enum UrlAvailability {
    Available,
    Unavailable,
    Invalid,
}

impl WireCode for UrlAvailability {
    open spec fn code(self) -> u8 {
        match self {
            UrlAvailability::Available => 0,
            UrlAvailability::Unavailable => 1,
            UrlAvailability::Invalid => 10,
        }
    }

    open spec fn codes() -> Set<u8> {
        set![0u8, 1, 10]
    }

    fn from_code(code: u8) -> (r: Result<Self, MessageError>) {
        UrlAvailability::from_u8(code)
    }

    fn to_code(self) -> (code: u8)
        ensures
            self == UrlAvailability::Available <==> code == 0,
            self == UrlAvailability::Unavailable <==> code == 1,
            self == UrlAvailability::Invalid <==> code == 10,
    {
        match self {
            UrlAvailability::Available => 0,
            UrlAvailability::Unavailable => 1,
            UrlAvailability::Invalid => 10,
        }
    }
}

impl UrlAvailability {
    /// The member with this code.
    pub fn from_u8(value: u8) -> (r: Result<Self, MessageError>)
        ensures
            match r {
                Ok(member) => Self::codes().contains(value) && member.code() == value,
                Err(e) => e == MessageError::InvalidField && !Self::codes().contains(value),
            },
            value == 0 <==> r == Ok::<Self, MessageError>(UrlAvailability::Available),
            value == 1 <==> r == Ok::<Self, MessageError>(UrlAvailability::Unavailable),
            value == 10 <==> r == Ok::<Self, MessageError>(UrlAvailability::Invalid),
    {
        match value {
            0 => Ok(UrlAvailability::Available),
            1 => Ok(UrlAvailability::Unavailable),
            10 => Ok(UrlAvailability::Invalid),
            _ => Err(MessageError::InvalidField),
        }
    }

    /// The numbers of the protocol: each member is written as its own, a member is read from
    /// each of these numbers, and from no other.
    pub proof fn protocol_numbers(self, code: u8)
        ensures
            self == UrlAvailability::Available <==> self.code() == 0,
            self == UrlAvailability::Unavailable <==> self.code() == 1,
            self == UrlAvailability::Invalid <==> self.code() == 10,
            Self::codes().contains(code) <==> (code == 0 || code == 1 || code == 10),
    {
    }
}

} // verus!
