//! Any message of the application protocol.
use crate::bounded::BoundedVec;
use crate::cbor::body::is_appended;
use crate::cbor::fields::{body_at, Table};
use crate::cbor::laws::{conforms, lemma_body_of};
use crate::common::error::MessageError;
use crate::common::type_key::{decode_type_key, type_key_bytes, type_key_of, type_key_round_trip};
use crate::application::messages::agent::{
    agent_info_event_at, agent_info_response_at, AgentInfo, AgentInfoEvent, AgentInfoRequest,
    AgentInfoResponse, AgentStatusRequest, AgentStatusResponse,
};
use crate::application::messages::availability::{
    PresentationUrlAvailabilityEvent, PresentationUrlAvailabilityRequest,
    PresentationUrlAvailabilityResponse,
};
use crate::application::messages::codes::ApplicationMessageType;
use crate::application::messages::connection::{
    PresentationChangeEvent, PresentationConnectionCloseEvent, PresentationConnectionMessage,
    PresentationConnectionOpenRequest, PresentationConnectionOpenResponse,
};
use crate::application::messages::presentation::{
    PresentationStartRequest, PresentationStartResponse, PresentationTerminationEvent,
    PresentationTerminationRequest, PresentationTerminationResponse,
};
use vstd::prelude::*;

verus! {

/// Any message of the application protocol.
#[derive(Clone, PartialEq)]
pub enum ApplicationMessage<'a> {
    /// Agent info request.
    AgentInfoRequest(AgentInfoRequest),
    /// Agent info response.
    AgentInfoResponse(AgentInfoResponse<'a>),
    /// Agent status request.
    AgentStatusRequest(AgentStatusRequest<'a>),
    /// Agent status response.
    AgentStatusResponse(AgentStatusResponse<'a>),
    /// Agent info event.
    AgentInfoEvent(AgentInfoEvent<'a>),
    /// Presentation URL availability request.
    PresentationUrlAvailabilityRequest(PresentationUrlAvailabilityRequest<'a>),
    /// Presentation URL availability response.
    PresentationUrlAvailabilityResponse(PresentationUrlAvailabilityResponse),
    /// Presentation URL availability event.
    PresentationUrlAvailabilityEvent(PresentationUrlAvailabilityEvent),
    /// Presentation start request.
    PresentationStartRequest(PresentationStartRequest<'a>),
    /// Presentation start response.
    PresentationStartResponse(PresentationStartResponse),
    /// Presentation termination request.
    PresentationTerminationRequest(PresentationTerminationRequest<'a>),
    /// Presentation termination response.
    PresentationTerminationResponse(PresentationTerminationResponse),
    /// Presentation termination event.
    PresentationTerminationEvent(PresentationTerminationEvent<'a>),
    /// Presentation connection open request.
    PresentationConnectionOpenRequest(PresentationConnectionOpenRequest<'a>),
    /// Presentation connection open response.
    PresentationConnectionOpenResponse(PresentationConnectionOpenResponse),
    /// Presentation connection close event.
    PresentationConnectionCloseEvent(PresentationConnectionCloseEvent<'a>),
    /// Presentation connection message.
    PresentationConnectionMessage(PresentationConnectionMessage<'a>),
    /// Presentation change event.
    PresentationChangeEvent(PresentationChangeEvent<'a>),
}

/// What the body of a message of this type says.
pub open spec fn application_body_at(message_type: ApplicationMessageType, body: Seq<u8>) -> Result<
    Table,
    MessageError,
> {
    match message_type {
        ApplicationMessageType::AgentInfoRequest => body_at(AgentInfoRequest::layout(), body, 0),
        ApplicationMessageType::AgentInfoResponse => agent_info_response_at(body),
        ApplicationMessageType::AgentStatusRequest => body_at(AgentStatusRequest::layout(), body, 0),
        ApplicationMessageType::AgentStatusResponse => body_at(AgentStatusResponse::layout(), body, 0),
        ApplicationMessageType::AgentInfoEvent => agent_info_event_at(body),
        ApplicationMessageType::PresentationUrlAvailabilityRequest => body_at(PresentationUrlAvailabilityRequest::layout(), body, 0),
        ApplicationMessageType::PresentationUrlAvailabilityResponse => body_at(PresentationUrlAvailabilityResponse::layout(), body, 0),
        ApplicationMessageType::PresentationUrlAvailabilityEvent => body_at(PresentationUrlAvailabilityEvent::layout(), body, 0),
        ApplicationMessageType::PresentationStartRequest => body_at(PresentationStartRequest::layout(), body, 0),
        ApplicationMessageType::PresentationStartResponse => body_at(PresentationStartResponse::layout(), body, 0),
        ApplicationMessageType::PresentationTerminationRequest => body_at(PresentationTerminationRequest::layout(), body, 0),
        ApplicationMessageType::PresentationTerminationResponse => body_at(PresentationTerminationResponse::layout(), body, 0),
        ApplicationMessageType::PresentationTerminationEvent => body_at(PresentationTerminationEvent::layout(), body, 0),
        ApplicationMessageType::PresentationConnectionOpenRequest => body_at(PresentationConnectionOpenRequest::layout(), body, 0),
        ApplicationMessageType::PresentationConnectionOpenResponse => body_at(PresentationConnectionOpenResponse::layout(), body, 0),
        ApplicationMessageType::PresentationConnectionCloseEvent => body_at(PresentationConnectionCloseEvent::layout(), body, 0),
        ApplicationMessageType::PresentationConnectionMessage => body_at(PresentationConnectionMessage::layout(), body, 0),
        ApplicationMessageType::PresentationChangeEvent => body_at(PresentationChangeEvent::layout(), body, 0),
    }
}

/// The type of the message that starts with a type key, and what its body says.
pub open spec fn application_message_at(data: Seq<u8>) -> Result<
    (ApplicationMessageType, Table),
    MessageError,
> {
    match type_key_of(data) {
        Err(e) => Err(e),
        Ok((type_key, width)) => match ApplicationMessageType::with_key(type_key) {
            None => Err(MessageError::InvalidMessageType),
            Some(message_type) => match application_body_at(message_type, data.skip(width)) {
                Err(e) => Err(e),
                Ok(table) => Ok((message_type, table)),
            },
        },
    }
}

/// The type of a message is read from its key, and the rest is its body.
proof fn lemma_type_is_read(message_type: ApplicationMessageType, body: Seq<u8>, rest: Seq<u8>)
    ensures
        application_message_at(type_key_bytes(message_type.key()) + body + rest)
            == match application_body_at(message_type, body + rest) {
            Ok(table) => Ok::<(ApplicationMessageType, Table), MessageError>((message_type, table)),
            Err(e) => Err(e),
        },
{
    let key = message_type.key();
    message_type.key_round_trip(key);
    lemma_body_of(key, body, rest);
    type_key_round_trip(key, body + rest);
    assert(type_key_bytes(key) + body + rest =~= type_key_bytes(key) + (body + rest));
}

impl<'a> ApplicationMessage<'a> {
    /// The type of this message.
    pub open spec fn message_type(&self) -> ApplicationMessageType {
        match self {
            ApplicationMessage::AgentInfoRequest(_) => ApplicationMessageType::AgentInfoRequest,
            ApplicationMessage::AgentInfoResponse(_) => ApplicationMessageType::AgentInfoResponse,
            ApplicationMessage::AgentStatusRequest(_) => ApplicationMessageType::AgentStatusRequest,
            ApplicationMessage::AgentStatusResponse(_) => ApplicationMessageType::AgentStatusResponse,
            ApplicationMessage::AgentInfoEvent(_) => ApplicationMessageType::AgentInfoEvent,
            ApplicationMessage::PresentationUrlAvailabilityRequest(_) => ApplicationMessageType::PresentationUrlAvailabilityRequest,
            ApplicationMessage::PresentationUrlAvailabilityResponse(_) => ApplicationMessageType::PresentationUrlAvailabilityResponse,
            ApplicationMessage::PresentationUrlAvailabilityEvent(_) => ApplicationMessageType::PresentationUrlAvailabilityEvent,
            ApplicationMessage::PresentationStartRequest(_) => ApplicationMessageType::PresentationStartRequest,
            ApplicationMessage::PresentationStartResponse(_) => ApplicationMessageType::PresentationStartResponse,
            ApplicationMessage::PresentationTerminationRequest(_) => ApplicationMessageType::PresentationTerminationRequest,
            ApplicationMessage::PresentationTerminationResponse(_) => ApplicationMessageType::PresentationTerminationResponse,
            ApplicationMessage::PresentationTerminationEvent(_) => ApplicationMessageType::PresentationTerminationEvent,
            ApplicationMessage::PresentationConnectionOpenRequest(_) => ApplicationMessageType::PresentationConnectionOpenRequest,
            ApplicationMessage::PresentationConnectionOpenResponse(_) => ApplicationMessageType::PresentationConnectionOpenResponse,
            ApplicationMessage::PresentationConnectionCloseEvent(_) => ApplicationMessageType::PresentationConnectionCloseEvent,
            ApplicationMessage::PresentationConnectionMessage(_) => ApplicationMessageType::PresentationConnectionMessage,
            ApplicationMessage::PresentationChangeEvent(_) => ApplicationMessageType::PresentationChangeEvent,
        }
    }

    /// What this message says of each field.
    pub open spec fn fields(&self) -> Table {
        match self {
            ApplicationMessage::AgentInfoRequest(message) => message.fields(),
            ApplicationMessage::AgentInfoResponse(message) => message.fields(),
            ApplicationMessage::AgentStatusRequest(message) => message.fields(),
            ApplicationMessage::AgentStatusResponse(message) => message.fields(),
            ApplicationMessage::AgentInfoEvent(message) => message.fields(),
            ApplicationMessage::PresentationUrlAvailabilityRequest(message) => message.fields(),
            ApplicationMessage::PresentationUrlAvailabilityResponse(message) => message.fields(),
            ApplicationMessage::PresentationUrlAvailabilityEvent(message) => message.fields(),
            ApplicationMessage::PresentationStartRequest(message) => message.fields(),
            ApplicationMessage::PresentationStartResponse(message) => message.fields(),
            ApplicationMessage::PresentationTerminationRequest(message) => message.fields(),
            ApplicationMessage::PresentationTerminationResponse(message) => message.fields(),
            ApplicationMessage::PresentationTerminationEvent(message) => message.fields(),
            ApplicationMessage::PresentationConnectionOpenRequest(message) => message.fields(),
            ApplicationMessage::PresentationConnectionOpenResponse(message) => message.fields(),
            ApplicationMessage::PresentationConnectionCloseEvent(message) => message.fields(),
            ApplicationMessage::PresentationConnectionMessage(message) => message.fields(),
            ApplicationMessage::PresentationChangeEvent(message) => message.fields(),
        }
    }

    /// The bytes of the body.
    pub open spec fn body(&self) -> Seq<u8> {
        match self {
            ApplicationMessage::AgentInfoRequest(message) => message.body(),
            ApplicationMessage::AgentInfoResponse(message) => message.body(),
            ApplicationMessage::AgentStatusRequest(message) => message.body(),
            ApplicationMessage::AgentStatusResponse(message) => message.body(),
            ApplicationMessage::AgentInfoEvent(message) => message.body(),
            ApplicationMessage::PresentationUrlAvailabilityRequest(message) => message.body(),
            ApplicationMessage::PresentationUrlAvailabilityResponse(message) => message.body(),
            ApplicationMessage::PresentationUrlAvailabilityEvent(message) => message.body(),
            ApplicationMessage::PresentationStartRequest(message) => message.body(),
            ApplicationMessage::PresentationStartResponse(message) => message.body(),
            ApplicationMessage::PresentationTerminationRequest(message) => message.body(),
            ApplicationMessage::PresentationTerminationResponse(message) => message.body(),
            ApplicationMessage::PresentationTerminationEvent(message) => message.body(),
            ApplicationMessage::PresentationConnectionOpenRequest(message) => message.body(),
            ApplicationMessage::PresentationConnectionOpenResponse(message) => message.body(),
            ApplicationMessage::PresentationConnectionCloseEvent(message) => message.body(),
            ApplicationMessage::PresentationConnectionMessage(message) => message.body(),
            ApplicationMessage::PresentationChangeEvent(message) => message.body(),
        }
    }

    /// Whether every field keeps to the limits that a reader sets.
    pub open spec fn is_readable(&self) -> bool {
        match self {
            ApplicationMessage::AgentInfoRequest(message) => conforms(AgentInfoRequest::schema(), message.fields()),
            ApplicationMessage::AgentInfoResponse(message) => conforms(
                AgentInfo::schema(),
                message.agent_info.fields(),
            ),
            ApplicationMessage::AgentStatusRequest(message) => conforms(AgentStatusRequest::schema(), message.fields()),
            ApplicationMessage::AgentStatusResponse(message) => conforms(AgentStatusResponse::schema(), message.fields()),
            ApplicationMessage::AgentInfoEvent(message) => conforms(
                AgentInfo::schema(),
                message.agent_info.fields(),
            ),
            ApplicationMessage::PresentationUrlAvailabilityRequest(message) => conforms(PresentationUrlAvailabilityRequest::schema(), message.fields()),
            ApplicationMessage::PresentationUrlAvailabilityResponse(message) => conforms(PresentationUrlAvailabilityResponse::schema(), message.fields()),
            ApplicationMessage::PresentationUrlAvailabilityEvent(message) => conforms(PresentationUrlAvailabilityEvent::schema(), message.fields()),
            ApplicationMessage::PresentationStartRequest(message) => conforms(PresentationStartRequest::schema(), message.fields()),
            ApplicationMessage::PresentationStartResponse(message) => conforms(PresentationStartResponse::schema(), message.fields()),
            ApplicationMessage::PresentationTerminationRequest(message) => conforms(PresentationTerminationRequest::schema(), message.fields()),
            ApplicationMessage::PresentationTerminationResponse(message) => conforms(PresentationTerminationResponse::schema(), message.fields()),
            ApplicationMessage::PresentationTerminationEvent(message) => conforms(PresentationTerminationEvent::schema(), message.fields()),
            ApplicationMessage::PresentationConnectionOpenRequest(message) => conforms(PresentationConnectionOpenRequest::schema(), message.fields()),
            ApplicationMessage::PresentationConnectionOpenResponse(message) => conforms(PresentationConnectionOpenResponse::schema(), message.fields()),
            ApplicationMessage::PresentationConnectionCloseEvent(message) => conforms(PresentationConnectionCloseEvent::schema(), message.fields()),
            ApplicationMessage::PresentationConnectionMessage(message) => conforms(PresentationConnectionMessage::schema(), message.fields()),
            ApplicationMessage::PresentationChangeEvent(message) => conforms(PresentationChangeEvent::schema(), message.fields()),
        }
    }

    /// A message is read back from its bytes, whatever follows them: the same type and the
    /// same fields.
    pub proof fn round_trip(self, rest: Seq<u8>)
        requires
            self.is_readable(),
        ensures
            application_message_at(
                type_key_bytes(self.message_type().key()) + self.body() + rest,
            ) == Ok::<(ApplicationMessageType, Table), MessageError>(
                (self.message_type(), self.fields()),
            ),
    {
        lemma_type_is_read(self.message_type(), self.body(), rest);
        self.body_round_trip(rest);
    }

    proof fn body_round_trip(self, rest: Seq<u8>)
        requires
            self.is_readable(),
        ensures
            application_body_at(self.message_type(), self.body() + rest) == Ok::<
                Table,
                MessageError,
            >(self.fields()),
    {
        match self {
            ApplicationMessage::AgentInfoRequest(message) => message.round_trip(rest),
            ApplicationMessage::AgentInfoResponse(message) => message.round_trip(rest),
            ApplicationMessage::AgentStatusRequest(message) => message.round_trip(rest),
            ApplicationMessage::AgentStatusResponse(message) => message.round_trip(rest),
            ApplicationMessage::AgentInfoEvent(message) => message.round_trip(rest),
            ApplicationMessage::PresentationUrlAvailabilityRequest(message) => message.round_trip(rest),
            ApplicationMessage::PresentationUrlAvailabilityResponse(message) => message.round_trip(rest),
            ApplicationMessage::PresentationUrlAvailabilityEvent(message) => message.round_trip(rest),
            ApplicationMessage::PresentationStartRequest(message) => message.round_trip(rest),
            ApplicationMessage::PresentationStartResponse(message) => message.round_trip(rest),
            ApplicationMessage::PresentationTerminationRequest(message) => message.round_trip(rest),
            ApplicationMessage::PresentationTerminationResponse(message) => message.round_trip(rest),
            ApplicationMessage::PresentationTerminationEvent(message) => message.round_trip(rest),
            ApplicationMessage::PresentationConnectionOpenRequest(message) => message.round_trip(rest),
            ApplicationMessage::PresentationConnectionOpenResponse(message) => message.round_trip(rest),
            ApplicationMessage::PresentationConnectionCloseEvent(message) => message.round_trip(rest),
            ApplicationMessage::PresentationConnectionMessage(message) => message.round_trip(rest),
            ApplicationMessage::PresentationChangeEvent(message) => message.round_trip(rest),
        }
    }

    /// Appends this message to `buf`: its type key, then its body.
    pub fn encode<const N: usize>(&self, buf: &mut BoundedVec<u8, N>) -> (r: Result<
        (),
        MessageError,
    >)
        ensures
            is_appended(
                old(buf)@,
                final(buf)@,
                r,
                self.message_type().key(),
                self.body(),
                N as nat,
            ),
    {
        match self {
            ApplicationMessage::AgentInfoRequest(message) => message.encode(buf),
            ApplicationMessage::AgentInfoResponse(message) => message.encode(buf),
            ApplicationMessage::AgentStatusRequest(message) => message.encode(buf),
            ApplicationMessage::AgentStatusResponse(message) => message.encode(buf),
            ApplicationMessage::AgentInfoEvent(message) => message.encode(buf),
            ApplicationMessage::PresentationUrlAvailabilityRequest(message) => message.encode(buf),
            ApplicationMessage::PresentationUrlAvailabilityResponse(message) => message.encode(buf),
            ApplicationMessage::PresentationUrlAvailabilityEvent(message) => message.encode(buf),
            ApplicationMessage::PresentationStartRequest(message) => message.encode(buf),
            ApplicationMessage::PresentationStartResponse(message) => message.encode(buf),
            ApplicationMessage::PresentationTerminationRequest(message) => message.encode(buf),
            ApplicationMessage::PresentationTerminationResponse(message) => message.encode(buf),
            ApplicationMessage::PresentationTerminationEvent(message) => message.encode(buf),
            ApplicationMessage::PresentationConnectionOpenRequest(message) => message.encode(buf),
            ApplicationMessage::PresentationConnectionOpenResponse(message) => message.encode(buf),
            ApplicationMessage::PresentationConnectionCloseEvent(message) => message.encode(buf),
            ApplicationMessage::PresentationConnectionMessage(message) => message.encode(buf),
            ApplicationMessage::PresentationChangeEvent(message) => message.encode(buf),
        }
    }

    /// Reads any message of the application protocol.
    pub fn decode(buf: &'a [u8]) -> (r: Result<Self, MessageError>)
        ensures
            match application_message_at(buf@) {
                Ok((message_type, table)) => r matches Ok(message) && message.message_type()
                    == message_type && message.fields() == table,
                Err(e) => r == Err::<Self, MessageError>(e),
            },
    {
        let (type_key, width): (u16, usize) = match decode_type_key(buf) {
            Ok(found) => found,
            Err(e) => return Err(e),
        };
        let message_type: ApplicationMessageType = match ApplicationMessageType::from_u16(type_key) {
            Ok(found) => found,
            Err(e) => return Err(e),
        };
        let body: &'a [u8] = vstd::slice::slice_subrange(buf, width, buf.len());
        proof {
            assert(body@ =~= buf@.skip(width as int));
        }
        match message_type {
            ApplicationMessageType::AgentInfoRequest => match AgentInfoRequest::decode_body(body) {
                Ok(message) => Ok(ApplicationMessage::AgentInfoRequest(message)),
                Err(e) => Err(e),
            },
            ApplicationMessageType::AgentInfoResponse => match AgentInfoResponse::decode_body(body) {
                Ok(message) => Ok(ApplicationMessage::AgentInfoResponse(message)),
                Err(e) => Err(e),
            },
            ApplicationMessageType::AgentStatusRequest => match AgentStatusRequest::decode_body(body) {
                Ok(message) => Ok(ApplicationMessage::AgentStatusRequest(message)),
                Err(e) => Err(e),
            },
            ApplicationMessageType::AgentStatusResponse => match AgentStatusResponse::decode_body(body) {
                Ok(message) => Ok(ApplicationMessage::AgentStatusResponse(message)),
                Err(e) => Err(e),
            },
            ApplicationMessageType::AgentInfoEvent => match AgentInfoEvent::decode_body(body) {
                Ok(message) => Ok(ApplicationMessage::AgentInfoEvent(message)),
                Err(e) => Err(e),
            },
            ApplicationMessageType::PresentationUrlAvailabilityRequest => match PresentationUrlAvailabilityRequest::decode_body(body) {
                Ok(message) => Ok(ApplicationMessage::PresentationUrlAvailabilityRequest(message)),
                Err(e) => Err(e),
            },
            ApplicationMessageType::PresentationUrlAvailabilityResponse => match PresentationUrlAvailabilityResponse::decode_body(body) {
                Ok(message) => Ok(ApplicationMessage::PresentationUrlAvailabilityResponse(message)),
                Err(e) => Err(e),
            },
            ApplicationMessageType::PresentationUrlAvailabilityEvent => match PresentationUrlAvailabilityEvent::decode_body(body) {
                Ok(message) => Ok(ApplicationMessage::PresentationUrlAvailabilityEvent(message)),
                Err(e) => Err(e),
            },
            ApplicationMessageType::PresentationStartRequest => match PresentationStartRequest::decode_body(body) {
                Ok(message) => Ok(ApplicationMessage::PresentationStartRequest(message)),
                Err(e) => Err(e),
            },
            ApplicationMessageType::PresentationStartResponse => match PresentationStartResponse::decode_body(body) {
                Ok(message) => Ok(ApplicationMessage::PresentationStartResponse(message)),
                Err(e) => Err(e),
            },
            ApplicationMessageType::PresentationTerminationRequest => match PresentationTerminationRequest::decode_body(body) {
                Ok(message) => Ok(ApplicationMessage::PresentationTerminationRequest(message)),
                Err(e) => Err(e),
            },
            ApplicationMessageType::PresentationTerminationResponse => match PresentationTerminationResponse::decode_body(body) {
                Ok(message) => Ok(ApplicationMessage::PresentationTerminationResponse(message)),
                Err(e) => Err(e),
            },
            ApplicationMessageType::PresentationTerminationEvent => match PresentationTerminationEvent::decode_body(body) {
                Ok(message) => Ok(ApplicationMessage::PresentationTerminationEvent(message)),
                Err(e) => Err(e),
            },
            ApplicationMessageType::PresentationConnectionOpenRequest => match PresentationConnectionOpenRequest::decode_body(body) {
                Ok(message) => Ok(ApplicationMessage::PresentationConnectionOpenRequest(message)),
                Err(e) => Err(e),
            },
            ApplicationMessageType::PresentationConnectionOpenResponse => match PresentationConnectionOpenResponse::decode_body(body) {
                Ok(message) => Ok(ApplicationMessage::PresentationConnectionOpenResponse(message)),
                Err(e) => Err(e),
            },
            ApplicationMessageType::PresentationConnectionCloseEvent => match PresentationConnectionCloseEvent::decode_body(body) {
                Ok(message) => Ok(ApplicationMessage::PresentationConnectionCloseEvent(message)),
                Err(e) => Err(e),
            },
            ApplicationMessageType::PresentationConnectionMessage => match PresentationConnectionMessage::decode_body(body) {
                Ok(message) => Ok(ApplicationMessage::PresentationConnectionMessage(message)),
                Err(e) => Err(e),
            },
            ApplicationMessageType::PresentationChangeEvent => match PresentationChangeEvent::decode_body(body) {
                Ok(message) => Ok(ApplicationMessage::PresentationChangeEvent(message)),
                Err(e) => Err(e),
            },
        }
    }
}

} // verus!
