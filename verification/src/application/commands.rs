//! What the commands of a user say to the peer.
use crate::application::messages::agent::{AgentInfoRequest, AgentStatusRequest};
use crate::application::messages::availability::PresentationUrlAvailabilityRequest;
use crate::application::messages::codes::ApplicationMessageType;
use crate::application::messages::connection::{
    PresentationConnectionCloseEvent, PresentationConnectionMessage,
    PresentationConnectionOpenRequest,
};
use crate::application::messages::message::{application_body_at, application_message_at};
use crate::application::messages::presentation::{
    PresentationStartRequest, PresentationTerminationRequest,
};
use crate::application::ApplicationInput;
use crate::cbor::code::WireCode;
use crate::cbor::fields::{body_bytes, entry_count, Layout, Table, Value};
use crate::cbor::laws::{body_reads_as, conforms, lemma_body_of, message_round_trip};
use crate::cbor::reader::texts_of;
use crate::common::error::{MessageError, MAX_URLS};
use crate::common::type_key::{type_key_bytes, type_key_round_trip};
use vstd::prelude::*;

verus! {

/// The type of the message that a command sends; the other inputs are no commands.
pub open spec fn command_type(input: ApplicationInput) -> Option<ApplicationMessageType> {
    match input {
        ApplicationInput::StartPresentation { .. } => Some(
            ApplicationMessageType::PresentationStartRequest,
        ),
        ApplicationInput::TerminatePresentation { .. } => Some(
            ApplicationMessageType::PresentationTerminationRequest,
        ),
        ApplicationInput::CheckUrlAvailability { .. } => Some(
            ApplicationMessageType::PresentationUrlAvailabilityRequest,
        ),
        ApplicationInput::OpenPresentationConnection { .. } => Some(
            ApplicationMessageType::PresentationConnectionOpenRequest,
        ),
        ApplicationInput::SendPresentationMessage { .. } => Some(
            ApplicationMessageType::PresentationConnectionMessage,
        ),
        ApplicationInput::ClosePresentationConnection { .. } => Some(
            ApplicationMessageType::PresentationConnectionCloseEvent,
        ),
        ApplicationInput::RequestAgentStatus { .. } => Some(
            ApplicationMessageType::AgentStatusRequest,
        ),
        ApplicationInput::RequestAgentInfo => Some(ApplicationMessageType::AgentInfoRequest),
        _ => None,
    }
}

/// Whether a command is a request, which takes a new request id.
pub open spec fn is_request(input: ApplicationInput) -> bool {
    command_type(input) is Some && !(input is SendPresentationMessage) && !(
    input is ClosePresentationConnection)
}

/// Whether a command names more URLs than a message takes.
pub open spec fn has_too_many_urls(input: ApplicationInput) -> bool {
    input matches ApplicationInput::CheckUrlAvailability { urls, .. } && urls@.len() > MAX_URLS
}

/// The layout of the message that a command sends.
pub open spec fn command_layout(input: ApplicationInput) -> Layout {
    match input {
        ApplicationInput::StartPresentation { .. } => PresentationStartRequest::layout(),
        ApplicationInput::TerminatePresentation { .. } => PresentationTerminationRequest::layout(),
        ApplicationInput::CheckUrlAvailability {
            ..
        } => PresentationUrlAvailabilityRequest::layout(),
        ApplicationInput::OpenPresentationConnection {
            ..
        } => PresentationConnectionOpenRequest::layout(),
        ApplicationInput::SendPresentationMessage { .. } => PresentationConnectionMessage::layout(),
        ApplicationInput::ClosePresentationConnection {
            ..
        } => PresentationConnectionCloseEvent::layout(),
        ApplicationInput::RequestAgentStatus { .. } => AgentStatusRequest::layout(),
        _ => AgentInfoRequest::layout(),
    }
}

/// What the message of a command says of each field. A start carries no headers, an
/// availability request asks for no watch, and the end of a connection gives neither an
/// error message nor a number of connections.
pub open spec fn command_fields(input: ApplicationInput, request_id: u64) -> Table {
    let id = Some(Value::Uint(request_id as nat));
    match input {
        ApplicationInput::StartPresentation { url, presentation_id } => seq![
            id,
            Some(Value::Text(presentation_id@)),
            Some(Value::Text(url@)),
            Some(Value::Headers(Seq::empty())),
        ],
        ApplicationInput::TerminatePresentation { presentation_id, reason } => seq![
            id,
            Some(Value::Text(presentation_id@)),
            Some(Value::Uint(reason.code() as nat)),
        ],
        ApplicationInput::CheckUrlAvailability { urls, watch_duration } => seq![
            id,
            Some(Value::Texts(texts_of(urls@))),
            Some(Value::Uint(watch_duration as nat)),
            Some(Value::Uint(0)),
        ],
        ApplicationInput::OpenPresentationConnection { presentation_id, url } => seq![
            id,
            Some(Value::Text(presentation_id@)),
            Some(Value::Text(url@)),
        ],
        ApplicationInput::SendPresentationMessage { connection_id, message } => seq![
            Some(Value::Uint(connection_id as nat)),
            Some(Value::Blob(message@)),
        ],
        ApplicationInput::ClosePresentationConnection { connection_id, reason } => seq![
            Some(Value::Uint(connection_id as nat)),
            Some(Value::Uint(reason.code() as nat)),
            None,
            Some(Value::Uint(0)),
        ],
        ApplicationInput::RequestAgentStatus { status_message } => seq![
            id,
            match status_message {
                Some(status) => Some(Value::Status(status@)),
                None => None,
            },
        ],
        _ => seq![id],
    }
}

/// The bytes that a command sends.
pub open spec fn command_bytes(input: ApplicationInput, request_id: u64) -> Seq<u8> {
    match command_type(input) {
        Some(message_type) => type_key_bytes(message_type.key()) + body_bytes(
            command_layout(input).fields,
            command_fields(input, request_id),
        ),
        None => Seq::empty(),
    }
}

/// The id of the request after the one with this id.
pub open spec fn id_after(request_id: u64) -> u64 {
    if request_id == u64::MAX {
        0
    } else {
        (request_id + 1) as u64
    }
}

/// The id of the request that comes `n` requests after the one with this id.
pub open spec fn id_after_requests(request_id: u64, n: nat) -> u64
    decreases n,
{
    if n == 0 {
        request_id
    } else {
        id_after(id_after_requests(request_id, (n - 1) as nat))
    }
}

// ---- Laws ----

proof fn lemma_id_after_requests(request_id: u64, n: nat)
    requires
        n <= u64::MAX,
    ensures
        id_after_requests(request_id, n) == if request_id + n <= u64::MAX {
            request_id + n
        } else {
            request_id + n - u64::MAX - 1
        },
    decreases n,
{
    if n > 0 {
        lemma_id_after_requests(request_id, (n - 1) as nat);
    }
}

/// No two requests of a session have the same id, unless all ids were used in between.
pub proof fn request_ids_differ(request_id: u64, i: nat, j: nat)
    requires
        i < j <= u64::MAX,
    ensures
        id_after_requests(request_id, i) != id_after_requests(request_id, j),
{
    lemma_id_after_requests(request_id, i);
    lemma_id_after_requests(request_id, j);
}

/// The message of a command has as many entries as its layout allows.
proof fn lemma_command_count(input: ApplicationInput, request_id: u64)
    requires
        command_type(input) is Some,
    ensures
        ({
            let layout = command_layout(input);
            let n = entry_count(
                layout.fields,
                command_fields(input, request_id),
                layout.fields.len(),
            );
            layout.min <= n <= layout.max
        }),
{
    reveal_with_fuel(entry_count, 5);
    match input {
        ApplicationInput::StartPresentation { .. } => {},
        ApplicationInput::TerminatePresentation { .. } => {},
        ApplicationInput::CheckUrlAvailability { .. } => {},
        ApplicationInput::OpenPresentationConnection { .. } => {},
        ApplicationInput::SendPresentationMessage { .. } => {},
        ApplicationInput::ClosePresentationConnection { .. } => {},
        ApplicationInput::RequestAgentStatus { .. } => {},
        _ => {},
    }
}

/// A body that reads as a layout asks is what the message of a command says.
proof fn lemma_command_body(input: ApplicationInput, table: Table, data: Seq<u8>)
    requires
        command_type(input) is Some,
        body_reads_as(command_layout(input), table, data),
    ensures
        application_body_at(command_type(input)->Some_0, data) == Ok::<Table, MessageError>(table),
{
}

/// The peer reads what a command said: the type of its message and each of its fields, if
/// they keep to the limits that a reader sets.
pub proof fn command_is_read(input: ApplicationInput, request_id: u64, rest: Seq<u8>)
    requires
        command_type(input) is Some,
        conforms(command_layout(input).fields, command_fields(input, request_id)),
    ensures
        application_message_at(command_bytes(input, request_id) + rest) == Ok::<
            (ApplicationMessageType, Table),
            MessageError,
        >((command_type(input)->Some_0, command_fields(input, request_id))),
{
    let layout = command_layout(input);
    let table = command_fields(input, request_id);
    let body = body_bytes(layout.fields, table);
    let message_type = command_type(input)->Some_0;
    let key = message_type.key();
    lemma_command_count(input, request_id);
    message_round_trip(key, layout, table, body, rest);
    lemma_command_body(input, table, body + rest);
    lemma_read_after_key(message_type, table, body, rest);
}

/// A message is read if its body is.
proof fn lemma_read_after_key(
    message_type: ApplicationMessageType,
    table: Table,
    body: Seq<u8>,
    rest: Seq<u8>,
)
    requires
        application_body_at(message_type, body + rest) == Ok::<Table, MessageError>(table),
    ensures
        application_message_at(type_key_bytes(message_type.key()) + body + rest) == Ok::<
            (ApplicationMessageType, Table),
            MessageError,
        >((message_type, table)),
{
    let key = message_type.key();
    message_type.key_round_trip(key);
    lemma_body_of(key, body, rest);
    type_key_round_trip(key, body + rest);
    assert(type_key_bytes(key) + body + rest =~= type_key_bytes(key) + (body + rest));
}

} // verus!
