//! What the messages of the application protocol are on the wire, and which are accepted.
use crate::application::messages::agent::{
    agent_info_event_at, agent_info_response_at, AgentInfo, AgentInfoEvent, AgentInfoRequest,
    AgentInfoResponse, AgentStatusRequest, AgentStatusResponse,
};
use crate::application::messages::availability::{
    PresentationUrlAvailabilityEvent, PresentationUrlAvailabilityRequest,
    PresentationUrlAvailabilityResponse,
};
use crate::application::messages::codes::{AgentCapability, ApplicationMessageType, UrlAvailability};
use crate::application::messages::connection::{
    PresentationChangeEvent, PresentationConnectionCloseEvent, PresentationConnectionMessage,
    PresentationConnectionOpenRequest, PresentationConnectionOpenResponse,
};
use crate::application::messages::message::{application_message_at, ApplicationMessage};
use crate::application::messages::presentation::{
    headers_of, HttpHeader, PresentationStartRequest, PresentationStartResponse,
    PresentationTerminationEvent, PresentationTerminationRequest, PresentationTerminationResponse,
};
use crate::cbor::code::{codes_of, WireCode};
use crate::cbor::fields::{
    body_at, code_items, entries_bytes, entry_count, header_items, text_items, Table, Value,
};
use crate::cbor::item::{
    blob_bytes, collection_at, head_at, head_bytes, head_round_trip, lemma_stands_at_split,
    stands_at, text_bytes, uint_at, uint_bytes, uint_round_trip, ARRAY, MAP,
};
use crate::cbor::laws::conforms;
use crate::cbor::reader::texts_of;
use crate::cbor::reading::accepted_bodies_keep_to_limits;
use crate::common::error::MessageError;
use crate::common::type_key::type_key_of;
use vstd::prelude::*;
use vstd::utf8::encode_utf8;

verus! {

/// An agent info request on the wire.
/// Its fields keep to what a reader accepts if and only if they keep to these limits.
pub proof fn agent_info_request_on_the_wire(
    message: AgentInfoRequest,
)
    ensures
        message.body() == head_bytes(MAP, 1) + uint_bytes(0)
            + uint_bytes(message.request_id as nat),
        conforms(AgentInfoRequest::schema(), message.fields()),
{
    reveal_with_fuel(entries_bytes, 2);
    reveal_with_fuel(entry_count, 2);
    assert(message.fields()[0] is Some);
}

/// An agent info request that is accepted holds every field that it needs.
/// Each is within its limits, and the map has a number of entries that it allows.
pub proof fn agent_info_request_is_accepted(
    data: Seq<u8>,
    pos: int,
    table: Table,
)
    requires
        body_at(AgentInfoRequest::layout(), data, pos)
            == Ok::<Table, MessageError>(table),
    ensures
        table.len() == 1,
        (table[0] matches Some(Value::Uint(n)) && n <= u64::MAX),
        AgentInfoRequest::layout().min == 1,
        AgentInfoRequest::layout().max == 1,
        AgentInfoRequest::layout().count_error == MessageError::InvalidField,
{
    accepted_bodies_keep_to_limits(AgentInfoRequest::layout(), data, pos);
    assert(table[0] is Some);
}

/// An agent status request on the wire.
/// Its fields keep to what a reader accepts if and only if they keep to these limits.
pub proof fn agent_status_request_on_the_wire<'a>(
    message: AgentStatusRequest<'a>,
)
    ensures
        message.status matches Some(value) ==> message.body() == head_bytes(MAP, 2)
            + uint_bytes(0) + uint_bytes(message.request_id as nat) + uint_bytes(1)
            + (head_bytes(MAP, 1) + uint_bytes(0) + text_bytes(value.status@)),
        message.status is None ==> message.body() == head_bytes(MAP, 1) + uint_bytes(0)
            + uint_bytes(message.request_id as nat),
        conforms(AgentStatusRequest::schema(), message.fields())
            <==> (message.status matches Some(status)
            ==> encode_utf8(status.status@).len() <= 256),
{
    reveal_with_fuel(entries_bytes, 3);
    reveal_with_fuel(entry_count, 3);
}

/// An agent status request that is accepted holds every field that it needs.
/// Each is within its limits, and the map has a number of entries that it allows.
pub proof fn agent_status_request_is_accepted(
    data: Seq<u8>,
    pos: int,
    table: Table,
)
    requires
        body_at(AgentStatusRequest::layout(), data, pos)
            == Ok::<Table, MessageError>(table),
    ensures
        table.len() == 2,
        (table[0] matches Some(Value::Uint(n)) && n <= u64::MAX),
        (table[1] is Some ==> (table[1] matches Some(Value::Status(text))
            && encode_utf8(text).len() <= 256)),
        AgentStatusRequest::layout().min == 0,
        AgentStatusRequest::layout().max == u64::MAX,
        AgentStatusRequest::layout().count_error == MessageError::DecodeFailed,
{
    accepted_bodies_keep_to_limits(AgentStatusRequest::layout(), data, pos);
    assert(table[0] is Some);
    let entry_1 = table[1];
}

/// An agent status response on the wire.
/// Its fields keep to what a reader accepts if and only if they keep to these limits.
pub proof fn agent_status_response_on_the_wire<'a>(
    message: AgentStatusResponse<'a>,
)
    ensures
        message.status matches Some(value) ==> message.body() == head_bytes(MAP, 2)
            + uint_bytes(0) + uint_bytes(message.request_id as nat) + uint_bytes(1)
            + (head_bytes(MAP, 1) + uint_bytes(0) + text_bytes(value.status@)),
        message.status is None ==> message.body() == head_bytes(MAP, 1) + uint_bytes(0)
            + uint_bytes(message.request_id as nat),
        conforms(AgentStatusResponse::schema(), message.fields())
            <==> (message.status matches Some(status)
            ==> encode_utf8(status.status@).len() <= 256),
{
    reveal_with_fuel(entries_bytes, 3);
    reveal_with_fuel(entry_count, 3);
}

/// An agent status response that is accepted holds every field that it needs.
/// Each is within its limits, and the map has a number of entries that it allows.
pub proof fn agent_status_response_is_accepted(
    data: Seq<u8>,
    pos: int,
    table: Table,
)
    requires
        body_at(AgentStatusResponse::layout(), data, pos)
            == Ok::<Table, MessageError>(table),
    ensures
        table.len() == 2,
        (table[0] matches Some(Value::Uint(n)) && n <= u64::MAX),
        (table[1] is Some ==> (table[1] matches Some(Value::Status(text))
            && encode_utf8(text).len() <= 256)),
        AgentStatusResponse::layout().min == 0,
        AgentStatusResponse::layout().max == u64::MAX,
        AgentStatusResponse::layout().count_error == MessageError::DecodeFailed,
{
    accepted_bodies_keep_to_limits(AgentStatusResponse::layout(), data, pos);
    assert(table[0] is Some);
    let entry_1 = table[1];
}

/// A presentation URL availability request on the wire.
/// Its fields keep to what a reader accepts if and only if they keep to these limits.
pub proof fn presentation_url_availability_request_on_the_wire<'a>(
    message: PresentationUrlAvailabilityRequest<'a>,
)
    ensures
        message.body() == head_bytes(MAP, 4) + uint_bytes(0)
            + uint_bytes(message.request_id as nat) + uint_bytes(1)
            + (head_bytes(ARRAY, message.urls@.len()) + text_items(texts_of(message.urls@)))
            + uint_bytes(2) + uint_bytes(message.watch_duration as nat) + uint_bytes(3)
            + uint_bytes(message.watch_id as nat),
        conforms(PresentationUrlAvailabilityRequest::schema(), message.fields())
            <==> (message.urls@.len() <= 16 && (forall|i: int| 0 <= i < message.urls@.len()
            ==> encode_utf8((#[trigger] message.urls@[i])@).len() <= u64::MAX)),
{
    reveal_with_fuel(entries_bytes, 5);
    reveal_with_fuel(entry_count, 5);
    let texts = texts_of(message.urls@);
    assert forall|i: int| 0 <= i < texts.len() implies #[trigger] texts[i]
        == message.urls@[i]@ by {}
    assert forall|i: int| 0 <= i < message.urls@.len() implies texts[i] == (
    #[trigger] message.urls@[i])@ by {}
}

/// A presentation URL availability request that is accepted holds every field that it needs.
/// Each is within its limits, and the map has a number of entries that it allows.
pub proof fn presentation_url_availability_request_is_accepted(
    data: Seq<u8>,
    pos: int,
    table: Table,
)
    requires
        body_at(PresentationUrlAvailabilityRequest::layout(), data, pos)
            == Ok::<Table, MessageError>(table),
    ensures
        table.len() == 4,
        (table[0] matches Some(Value::Uint(n)) && n <= u64::MAX),
        (table[1] matches Some(Value::Texts(texts)) && texts.len() <= 16),
        (table[2] matches Some(Value::Uint(n)) && n <= u64::MAX),
        (table[3] matches Some(Value::Uint(n)) && n <= u64::MAX),
        PresentationUrlAvailabilityRequest::layout().min == 4,
        PresentationUrlAvailabilityRequest::layout().max == 4,
        PresentationUrlAvailabilityRequest::layout().count_error == MessageError::InvalidField,
{
    accepted_bodies_keep_to_limits(PresentationUrlAvailabilityRequest::layout(), data, pos);
    assert(table[0] is Some);
    assert(table[1] is Some);
    assert(table[2] is Some);
    assert(table[3] is Some);
}

/// A presentation URL availability response on the wire.
/// Its fields keep to what a reader accepts if and only if they keep to these limits.
pub proof fn presentation_url_availability_response_on_the_wire(
    message: PresentationUrlAvailabilityResponse,
)
    ensures
        message.body() == head_bytes(MAP, 2) + uint_bytes(0)
            + uint_bytes(message.request_id as nat) + uint_bytes(1)
            + (head_bytes(ARRAY, message.url_availabilities@.len())
            + code_items(codes_of(message.url_availabilities@))),
        conforms(PresentationUrlAvailabilityResponse::schema(), message.fields())
            <==> (message.url_availabilities@.len() <= 16),
{
    reveal_with_fuel(entries_bytes, 3);
    reveal_with_fuel(entry_count, 3);
    let codes = codes_of(message.url_availabilities@);
    assert forall|i: int| 0 <= i < codes.len() implies UrlAvailability::codes().contains(
        #[trigger] codes[i],
    ) by {
        assert(codes[i] == message.url_availabilities@[i].code());
    }
}

/// A presentation URL availability response that is accepted holds every field that it needs.
/// Each is within its limits, and the map has a number of entries that it allows.
pub proof fn presentation_url_availability_response_is_accepted(
    data: Seq<u8>,
    pos: int,
    table: Table,
)
    requires
        body_at(PresentationUrlAvailabilityResponse::layout(), data, pos)
            == Ok::<Table, MessageError>(table),
    ensures
        table.len() == 2,
        (table[0] matches Some(Value::Uint(n)) && n <= u64::MAX),
        (table[1] matches Some(Value::Codes(codes)) && codes.len() <= 16
            && (forall|i: int| 0 <= i < codes.len() ==> #[trigger] codes[i] == 0 || codes[i] == 1
            || codes[i] == 10)),
        PresentationUrlAvailabilityResponse::layout().min == 2,
        PresentationUrlAvailabilityResponse::layout().max == 2,
        PresentationUrlAvailabilityResponse::layout().count_error == MessageError::InvalidField,
{
    accepted_bodies_keep_to_limits(PresentationUrlAvailabilityResponse::layout(), data, pos);
    assert(table[0] is Some);
    assert(table[1] is Some);
}

/// A presentation URL availability event on the wire.
/// Its fields keep to what a reader accepts if and only if they keep to these limits.
pub proof fn presentation_url_availability_event_on_the_wire(
    message: PresentationUrlAvailabilityEvent,
)
    ensures
        message.body() == head_bytes(MAP, 2) + uint_bytes(0) + uint_bytes(message.watch_id as nat)
            + uint_bytes(1) + (head_bytes(ARRAY, message.url_availabilities@.len())
            + code_items(codes_of(message.url_availabilities@))),
        conforms(PresentationUrlAvailabilityEvent::schema(), message.fields())
            <==> (message.url_availabilities@.len() <= 16),
{
    reveal_with_fuel(entries_bytes, 3);
    reveal_with_fuel(entry_count, 3);
    let codes = codes_of(message.url_availabilities@);
    assert forall|i: int| 0 <= i < codes.len() implies UrlAvailability::codes().contains(
        #[trigger] codes[i],
    ) by {
        assert(codes[i] == message.url_availabilities@[i].code());
    }
}

/// A presentation URL availability event that is accepted holds every field that it needs.
/// Each is within its limits, and the map has a number of entries that it allows.
pub proof fn presentation_url_availability_event_is_accepted(
    data: Seq<u8>,
    pos: int,
    table: Table,
)
    requires
        body_at(PresentationUrlAvailabilityEvent::layout(), data, pos)
            == Ok::<Table, MessageError>(table),
    ensures
        table.len() == 2,
        (table[0] matches Some(Value::Uint(n)) && n <= u64::MAX),
        (table[1] matches Some(Value::Codes(codes)) && codes.len() <= 16
            && (forall|i: int| 0 <= i < codes.len() ==> #[trigger] codes[i] == 0 || codes[i] == 1
            || codes[i] == 10)),
        PresentationUrlAvailabilityEvent::layout().min == 2,
        PresentationUrlAvailabilityEvent::layout().max == 2,
        PresentationUrlAvailabilityEvent::layout().count_error == MessageError::InvalidField,
{
    accepted_bodies_keep_to_limits(PresentationUrlAvailabilityEvent::layout(), data, pos);
    assert(table[0] is Some);
    assert(table[1] is Some);
}

/// A presentation start request on the wire.
/// Its fields keep to what a reader accepts if and only if they keep to these limits.
pub proof fn presentation_start_request_on_the_wire<'a>(
    message: PresentationStartRequest<'a>,
)
    ensures
        message.body() == head_bytes(MAP, 4) + uint_bytes(0)
            + uint_bytes(message.request_id as nat) + uint_bytes(1)
            + text_bytes(message.presentation_id@) + uint_bytes(2) + text_bytes(message.url@)
            + uint_bytes(3) + (head_bytes(ARRAY, message.headers@.len())
            + header_items(headers_of(message.headers@))),
        conforms(PresentationStartRequest::schema(), message.fields())
            <==> (encode_utf8(message.presentation_id@).len() <= 256)
            && (encode_utf8(message.url@).len() <= 256) && (message.headers@.len() <= 8
            && (forall|i: int| 0 <= i < message.headers@.len()
            ==> encode_utf8((#[trigger] message.headers@[i]).key@).len() <= 256
            && encode_utf8(message.headers@[i].value@).len() <= 256)),
{
    reveal_with_fuel(entries_bytes, 5);
    reveal_with_fuel(entry_count, 5);
    let headers = headers_of(message.headers@);
    assert forall|i: int| 0 <= i < headers.len() implies #[trigger] headers[i] == (
        message.headers@[i].key@,
        message.headers@[i].value@,
    ) by {}
    assert forall|i: int| 0 <= i < message.headers@.len() implies headers[i] == (
        (#[trigger] message.headers@[i]).key@,
        message.headers@[i].value@,
    ) by {}
}

/// A presentation start request that is accepted holds every field that it needs.
/// Each is within its limits, and the map has a number of entries that it allows.
pub proof fn presentation_start_request_is_accepted(
    data: Seq<u8>,
    pos: int,
    table: Table,
)
    requires
        body_at(PresentationStartRequest::layout(), data, pos)
            == Ok::<Table, MessageError>(table),
    ensures
        table.len() == 4,
        (table[0] matches Some(Value::Uint(n)) && n <= u64::MAX),
        (table[1] matches Some(Value::Text(text)) && encode_utf8(text).len() <= 256),
        (table[2] matches Some(Value::Text(text)) && encode_utf8(text).len() <= 256),
        (table[3] matches Some(Value::Headers(headers)) && headers.len() <= 8
            && (forall|i: int| 0 <= i < headers.len()
            ==> encode_utf8((#[trigger] headers[i]).0).len() <= 256
            && encode_utf8(headers[i].1).len() <= 256)),
        PresentationStartRequest::layout().min == 4,
        PresentationStartRequest::layout().max == 4,
        PresentationStartRequest::layout().count_error == MessageError::InvalidField,
{
    accepted_bodies_keep_to_limits(PresentationStartRequest::layout(), data, pos);
    assert(table[0] is Some);
    assert(table[1] is Some);
    assert(table[2] is Some);
    assert(table[3] is Some);
}

/// A presentation start response on the wire.
/// Its fields keep to what a reader accepts if and only if they keep to these limits.
pub proof fn presentation_start_response_on_the_wire(
    message: PresentationStartResponse,
)
    ensures
        message.http_response_code matches Some(value) ==> message.body() == head_bytes(MAP, 4)
            + uint_bytes(0) + uint_bytes(message.request_id as nat) + uint_bytes(1)
            + uint_bytes(message.result.code() as nat) + uint_bytes(2)
            + uint_bytes(message.connection_id as nat) + uint_bytes(3) + uint_bytes(value as nat),
        message.http_response_code is None ==> message.body() == head_bytes(MAP, 3)
            + uint_bytes(0) + uint_bytes(message.request_id as nat) + uint_bytes(1)
            + uint_bytes(message.result.code() as nat) + uint_bytes(2)
            + uint_bytes(message.connection_id as nat),
        conforms(PresentationStartResponse::schema(), message.fields()),
{
    reveal_with_fuel(entries_bytes, 5);
    reveal_with_fuel(entry_count, 5);
    message.result.protocol_numbers(message.result.code());
}

/// A presentation start response that is accepted holds every field that it needs.
/// Each is within its limits, and the map has a number of entries that it allows.
pub proof fn presentation_start_response_is_accepted(
    data: Seq<u8>,
    pos: int,
    table: Table,
)
    requires
        body_at(PresentationStartResponse::layout(), data, pos)
            == Ok::<Table, MessageError>(table),
    ensures
        table.len() == 4,
        (table[0] matches Some(Value::Uint(n)) && n <= u64::MAX),
        (table[1] matches Some(Value::Uint(n)) && (n == 1 || n == 10 || n == 11 || n == 100
            || n == 101)),
        (table[2] matches Some(Value::Uint(n)) && n <= u64::MAX),
        (table[3] is Some ==> (table[3] matches Some(Value::Uint(n)) && n <= u16::MAX)),
        PresentationStartResponse::layout().min == 3,
        PresentationStartResponse::layout().max == 4,
        PresentationStartResponse::layout().count_error == MessageError::InvalidField,
{
    accepted_bodies_keep_to_limits(PresentationStartResponse::layout(), data, pos);
    assert(table[0] is Some);
    assert(table[1] is Some);
    assert(table[2] is Some);
    let entry_3 = table[3];
}

/// A presentation termination request on the wire.
/// Its fields keep to what a reader accepts if and only if they keep to these limits.
pub proof fn presentation_termination_request_on_the_wire<'a>(
    message: PresentationTerminationRequest<'a>,
)
    ensures
        message.body() == head_bytes(MAP, 3) + uint_bytes(0)
            + uint_bytes(message.request_id as nat) + uint_bytes(1)
            + text_bytes(message.presentation_id@) + uint_bytes(2)
            + uint_bytes(message.reason.code() as nat),
        conforms(PresentationTerminationRequest::schema(), message.fields())
            <==> (encode_utf8(message.presentation_id@).len() <= u64::MAX),
{
    reveal_with_fuel(entries_bytes, 4);
    reveal_with_fuel(entry_count, 4);
    message.reason.protocol_numbers(message.reason.code());
}

/// A presentation termination request that is accepted holds every field that it needs.
/// Each is within its limits, and the map has a number of entries that it allows.
pub proof fn presentation_termination_request_is_accepted(
    data: Seq<u8>,
    pos: int,
    table: Table,
)
    requires
        body_at(PresentationTerminationRequest::layout(), data, pos)
            == Ok::<Table, MessageError>(table),
    ensures
        table.len() == 3,
        (table[0] matches Some(Value::Uint(n)) && n <= u64::MAX),
        (table[1] matches Some(Value::Text(_))),
        (table[2] matches Some(Value::Uint(n)) && (n == 1 || n == 2 || n == 20 || n == 30
            || n == 31 || n == 100 || n == 101 || n == 255)),
        PresentationTerminationRequest::layout().min == 3,
        PresentationTerminationRequest::layout().max == 3,
        PresentationTerminationRequest::layout().count_error == MessageError::InvalidField,
{
    accepted_bodies_keep_to_limits(PresentationTerminationRequest::layout(), data, pos);
    assert(table[0] is Some);
    assert(table[1] is Some);
    assert(table[2] is Some);
}

/// A presentation termination response on the wire.
/// Its fields keep to what a reader accepts if and only if they keep to these limits.
pub proof fn presentation_termination_response_on_the_wire(
    message: PresentationTerminationResponse,
)
    ensures
        message.body() == head_bytes(MAP, 2) + uint_bytes(0)
            + uint_bytes(message.request_id as nat) + uint_bytes(1)
            + uint_bytes(message.result.code() as nat),
        conforms(PresentationTerminationResponse::schema(), message.fields()),
{
    reveal_with_fuel(entries_bytes, 3);
    reveal_with_fuel(entry_count, 3);
    message.result.protocol_numbers(message.result.code());
}

/// A presentation termination response that is accepted holds every field that it needs.
/// Each is within its limits, and the map has a number of entries that it allows.
pub proof fn presentation_termination_response_is_accepted(
    data: Seq<u8>,
    pos: int,
    table: Table,
)
    requires
        body_at(PresentationTerminationResponse::layout(), data, pos)
            == Ok::<Table, MessageError>(table),
    ensures
        table.len() == 2,
        (table[0] matches Some(Value::Uint(n)) && n <= u64::MAX),
        (table[1] matches Some(Value::Uint(n)) && (n == 1 || n == 10 || n == 11 || n == 100
            || n == 101)),
        PresentationTerminationResponse::layout().min == 2,
        PresentationTerminationResponse::layout().max == 2,
        PresentationTerminationResponse::layout().count_error == MessageError::InvalidField,
{
    accepted_bodies_keep_to_limits(PresentationTerminationResponse::layout(), data, pos);
    assert(table[0] is Some);
    assert(table[1] is Some);
}

/// A presentation termination event on the wire.
/// Its fields keep to what a reader accepts if and only if they keep to these limits.
pub proof fn presentation_termination_event_on_the_wire<'a>(
    message: PresentationTerminationEvent<'a>,
)
    ensures
        message.body() == head_bytes(MAP, 3) + uint_bytes(0)
            + text_bytes(message.presentation_id@) + uint_bytes(1)
            + uint_bytes(message.source.code() as nat) + uint_bytes(2)
            + uint_bytes(message.reason.code() as nat),
        conforms(PresentationTerminationEvent::schema(), message.fields())
            <==> (encode_utf8(message.presentation_id@).len() <= u64::MAX),
{
    reveal_with_fuel(entries_bytes, 4);
    reveal_with_fuel(entry_count, 4);
    message.source.protocol_numbers(message.source.code());
    message.reason.protocol_numbers(message.reason.code());
}

/// A presentation termination event that is accepted holds every field that it needs.
/// Each is within its limits, and the map has a number of entries that it allows.
pub proof fn presentation_termination_event_is_accepted(
    data: Seq<u8>,
    pos: int,
    table: Table,
)
    requires
        body_at(PresentationTerminationEvent::layout(), data, pos)
            == Ok::<Table, MessageError>(table),
    ensures
        table.len() == 3,
        (table[0] matches Some(Value::Text(_))),
        (table[1] matches Some(Value::Uint(n)) && (n == 1 || n == 2 || n == 255)),
        (table[2] matches Some(Value::Uint(n)) && (n == 1 || n == 2 || n == 20 || n == 30
            || n == 31 || n == 100 || n == 101 || n == 255)),
        PresentationTerminationEvent::layout().min == 3,
        PresentationTerminationEvent::layout().max == 3,
        PresentationTerminationEvent::layout().count_error == MessageError::InvalidField,
{
    accepted_bodies_keep_to_limits(PresentationTerminationEvent::layout(), data, pos);
    assert(table[0] is Some);
    assert(table[1] is Some);
    assert(table[2] is Some);
}

/// A presentation connection open request on the wire.
/// Its fields keep to what a reader accepts if and only if they keep to these limits.
pub proof fn presentation_connection_open_request_on_the_wire<'a>(
    message: PresentationConnectionOpenRequest<'a>,
)
    ensures
        message.body() == head_bytes(MAP, 3) + uint_bytes(0)
            + uint_bytes(message.request_id as nat) + uint_bytes(1)
            + text_bytes(message.presentation_id@) + uint_bytes(2) + text_bytes(message.url@),
        conforms(PresentationConnectionOpenRequest::schema(), message.fields())
            <==> (encode_utf8(message.presentation_id@).len() <= u64::MAX)
            && (encode_utf8(message.url@).len() <= u64::MAX),
{
    reveal_with_fuel(entries_bytes, 4);
    reveal_with_fuel(entry_count, 4);
}

/// A presentation connection open request that is accepted holds every field that it needs.
/// Each is within its limits, and the map has a number of entries that it allows.
pub proof fn presentation_connection_open_request_is_accepted(
    data: Seq<u8>,
    pos: int,
    table: Table,
)
    requires
        body_at(PresentationConnectionOpenRequest::layout(), data, pos)
            == Ok::<Table, MessageError>(table),
    ensures
        table.len() == 3,
        (table[0] matches Some(Value::Uint(n)) && n <= u64::MAX),
        (table[1] matches Some(Value::Text(_))),
        (table[2] matches Some(Value::Text(_))),
        PresentationConnectionOpenRequest::layout().min == 3,
        PresentationConnectionOpenRequest::layout().max == 3,
        PresentationConnectionOpenRequest::layout().count_error == MessageError::InvalidField,
{
    accepted_bodies_keep_to_limits(PresentationConnectionOpenRequest::layout(), data, pos);
    assert(table[0] is Some);
    assert(table[1] is Some);
    assert(table[2] is Some);
}

/// A presentation connection open response on the wire.
/// Its fields keep to what a reader accepts if and only if they keep to these limits.
pub proof fn presentation_connection_open_response_on_the_wire(
    message: PresentationConnectionOpenResponse,
)
    ensures
        message.body() == head_bytes(MAP, 4) + uint_bytes(0)
            + uint_bytes(message.request_id as nat) + uint_bytes(1)
            + uint_bytes(message.result.code() as nat) + uint_bytes(2)
            + uint_bytes(message.connection_id as nat) + uint_bytes(3)
            + uint_bytes(message.connection_count as nat),
        conforms(PresentationConnectionOpenResponse::schema(), message.fields()),
{
    reveal_with_fuel(entries_bytes, 5);
    reveal_with_fuel(entry_count, 5);
    message.result.protocol_numbers(message.result.code());
}

/// A presentation connection open response that is accepted holds every field that it needs.
/// Each is within its limits, and the map has a number of entries that it allows.
pub proof fn presentation_connection_open_response_is_accepted(
    data: Seq<u8>,
    pos: int,
    table: Table,
)
    requires
        body_at(PresentationConnectionOpenResponse::layout(), data, pos)
            == Ok::<Table, MessageError>(table),
    ensures
        table.len() == 4,
        (table[0] matches Some(Value::Uint(n)) && n <= u64::MAX),
        (table[1] matches Some(Value::Uint(n)) && (n == 1 || n == 10 || n == 11 || n == 100
            || n == 101)),
        (table[2] matches Some(Value::Uint(n)) && n <= u64::MAX),
        (table[3] matches Some(Value::Uint(n)) && n <= u64::MAX),
        PresentationConnectionOpenResponse::layout().min == 4,
        PresentationConnectionOpenResponse::layout().max == 4,
        PresentationConnectionOpenResponse::layout().count_error == MessageError::InvalidField,
{
    accepted_bodies_keep_to_limits(PresentationConnectionOpenResponse::layout(), data, pos);
    assert(table[0] is Some);
    assert(table[1] is Some);
    assert(table[2] is Some);
    assert(table[3] is Some);
}

/// A presentation connection close event on the wire.
/// Its fields keep to what a reader accepts if and only if they keep to these limits.
pub proof fn presentation_connection_close_event_on_the_wire<'a>(
    message: PresentationConnectionCloseEvent<'a>,
)
    ensures
        message.error_message matches Some(value) ==> message.body() == head_bytes(MAP, 4)
            + uint_bytes(0) + uint_bytes(message.connection_id as nat) + uint_bytes(1)
            + uint_bytes(message.reason.code() as nat) + uint_bytes(2) + text_bytes(value@)
            + uint_bytes(3) + uint_bytes(message.connection_count as nat),
        message.error_message is None ==> message.body() == head_bytes(MAP, 3) + uint_bytes(0)
            + uint_bytes(message.connection_id as nat) + uint_bytes(1)
            + uint_bytes(message.reason.code() as nat) + uint_bytes(3)
            + uint_bytes(message.connection_count as nat),
        conforms(PresentationConnectionCloseEvent::schema(), message.fields())
            <==> (message.error_message matches Some(text)
            ==> encode_utf8(text@).len() <= u64::MAX),
{
    reveal_with_fuel(entries_bytes, 5);
    reveal_with_fuel(entry_count, 5);
    message.reason.protocol_numbers(message.reason.code());
}

/// A presentation connection close event that is accepted holds every field that it needs.
/// Each is within its limits, and the map has a number of entries that it allows.
pub proof fn presentation_connection_close_event_is_accepted(
    data: Seq<u8>,
    pos: int,
    table: Table,
)
    requires
        body_at(PresentationConnectionCloseEvent::layout(), data, pos)
            == Ok::<Table, MessageError>(table),
    ensures
        table.len() == 4,
        (table[0] matches Some(Value::Uint(n)) && n <= u64::MAX),
        (table[1] matches Some(Value::Uint(n)) && (n == 1 || n == 10 || n == 100)),
        (table[2] is Some ==> (table[2] matches Some(Value::Text(_)))),
        (table[3] matches Some(Value::Uint(n)) && n <= u64::MAX),
        PresentationConnectionCloseEvent::layout().min == 3,
        PresentationConnectionCloseEvent::layout().max == 4,
        PresentationConnectionCloseEvent::layout().count_error == MessageError::InvalidField,
{
    accepted_bodies_keep_to_limits(PresentationConnectionCloseEvent::layout(), data, pos);
    assert(table[0] is Some);
    assert(table[1] is Some);
    let entry_2 = table[2];
    assert(table[3] is Some);
}

/// A presentation connection message on the wire.
/// Its fields keep to what a reader accepts if and only if they keep to these limits.
pub proof fn presentation_connection_message_on_the_wire<'a>(
    message: PresentationConnectionMessage<'a>,
)
    ensures
        message.body() == head_bytes(MAP, 2) + uint_bytes(0)
            + uint_bytes(message.connection_id as nat) + uint_bytes(1)
            + blob_bytes(message.message@),
        conforms(PresentationConnectionMessage::schema(), message.fields())
            <==> (message.message@.len() <= u64::MAX),
{
    reveal_with_fuel(entries_bytes, 3);
    reveal_with_fuel(entry_count, 3);
}

/// A presentation connection message that is accepted holds every field that it needs.
/// Each is within its limits, and the map has a number of entries that it allows.
pub proof fn presentation_connection_message_is_accepted(
    data: Seq<u8>,
    pos: int,
    table: Table,
)
    requires
        body_at(PresentationConnectionMessage::layout(), data, pos)
            == Ok::<Table, MessageError>(table),
    ensures
        table.len() == 2,
        (table[0] matches Some(Value::Uint(n)) && n <= u64::MAX),
        (table[1] matches Some(Value::Blob(_))),
        PresentationConnectionMessage::layout().min == 2,
        PresentationConnectionMessage::layout().max == 2,
        PresentationConnectionMessage::layout().count_error == MessageError::InvalidField,
{
    accepted_bodies_keep_to_limits(PresentationConnectionMessage::layout(), data, pos);
    assert(table[0] is Some);
    assert(table[1] is Some);
}

/// A presentation change event on the wire.
/// Its fields keep to what a reader accepts if and only if they keep to these limits.
pub proof fn presentation_change_event_on_the_wire<'a>(
    message: PresentationChangeEvent<'a>,
)
    ensures
        message.body() == head_bytes(MAP, 2) + uint_bytes(0)
            + text_bytes(message.presentation_id@) + uint_bytes(1)
            + uint_bytes(message.connection_count as nat),
        conforms(PresentationChangeEvent::schema(), message.fields())
            <==> (encode_utf8(message.presentation_id@).len() <= u64::MAX),
{
    reveal_with_fuel(entries_bytes, 3);
    reveal_with_fuel(entry_count, 3);
}

/// A presentation change event that is accepted holds every field that it needs.
/// Each is within its limits, and the map has a number of entries that it allows.
pub proof fn presentation_change_event_is_accepted(
    data: Seq<u8>,
    pos: int,
    table: Table,
)
    requires
        body_at(PresentationChangeEvent::layout(), data, pos)
            == Ok::<Table, MessageError>(table),
    ensures
        table.len() == 2,
        (table[0] matches Some(Value::Text(_))),
        (table[1] matches Some(Value::Uint(n)) && n <= u64::MAX),
        PresentationChangeEvent::layout().min == 2,
        PresentationChangeEvent::layout().max == 2,
        PresentationChangeEvent::layout().count_error == MessageError::InvalidField,
{
    accepted_bodies_keep_to_limits(PresentationChangeEvent::layout(), data, pos);
    assert(table[0] is Some);
    assert(table[1] is Some);
}

// ---- Agent information ----

/// An agent information response on the wire: the request id, then the information.
pub proof fn agent_info_response_on_the_wire<'a>(message: AgentInfoResponse<'a>)
    ensures
        message.body() == head_bytes(MAP, 2) + uint_bytes(0)
            + uint_bytes(message.request_id as nat) + uint_bytes(1) + head_bytes(MAP, 5)
            + uint_bytes(0) + text_bytes(message.agent_info.display_name@) + uint_bytes(1)
            + text_bytes(message.agent_info.model_name@) + uint_bytes(2)
            + (head_bytes(ARRAY, message.agent_info.capabilities@.len())
            + code_items(codes_of(message.agent_info.capabilities@))) + uint_bytes(3)
            + text_bytes(message.agent_info.state_token@) + uint_bytes(4)
            + (head_bytes(ARRAY, message.agent_info.locales@.len())
            + text_items(texts_of(message.agent_info.locales@))),
{
    reveal_with_fuel(entries_bytes, 6);
}

/// An agent information event on the wire: the information, under the key 0.
pub proof fn agent_info_event_on_the_wire<'a>(message: AgentInfoEvent<'a>)
    ensures
        message.body() == head_bytes(MAP, 1) + uint_bytes(0) + head_bytes(MAP, 5)
            + uint_bytes(0) + text_bytes(message.agent_info.display_name@) + uint_bytes(1)
            + text_bytes(message.agent_info.model_name@) + uint_bytes(2)
            + (head_bytes(ARRAY, message.agent_info.capabilities@.len())
            + code_items(codes_of(message.agent_info.capabilities@))) + uint_bytes(3)
            + text_bytes(message.agent_info.state_token@) + uint_bytes(4)
            + (head_bytes(ARRAY, message.agent_info.locales@.len())
            + text_items(texts_of(message.agent_info.locales@))),
{
    reveal_with_fuel(entries_bytes, 6);
}

/// Agent information keeps to what a reader accepts if and only if no text of it is longer than
/// 256 bytes: its lists hold no more than 16 capabilities and 8 locales to begin with.
pub proof fn agent_info_limits<'a>(info: AgentInfo<'a>)
    requires
        info.capabilities@.len() <= 16,
        info.locales@.len() <= 8,
    ensures
        conforms(AgentInfo::schema(), info.fields())
            <==> (encode_utf8(info.display_name@).len() <= 256
            && encode_utf8(info.model_name@).len() <= 256
            && encode_utf8(info.state_token@).len() <= 256 && (forall|i: int|
            0 <= i < info.locales@.len() ==> encode_utf8((#[trigger] info.locales@[i])@).len()
                <= 256)),
{
    let codes = codes_of(info.capabilities@);
    assert forall|i: int| 0 <= i < codes.len() implies AgentCapability::codes().contains(
        #[trigger] codes[i],
    ) by {
        assert(codes[i] == info.capabilities@[i].code());
    }
    let texts = texts_of(info.locales@);
    assert forall|i: int| 0 <= i < texts.len() implies #[trigger] texts[i] == info.locales@[i]@ by {}
    assert forall|i: int| 0 <= i < info.locales@.len() implies texts[i] == (
    #[trigger] info.locales@[i])@ by {}
    let table = info.fields();
    let (name, model, capabilities) = (table[0], table[1], table[2]);
    let (token, locales) = (table[3], table[4]);
}

/// Agent information that is accepted holds its three texts of up to 256 bytes, up to 16
/// capabilities with known codes, and up to 8 locales of up to 256 bytes. Its map has five
/// entries.
pub proof fn agent_info_is_accepted(
    count_error: MessageError,
    data: Seq<u8>,
    pos: int,
    table: Table,
)
    requires
        body_at(AgentInfo::layout(count_error), data, pos) == Ok::<Table, MessageError>(table),
    ensures
        table.len() == 5,
        (table[0] matches Some(Value::Text(text)) && encode_utf8(text).len() <= 256),
        (table[1] matches Some(Value::Text(text)) && encode_utf8(text).len() <= 256),
        (table[2] matches Some(Value::Codes(codes)) && codes.len() <= 16 && (forall|i: int|
            0 <= i < codes.len() ==> 1 <= #[trigger] codes[i] <= 8)),
        (table[3] matches Some(Value::Text(text)) && encode_utf8(text).len() <= 256),
        (table[4] is Some ==> (table[4] matches Some(Value::Texts(texts)) && texts.len() <= 8 && (
        forall|i: int| 0 <= i < texts.len() ==> encode_utf8(#[trigger] texts[i]).len() <= 256))),
        exists|next: int|
            #[trigger] collection_at(MAP, data, pos) == Some((Some(5nat), next)),
{
    accepted_bodies_keep_to_limits(AgentInfo::layout(count_error), data, pos);
    assert(table[0] is Some);
    assert(table[1] is Some);
    assert(table[2] is Some);
    assert(table[3] is Some);
    let locales = table[4];
}

/// A response to an information request holds the request id under the key 0 and the information
/// under the key 1, in a map of two entries, in this order.
pub proof fn agent_info_response_is_accepted(data: Seq<u8>, table: Table)
    requires
        agent_info_response_at(data) == Ok::<Table, MessageError>(table),
    ensures
        exists|a: int, b: int, c: int, d: int|
            #![trigger uint_at(255, data, a), uint_at(u64::MAX as nat, data, b),
                uint_at(255, data, c), head_at(MAP, data, d)]
            {
                &&& collection_at(MAP, data, 0) == Some((Some(2nat), a))
                &&& uint_at(255, data, a) == Some((0nat, b))
                &&& (uint_at(u64::MAX as nat, data, b) matches Some((id, next)) && next == c
                    && table[0] == Some(Value::Uint(id)))
                &&& uint_at(255, data, c) == Some((1nat, d))
                &&& head_at(MAP, data, d) is Some
                &&& body_at(AgentInfo::layout(MessageError::InvalidField), data, d) == Ok::<
                    Table,
                    MessageError,
                >(table.skip(1))
            },
{
    let a = collection_at(MAP, data, 0).unwrap().1;
    let b = uint_at(255, data, a).unwrap().1;
    let (id, c) = uint_at(u64::MAX as nat, data, b).unwrap();
    let d = uint_at(255, data, c).unwrap().1;
    let info = body_at(AgentInfo::layout(MessageError::InvalidField), data, d)->Ok_0;
    assert(table.skip(1) =~= info);
    assert(head_at(MAP, data, d) is Some);
    assert(table[0] == Some(Value::Uint(id)));
}

/// An information event holds the information under the key 0, in a map of one entry.
pub proof fn agent_info_event_is_accepted(data: Seq<u8>, table: Table)
    requires
        agent_info_event_at(data) == Ok::<Table, MessageError>(table),
    ensures
        exists|a: int, b: int|
            #![trigger uint_at(255, data, a), head_at(MAP, data, b)]
            {
                &&& collection_at(MAP, data, 0) == Some((Some(1nat), a))
                &&& uint_at(255, data, a) == Some((0nat, b))
                &&& head_at(MAP, data, b) is Some
                &&& body_at(AgentInfo::layout(MessageError::DecodeFailed), data, b) == Ok::<
                    Table,
                    MessageError,
                >(table)
            },
{
    let a = collection_at(MAP, data, 0).unwrap().1;
    let b = uint_at(255, data, a).unwrap().1;
    assert(head_at(MAP, data, b) is Some);
}

/// A response to an information request with another number of entries than two, or with other
/// keys than 0 and 1 in this order, is refused as an invalid field.
pub proof fn other_agent_info_responses_are_refused(n: nat, key: nat, id: nat, data: Seq<u8>)
    requires
        n <= u64::MAX,
        key <= 255,
        id <= u64::MAX,
    ensures
        stands_at(data, 0, head_bytes(MAP, n)) && n != 2 ==> agent_info_response_at(data) == Err::<
            Table,
            MessageError,
        >(MessageError::InvalidField),
        stands_at(data, 0, head_bytes(MAP, 2) + uint_bytes(key)) && key != 0
            ==> agent_info_response_at(data) == Err::<Table, MessageError>(
            MessageError::InvalidField,
        ),
        stands_at(data, 0, head_bytes(MAP, 2) + uint_bytes(0) + uint_bytes(id) + uint_bytes(key))
            && key != 1 ==> agent_info_response_at(data) == Err::<Table, MessageError>(
            MessageError::InvalidField,
        ),
{
    let head = head_bytes(MAP, 2);
    if stands_at(data, 0, head_bytes(MAP, n)) {
        head_round_trip(MAP, n, data, 0);
    }
    if stands_at(data, 0, head + uint_bytes(key)) {
        lemma_stands_at_split(data, 0, head, uint_bytes(key));
        head_round_trip(MAP, 2, data, 0);
        uint_round_trip(255, key, data, head.len() as int);
    }
    if stands_at(data, 0, head + uint_bytes(0) + uint_bytes(id) + uint_bytes(key)) {
        let front = head + uint_bytes(0);
        lemma_stands_at_split(data, 0, front + uint_bytes(id), uint_bytes(key));
        lemma_stands_at_split(data, 0, front, uint_bytes(id));
        lemma_stands_at_split(data, 0, head, uint_bytes(0));
        head_round_trip(MAP, 2, data, 0);
        uint_round_trip(255, 0, data, head.len() as int);
        uint_round_trip(u64::MAX as nat, id, data, front.len() as int);
        uint_round_trip(255, key, data, (front + uint_bytes(id)).len() as int);
    }
}

/// An information event with another number of entries than one cannot be read, and one with
/// another key than 0 is refused as an invalid field.
pub proof fn other_agent_info_events_are_refused(n: nat, key: nat, data: Seq<u8>)
    requires
        n <= u64::MAX,
        key <= 255,
    ensures
        stands_at(data, 0, head_bytes(MAP, n)) && n != 1 ==> agent_info_event_at(data) == Err::<
            Table,
            MessageError,
        >(MessageError::DecodeFailed),
        stands_at(data, 0, head_bytes(MAP, 1) + uint_bytes(key)) && key != 0
            ==> agent_info_event_at(data) == Err::<Table, MessageError>(MessageError::InvalidField),
{
    let head = head_bytes(MAP, 1);
    if stands_at(data, 0, head_bytes(MAP, n)) {
        head_round_trip(MAP, n, data, 0);
    }
    if stands_at(data, 0, head + uint_bytes(key)) {
        lemma_stands_at_split(data, 0, head, uint_bytes(key));
        head_round_trip(MAP, 1, data, 0);
        uint_round_trip(255, key, data, head.len() as int);
    }
}

// ---- Any message ----

/// A header is written as its key and its value: one for one.
pub proof fn headers_are_written_one_for_one<'a>(headers: Seq<HttpHeader<'a>>)
    ensures
        headers_of(headers).len() == headers.len(),
        forall|i: int|
            0 <= i < headers.len() ==> (#[trigger] headers_of(headers)[i]).0 == headers[i].key@
                && headers_of(headers)[i].1 == headers[i].value@,
{
}

/// What was read of a body, told with its type.
pub open spec fn of_type(
    message_type: ApplicationMessageType,
    body: Result<Table, MessageError>,
) -> Result<(ApplicationMessageType, Table), MessageError> {
    match body {
        Ok(table) => Ok((message_type, table)),
        Err(e) => Err(e),
    }
}

/// The type key decides how the rest of a message is read. A key of no message is refused, and
/// so is data that starts with no type key.
pub proof fn messages_are_read_by_type(data: Seq<u8>, type_key: u16, width: int)
    requires
        type_key_of(data) == Ok::<(u16, int), MessageError>((type_key, width)),
    ensures
        type_key == 10 ==> application_message_at(data) == of_type(
            ApplicationMessageType::AgentInfoRequest,
            body_at(AgentInfoRequest::layout(), data.skip(width), 0),
        ),
        type_key == 11 ==> application_message_at(data) == of_type(
            ApplicationMessageType::AgentInfoResponse,
            agent_info_response_at(data.skip(width)),
        ),
        type_key == 12 ==> application_message_at(data) == of_type(
            ApplicationMessageType::AgentStatusRequest,
            body_at(AgentStatusRequest::layout(), data.skip(width), 0),
        ),
        type_key == 13 ==> application_message_at(data) == of_type(
            ApplicationMessageType::AgentStatusResponse,
            body_at(AgentStatusResponse::layout(), data.skip(width), 0),
        ),
        type_key == 14 ==> application_message_at(data) == of_type(
            ApplicationMessageType::PresentationUrlAvailabilityRequest,
            body_at(PresentationUrlAvailabilityRequest::layout(), data.skip(width), 0),
        ),
        type_key == 15 ==> application_message_at(data) == of_type(
            ApplicationMessageType::PresentationUrlAvailabilityResponse,
            body_at(PresentationUrlAvailabilityResponse::layout(), data.skip(width), 0),
        ),
        type_key == 16 ==> application_message_at(data) == of_type(
            ApplicationMessageType::PresentationConnectionMessage,
            body_at(PresentationConnectionMessage::layout(), data.skip(width), 0),
        ),
        type_key == 103 ==> application_message_at(data) == of_type(
            ApplicationMessageType::PresentationUrlAvailabilityEvent,
            body_at(PresentationUrlAvailabilityEvent::layout(), data.skip(width), 0),
        ),
        type_key == 104 ==> application_message_at(data) == of_type(
            ApplicationMessageType::PresentationStartRequest,
            body_at(PresentationStartRequest::layout(), data.skip(width), 0),
        ),
        type_key == 105 ==> application_message_at(data) == of_type(
            ApplicationMessageType::PresentationStartResponse,
            body_at(PresentationStartResponse::layout(), data.skip(width), 0),
        ),
        type_key == 106 ==> application_message_at(data) == of_type(
            ApplicationMessageType::PresentationTerminationRequest,
            body_at(PresentationTerminationRequest::layout(), data.skip(width), 0),
        ),
        type_key == 107 ==> application_message_at(data) == of_type(
            ApplicationMessageType::PresentationTerminationResponse,
            body_at(PresentationTerminationResponse::layout(), data.skip(width), 0),
        ),
        type_key == 108 ==> application_message_at(data) == of_type(
            ApplicationMessageType::PresentationTerminationEvent,
            body_at(PresentationTerminationEvent::layout(), data.skip(width), 0),
        ),
        type_key == 109 ==> application_message_at(data) == of_type(
            ApplicationMessageType::PresentationConnectionOpenRequest,
            body_at(PresentationConnectionOpenRequest::layout(), data.skip(width), 0),
        ),
        type_key == 110 ==> application_message_at(data) == of_type(
            ApplicationMessageType::PresentationConnectionOpenResponse,
            body_at(PresentationConnectionOpenResponse::layout(), data.skip(width), 0),
        ),
        type_key == 113 ==> application_message_at(data) == of_type(
            ApplicationMessageType::PresentationConnectionCloseEvent,
            body_at(PresentationConnectionCloseEvent::layout(), data.skip(width), 0),
        ),
        type_key == 120 ==> application_message_at(data) == of_type(
            ApplicationMessageType::AgentInfoEvent,
            agent_info_event_at(data.skip(width)),
        ),
        type_key == 121 ==> application_message_at(data) == of_type(
            ApplicationMessageType::PresentationChangeEvent,
            body_at(PresentationChangeEvent::layout(), data.skip(width), 0),
        ),
        !(type_key == 10 || type_key == 11 || type_key == 12 || type_key == 13
            || type_key == 14 || type_key == 15 || type_key == 16 || type_key == 103
            || type_key == 104 || type_key == 105 || type_key == 106 || type_key == 107
            || type_key == 108 || type_key == 109 || type_key == 110 || type_key == 113
            || type_key == 120 || type_key == 121)
            ==> application_message_at(data) == Err::<
            (ApplicationMessageType, Table),
            MessageError,
        >(MessageError::InvalidMessageType),
{
    if let Some(message_type) = ApplicationMessageType::with_key(type_key) {
        message_type.protocol_keys(type_key);
    }
}

/// Data that does not start with a type key is refused with the error of that.
pub proof fn messages_need_a_type(data: Seq<u8>)
    ensures
        type_key_of(data) matches Err(e) ==> application_message_at(data) == Err::<
            (ApplicationMessageType, Table),
            MessageError,
        >(e),
{
}

/// The type keys that messages are written with.
pub proof fn messages_have_their_keys<'a>(message: ApplicationMessage<'a>)
    ensures
        message is AgentInfoRequest ==> message.message_type().key() == 10,
        message is AgentInfoResponse ==> message.message_type().key() == 11,
        message is AgentStatusRequest ==> message.message_type().key() == 12,
        message is AgentStatusResponse ==> message.message_type().key() == 13,
        message is PresentationUrlAvailabilityRequest ==> message.message_type().key() == 14,
        message is PresentationUrlAvailabilityResponse ==> message.message_type().key() == 15,
        message is PresentationConnectionMessage ==> message.message_type().key() == 16,
        message is PresentationUrlAvailabilityEvent ==> message.message_type().key() == 103,
        message is PresentationStartRequest ==> message.message_type().key() == 104,
        message is PresentationStartResponse ==> message.message_type().key() == 105,
        message is PresentationTerminationRequest ==> message.message_type().key() == 106,
        message is PresentationTerminationResponse ==> message.message_type().key() == 107,
        message is PresentationTerminationEvent ==> message.message_type().key() == 108,
        message is PresentationConnectionOpenRequest ==> message.message_type().key() == 109,
        message is PresentationConnectionOpenResponse ==> message.message_type().key() == 110,
        message is PresentationConnectionCloseEvent ==> message.message_type().key() == 113,
        message is AgentInfoEvent ==> message.message_type().key() == 120,
        message is PresentationChangeEvent ==> message.message_type().key() == 121,
{
    message.message_type().protocol_keys(message.message_type().key());
}

/// A message of any type has the body and the fields of that type, and a reader accepts it exactly
/// where its fields keep to the limits of that type.
pub proof fn messages_are_of_their_type<'a>(message: ApplicationMessage<'a>)
    ensures
        message matches ApplicationMessage::AgentInfoRequest(inner) ==> {
            &&& message.is_readable() <==> conforms(AgentInfoRequest::schema(), inner.fields())
            &&& message.body() == inner.body()
            &&& message.fields() == inner.fields()
        },
        message matches ApplicationMessage::AgentStatusRequest(inner) ==> {
            &&& message.is_readable() <==> conforms(AgentStatusRequest::schema(), inner.fields())
            &&& message.body() == inner.body()
            &&& message.fields() == inner.fields()
        },
        message matches ApplicationMessage::AgentStatusResponse(inner) ==> {
            &&& message.is_readable() <==> conforms(AgentStatusResponse::schema(), inner.fields())
            &&& message.body() == inner.body()
            &&& message.fields() == inner.fields()
        },
        message matches ApplicationMessage::PresentationUrlAvailabilityRequest(inner) ==> {
            &&& message.is_readable() <==> conforms(
                PresentationUrlAvailabilityRequest::schema(),
                inner.fields(),
            )
            &&& message.body() == inner.body()
            &&& message.fields() == inner.fields()
        },
        message matches ApplicationMessage::PresentationUrlAvailabilityResponse(inner) ==> {
            &&& message.is_readable() <==> conforms(
                PresentationUrlAvailabilityResponse::schema(),
                inner.fields(),
            )
            &&& message.body() == inner.body()
            &&& message.fields() == inner.fields()
        },
        message matches ApplicationMessage::PresentationUrlAvailabilityEvent(inner) ==> {
            &&& message.is_readable() <==> conforms(
                PresentationUrlAvailabilityEvent::schema(),
                inner.fields(),
            )
            &&& message.body() == inner.body()
            &&& message.fields() == inner.fields()
        },
        message matches ApplicationMessage::PresentationStartRequest(inner) ==> {
            &&& message.is_readable() <==> conforms(
                PresentationStartRequest::schema(),
                inner.fields(),
            )
            &&& message.body() == inner.body()
            &&& message.fields() == inner.fields()
        },
        message matches ApplicationMessage::PresentationStartResponse(inner) ==> {
            &&& message.is_readable() <==> conforms(
                PresentationStartResponse::schema(),
                inner.fields(),
            )
            &&& message.body() == inner.body()
            &&& message.fields() == inner.fields()
        },
        message matches ApplicationMessage::PresentationTerminationRequest(inner) ==> {
            &&& message.is_readable() <==> conforms(
                PresentationTerminationRequest::schema(),
                inner.fields(),
            )
            &&& message.body() == inner.body()
            &&& message.fields() == inner.fields()
        },
        message matches ApplicationMessage::PresentationTerminationResponse(inner) ==> {
            &&& message.is_readable() <==> conforms(
                PresentationTerminationResponse::schema(),
                inner.fields(),
            )
            &&& message.body() == inner.body()
            &&& message.fields() == inner.fields()
        },
        message matches ApplicationMessage::PresentationTerminationEvent(inner) ==> {
            &&& message.is_readable() <==> conforms(
                PresentationTerminationEvent::schema(),
                inner.fields(),
            )
            &&& message.body() == inner.body()
            &&& message.fields() == inner.fields()
        },
        message matches ApplicationMessage::PresentationConnectionOpenRequest(inner) ==> {
            &&& message.is_readable() <==> conforms(
                PresentationConnectionOpenRequest::schema(),
                inner.fields(),
            )
            &&& message.body() == inner.body()
            &&& message.fields() == inner.fields()
        },
        message matches ApplicationMessage::PresentationConnectionOpenResponse(inner) ==> {
            &&& message.is_readable() <==> conforms(
                PresentationConnectionOpenResponse::schema(),
                inner.fields(),
            )
            &&& message.body() == inner.body()
            &&& message.fields() == inner.fields()
        },
        message matches ApplicationMessage::PresentationConnectionCloseEvent(inner) ==> {
            &&& message.is_readable() <==> conforms(
                PresentationConnectionCloseEvent::schema(),
                inner.fields(),
            )
            &&& message.body() == inner.body()
            &&& message.fields() == inner.fields()
        },
        message matches ApplicationMessage::PresentationConnectionMessage(inner) ==> {
            &&& message.is_readable() <==> conforms(
                PresentationConnectionMessage::schema(),
                inner.fields(),
            )
            &&& message.body() == inner.body()
            &&& message.fields() == inner.fields()
        },
        message matches ApplicationMessage::PresentationChangeEvent(inner) ==> {
            &&& message.is_readable() <==> conforms(
                PresentationChangeEvent::schema(),
                inner.fields(),
            )
            &&& message.body() == inner.body()
            &&& message.fields() == inner.fields()
        },
        message matches ApplicationMessage::AgentInfoResponse(inner) ==> {
            &&& message.is_readable() <==> conforms(AgentInfo::schema(), inner.agent_info.fields())
            &&& message.body() == inner.body()
            &&& message.fields() == inner.fields()
        },
        message matches ApplicationMessage::AgentInfoEvent(inner) ==> {
            &&& message.is_readable() <==> conforms(AgentInfo::schema(), inner.agent_info.fields())
            &&& message.body() == inner.body()
            &&& message.fields() == inner.fields()
        },
{
}

} // verus!
