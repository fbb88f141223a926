//! What the machine of the application protocol does with what it is given.
use crate::application::commands::{command_bytes, command_type, id_after, id_after_requests};
use crate::application::messages::codes::ApplicationMessageType;
use crate::application::messages::message::{application_message_at, ApplicationMessage};
use crate::application::receiver::answer_bytes;
use crate::application::state::ApplicationState;
use crate::application::state_machine::{
    after_network, is_command_outcome, is_data_outcome, is_message_outcome, network_input,
    tells_authenticated, translations, ApplicationModel,
};
use crate::application::{
    ApplicationError, ApplicationEvent, ApplicationInput, ApplicationOutput,
};
use crate::bounded::byte_len;
use crate::cbor::code::WireCode;
use crate::cbor::fields::{entries_bytes, entry_count, text_items, Table, Value};
use crate::cbor::item::{blob_bytes, head_bytes, text_bytes, uint_bytes, ARRAY, MAP};
use crate::cbor::reader::texts_of;
use crate::common::error::{MessageError, StreamId};
use crate::common::type_key::type_key_bytes;
use crate::crypto::operation::CryptoRequest;
use crate::network::{NetworkError, NetworkEvent, NetworkInput, NetworkOutput};
use vstd::prelude::*;
use vstd::std_specs::convert::FromSpec;

verus! {

// ---- What the network layer asks for ----

/// The number of outputs before the one at `i` that are more than messages and data, which go
/// to the transport directly.
pub open spec fn handed_before(outputs: Seq<NetworkOutput>, i: int) -> int
    decreases i,
{
    if i <= 0 {
        0
    } else {
        handed_before(outputs, i - 1) + if outputs[i - 1] is SendMessage
            || outputs[i - 1] is SendData {
            0int
        } else {
            1
        }
    }
}

/// The cryptographic operations that the network layer asks for, in order.
pub open spec fn requests_asked<'a>(outputs: Seq<NetworkOutput<'a>>) -> Seq<CryptoRequest<'a>>
    decreases outputs.len(),
{
    if outputs.len() == 0 {
        Seq::empty()
    } else {
        let before = requests_asked(outputs.drop_last());
        match outputs.last() {
            NetworkOutput::RequestCrypto(request) => before.push(request),
            _ => before,
        }
    }
}

/// The cryptographic operations that the user is asked for, in order.
pub open spec fn requests_handed<'a>(outputs: Seq<ApplicationOutput<'a>>) -> Seq<CryptoRequest<'a>>
    decreases outputs.len(),
{
    if outputs.len() == 0 {
        Seq::empty()
    } else {
        let before = requests_handed(outputs.drop_last());
        match outputs.last() {
            ApplicationOutput::RequestCrypto(request) => before.push(request),
            _ => before,
        }
    }
}

/// Every operation that the network layer asks for is handed to the user, unchanged and in its
/// order, and no other.
pub proof fn requests_are_handed_over<'a>(outputs: Seq<NetworkOutput<'a>>)
    ensures
        requests_handed(translations(outputs)) == requests_asked(outputs),
    decreases outputs.len(),
{
    if outputs.len() > 0 {
        let before = translations(outputs.drop_last());
        requests_are_handed_over(outputs.drop_last());
        if translations(outputs).len() > before.len() {
            assert(translations(outputs).drop_last() =~= before);
        }
    }
}

proof fn lemma_handed_before(outputs: Seq<NetworkOutput>, more: Seq<NetworkOutput>, i: int)
    requires
        i <= outputs.len() <= more.len(),
        forall|k: int| 0 <= k < outputs.len() ==> outputs[k] == #[trigger] more[k],
    ensures
        handed_before(outputs, i) == handed_before(more, i),
    decreases i,
{
    if i > 0 {
        lemma_handed_before(outputs, more, i - 1);
        assert(outputs[i - 1] == more[i - 1]);
    }
}

/// Everything that the network layer asks for reaches the user, but for messages and data, and
/// in order: the output at `i` stands behind what was handed over before it.
pub proof fn outputs_are_handed_over<'a>(outputs: Seq<NetworkOutput<'a>>, i: int)
    requires
        0 <= i < outputs.len(),
    ensures
        translations(outputs).len() == handed_before(outputs, outputs.len() as int),
        !(outputs[i] is SendMessage) && !(outputs[i] is SendData) ==> 0 <= handed_before(outputs, i)
            < translations(outputs).len(),
        ({
            let at = translations(outputs)[handed_before(outputs, i)];
            match outputs[i] {
                NetworkOutput::OpenUniStream => at == ApplicationOutput::OpenBiStream,
                NetworkOutput::CloseStream(id) => at == ApplicationOutput::CloseStream(id),
                NetworkOutput::CloseConnection => at == ApplicationOutput::CloseConnection,
                NetworkOutput::RequestCrypto(request) => at == ApplicationOutput::RequestCrypto(
                    request,
                ),
                NetworkOutput::NeedsPoll => at == ApplicationOutput::NeedsPoll,
                NetworkOutput::Event(NetworkEvent::Authenticated) => at
                    == ApplicationOutput::Event(ApplicationEvent::Authenticated),
                NetworkOutput::Event(NetworkEvent::AuthenticationFailed(_)) => at
                    == ApplicationOutput::Event(ApplicationEvent::AuthenticationFailed),
                _ => true,
            }
        }),
    decreases outputs.len(),
{
    let before = outputs.drop_last();
    let n = outputs.len() as int;
    lemma_translations_len(before);
    lemma_translations_len(outputs);
    lemma_handed_before(before, outputs, n - 1);
    if i < n - 1 {
        outputs_are_handed_over(before, i);
        lemma_handed_before(before, outputs, i);
        assert(before[i] == outputs[i]);
    }
    lemma_handed_grows(outputs, i, n);
}

proof fn lemma_translations_len(outputs: Seq<NetworkOutput>)
    ensures
        translations(outputs).len() == handed_before(outputs, outputs.len() as int),
    decreases outputs.len(),
{
    if outputs.len() > 0 {
        lemma_translations_len(outputs.drop_last());
        lemma_handed_before(outputs.drop_last(), outputs, outputs.len() - 1);
    }
}

proof fn lemma_handed_grows(outputs: Seq<NetworkOutput>, i: int, j: int)
    requires
        0 <= i <= j,
    ensures
        0 <= handed_before(outputs, i) <= handed_before(outputs, j),
    decreases j,
{
    if i < j {
        lemma_handed_grows(outputs, i, j - 1);
    } else if i > 0 {
        lemma_handed_grows(outputs, i - 1, i - 1);
    }
}

/// The user is told of the authentication exactly when the network layer tells of it.
pub proof fn authentication_is_told(outputs: Seq<NetworkOutput>)
    ensures
        tells_authenticated(outputs) <==> (exists|i: int|
            0 <= i < outputs.len() && #[trigger] outputs[i] == NetworkOutput::Event(
                NetworkEvent::Authenticated,
            )),
{
}

/// Whether the peer is authenticated is what the network layer says. The state becomes that of an
/// authenticated peer where the network layer tells of it, and stays otherwise; a failure changes
/// neither the state nor the next request id.
pub proof fn authentication_is_remembered(
    before: ApplicationModel,
    outputs: Seq<NetworkOutput>,
    is_authenticated: bool,
    i: int,
)
    ensures
        after_network(before, outputs, is_authenticated).authenticated == is_authenticated,
        after_network(before, outputs, is_authenticated).next_request_id == before.next_request_id,
        0 <= i < outputs.len() && outputs[i] == NetworkOutput::Event(NetworkEvent::Authenticated)
            ==> after_network(before, outputs, is_authenticated).state
            == ApplicationState::Authenticated,
        (forall|k: int|
            0 <= k < outputs.len() ==> #[trigger] outputs[k] != NetworkOutput::Event(
                NetworkEvent::Authenticated,
            )) ==> after_network(before, outputs, is_authenticated).state == before.state,
{
}

// ---- What happened goes to the network layer ----

/// Each event of the transport goes to the network layer as it is, and no command does.
pub proof fn events_are_passed_on<'a>(
    input: ApplicationInput<'a>,
    stream: StreamId,
    time: u64,
)
    ensures
        input == ApplicationInput::TransportConnected <==> network_input(input) == Some(
            NetworkInput::TransportConnected,
        ),
        input == ApplicationInput::StreamOpened(stream) <==> network_input(input) == Some(
            NetworkInput::StreamOpened(stream),
        ),
        input == ApplicationInput::StreamClosed(stream) <==> network_input(input) == Some(
            NetworkInput::StreamClosed(stream),
        ),
        input == ApplicationInput::Tick(time) <==> network_input(input) == Some(
            NetworkInput::Tick(time),
        ),
        input matches ApplicationInput::CryptoCompleted(result) ==> network_input(input) == Some(
            NetworkInput::CryptoCompleted(result),
        ),
        input matches ApplicationInput::DataReceived(from, data) ==> network_input(input) == Some(
            NetworkInput::DataReceived(from, data),
        ),
{
}

// ---- What the peer says ----

/// A message that an authenticated peer wrote is handled as that message, whatever follows its
/// bytes.
pub proof fn peer_message_is_handled<'a>(
    before: ApplicationModel,
    after: ApplicationModel,
    message: ApplicationMessage,
    rest: Seq<u8>,
    stream: StreamId,
    data: &'a [u8],
    queued: Seq<ApplicationOutput>,
    outputs: Seq<ApplicationOutput>,
    r: Result<Option<NetworkInput<'a>>, ApplicationError>,
)
    requires
        message.is_readable(),
        data@ == type_key_bytes(message.message_type().key()) + message.body() + rest,
        before.authenticated,
        is_data_outcome(before, after, stream, data, queued, outputs, r),
    ensures
        is_message_outcome(
            before,
            after,
            message.message_type(),
            message.fields(),
            queued,
            outputs,
            match r {
                Ok(_) => Ok(()),
                Err(e) => Err(e),
            },
        ),
        r matches Ok(next) ==> next is None,
{
    message.round_trip(rest);
}

/// Nothing that comes in before the peer is authenticated counts: it all goes to the network
/// layer, and nothing changes.
pub proof fn strangers_are_not_heard<'a>(
    before: ApplicationModel,
    after: ApplicationModel,
    stream: StreamId,
    data: &'a [u8],
    queued: Seq<ApplicationOutput>,
    outputs: Seq<ApplicationOutput>,
    r: Result<Option<NetworkInput<'a>>, ApplicationError>,
)
    requires
        !before.authenticated,
        is_data_outcome(before, after, stream, data, queued, outputs, r),
    ensures
        r == Ok::<Option<NetworkInput>, ApplicationError>(
            Some(NetworkInput::DataReceived(stream, data)),
        ),
        after == before,
        outputs == queued,
{
}

/// What an authenticated peer sends and is no message of the application protocol goes to the
/// network layer as it is, and nothing changes.
pub proof fn other_data_is_passed_on<'a>(
    before: ApplicationModel,
    after: ApplicationModel,
    stream: StreamId,
    data: &'a [u8],
    queued: Seq<ApplicationOutput>,
    outputs: Seq<ApplicationOutput>,
    r: Result<Option<NetworkInput<'a>>, ApplicationError>,
)
    requires
        application_message_at(data@) is Err,
        is_data_outcome(before, after, stream, data, queued, outputs, r),
    ensures
        r == Ok::<Option<NetworkInput>, ApplicationError>(
            Some(NetworkInput::DataReceived(stream, data)),
        ),
        after == before,
        outputs == queued,
{
}

/// Where 16 outputs are queued already, nothing is queued behind them: an event that has no room
/// is refused.
pub proof fn full_queues_stay(
    before: ApplicationModel,
    after: ApplicationModel,
    message_type: ApplicationMessageType,
    table: Table,
    queued: Seq<ApplicationOutput>,
    outputs: Seq<ApplicationOutput>,
    r: Result<(), ApplicationError>,
)
    requires
        is_message_outcome(before, after, message_type, table, queued, outputs, r),
        queued.len() >= 16,
    ensures
        outputs == queued,
        message_type == ApplicationMessageType::AgentInfoResponse || message_type
            == ApplicationMessageType::AgentInfoEvent || message_type
            == ApplicationMessageType::AgentStatusResponse || message_type
            == ApplicationMessageType::PresentationStartResponse || message_type
            == ApplicationMessageType::PresentationTerminationEvent || message_type
            == ApplicationMessageType::PresentationConnectionMessage || message_type
            == ApplicationMessageType::PresentationConnectionCloseEvent || message_type
            == ApplicationMessageType::PresentationChangeEvent || (message_type
            == ApplicationMessageType::PresentationConnectionOpenResponse && table[1] == Some(
            Value::Uint(1),
        )) ==> r == Err::<(), ApplicationError>(ApplicationError::BufferFull),
{
}

/// What the network layer refuses is reported with its reason, and what cannot be written is
/// reported as that.
pub proof fn errors_are_passed_on(network: NetworkError, message: MessageError)
    ensures
        <ApplicationError as FromSpec<NetworkError>>::from_spec(network)
            == ApplicationError::NetworkError(network),
        <ApplicationError as FromSpec<MessageError>>::from_spec(message)
            == ApplicationError::EncodeFailed,
{
}

/// What happens to the state: a presentation begins with a start response that reports success,
/// which is the code 1, and ends with a termination event. No other message changes anything,
/// and none changes who is authenticated or the next request id.
pub proof fn state_changes(
    before: ApplicationModel,
    after: ApplicationModel,
    message_type: ApplicationMessageType,
    table: Table,
    queued: Seq<ApplicationOutput>,
    outputs: Seq<ApplicationOutput>,
    r: Result<(), ApplicationError>,
)
    requires
        is_message_outcome(before, after, message_type, table, queued, outputs, r),
    ensures
        after.authenticated == before.authenticated,
        after.next_request_id == before.next_request_id,
        message_type == ApplicationMessageType::PresentationStartResponse ==> {
            &&& table[1] == Some(Value::Uint(1)) ==> after.state == ApplicationState::Presenting
            &&& table[1] != Some(Value::Uint(1)) ==> after.state == before.state
        },
        message_type == ApplicationMessageType::PresentationTerminationEvent ==> after.state
            == ApplicationState::Authenticated,
        message_type != ApplicationMessageType::PresentationStartResponse && message_type
            != ApplicationMessageType::PresentationTerminationEvent ==> after.state == before.state,
{
}

/// The event that was queued behind what was there already.
pub open spec fn one_event(
    queued: Seq<ApplicationOutput>,
    outputs: Seq<ApplicationOutput>,
    r: Result<(), ApplicationError>,
) -> Option<ApplicationEvent> {
    if r is Ok && outputs.len() == queued.len() + 1 && outputs.drop_last() == queued {
        match outputs.last() {
            ApplicationOutput::Event(event) => Some(event),
            _ => None,
        }
    } else {
        None
    }
}

/// A presentation has started if and only if the response reports success, which is the code 1;
/// for every other result the user is told of a rejection.
pub proof fn start_is_told(
    before: ApplicationModel,
    after: ApplicationModel,
    table: Table,
    queued: Seq<ApplicationOutput>,
    outputs: Seq<ApplicationOutput>,
    r: Result<(), ApplicationError>,
)
    requires
        is_message_outcome(
            before,
            after,
            ApplicationMessageType::PresentationStartResponse,
            table,
            queued,
            outputs,
            r,
        ),
        queued.len() < 16,
    ensures
        one_event(queued, outputs, r) matches Some(event) && {
            &&& table[1] == Some(Value::Uint(1)) <==> event is PresentationStarted
            &&& table[1] != Some(Value::Uint(1)) <==> event is PresentationRejected
            &&& event matches ApplicationEvent::PresentationStarted { connection_id } ==> table[2]
                == Some(Value::Uint(connection_id as nat))
        },
{
}

/// A connection is open if and only if the response reports success, which is the code 1; the
/// user is told of nothing else.
pub proof fn opening_is_told(
    before: ApplicationModel,
    after: ApplicationModel,
    table: Table,
    queued: Seq<ApplicationOutput>,
    outputs: Seq<ApplicationOutput>,
    r: Result<(), ApplicationError>,
)
    requires
        is_message_outcome(
            before,
            after,
            ApplicationMessageType::PresentationConnectionOpenResponse,
            table,
            queued,
            outputs,
            r,
        ),
        queued.len() < 16,
    ensures
        table[1] == Some(Value::Uint(1)) ==> (one_event(queued, outputs, r) matches Some(event)
            && (event matches ApplicationEvent::PresentationConnectionOpened { connection_id }
            && table[2] == Some(Value::Uint(connection_id as nat)))),
        table[1] != Some(Value::Uint(1)) ==> r is Ok && outputs == queued,
{
}

/// The user is told which presentation ended and why: the number of the reason is the one that
/// was read. A presentation id of more than 256 bytes is left out.
pub proof fn termination_is_told(
    before: ApplicationModel,
    after: ApplicationModel,
    table: Table,
    queued: Seq<ApplicationOutput>,
    outputs: Seq<ApplicationOutput>,
    r: Result<(), ApplicationError>,
)
    requires
        is_message_outcome(
            before,
            after,
            ApplicationMessageType::PresentationTerminationEvent,
            table,
            queued,
            outputs,
            r,
        ),
        queued.len() < 16,
    ensures
        one_event(queued, outputs, r) matches Some(event) && (
        event matches ApplicationEvent::PresentationTerminated { presentation_id, reason } && {
            &&& table[0] matches Some(Value::Text(text)) && {
                &&& byte_len(text) <= 256 ==> presentation_id@ == text
                &&& byte_len(text) > 256 ==> presentation_id@.len() == 0
            }
            &&& table[2] == Some(Value::Uint(reason.code() as nat))
        }),
{
}

/// Data of a presentation reaches the user whole, with its connection, up to 1024 bytes; longer
/// data is refused and nothing of it is told.
pub proof fn data_is_told(
    before: ApplicationModel,
    after: ApplicationModel,
    table: Table,
    content: Seq<u8>,
    queued: Seq<ApplicationOutput>,
    outputs: Seq<ApplicationOutput>,
    r: Result<(), ApplicationError>,
)
    requires
        is_message_outcome(
            before,
            after,
            ApplicationMessageType::PresentationConnectionMessage,
            table,
            queued,
            outputs,
            r,
        ),
        table[1] == Some(Value::Blob(content)),
        queued.len() < 16,
    ensures
        content.len() <= 1024 ==> (one_event(queued, outputs, r) matches Some(event) && (
        event matches ApplicationEvent::PresentationMessageReceived { connection_id, message }
            && table[0] == Some(Value::Uint(connection_id as nat)) && message@ == content)),
        content.len() > 1024 ==> r == Err::<(), ApplicationError>(ApplicationError::BufferFull)
            && outputs == queued,
{
}

/// The user is told which connection was closed, and why.
pub proof fn closing_is_told(
    before: ApplicationModel,
    after: ApplicationModel,
    table: Table,
    queued: Seq<ApplicationOutput>,
    outputs: Seq<ApplicationOutput>,
    r: Result<(), ApplicationError>,
)
    requires
        is_message_outcome(
            before,
            after,
            ApplicationMessageType::PresentationConnectionCloseEvent,
            table,
            queued,
            outputs,
            r,
        ),
        queued.len() < 16,
    ensures
        one_event(queued, outputs, r) matches Some(event) && (
        event matches ApplicationEvent::PresentationConnectionClosed { connection_id, reason } && {
            &&& table[0] == Some(Value::Uint(connection_id as nat))
            &&& table[1] == Some(Value::Uint(reason.code() as nat))
        }),
{
}

/// The user is told the status of the agent, if it has one; one of more than 256 bytes is left
/// out.
pub proof fn status_is_told(
    before: ApplicationModel,
    after: ApplicationModel,
    table: Table,
    queued: Seq<ApplicationOutput>,
    outputs: Seq<ApplicationOutput>,
    r: Result<(), ApplicationError>,
)
    requires
        is_message_outcome(
            before,
            after,
            ApplicationMessageType::AgentStatusResponse,
            table,
            queued,
            outputs,
            r,
        ),
        queued.len() < 16,
    ensures
        one_event(queued, outputs, r) matches Some(event) && (
        event matches ApplicationEvent::AgentStatusReceived { status_message } && {
            &&& table[1] is None ==> status_message is None
            &&& table[1] matches Some(Value::Status(text)) ==> (status_message matches Some(status)
                && {
                &&& byte_len(text) <= 256 ==> status@ == text
                &&& byte_len(text) > 256 ==> status@.len() == 0
            })
        }),
{
}

/// The user is told that the information on the agent, or the number of connections, changed.
pub proof fn changes_are_told(
    before: ApplicationModel,
    after: ApplicationModel,
    message_type: ApplicationMessageType,
    table: Table,
    queued: Seq<ApplicationOutput>,
    outputs: Seq<ApplicationOutput>,
    r: Result<(), ApplicationError>,
)
    requires
        is_message_outcome(before, after, message_type, table, queued, outputs, r),
        queued.len() < 16,
    ensures
        message_type == ApplicationMessageType::AgentInfoResponse || message_type
            == ApplicationMessageType::AgentInfoEvent ==> one_event(queued, outputs, r) == Some(
            ApplicationEvent::AgentInfoChanged,
        ),
        message_type == ApplicationMessageType::PresentationChangeEvent ==> one_event(
            queued,
            outputs,
            r,
        ) == Some(ApplicationEvent::PresentationChanged),
{
}

/// The user is told nothing of the requests of the peer, of the answers to a termination and of
/// the availability of URLs.
pub proof fn others_are_not_told(
    before: ApplicationModel,
    after: ApplicationModel,
    message_type: ApplicationMessageType,
    table: Table,
    queued: Seq<ApplicationOutput>,
    outputs: Seq<ApplicationOutput>,
    r: Result<(), ApplicationError>,
)
    requires
        is_message_outcome(before, after, message_type, table, queued, outputs, r),
    ensures
        message_type == ApplicationMessageType::AgentInfoRequest || message_type
            == ApplicationMessageType::AgentStatusRequest || message_type
            == ApplicationMessageType::PresentationUrlAvailabilityRequest || message_type
            == ApplicationMessageType::PresentationUrlAvailabilityResponse || message_type
            == ApplicationMessageType::PresentationUrlAvailabilityEvent || message_type
            == ApplicationMessageType::PresentationStartRequest || message_type
            == ApplicationMessageType::PresentationTerminationRequest || message_type
            == ApplicationMessageType::PresentationTerminationResponse || message_type
            == ApplicationMessageType::PresentationConnectionOpenRequest ==> r is Ok && outputs
            == queued,
{
}

// ---- What the user wants ----

/// What a start asks for on the wire: the request id, the presentation id, the URL and no
/// headers, under the keys 0 to 3.
pub proof fn start_on_the_wire(url: &str, presentation_id: &str, request_id: u64)
    ensures
        command_bytes(ApplicationInput::StartPresentation { url, presentation_id }, request_id)
            == type_key_bytes(104) + (head_bytes(MAP, 4) + uint_bytes(0) + uint_bytes(
            request_id as nat,
        ) + uint_bytes(1) + text_bytes(presentation_id@) + uint_bytes(2) + text_bytes(url@)
            + uint_bytes(3) + head_bytes(ARRAY, 0)),
{
    reveal_with_fuel(entries_bytes, 5);
    reveal_with_fuel(entry_count, 5);
    reveal_with_fuel(crate::cbor::fields::header_items, 1);
    assert(head_bytes(ARRAY, 0) + Seq::<u8>::empty() =~= head_bytes(ARRAY, 0));
}

/// What a termination says on the wire: the request id, the presentation id and the number of
/// the reason, under the keys 0 to 2.
pub proof fn termination_on_the_wire(input: ApplicationInput, request_id: u64)
    ensures
        input matches ApplicationInput::TerminatePresentation { presentation_id, reason }
            ==> command_bytes(input, request_id) == type_key_bytes(106) + (head_bytes(MAP, 3)
            + uint_bytes(0) + uint_bytes(request_id as nat) + uint_bytes(1) + text_bytes(
            presentation_id@,
        ) + uint_bytes(2) + uint_bytes(reason.code() as nat)),
{
    reveal_with_fuel(entries_bytes, 4);
    reveal_with_fuel(entry_count, 4);
}

/// What an availability request asks for on the wire: the request id, the URLs in their order,
/// the duration and no watch, under the keys 0 to 3.
pub proof fn availability_on_the_wire(input: ApplicationInput, request_id: u64)
    ensures
        input matches ApplicationInput::CheckUrlAvailability { urls, watch_duration }
            ==> command_bytes(input, request_id) == type_key_bytes(14) + (head_bytes(MAP, 4)
            + uint_bytes(0) + uint_bytes(request_id as nat) + uint_bytes(1) + (head_bytes(
            ARRAY,
            urls@.len(),
        ) + text_items(texts_of(urls@))) + uint_bytes(2) + uint_bytes(watch_duration as nat)
            + uint_bytes(3) + uint_bytes(0)),
{
    reveal_with_fuel(entries_bytes, 5);
    reveal_with_fuel(entry_count, 5);
}

/// What a connection asks for on the wire: the request id, the presentation id and the URL,
/// under the keys 0 to 2.
pub proof fn opening_on_the_wire(input: ApplicationInput, request_id: u64)
    ensures
        input matches ApplicationInput::OpenPresentationConnection { presentation_id, url }
            ==> command_bytes(input, request_id) == type_key_bytes(109) + (head_bytes(MAP, 3)
            + uint_bytes(0) + uint_bytes(request_id as nat) + uint_bytes(1) + text_bytes(
            presentation_id@,
        ) + uint_bytes(2) + text_bytes(url@)),
{
    reveal_with_fuel(entries_bytes, 4);
    reveal_with_fuel(entry_count, 4);
}

/// Data for a presentation on the wire: the connection and the bytes, under the keys 0 and 1.
pub proof fn data_on_the_wire(input: ApplicationInput, request_id: u64)
    ensures
        input matches ApplicationInput::SendPresentationMessage { connection_id, message }
            ==> command_bytes(input, request_id) == type_key_bytes(16) + (head_bytes(MAP, 2)
            + uint_bytes(0) + uint_bytes(connection_id as nat) + uint_bytes(1) + blob_bytes(
            message@,
        )),
{
    reveal_with_fuel(entries_bytes, 3);
    reveal_with_fuel(entry_count, 3);
}

/// The end of a connection on the wire: the connection, the number of the reason and, under the
/// key 3, no further connections.
pub proof fn closing_on_the_wire(input: ApplicationInput, request_id: u64)
    ensures
        input matches ApplicationInput::ClosePresentationConnection { connection_id, reason }
            ==> command_bytes(input, request_id) == type_key_bytes(113) + (head_bytes(MAP, 3)
            + uint_bytes(0) + uint_bytes(connection_id as nat) + uint_bytes(1) + uint_bytes(
            reason.code() as nat,
        ) + uint_bytes(3) + uint_bytes(0)),
{
    reveal_with_fuel(entries_bytes, 5);
    reveal_with_fuel(entry_count, 5);
}

/// A status request on the wire: the request id and, if there is one, the status, a map with
/// the text under the key 0.
pub proof fn status_on_the_wire(input: ApplicationInput, request_id: u64)
    ensures
        input matches ApplicationInput::RequestAgentStatus { status_message: Some(text) }
            ==> command_bytes(input, request_id) == type_key_bytes(12) + (head_bytes(MAP, 2)
            + uint_bytes(0) + uint_bytes(request_id as nat) + uint_bytes(1) + (head_bytes(MAP, 1)
            + uint_bytes(0) + text_bytes(text@))),
        input matches ApplicationInput::RequestAgentStatus { status_message: None }
            ==> command_bytes(input, request_id) == type_key_bytes(12) + (head_bytes(MAP, 1)
            + uint_bytes(0) + uint_bytes(request_id as nat)),
{
    reveal_with_fuel(entries_bytes, 3);
    reveal_with_fuel(entry_count, 3);
}

/// A request for information on the wire: the request id under the key 0.
pub proof fn information_on_the_wire(request_id: u64)
    ensures
        command_bytes(ApplicationInput::RequestAgentInfo, request_id) == type_key_bytes(10) + (
        head_bytes(MAP, 1) + uint_bytes(0) + uint_bytes(request_id as nat)),
{
    reveal_with_fuel(entries_bytes, 2);
    reveal_with_fuel(entry_count, 2);
}

/// A command of an authenticated user is sent, on the first stream and as one message, if it
/// fits into 1024 bytes and names at most 16 URLs; otherwise nothing is sent. A request takes
/// the next id, and data and the end of a connection take none.
pub proof fn commands_are_sent(
    before: ApplicationModel,
    after: ApplicationModel,
    input: ApplicationInput,
    queued: Seq<ApplicationOutput>,
    outputs: Seq<ApplicationOutput>,
    r: Result<(), ApplicationError>,
)
    requires
        before.authenticated,
        queued.len() < 16,
        is_command_outcome(before, after, input, queued, outputs, r),
    ensures
        after.authenticated,
        after.state == before.state,
        input is StartPresentation || input is TerminatePresentation || input is CheckUrlAvailability
            || input is OpenPresentationConnection || input is RequestAgentStatus
            || input is RequestAgentInfo ==> after.next_request_id == if before.next_request_id
            == u64::MAX {
            0
        } else {
            before.next_request_id + 1
        },
        input is SendPresentationMessage || input is ClosePresentationConnection
            ==> after.next_request_id == before.next_request_id,
        r is Ok <==> command_bytes(input, before.next_request_id).len() <= 1024 && (
        input matches ApplicationInput::CheckUrlAvailability { urls, .. } ==> urls@.len() <= 16),
        r is Ok ==> outputs.len() == queued.len() + 1 && outputs.drop_last() == queued && (
        outputs.last() matches ApplicationOutput::SendData { stream, data } && stream == 0 && data@
            == command_bytes(input, before.next_request_id)),
        r is Err ==> outputs == queued,
        r matches Err(e) ==> e == if input matches ApplicationInput::CheckUrlAvailability {
            urls,
            ..
        } && urls@.len() > 16 {
            ApplicationError::BufferFull
        } else {
            ApplicationError::EncodeFailed
        },
{
}

/// A command without authentication is refused, and nothing changes.
pub proof fn strangers_get_nothing(
    before: ApplicationModel,
    after: ApplicationModel,
    input: ApplicationInput,
    queued: Seq<ApplicationOutput>,
    outputs: Seq<ApplicationOutput>,
    r: Result<(), ApplicationError>,
)
    requires
        !before.authenticated,
        is_command_outcome(before, after, input, queued, outputs, r),
    ensures
        r == Err::<(), ApplicationError>(ApplicationError::NotAuthenticated),
        after == before,
        outputs == queued,
{
}

/// The inputs that are commands: each of them sends its own kind of message, and no other input
/// sends any.
pub proof fn commands_have_their_types(input: ApplicationInput)
    ensures
        input is StartPresentation <==> command_type(input) == Some(
            ApplicationMessageType::PresentationStartRequest,
        ),
        input is TerminatePresentation <==> command_type(input) == Some(
            ApplicationMessageType::PresentationTerminationRequest,
        ),
        input is CheckUrlAvailability <==> command_type(input) == Some(
            ApplicationMessageType::PresentationUrlAvailabilityRequest,
        ),
        input is OpenPresentationConnection <==> command_type(input) == Some(
            ApplicationMessageType::PresentationConnectionOpenRequest,
        ),
        input is SendPresentationMessage <==> command_type(input) == Some(
            ApplicationMessageType::PresentationConnectionMessage,
        ),
        input is ClosePresentationConnection <==> command_type(input) == Some(
            ApplicationMessageType::PresentationConnectionCloseEvent,
        ),
        input is RequestAgentStatus <==> command_type(input) == Some(
            ApplicationMessageType::AgentStatusRequest,
        ),
        input is RequestAgentInfo <==> command_type(input) == Some(
            ApplicationMessageType::AgentInfoRequest,
        ),
        input is TransportConnected || input is StreamOpened || input is StreamClosed
            || input is DataReceived || input is CryptoCompleted || input is Tick <==> command_type(
            input,
        ) is None,
{
}

/// Request ids count up by one, and begin again at zero behind the largest.
pub proof fn request_ids_count_up(request_id: u64, n: nat)
    ensures
        id_after(request_id) == (request_id + 1) % 0x1_0000_0000_0000_0000,
        id_after_requests(request_id, n + 1) == (id_after_requests(request_id, n) + 1)
            % 0x1_0000_0000_0000_0000,
        id_after_requests(request_id, 0) == request_id,
{
}

// ---- What a receiver answers ----

/// The answer to a request for information on the wire: the id of the request, and the name of
/// the receiver, its model, no capabilities, the token `ready` and no locales.
pub proof fn answer_on_the_wire(request_id: nat, name: Seq<char>)
    ensures
        answer_bytes(request_id, name) == type_key_bytes(11) + (head_bytes(MAP, 2) + uint_bytes(0)
            + uint_bytes(request_id) + uint_bytes(1) + head_bytes(MAP, 5) + uint_bytes(0)
            + text_bytes(name) + uint_bytes(1) + text_bytes("OpenScreen Test Receiver"@)
            + uint_bytes(2) + head_bytes(ARRAY, 0) + uint_bytes(3) + text_bytes("ready"@)
            + uint_bytes(4) + head_bytes(ARRAY, 0)),
{
    reveal_with_fuel(entries_bytes, 6);
    assert(head_bytes(ARRAY, 0) + Seq::<u8>::empty() =~= head_bytes(ARRAY, 0));
}

} // verus!
