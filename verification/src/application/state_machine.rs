//! Drives the application protocol: commands of the user, messages of the peer, and what the
//! network layer did.
use crate::application::commands::{
    command_bytes, command_fields, command_type, has_too_many_urls, id_after, is_request,
};
use crate::application::laws::{requests_are_handed_over, requests_asked, requests_handed};
use crate::application::messages::agent::{AgentInfoRequest, AgentStatusRequest, Status};
use crate::application::messages::availability::PresentationUrlAvailabilityRequest;
use crate::application::messages::codes::{
    ApplicationMessageType, PresentationConnectionCloseReason, PresentationResult,
    PresentationTerminationReason,
};
use crate::application::messages::connection::{
    PresentationConnectionCloseEvent, PresentationConnectionMessage,
    PresentationConnectionOpenRequest,
};
use crate::application::messages::message::{application_message_at, ApplicationMessage};
use crate::application::messages::presentation::{
    headers_of, PresentationStartRequest, PresentationTerminationRequest,
};
use crate::application::state::ApplicationState;
use crate::application::{
    ApplicationError, ApplicationEvent, ApplicationInput, ApplicationOutput, MAX_OUTPUT_QUEUE,
};
use crate::bounded::{byte_len, BoundedString, BoundedVec};
use crate::cbor::code::WireCode;
use crate::cbor::fields::{Table, Value};
use crate::common::error::{StreamId, MAX_CBOR_SIZE, MAX_URLS};
use crate::common::type_key::type_key_bytes;
use crate::network::{NetworkError, NetworkEvent, NetworkInput, NetworkOutput};
use vstd::prelude::*;

verus! {

/// The machine. It knows of the network layer only whether that has authenticated the peer:
/// inputs for the network layer are handed out, and what the network layer made of them is
/// handed back.
pub struct ApplicationStateMachine {
    network_authenticated: bool,
    app_state: ApplicationState,
    next_request_id: u64,
}

/// What the machine remembers.
pub struct ApplicationModel {
    /// Whether the network layer has authenticated the peer.
    pub authenticated: bool,
    pub state: ApplicationState,
    /// The id of the next request.
    pub next_request_id: u64,
}

impl View for ApplicationStateMachine {
    type V = ApplicationModel;

    closed spec fn view(&self) -> ApplicationModel {
        ApplicationModel {
            authenticated: self.network_authenticated,
            state: self.app_state,
            next_request_id: self.next_request_id,
        }
    }
}

/// The queue that an input fills.
pub type Outputs<'a> = BoundedVec<ApplicationOutput<'a>, MAX_OUTPUT_QUEUE>;

/// Whether these bytes are to be sent, on the first stream, after what was queued.
pub open spec fn is_sent(
    queued: Seq<ApplicationOutput>,
    outputs: Seq<ApplicationOutput>,
    bytes: Seq<u8>,
) -> bool {
    &&& outputs.len() == queued.len() + 1
    &&& outputs.drop_last() == queued
    &&& outputs.last() matches ApplicationOutput::SendData { stream, data }
    &&& stream == 0
    &&& data@ == bytes
}

/// What a command comes to, where `queued` is to be done already: without authentication it
/// is refused and nothing changes.
pub open spec fn is_command_outcome(
    before: ApplicationModel,
    after: ApplicationModel,
    input: ApplicationInput,
    queued: Seq<ApplicationOutput>,
    outputs: Seq<ApplicationOutput>,
    r: Result<(), ApplicationError>,
) -> bool {
    let bytes = command_bytes(input, before.next_request_id);
    if !before.authenticated {
        &&& r == Err::<(), ApplicationError>(ApplicationError::NotAuthenticated)
        &&& after == before
        &&& outputs == queued
    } else {
        &&& after == if is_request(input) {
            ApplicationModel { next_request_id: id_after(before.next_request_id), ..before }
        } else {
            before
        }
        &&& if has_too_many_urls(input) {
            &&& r == Err::<(), ApplicationError>(ApplicationError::BufferFull)
            &&& outputs == queued
        } else if bytes.len() > MAX_CBOR_SIZE {
            &&& r == Err::<(), ApplicationError>(ApplicationError::EncodeFailed)
            &&& outputs == queued
        } else if queued.len() >= MAX_OUTPUT_QUEUE {
            &&& r == Err::<(), ApplicationError>(ApplicationError::BufferFull)
            &&& outputs == queued
        } else {
            &&& r is Ok
            &&& is_sent(queued, outputs, bytes)
        }
    }
}

/// The text that an event keeps: one that is too long is left out.
pub open spec fn kept(text: Seq<char>) -> Seq<char> {
    if byte_len(text) <= 256 {
        text
    } else {
        Seq::empty()
    }
}

/// Whether a message of the peer reports a success in its second field.
pub open spec fn reports_success(table: Table) -> bool {
    table[1] == Some(Value::Uint(PresentationResult::Success.code() as nat))
}

/// Whether the user is told of a message of the peer.
pub open spec fn is_announced(message_type: ApplicationMessageType, table: Table) -> bool {
    match message_type {
        ApplicationMessageType::AgentInfoResponse => true,
        ApplicationMessageType::AgentStatusResponse => true,
        ApplicationMessageType::AgentInfoEvent => true,
        ApplicationMessageType::PresentationStartResponse => true,
        ApplicationMessageType::PresentationTerminationEvent => true,
        ApplicationMessageType::PresentationConnectionOpenResponse => reports_success(table),
        ApplicationMessageType::PresentationConnectionMessage => true,
        ApplicationMessageType::PresentationConnectionCloseEvent => true,
        ApplicationMessageType::PresentationChangeEvent => true,
        _ => false,
    }
}

/// Whether an event tells what a message of the peer says.
pub open spec fn tells(
    event: ApplicationEvent,
    message_type: ApplicationMessageType,
    table: Table,
) -> bool {
    match message_type {
        ApplicationMessageType::AgentInfoResponse => event is AgentInfoChanged,
        ApplicationMessageType::AgentInfoEvent => event is AgentInfoChanged,
        ApplicationMessageType::AgentStatusResponse => {
            &&& event matches ApplicationEvent::AgentStatusReceived { status_message }
            &&& match table[1] {
                Some(Value::Status(text)) => status_message matches Some(status) && status@ == kept(
                    text,
                ),
                _ => status_message is None,
            }
        },
        ApplicationMessageType::PresentationStartResponse => if reports_success(table) {
            &&& event matches ApplicationEvent::PresentationStarted { connection_id }
            &&& table[2] == Some(Value::Uint(connection_id as nat))
        } else {
            event is PresentationRejected
        },
        ApplicationMessageType::PresentationTerminationEvent => {
            &&& event matches ApplicationEvent::PresentationTerminated { presentation_id, reason }
            &&& table[0] matches Some(Value::Text(text))
            &&& presentation_id@ == kept(text)
            &&& table[2] == Some(Value::Uint(reason.code() as nat))
        },
        ApplicationMessageType::PresentationConnectionOpenResponse => {
            &&& event matches ApplicationEvent::PresentationConnectionOpened { connection_id }
            &&& table[2] == Some(Value::Uint(connection_id as nat))
        },
        ApplicationMessageType::PresentationConnectionMessage => {
            &&& event matches ApplicationEvent::PresentationMessageReceived {
                connection_id,
                message,
            }
            &&& table[0] == Some(Value::Uint(connection_id as nat))
            &&& table[1] == Some(Value::Blob(message@))
        },
        ApplicationMessageType::PresentationConnectionCloseEvent => {
            &&& event matches ApplicationEvent::PresentationConnectionClosed {
                connection_id,
                reason,
            }
            &&& table[0] == Some(Value::Uint(connection_id as nat))
            &&& table[1] == Some(Value::Uint(reason.code() as nat))
        },
        ApplicationMessageType::PresentationChangeEvent => event is PresentationChanged,
        _ => false,
    }
}

/// Whether a message of the peer is longer than an event can hold.
pub open spec fn is_oversized(message_type: ApplicationMessageType, table: Table) -> bool {
    &&& message_type == ApplicationMessageType::PresentationConnectionMessage
    &&& table[1] matches Some(Value::Blob(message))
    &&& message.len() > 1024
}

/// The state after a message of the peer.
pub open spec fn state_after(
    state: ApplicationState,
    message_type: ApplicationMessageType,
    table: Table,
) -> ApplicationState {
    match message_type {
        ApplicationMessageType::PresentationStartResponse => if reports_success(table) {
            ApplicationState::Presenting
        } else {
            state
        },
        ApplicationMessageType::PresentationTerminationEvent => ApplicationState::Authenticated,
        _ => state,
    }
}

/// What a message of the peer comes to, where `queued` is to be done already.
pub open spec fn is_message_outcome(
    before: ApplicationModel,
    after: ApplicationModel,
    message_type: ApplicationMessageType,
    table: Table,
    queued: Seq<ApplicationOutput>,
    outputs: Seq<ApplicationOutput>,
    r: Result<(), ApplicationError>,
) -> bool {
    &&& after == ApplicationModel {
        state: state_after(before.state, message_type, table),
        ..before
    }
    &&& if is_oversized(message_type, table) || is_announced(message_type, table)
        && queued.len() >= MAX_OUTPUT_QUEUE {
        &&& r == Err::<(), ApplicationError>(ApplicationError::BufferFull)
        &&& outputs == queued
    } else if is_announced(message_type, table) {
        &&& r is Ok
        &&& outputs.len() == queued.len() + 1
        &&& outputs.drop_last() == queued
        &&& outputs.last() matches ApplicationOutput::Event(event)
        &&& tells(event, message_type, table)
    } else {
        &&& r is Ok
        &&& outputs == queued
    }
}

/// What data of the peer comes to. Until the peer is authenticated all of it is for the
/// network layer. Then a message of the application protocol is handled here, and other data
/// is still for the network layer.
pub open spec fn is_data_outcome<'a>(
    before: ApplicationModel,
    after: ApplicationModel,
    stream: StreamId,
    data: &'a [u8],
    queued: Seq<ApplicationOutput>,
    outputs: Seq<ApplicationOutput>,
    r: Result<Option<NetworkInput<'a>>, ApplicationError>,
) -> bool {
    if before.authenticated && application_message_at(data@) is Ok {
        let (message_type, table) = application_message_at(data@)->Ok_0;
        &&& r matches Ok(next) ==> next is None
        &&& is_message_outcome(
            before,
            after,
            message_type,
            table,
            queued,
            outputs,
            match r {
                Ok(_) => Ok(()),
                Err(e) => Err(e),
            },
        )
    } else {
        &&& r == Ok::<Option<NetworkInput>, ApplicationError>(
            Some(NetworkInput::DataReceived(stream, data)),
        )
        &&& after == before
        &&& outputs == queued
    }
}

/// The input for the network layer that a transport event comes to.
pub open spec fn network_input<'a>(input: ApplicationInput<'a>) -> Option<NetworkInput<'a>> {
    match input {
        ApplicationInput::TransportConnected => Some(NetworkInput::TransportConnected),
        ApplicationInput::StreamOpened(id) => Some(NetworkInput::StreamOpened(id)),
        ApplicationInput::StreamClosed(id) => Some(NetworkInput::StreamClosed(id)),
        ApplicationInput::DataReceived(stream, data) => Some(
            NetworkInput::DataReceived(stream, data),
        ),
        ApplicationInput::CryptoCompleted(result) => Some(NetworkInput::CryptoCompleted(result)),
        ApplicationInput::Tick(timestamp) => Some(NetworkInput::Tick(timestamp)),
        _ => None,
    }
}

/// What an output of the network layer comes to here. Messages and data of the network
/// layer go to the transport directly.
pub open spec fn translation<'a>(output: NetworkOutput<'a>) -> Option<ApplicationOutput<'a>> {
    match output {
        NetworkOutput::OpenUniStream => Some(ApplicationOutput::OpenBiStream),
        NetworkOutput::SendMessage(_) => None,
        NetworkOutput::SendData { .. } => None,
        NetworkOutput::CloseStream(stream) => Some(ApplicationOutput::CloseStream(stream)),
        NetworkOutput::CloseConnection => Some(ApplicationOutput::CloseConnection),
        NetworkOutput::RequestCrypto(request) => Some(ApplicationOutput::RequestCrypto(request)),
        NetworkOutput::NeedsPoll => Some(ApplicationOutput::NeedsPoll),
        NetworkOutput::Event(NetworkEvent::Authenticated) => Some(
            ApplicationOutput::Event(ApplicationEvent::Authenticated),
        ),
        NetworkOutput::Event(NetworkEvent::AuthenticationFailed(_)) => Some(
            ApplicationOutput::Event(ApplicationEvent::AuthenticationFailed),
        ),
    }
}

/// What the outputs of the network layer come to, in their order.
pub open spec fn translations<'a>(outputs: Seq<NetworkOutput<'a>>) -> Seq<ApplicationOutput<'a>>
    decreases outputs.len(),
{
    if outputs.len() == 0 {
        Seq::empty()
    } else {
        let before = translations(outputs.drop_last());
        match translation(outputs.last()) {
            Some(output) => before.push(output),
            None => before,
        }
    }
}

/// Whether the network layer tells that the peer is authenticated.
pub open spec fn tells_authenticated(outputs: Seq<NetworkOutput>) -> bool {
    exists|i: int|
        0 <= i < outputs.len() && #[trigger] outputs[i] == NetworkOutput::Event(
            NetworkEvent::Authenticated,
        )
}

/// What the machine remembers after the network layer handled an input.
pub open spec fn after_network(
    before: ApplicationModel,
    outputs: Seq<NetworkOutput>,
    is_authenticated: bool,
) -> ApplicationModel {
    ApplicationModel {
        authenticated: is_authenticated,
        state: if tells_authenticated(outputs) {
            ApplicationState::Authenticated
        } else {
            before.state
        },
        next_request_id: before.next_request_id,
    }
}

/// Queues one output, if there is room.
fn emit<'a>(outputs: &mut Outputs<'a>, output: ApplicationOutput<'a>) -> (r: Result<
    (),
    ApplicationError,
>)
    ensures
        if old(outputs)@.len() < MAX_OUTPUT_QUEUE {
            r is Ok && final(outputs)@ == old(outputs)@.push(output)
        } else {
            r == Err::<(), ApplicationError>(ApplicationError::BufferFull) && final(outputs)@
                == old(outputs)@
        },
{
    match outputs.push(output) {
        Ok(()) => Ok(()),
        Err(_) => Err(ApplicationError::BufferFull),
    }
}

/// Queues a message, if there is room.
fn send<'a>(message: &ApplicationMessage, outputs: &mut Outputs<'a>) -> (r: Result<
    (),
    ApplicationError,
>)
    ensures
        ({
            let bytes = type_key_bytes(message.message_type().key()) + message.body();
            if bytes.len() > MAX_CBOR_SIZE {
                &&& r == Err::<(), ApplicationError>(ApplicationError::EncodeFailed)
                &&& final(outputs)@ == old(outputs)@
            } else if old(outputs)@.len() >= MAX_OUTPUT_QUEUE {
                &&& r == Err::<(), ApplicationError>(ApplicationError::BufferFull)
                &&& final(outputs)@ == old(outputs)@
            } else {
                &&& r is Ok
                &&& is_sent(old(outputs)@, final(outputs)@, bytes)
            }
        }),
{
    let mut buf: BoundedVec<u8, MAX_CBOR_SIZE> = BoundedVec::new();
    proof {
        let key = type_key_bytes(message.message_type().key());
        assert(Seq::<u8>::empty() + key + message.body() =~= key + message.body());
    }
    match message.encode(&mut buf) {
        Ok(()) => {},
        Err(e) => return Err(ApplicationError::from(e)),
    }
    let output = ApplicationOutput::SendData { stream: 0, data: buf };
    proof {
        assert(outputs@.push(output).drop_last() =~= outputs@);
    }
    emit(outputs, output)
}

/// The text that an event keeps.
fn keep(text: &str) -> (r: BoundedString<256>)
    ensures
        r@ == kept(text@),
{
    let mut string: BoundedString<256> = BoundedString::new();
    proof {
        assert(Seq::<char>::empty() + text@ =~= text@);
    }
    let _ = string.push_str(text);
    string
}

impl ApplicationStateMachine {
    /// Before authentication; the first request will have the id 1.
    pub fn new() -> (m: Self)
        ensures
            m@ == (ApplicationModel {
                authenticated: false,
                state: ApplicationState::Idle,
                next_request_id: 1,
            }),
    {
        ApplicationStateMachine {
            network_authenticated: false,
            app_state: ApplicationState::Idle,
            next_request_id: 1,
        }
    }

    /// Whether the network layer has authenticated the peer.
    pub fn is_authenticated(&self) -> (r: bool)
        ensures
            r == self@.authenticated,
    {
        self.network_authenticated
    }

    /// The state of the application protocol.
    pub fn application_state(&self) -> (r: ApplicationState)
        ensures
            r == self@.state,
    {
        self.app_state
    }

    /// Handles an input and queues what is to be done in place of what `outputs` held.
    ///
    /// An input for the network layer is handed back. The network layer has to take it, and
    /// what it made of it has to go to [`Self::handle_network_event`].
    pub fn handle_input<'a>(
        &mut self,
        input: ApplicationInput<'a>,
        outputs: &mut Outputs<'a>,
    ) -> (r: Result<Option<NetworkInput<'a>>, ApplicationError>)
        ensures
            if command_type(input) is Some {
                &&& r matches Ok(next) ==> next is None
                &&& is_command_outcome(
                    old(self)@,
                    final(self)@,
                    input,
                    Seq::empty(),
                    final(outputs)@,
                    match r {
                        Ok(_) => Ok(()),
                        Err(e) => Err(e),
                    },
                )
            } else {
                match input {
                    ApplicationInput::DataReceived(stream, data) => is_data_outcome(
                        old(self)@,
                        final(self)@,
                        stream,
                        data,
                        Seq::empty(),
                        final(outputs)@,
                        r,
                    ),
                    _ => {
                        &&& r == Ok::<Option<NetworkInput>, ApplicationError>(network_input(input))
                        &&& final(self)@ == old(self)@
                        &&& final(outputs)@ == Seq::<ApplicationOutput>::empty()
                    },
                }
            },
            input is TransportConnected ==> r == Ok::<Option<NetworkInput>, ApplicationError>(
                Some(NetworkInput::TransportConnected),
            ),
            input matches ApplicationInput::StreamOpened(id) ==> r == Ok::<
                Option<NetworkInput>,
                ApplicationError,
            >(Some(NetworkInput::StreamOpened(id))),
            input matches ApplicationInput::StreamClosed(id) ==> r == Ok::<
                Option<NetworkInput>,
                ApplicationError,
            >(Some(NetworkInput::StreamClosed(id))),
            input matches ApplicationInput::CryptoCompleted(result) ==> r == Ok::<
                Option<NetworkInput>,
                ApplicationError,
            >(Some(NetworkInput::CryptoCompleted(result))),
            input matches ApplicationInput::Tick(timestamp) ==> r == Ok::<
                Option<NetworkInput>,
                ApplicationError,
            >(Some(NetworkInput::Tick(timestamp))),
            input matches ApplicationInput::DataReceived(stream, data) ==> (!old(
                self,
            )@.authenticated ==> r == Ok::<Option<NetworkInput>, ApplicationError>(
                Some(NetworkInput::DataReceived(stream, data)),
            )),
    {
        outputs.clear();
        let done: Result<(), ApplicationError> = match input {
            ApplicationInput::StartPresentation {
                url,
                presentation_id,
            } => self.handle_start_presentation(url, presentation_id, outputs),
            ApplicationInput::TerminatePresentation {
                presentation_id,
                reason,
            } => self.handle_terminate_presentation(presentation_id, reason, outputs),
            ApplicationInput::CheckUrlAvailability {
                urls,
                watch_duration,
            } => self.handle_check_url_availability(urls, watch_duration, outputs),
            ApplicationInput::OpenPresentationConnection {
                presentation_id,
                url,
            } => self.handle_open_presentation_connection(presentation_id, url, outputs),
            ApplicationInput::SendPresentationMessage {
                connection_id,
                message,
            } => self.handle_send_presentation_message(connection_id, message, outputs),
            ApplicationInput::ClosePresentationConnection {
                connection_id,
                reason,
            } => self.handle_close_presentation_connection(connection_id, reason, outputs),
            ApplicationInput::RequestAgentStatus {
                status_message,
            } => self.handle_request_agent_status(status_message, outputs),
            ApplicationInput::RequestAgentInfo => self.handle_request_agent_info(outputs),
            ApplicationInput::TransportConnected => {
                return Ok(Some(NetworkInput::TransportConnected));
            },
            ApplicationInput::StreamOpened(id) => {
                return Ok(Some(NetworkInput::StreamOpened(id)));
            },
            ApplicationInput::StreamClosed(id) => {
                return Ok(Some(NetworkInput::StreamClosed(id)));
            },
            ApplicationInput::DataReceived(stream, data) => {
                return self.handle_data_received(stream, data, outputs);
            },
            ApplicationInput::CryptoCompleted(result) => {
                return Ok(Some(NetworkInput::CryptoCompleted(result)));
            },
            ApplicationInput::Tick(timestamp) => {
                return Ok(Some(NetworkInput::Tick(timestamp)));
            },
        };
        match done {
            Ok(()) => Ok(None),
            Err(e) => Err(e),
        }
    }

    /// The id of a new request.
    fn take_request_id(&mut self) -> (id: u64)
        ensures
            id == old(self)@.next_request_id,
            final(self)@ == (ApplicationModel {
                next_request_id: id_after(old(self)@.next_request_id),
                ..old(self)@
            }),
    {
        let request_id: u64 = self.next_request_id;
        self.next_request_id = request_id.wrapping_add(1);
        request_id
    }

    fn handle_start_presentation<'a>(
        &mut self,
        url: &'a str,
        presentation_id: &'a str,
        outputs: &mut Outputs<'a>,
    ) -> (r: Result<(), ApplicationError>)
        ensures
            is_command_outcome(
                old(self)@,
                final(self)@,
                ApplicationInput::StartPresentation { url, presentation_id },
                old(outputs)@,
                final(outputs)@,
                r,
            ),
    {
        if !self.is_authenticated() {
            return Err(ApplicationError::NotAuthenticated);
        }
        let request_id: u64 = self.take_request_id();
        let request = PresentationStartRequest {
            request_id,
            presentation_id,
            url,
            headers: BoundedVec::new(),
        };
        proof {
            assert(headers_of(request.headers@) =~= Seq::empty());
        }
        send(&ApplicationMessage::PresentationStartRequest(request), outputs)
    }

    fn handle_terminate_presentation<'a>(
        &mut self,
        presentation_id: &'a str,
        reason: PresentationTerminationReason,
        outputs: &mut Outputs<'a>,
    ) -> (r: Result<(), ApplicationError>)
        ensures
            is_command_outcome(
                old(self)@,
                final(self)@,
                ApplicationInput::TerminatePresentation { presentation_id, reason },
                old(outputs)@,
                final(outputs)@,
                r,
            ),
    {
        if !self.is_authenticated() {
            return Err(ApplicationError::NotAuthenticated);
        }
        let request_id: u64 = self.take_request_id();
        let request = PresentationTerminationRequest { request_id, presentation_id, reason };
        send(&ApplicationMessage::PresentationTerminationRequest(request), outputs)
    }

    fn handle_check_url_availability<'a>(
        &mut self,
        urls: &'a [&'a str],
        watch_duration: u64,
        outputs: &mut Outputs<'a>,
    ) -> (r: Result<(), ApplicationError>)
        ensures
            is_command_outcome(
                old(self)@,
                final(self)@,
                ApplicationInput::CheckUrlAvailability { urls, watch_duration },
                old(outputs)@,
                final(outputs)@,
                r,
            ),
    {
        if !self.is_authenticated() {
            return Err(ApplicationError::NotAuthenticated);
        }
        let request_id: u64 = self.take_request_id();
        let mut url_vec: BoundedVec<&'a str, MAX_URLS> = BoundedVec::new();
        let mut i: usize = 0;
        while i < urls.len()
            invariant
                i <= urls@.len(),
                i <= MAX_URLS,
                url_vec@ == urls@.take(i as int),
                old(self)@.authenticated,
                self@ == (ApplicationModel {
                    next_request_id: id_after(old(self)@.next_request_id),
                    ..old(self)@
                }),
                outputs@ == old(outputs)@,
            decreases urls.len() - i,
        {
            match url_vec.push(urls[i]) {
                Ok(()) => {
                    proof {
                        assert(url_vec@ =~= urls@.take(i + 1));
                    }
                },
                Err(_) => return Err(ApplicationError::BufferFull),
            }
            i = i + 1;
        }
        proof {
            assert(url_vec@ =~= urls@);
        }
        let request = PresentationUrlAvailabilityRequest {
            request_id,
            urls: url_vec,
            watch_duration,
            watch_id: 0,
        };
        send(&ApplicationMessage::PresentationUrlAvailabilityRequest(request), outputs)
    }

    fn handle_open_presentation_connection<'a>(
        &mut self,
        presentation_id: &'a str,
        url: &'a str,
        outputs: &mut Outputs<'a>,
    ) -> (r: Result<(), ApplicationError>)
        ensures
            is_command_outcome(
                old(self)@,
                final(self)@,
                ApplicationInput::OpenPresentationConnection { presentation_id, url },
                old(outputs)@,
                final(outputs)@,
                r,
            ),
    {
        if !self.is_authenticated() {
            return Err(ApplicationError::NotAuthenticated);
        }
        let request_id: u64 = self.take_request_id();
        let request = PresentationConnectionOpenRequest { request_id, presentation_id, url };
        send(&ApplicationMessage::PresentationConnectionOpenRequest(request), outputs)
    }

    fn handle_send_presentation_message<'a>(
        &mut self,
        connection_id: u64,
        message: &'a [u8],
        outputs: &mut Outputs<'a>,
    ) -> (r: Result<(), ApplicationError>)
        ensures
            is_command_outcome(
                old(self)@,
                final(self)@,
                ApplicationInput::SendPresentationMessage { connection_id, message },
                old(outputs)@,
                final(outputs)@,
                r,
            ),
    {
        if !self.is_authenticated() {
            return Err(ApplicationError::NotAuthenticated);
        }
        let data = PresentationConnectionMessage { connection_id, message };
        send(&ApplicationMessage::PresentationConnectionMessage(data), outputs)
    }

    fn handle_close_presentation_connection<'a>(
        &mut self,
        connection_id: u64,
        reason: PresentationConnectionCloseReason,
        outputs: &mut Outputs<'a>,
    ) -> (r: Result<(), ApplicationError>)
        ensures
            is_command_outcome(
                old(self)@,
                final(self)@,
                ApplicationInput::ClosePresentationConnection { connection_id, reason },
                old(outputs)@,
                final(outputs)@,
                r,
            ),
    {
        if !self.is_authenticated() {
            return Err(ApplicationError::NotAuthenticated);
        }
        let event = PresentationConnectionCloseEvent {
            connection_id,
            reason,
            error_message: None,
            connection_count: 0,
        };
        send(&ApplicationMessage::PresentationConnectionCloseEvent(event), outputs)
    }

    fn handle_request_agent_status<'a>(
        &mut self,
        status_message: Option<&'a str>,
        outputs: &mut Outputs<'a>,
    ) -> (r: Result<(), ApplicationError>)
        ensures
            is_command_outcome(
                old(self)@,
                final(self)@,
                ApplicationInput::RequestAgentStatus { status_message },
                old(outputs)@,
                final(outputs)@,
                r,
            ),
    {
        if !self.is_authenticated() {
            return Err(ApplicationError::NotAuthenticated);
        }
        let request_id: u64 = self.take_request_id();
        let status: Option<Status> = match status_message {
            Some(text) => Some(Status { status: text }),
            None => None,
        };
        let request = AgentStatusRequest { request_id, status };
        proof {
            assert(request.fields() =~= command_fields(
                ApplicationInput::RequestAgentStatus { status_message },
                request_id,
            ));
        }
        send(&ApplicationMessage::AgentStatusRequest(request), outputs)
    }

    fn handle_request_agent_info<'a>(&mut self, outputs: &mut Outputs<'a>) -> (r: Result<
        (),
        ApplicationError,
    >)
        ensures
            is_command_outcome(
                old(self)@,
                final(self)@,
                ApplicationInput::RequestAgentInfo,
                old(outputs)@,
                final(outputs)@,
                r,
            ),
    {
        if !self.is_authenticated() {
            return Err(ApplicationError::NotAuthenticated);
        }
        let request_id: u64 = self.take_request_id();
        send(&ApplicationMessage::AgentInfoRequest(AgentInfoRequest { request_id }), outputs)
    }

    /// Handles data of an authenticated peer that is a message of the application protocol;
    /// other data is for the network layer.
    fn handle_data_received<'a>(
        &mut self,
        stream: StreamId,
        data: &'a [u8],
        outputs: &mut Outputs<'a>,
    ) -> (r: Result<Option<NetworkInput<'a>>, ApplicationError>)
        ensures
            is_data_outcome(
                old(self)@,
                final(self)@,
                stream,
                data,
                old(outputs)@,
                final(outputs)@,
                r,
            ),
    {
        if !self.is_authenticated() {
            return Ok(Some(NetworkInput::DataReceived(stream, data)));
        }
        match ApplicationMessage::decode(data) {
            Ok(message) => match self.handle_application_message(message, outputs) {
                Ok(()) => Ok(None),
                Err(e) => Err(e),
            },
            Err(_) => Ok(Some(NetworkInput::DataReceived(stream, data))),
        }
    }

    /// Handles a message of the peer.
    fn handle_application_message<'a>(
        &mut self,
        msg: ApplicationMessage<'a>,
        outputs: &mut Outputs<'a>,
    ) -> (r: Result<(), ApplicationError>)
        ensures
            is_message_outcome(
                old(self)@,
                final(self)@,
                msg.message_type(),
                msg.fields(),
                old(outputs)@,
                final(outputs)@,
                r,
            ),
    {
        let ghost table = msg.fields();
        let event: ApplicationEvent = match msg {
            ApplicationMessage::AgentInfoResponse(_) => ApplicationEvent::AgentInfoChanged,
            ApplicationMessage::AgentStatusResponse(response) => {
                proof {
                    assert(table[1] == response.fields()[1]);
                }
                let status_message: Option<BoundedString<256>> = match response.status {
                    Some(status) => Some(keep(status.status)),
                    None => None,
                };
                ApplicationEvent::AgentStatusReceived { status_message }
            },
            ApplicationMessage::AgentInfoEvent(_) => ApplicationEvent::AgentInfoChanged,
            ApplicationMessage::PresentationStartResponse(response) => {
                proof {
                    assert(table[1] == response.fields()[1]);
                    assert(table[2] == response.fields()[2]);
                }
                if response.result == PresentationResult::Success {
                    self.app_state = ApplicationState::Presenting;
                    ApplicationEvent::PresentationStarted { connection_id: response.connection_id }
                } else {
                    ApplicationEvent::PresentationRejected
                }
            },
            ApplicationMessage::PresentationTerminationEvent(event) => {
                proof {
                    assert(table[0] == event.fields()[0]);
                    assert(table[2] == event.fields()[2]);
                }
                self.app_state = ApplicationState::Authenticated;
                ApplicationEvent::PresentationTerminated {
                    presentation_id: keep(event.presentation_id),
                    reason: event.reason,
                }
            },
            ApplicationMessage::PresentationConnectionOpenResponse(response) => {
                proof {
                    assert(table[1] == response.fields()[1]);
                    assert(table[2] == response.fields()[2]);
                }
                if response.result == PresentationResult::Success {
                    ApplicationEvent::PresentationConnectionOpened {
                        connection_id: response.connection_id,
                    }
                } else {
                    return Ok(());
                }
            },
            ApplicationMessage::PresentationConnectionMessage(data) => {
                proof {
                    assert(table[0] == data.fields()[0]);
                    assert(table[1] == data.fields()[1]);
                }
                let mut message: BoundedVec<u8, 1024> = BoundedVec::new();
                match message.extend_from_slice(data.message) {
                    Ok(()) => {
                        proof {
                            assert(message@ =~= data.message@);
                        }
                        ApplicationEvent::PresentationMessageReceived {
                            connection_id: data.connection_id,
                            message,
                        }
                    },
                    Err(()) => return Err(ApplicationError::BufferFull),
                }
            },
            ApplicationMessage::PresentationConnectionCloseEvent(event) => {
                proof {
                    assert(table[0] == event.fields()[0]);
                    assert(table[1] == event.fields()[1]);
                }
                ApplicationEvent::PresentationConnectionClosed {
                    connection_id: event.connection_id,
                    reason: event.reason,
                }
            },
            ApplicationMessage::PresentationChangeEvent(_) => ApplicationEvent::PresentationChanged,
            _ => return Ok(()),
        };
        proof {
            let output = ApplicationOutput::Event(event);
            assert(outputs@.push(output).drop_last() =~= outputs@);
        }
        emit(outputs, ApplicationOutput::Event(event))
    }

    /// Takes what the network layer made of an input that was handed to it, and whether it
    /// has authenticated the peer, and queues what is to be done in place of what `outputs`
    /// held.
    pub fn handle_network_event<'a>(
        &mut self,
        handled: Result<BoundedVec<NetworkOutput<'a>, 16>, NetworkError>,
        is_authenticated: bool,
        outputs: &mut Outputs<'a>,
    ) -> (r: Result<(), ApplicationError>)
        ensures
            match handled {
                Ok(network_outputs) => {
                    &&& r is Ok
                    &&& final(outputs)@ == translations(network_outputs@)
                    &&& requests_handed(final(outputs)@) == requests_asked(network_outputs@)
                    &&& final(self)@ == (ApplicationModel {
                        authenticated: is_authenticated,
                        state: if tells_authenticated(network_outputs@) {
                            ApplicationState::Authenticated
                        } else {
                            old(self)@.state
                        },
                        ..old(self)@
                    })
                    &&& final(self)@ == after_network(
                        old(self)@,
                        network_outputs@,
                        is_authenticated,
                    )
                },
                Err(e) => {
                    &&& r == Err::<(), ApplicationError>(ApplicationError::NetworkError(e))
                    &&& final(outputs)@ == Seq::<ApplicationOutput>::empty()
                    &&& final(self)@ == (ApplicationModel {
                        authenticated: is_authenticated,
                        ..old(self)@
                    })
                    &&& final(self)@ == after_network(old(self)@, Seq::empty(), is_authenticated)
                },
            },
    {
        outputs.clear();
        self.network_authenticated = is_authenticated;
        let network_outputs = match handled {
            Ok(network_outputs) => network_outputs,
            Err(e) => return Err(ApplicationError::from(e)),
        };
        let items = network_outputs.as_slice();
        let mut i: usize = 0;
        proof {
            assert(items@.take(0) =~= Seq::empty());
        }
        while i < items.len()
            invariant
                i <= items@.len() <= 16,
                items@ == network_outputs@,
                handled == Ok::<BoundedVec<NetworkOutput<'a>, 16>, NetworkError>(network_outputs),
                outputs@ == translations(items@.take(i as int)),
                outputs@.len() <= i,
                self@ == (ApplicationModel {
                    authenticated: is_authenticated,
                    state: if tells_authenticated(items@.take(i as int)) {
                        ApplicationState::Authenticated
                    } else {
                        old(self)@.state
                    },
                    ..old(self)@
                }),
            decreases items.len() - i,
        {
            proof {
                let next = items@.take(i + 1);
                assert(next.drop_last() =~= items@.take(i as int));
                assert(next.last() == items@[i as int]);
                lemma_tells_authenticated(items@, i as int);
            }
            let output: Option<ApplicationOutput<'a>> = match &items[i] {
                NetworkOutput::OpenUniStream => Some(ApplicationOutput::OpenBiStream),
                NetworkOutput::SendMessage(_) => None,
                NetworkOutput::SendData { .. } => None,
                NetworkOutput::CloseStream(stream) => Some(ApplicationOutput::CloseStream(*stream)),
                NetworkOutput::CloseConnection => Some(ApplicationOutput::CloseConnection),
                NetworkOutput::RequestCrypto(request) => Some(
                    ApplicationOutput::RequestCrypto(*request),
                ),
                NetworkOutput::NeedsPoll => Some(ApplicationOutput::NeedsPoll),
                NetworkOutput::Event(NetworkEvent::Authenticated) => {
                    self.app_state = ApplicationState::Authenticated;
                    Some(ApplicationOutput::Event(ApplicationEvent::Authenticated))
                },
                NetworkOutput::Event(NetworkEvent::AuthenticationFailed(_)) => Some(
                    ApplicationOutput::Event(ApplicationEvent::AuthenticationFailed),
                ),
            };
            match output {
                Some(output) => match outputs.push(output) {
                    Ok(()) => {},
                    Err(_) => return Err(ApplicationError::BufferFull),
                },
                None => {},
            }
            i = i + 1;
        }
        proof {
            assert(items@.take(i as int) =~= items@);
            requests_are_handed_over(items@);
        }
        Ok(())
    }
}

/// One more output tells of authentication if the ones before do or it does.
proof fn lemma_tells_authenticated(outputs: Seq<NetworkOutput>, i: int)
    requires
        0 <= i < outputs.len(),
    ensures
        tells_authenticated(outputs.take(i + 1)) == (tells_authenticated(outputs.take(i))
            || outputs[i] == NetworkOutput::Event(NetworkEvent::Authenticated)),
{
    let before = outputs.take(i);
    let after = outputs.take(i + 1);
    if tells_authenticated(before) {
        let k = choose|k: int|
            0 <= k < before.len() && #[trigger] before[k] == NetworkOutput::Event(
                NetworkEvent::Authenticated,
            );
        assert(after[k] == before[k]);
    }
    if outputs[i] == NetworkOutput::Event(NetworkEvent::Authenticated) {
        assert(after[i] == outputs[i]);
    }
    if tells_authenticated(after) {
        let k = choose|k: int|
            0 <= k < after.len() && #[trigger] after[k] == NetworkOutput::Event(
                NetworkEvent::Authenticated,
            );
        if k < i {
            assert(before[k] == after[k]);
        }
    }
}

impl Default for ApplicationStateMachine {
    fn default() -> (m: Self)
        ensures
            m@ == (ApplicationModel {
                authenticated: false,
                state: ApplicationState::Idle,
                next_request_id: 1,
            }),
    {
        ApplicationStateMachine::new()
    }
}

} // verus!
