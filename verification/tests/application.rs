//! Application protocol messages, and the machine that exchanges them.
use openscreen::application::messages::agent::{
    AgentInfo, AgentInfoEvent, AgentInfoRequest, AgentInfoResponse, AgentStatusRequest,
    AgentStatusResponse, Status,
};
use openscreen::application::messages::availability::{
    PresentationUrlAvailabilityEvent, PresentationUrlAvailabilityRequest,
    PresentationUrlAvailabilityResponse,
};
use openscreen::application::messages::codes::{
    AgentCapability, ApplicationMessageType, PresentationConnectionCloseReason,
    PresentationResult, PresentationTerminationReason, PresentationTerminationSource,
    UrlAvailability,
};
use openscreen::application::messages::connection::{
    PresentationChangeEvent, PresentationConnectionCloseEvent, PresentationConnectionMessage,
    PresentationConnectionOpenRequest, PresentationConnectionOpenResponse,
};
use openscreen::application::messages::message::ApplicationMessage;
use openscreen::application::messages::presentation::{
    HttpHeader, PresentationStartRequest, PresentationStartResponse, PresentationTerminationEvent,
    PresentationTerminationRequest, PresentationTerminationResponse,
};
use openscreen::application::receiver::{answer_info_request, AnswerError};
use openscreen::application::state::ApplicationState;
use openscreen::application::state_machine::ApplicationStateMachine;
use openscreen::application::{
    ApplicationError, ApplicationEvent, ApplicationInput, ApplicationOutput,
};
use openscreen::bounded::BoundedVec;
use openscreen::common::error::MessageError;
use openscreen::network::{NetworkError, NetworkEvent, NetworkInput, NetworkOutput};

fn list<T: Clone, const N: usize>(items: &[T]) -> BoundedVec<T, N> {
    let mut v = BoundedVec::new();
    for item in items {
        assert!(v.push(item.clone()).is_ok());
    }
    v
}

fn agent_info() -> AgentInfo<'static> {
    AgentInfo {
        display_name: "TV",
        model_name: "Model",
        capabilities: list(&[AgentCapability::ReceiveAudio, AgentCapability::SendStreaming]),
        state_token: "state",
        locales: list(&["en-US", "de"]),
    }
}

fn encoded(message: &ApplicationMessage) -> Vec<u8> {
    let mut buf: BoundedVec<u8, 1024> = BoundedVec::new();
    message.encode(&mut buf).unwrap();
    buf.as_slice().to_vec()
}

fn survives(message: ApplicationMessage) {
    let mut bytes = encoded(&message);
    assert!(ApplicationMessage::decode(&bytes) == Ok(message.clone()));
    bytes.push(0x17);
    assert!(ApplicationMessage::decode(&bytes) == Ok(message));
}

#[test]
fn agent_messages_survive() {
    survives(ApplicationMessage::AgentInfoRequest(AgentInfoRequest { request_id: 5 }));
    survives(ApplicationMessage::AgentInfoResponse(AgentInfoResponse {
        request_id: u64::MAX,
        agent_info: agent_info(),
    }));
    survives(ApplicationMessage::AgentInfoEvent(AgentInfoEvent { agent_info: agent_info() }));
    survives(ApplicationMessage::AgentStatusRequest(AgentStatusRequest {
        request_id: 300,
        status: None,
    }));
    survives(ApplicationMessage::AgentStatusRequest(AgentStatusRequest {
        request_id: 300,
        status: Some(Status { status: "fine" }),
    }));
    survives(ApplicationMessage::AgentStatusResponse(AgentStatusResponse {
        request_id: 70000,
        status: Some(Status { status: "" }),
    }));
}

#[test]
fn availability_messages_survive() {
    survives(ApplicationMessage::PresentationUrlAvailabilityRequest(
        PresentationUrlAvailabilityRequest {
            request_id: 1,
            urls: list(&["https://a", "https://b"]),
            watch_duration: 2,
            watch_id: 3,
        },
    ));
    survives(ApplicationMessage::PresentationUrlAvailabilityResponse(
        PresentationUrlAvailabilityResponse {
            request_id: 1,
            url_availabilities: list(&[UrlAvailability::Available, UrlAvailability::Invalid]),
        },
    ));
    survives(ApplicationMessage::PresentationUrlAvailabilityEvent(
        PresentationUrlAvailabilityEvent {
            watch_id: 9,
            url_availabilities: list(&[UrlAvailability::Unavailable]),
        },
    ));
}

#[test]
fn presentation_messages_survive() {
    survives(ApplicationMessage::PresentationStartRequest(PresentationStartRequest {
        request_id: 1,
        presentation_id: "p",
        url: "https://a",
        headers: list(&[HttpHeader { key: "k", value: "v" }]),
    }));
    survives(ApplicationMessage::PresentationStartResponse(PresentationStartResponse {
        request_id: 1,
        result: PresentationResult::Timeout,
        connection_id: 2,
        http_response_code: Some(404),
    }));
    survives(ApplicationMessage::PresentationTerminationRequest(
        PresentationTerminationRequest {
            request_id: 1,
            presentation_id: "p",
            reason: PresentationTerminationReason::UserRequest,
        },
    ));
    survives(ApplicationMessage::PresentationTerminationResponse(
        PresentationTerminationResponse { request_id: 1, result: PresentationResult::Success },
    ));
    survives(ApplicationMessage::PresentationTerminationEvent(PresentationTerminationEvent {
        presentation_id: "p",
        source: PresentationTerminationSource::Receiver,
        reason: PresentationTerminationReason::Unknown,
    }));
}

#[test]
fn connection_messages_survive() {
    survives(ApplicationMessage::PresentationConnectionOpenRequest(
        PresentationConnectionOpenRequest { request_id: 1, presentation_id: "p", url: "u" },
    ));
    survives(ApplicationMessage::PresentationConnectionOpenResponse(
        PresentationConnectionOpenResponse {
            request_id: 1,
            result: PresentationResult::InvalidUrl,
            connection_id: 2,
            connection_count: 3,
        },
    ));
    survives(ApplicationMessage::PresentationConnectionCloseEvent(
        PresentationConnectionCloseEvent {
            connection_id: 1,
            reason: PresentationConnectionCloseReason::UnrecoverableError,
            error_message: Some("broken"),
            connection_count: 0,
        },
    ));
    survives(ApplicationMessage::PresentationConnectionMessage(PresentationConnectionMessage {
        connection_id: 4,
        message: &[1, 2, 3],
    }));
    survives(ApplicationMessage::PresentationChangeEvent(PresentationChangeEvent {
        presentation_id: "p",
        connection_count: 7,
    }));
}

#[test]
fn info_request_on_the_wire() {
    let message = ApplicationMessage::AgentInfoRequest(AgentInfoRequest { request_id: 300 });
    assert_eq!(encoded(&message), vec![0x0a, 0xa1, 0x00, 0x19, 0x01, 0x2c]);
}

#[test]
fn status_response_on_the_wire() {
    let message = ApplicationMessage::AgentStatusResponse(AgentStatusResponse {
        request_id: 1,
        status: Some(Status { status: "ok" }),
    });
    assert_eq!(
        encoded(&message),
        vec![0x0d, 0xa2, 0x00, 0x01, 0x01, 0xa1, 0x00, 0x62, 0x6f, 0x6b]
    );
}

#[test]
fn messages_that_cannot_be_read() {
    assert_eq!(ApplicationMessage::decode(&[]).err(), Some(MessageError::DecodeFailed));
    assert_eq!(
        ApplicationMessage::decode(&[0x3f, 0xa0]).err(),
        Some(MessageError::InvalidMessageType)
    );
    assert_eq!(
        ApplicationMessage::decode(&[0x0a, 0xa1, 0x05, 0x01]).err(),
        Some(MessageError::InvalidField)
    );
    assert_eq!(
        ApplicationMessage::decode(&[0x0a, 0x61, 0x61]).err(),
        Some(MessageError::DecodeFailed)
    );
    assert_eq!(
        ApplicationMessage::decode(&[0x0c, 0xa0]).err(),
        Some(MessageError::MissingField)
    );
    let long = "x".repeat(257);
    let message = ApplicationMessage::AgentStatusRequest(AgentStatusRequest {
        request_id: 1,
        status: Some(Status { status: &long }),
    });
    assert_eq!(
        ApplicationMessage::decode(&encoded(&message)).err(),
        Some(MessageError::FieldTooLong)
    );
}

#[test]
fn codes_of_the_protocol() {
    assert_eq!(ApplicationMessageType::from_u16(104).unwrap().to_u16(), 104);
    assert_eq!(
        ApplicationMessageType::from_u16(1),
        Err(MessageError::InvalidMessageType)
    );
    assert_eq!(AgentCapability::from_u8(8), Ok(AgentCapability::SendStreaming));
    assert_eq!(AgentCapability::from_u8(0), Err(MessageError::InvalidField));
    assert_eq!(PresentationResult::from_u8(101), Ok(PresentationResult::TransientError));
    assert_eq!(UrlAvailability::from_u8(10), Ok(UrlAvailability::Invalid));
}

fn outputs<'a>() -> BoundedVec<ApplicationOutput<'a>, 16> {
    BoundedVec::new()
}

fn authenticated() -> ApplicationStateMachine {
    let mut machine = ApplicationStateMachine::new();
    let mut network: BoundedVec<NetworkOutput, 16> = BoundedVec::new();
    assert!(network.push(NetworkOutput::Event(NetworkEvent::Authenticated)).is_ok());
    let mut out = outputs();
    assert!(machine.handle_network_event(Ok(network), true, &mut out).is_ok());
    assert!(matches!(
        out.as_slice(),
        [ApplicationOutput::Event(ApplicationEvent::Authenticated)]
    ));
    machine
}

fn sent(machine: &mut ApplicationStateMachine, input: ApplicationInput) -> Vec<u8> {
    let mut out = outputs();
    assert!(matches!(machine.handle_input(input, &mut out), Ok(None)));
    match out.as_slice() {
        [ApplicationOutput::SendData { stream: 0, data }] => data.as_slice().to_vec(),
        _ => panic!("nothing sent"),
    }
}

#[test]
fn states() {
    assert_eq!(ApplicationState::default(), ApplicationState::Idle);
    assert!(!ApplicationState::Idle.is_authenticated());
    assert!(ApplicationState::Authenticated.is_authenticated());
    assert!(ApplicationState::Presenting.is_authenticated());
    assert!(ApplicationState::Presenting.is_presenting());
    assert!(!ApplicationState::Authenticated.is_presenting());
}

#[test]
fn commands_need_authentication() {
    let mut machine = ApplicationStateMachine::default();
    assert!(!machine.is_authenticated());
    let mut out = outputs();
    assert!(out.push(ApplicationOutput::NeedsPoll).is_ok());
    let refused = machine.handle_input(ApplicationInput::RequestAgentInfo, &mut out);
    assert_eq!(refused.err(), Some(ApplicationError::NotAuthenticated));
    assert!(out.is_empty());
    let refused = machine.handle_input(
        ApplicationInput::SendPresentationMessage { connection_id: 1, message: b"x" },
        &mut out,
    );
    assert_eq!(refused.err(), Some(ApplicationError::NotAuthenticated));

    let mut machine = authenticated();
    assert!(machine.is_authenticated());
    assert_eq!(machine.application_state(), ApplicationState::Authenticated);
    let bytes = sent(&mut machine, ApplicationInput::RequestAgentInfo);
    assert_eq!(bytes, vec![0x0a, 0xa1, 0x00, 0x01]);
}

#[test]
fn requests_are_numbered() {
    let mut machine = authenticated();
    for id in 1..4u64 {
        let bytes = sent(
            &mut machine,
            ApplicationInput::StartPresentation { url: "https://a", presentation_id: "p" },
        );
        match ApplicationMessage::decode(&bytes) {
            Ok(ApplicationMessage::PresentationStartRequest(request)) => {
                assert_eq!(request.request_id, id);
                assert_eq!(request.url, "https://a");
                assert_eq!(request.presentation_id, "p");
                assert!(request.headers.is_empty());
            }
            _ => panic!("another message"),
        };
    }
    let _ = sent(
        &mut machine,
        ApplicationInput::SendPresentationMessage { connection_id: 1, message: b"x" },
    );
    let bytes = sent(
        &mut machine,
        ApplicationInput::RequestAgentStatus { status_message: Some("hi") },
    );
    match ApplicationMessage::decode(&bytes) {
        Ok(ApplicationMessage::AgentStatusRequest(request)) => {
            assert_eq!(request.request_id, 4);
            assert_eq!(request.status, Some(Status { status: "hi" }));
        }
        _ => panic!("another message"),
    };
}

#[test]
fn commands_reach_the_peer() {
    let mut machine = authenticated();
    let bytes = sent(
        &mut machine,
        ApplicationInput::TerminatePresentation {
            presentation_id: "p",
            reason: PresentationTerminationReason::UserRequest,
        },
    );
    assert!(
        ApplicationMessage::decode(&bytes)
            == Ok(ApplicationMessage::PresentationTerminationRequest(
                PresentationTerminationRequest {
                    request_id: 1,
                    presentation_id: "p",
                    reason: PresentationTerminationReason::UserRequest,
                }
            ))
    );
    let bytes = sent(
        &mut machine,
        ApplicationInput::CheckUrlAvailability { urls: &["a", "b"], watch_duration: 9 },
    );
    assert!(
        ApplicationMessage::decode(&bytes)
            == Ok(ApplicationMessage::PresentationUrlAvailabilityRequest(
                PresentationUrlAvailabilityRequest {
                    request_id: 2,
                    urls: list(&["a", "b"]),
                    watch_duration: 9,
                    watch_id: 0,
                }
            ))
    );
    let bytes = sent(
        &mut machine,
        ApplicationInput::OpenPresentationConnection { presentation_id: "p", url: "u" },
    );
    assert!(
        ApplicationMessage::decode(&bytes)
            == Ok(ApplicationMessage::PresentationConnectionOpenRequest(
                PresentationConnectionOpenRequest { request_id: 3, presentation_id: "p", url: "u" }
            ))
    );
    let bytes = sent(
        &mut machine,
        ApplicationInput::ClosePresentationConnection {
            connection_id: 8,
            reason: PresentationConnectionCloseReason::CloseMethodCalled,
        },
    );
    assert!(
        ApplicationMessage::decode(&bytes)
            == Ok(ApplicationMessage::PresentationConnectionCloseEvent(
                PresentationConnectionCloseEvent {
                    connection_id: 8,
                    reason: PresentationConnectionCloseReason::CloseMethodCalled,
                    error_message: None,
                    connection_count: 0,
                }
            ))
    );
}

#[test]
fn commands_have_to_fit() {
    let mut machine = authenticated();
    let urls = ["u"; 17];
    let long = [0u8; 1024];
    let mut out = outputs();
    let refused = machine.handle_input(
        ApplicationInput::CheckUrlAvailability { urls: &urls, watch_duration: 0 },
        &mut out,
    );
    assert_eq!(refused.err(), Some(ApplicationError::BufferFull));
    let refused = machine.handle_input(
        ApplicationInput::SendPresentationMessage { connection_id: 1, message: &long },
        &mut out,
    );
    assert_eq!(refused.err(), Some(ApplicationError::EncodeFailed));
    assert!(out.is_empty());
    let bytes = sent(&mut machine, ApplicationInput::RequestAgentInfo);
    assert_eq!(bytes, vec![0x0a, 0xa1, 0x00, 0x02]);
}

fn told(machine: &mut ApplicationStateMachine, message: &ApplicationMessage) -> Option<ApplicationEvent> {
    let bytes = encoded(message);
    let mut out = outputs();
    assert!(matches!(
        machine.handle_input(ApplicationInput::DataReceived(3, &bytes), &mut out),
        Ok(None)
    ));
    match out.as_slice() {
        [] => None,
        [ApplicationOutput::Event(event)] => Some(event.clone()),
        _ => panic!("more than an event"),
    }
}

fn start_response(result: PresentationResult) -> ApplicationMessage<'static> {
    ApplicationMessage::PresentationStartResponse(PresentationStartResponse {
        request_id: 1,
        result,
        connection_id: 6,
        http_response_code: None,
    })
}

#[test]
fn presentations_start_and_end() {
    let mut machine = authenticated();
    let event = told(&mut machine, &start_response(PresentationResult::InvalidUrl));
    assert!(event == Some(ApplicationEvent::PresentationRejected));
    assert_eq!(machine.application_state(), ApplicationState::Authenticated);
    let event = told(&mut machine, &start_response(PresentationResult::Success));
    assert!(event == Some(ApplicationEvent::PresentationStarted { connection_id: 6 }));
    assert_eq!(machine.application_state(), ApplicationState::Presenting);
    let ended = ApplicationMessage::PresentationTerminationEvent(PresentationTerminationEvent {
        presentation_id: "p",
        source: PresentationTerminationSource::Controller,
        reason: PresentationTerminationReason::ReceiverError,
    });
    match told(&mut machine, &ended) {
        Some(ApplicationEvent::PresentationTerminated { presentation_id, reason }) => {
            assert_eq!(presentation_id.as_str(), "p");
            assert_eq!(reason, PresentationTerminationReason::ReceiverError);
        }
        _ => panic!("another event"),
    }
    assert_eq!(machine.application_state(), ApplicationState::Authenticated);
    let long = "x".repeat(300);
    let ended = ApplicationMessage::PresentationTerminationEvent(PresentationTerminationEvent {
        presentation_id: &long,
        source: PresentationTerminationSource::Controller,
        reason: PresentationTerminationReason::ReceiverError,
    });
    match told(&mut machine, &ended) {
        Some(ApplicationEvent::PresentationTerminated { presentation_id, .. }) => {
            assert_eq!(presentation_id.as_str(), "");
        }
        _ => panic!("another event"),
    }
}

#[test]
fn the_user_is_told() {
    let mut machine = authenticated();
    let info = ApplicationMessage::AgentInfoResponse(AgentInfoResponse {
        request_id: 1,
        agent_info: agent_info(),
    });
    assert!(told(&mut machine, &info) == Some(ApplicationEvent::AgentInfoChanged));
    let info = ApplicationMessage::AgentInfoEvent(AgentInfoEvent { agent_info: agent_info() });
    assert!(told(&mut machine, &info) == Some(ApplicationEvent::AgentInfoChanged));
    let status = ApplicationMessage::AgentStatusResponse(AgentStatusResponse {
        request_id: 1,
        status: Some(Status { status: "ok" }),
    });
    match told(&mut machine, &status) {
        Some(ApplicationEvent::AgentStatusReceived { status_message: Some(text) }) => {
            assert_eq!(text.as_str(), "ok");
        }
        _ => panic!("another event"),
    }
    let mut opened = PresentationConnectionOpenResponse {
        request_id: 1,
        result: PresentationResult::Success,
        connection_id: 5,
        connection_count: 1,
    };
    let message = ApplicationMessage::PresentationConnectionOpenResponse(opened.clone());
    assert!(
        told(&mut machine, &message)
            == Some(ApplicationEvent::PresentationConnectionOpened { connection_id: 5 })
    );
    opened.result = PresentationResult::Timeout;
    let message = ApplicationMessage::PresentationConnectionOpenResponse(opened);
    assert!(told(&mut machine, &message).is_none());
    let message =
        ApplicationMessage::PresentationConnectionMessage(PresentationConnectionMessage {
            connection_id: 5,
            message: b"hello",
        });
    match told(&mut machine, &message) {
        Some(ApplicationEvent::PresentationMessageReceived { connection_id: 5, message }) => {
            assert_eq!(message.as_slice(), b"hello");
        }
        _ => panic!("another event"),
    }
    let message =
        ApplicationMessage::PresentationConnectionCloseEvent(PresentationConnectionCloseEvent {
            connection_id: 5,
            reason: PresentationConnectionCloseReason::ConnectionObjectDiscarded,
            error_message: None,
            connection_count: 0,
        });
    assert!(
        told(&mut machine, &message)
            == Some(ApplicationEvent::PresentationConnectionClosed {
                connection_id: 5,
                reason: PresentationConnectionCloseReason::ConnectionObjectDiscarded,
            })
    );
    let message = ApplicationMessage::PresentationChangeEvent(PresentationChangeEvent {
        presentation_id: "p",
        connection_count: 2,
    });
    assert!(told(&mut machine, &message) == Some(ApplicationEvent::PresentationChanged));
    let message = ApplicationMessage::AgentInfoRequest(AgentInfoRequest { request_id: 1 });
    assert!(told(&mut machine, &message).is_none());
}

#[test]
fn oversized_messages_are_refused() {
    let mut machine = authenticated();
    let mut data = vec![0x10, 0xa2, 0x00, 0x01, 0x01, 0x59, 0x04, 0x01];
    data.extend_from_slice(&[0; 1025]);
    let mut out = outputs();
    let refused = machine.handle_input(ApplicationInput::DataReceived(0, &data), &mut out);
    assert_eq!(refused.err(), Some(ApplicationError::BufferFull));
    assert!(out.is_empty());
}

#[test]
fn other_inputs_go_to_the_network_layer() {
    let mut machine = ApplicationStateMachine::new();
    let mut out = outputs();
    assert!(matches!(
        machine.handle_input(ApplicationInput::TransportConnected, &mut out),
        Ok(Some(NetworkInput::TransportConnected))
    ));
    assert!(matches!(
        machine.handle_input(ApplicationInput::StreamOpened(4), &mut out),
        Ok(Some(NetworkInput::StreamOpened(4)))
    ));
    assert!(matches!(
        machine.handle_input(ApplicationInput::StreamClosed(4), &mut out),
        Ok(Some(NetworkInput::StreamClosed(4)))
    ));
    assert!(matches!(
        machine.handle_input(ApplicationInput::Tick(9), &mut out),
        Ok(Some(NetworkInput::Tick(9)))
    ));
    assert!(matches!(
        machine.handle_input(ApplicationInput::DataReceived(2, b"\x43\xec\xa1\x00\x00"), &mut out),
        Ok(Some(NetworkInput::DataReceived(2, b"\x43\xec\xa1\x00\x00")))
    ));
    assert!(out.is_empty());
}

#[test]
fn network_outputs_are_translated() {
    let mut machine = ApplicationStateMachine::new();
    let mut network: BoundedVec<NetworkOutput, 16> = BoundedVec::new();
    assert!(network.push(NetworkOutput::OpenUniStream).is_ok());
    assert!(network.push(NetworkOutput::SendData { data: b"x" }).is_ok());
    assert!(network.push(NetworkOutput::CloseStream(3)).is_ok());
    assert!(network.push(NetworkOutput::NeedsPoll).is_ok());
    assert!(network
        .push(NetworkOutput::Event(NetworkEvent::AuthenticationFailed(
            NetworkError::CryptoFailed
        )))
        .is_ok());
    assert!(network.push(NetworkOutput::CloseConnection).is_ok());
    let mut out = outputs();
    assert!(machine.handle_network_event(Ok(network), false, &mut out).is_ok());
    assert!(matches!(
        out.as_slice(),
        [
            ApplicationOutput::OpenBiStream,
            ApplicationOutput::CloseStream(3),
            ApplicationOutput::NeedsPoll,
            ApplicationOutput::Event(ApplicationEvent::AuthenticationFailed),
            ApplicationOutput::CloseConnection
        ]
    ));
    assert_eq!(machine.application_state(), ApplicationState::Idle);
    let failed =
        machine.handle_network_event(Err(NetworkError::DecodeFailed), false, &mut out);
    assert_eq!(failed, Err(ApplicationError::NetworkError(NetworkError::DecodeFailed)));
    assert!(out.is_empty());
}

#[test]
fn receiver_answers_requests() {
    let request = [0x0a, 0xa1, 0x00, 0x18, 0x2a];
    let (request_id, answer) = answer_info_request(&request, "Living Room").ok().unwrap();
    assert_eq!(request_id, 42);
    match AgentInfoResponse::decode(answer.as_slice()) {
        Ok(response) => {
            assert_eq!(response.request_id, 42);
            assert_eq!(response.agent_info.display_name, "Living Room");
            assert_eq!(response.agent_info.model_name, "OpenScreen Test Receiver");
            assert_eq!(response.agent_info.state_token, "ready");
            assert!(response.agent_info.capabilities.is_empty());
            assert!(response.agent_info.locales.is_empty());
        }
        Err(_) => panic!("not read"),
    }
    assert_eq!(
        answer_info_request(b"", "x").err(),
        Some(AnswerError::InvalidRequest(MessageError::DecodeFailed))
    );
    let long = "x".repeat(1000);
    assert_eq!(
        answer_info_request(&request, &long).err(),
        Some(AnswerError::EncodeFailed(MessageError::EncodeFailed))
    );
}

#[test]
fn messages_count_only_after_authentication() {
    let data = [0x40, 0x69, 0xa3, 0x00, 0x01, 0x01, 0x01, 0x02, 0x07];
    let mut machine = ApplicationStateMachine::new();
    let mut out = outputs();
    match machine.handle_input(ApplicationInput::DataReceived(0, &data), &mut out) {
        Ok(Some(NetworkInput::DataReceived(stream, bytes))) => {
            assert_eq!(stream, 0);
            assert_eq!(bytes, &data[..]);
        }
        _ => panic!("the data is for the network layer"),
    }
    assert!(out.is_empty());
    assert_eq!(machine.application_state(), ApplicationState::Idle);

    let mut machine = authenticated();
    let mut out = outputs();
    assert!(matches!(
        machine.handle_input(ApplicationInput::DataReceived(0, &data), &mut out),
        Ok(None)
    ));
    assert!(matches!(
        out.as_slice(),
        [ApplicationOutput::Event(ApplicationEvent::PresentationStarted { connection_id: 7 })]
    ));
    assert_eq!(machine.application_state(), ApplicationState::Presenting);
}

#[test]
fn connection_messages_may_be_text() {
    let data = [0x10, 0xa2, 0x00, 0x07, 0x01, 0x62, 0x68, 0x69];
    let message = PresentationConnectionMessage::decode(&data).unwrap();
    assert_eq!(message.connection_id, 7);
    assert_eq!(message.message, b"hi");
    let data = [0x10, 0xa2, 0x00, 0x07, 0x01, 0x42, 0x68, 0x69];
    assert!(PresentationConnectionMessage::decode(&data) == Ok(message));
    let data = [0x10, 0xa2, 0x00, 0x07, 0x01, 0x62, 0xff, 0x69];
    assert!(PresentationConnectionMessage::decode(&data) == Err(MessageError::DecodeFailed));
    let data = [0x10, 0xa2, 0x00, 0x07, 0x01, 0x05];
    assert!(PresentationConnectionMessage::decode(&data) == Err(MessageError::DecodeFailed));
}

#[test]
fn lists_may_be_of_indefinite_length() {
    let body = [
        0xa2, 0x00, 0x05, 0x01, 0xa5, 0x04, 0x9f, 0x62, 0x65, 0x6e, 0x62, 0x64, 0x65, 0xff, 0x02,
        0x9f, 0x02, 0x01, 0xff, 0x00, 0x61, 0x61, 0x01, 0x61, 0x62, 0x03, 0x61, 0x63,
    ];
    let response = AgentInfoResponse::decode_body(&body).unwrap();
    assert_eq!(response.request_id, 5);
    assert_eq!(response.agent_info.locales.as_slice(), &["en", "de"]);
    let capabilities = response.agent_info.capabilities;
    assert_eq!(capabilities.len(), 2);
    assert_eq!(capabilities.as_slice()[0], AgentCapability::from_u8(2).unwrap());
    assert_eq!(capabilities.as_slice()[1], AgentCapability::from_u8(1).unwrap());
    assert_eq!(response.agent_info.display_name, "a");
    assert_eq!(response.agent_info.state_token, "c");

    let unended = &body[..13];
    assert!(AgentInfoResponse::decode_body(unended).err() == Some(MessageError::DecodeFailed));

    let data = [
        0xa4, 0x00, 0x01, 0x01, 0x61, 0x70, 0x02, 0x61, 0x75, 0x03, 0x9f, 0x82, 0x61, 0x6b, 0x61,
        0x76, 0xff,
    ];
    let request = PresentationStartRequest::decode_body(&data).unwrap();
    assert_eq!(request.headers.len(), 1);
    assert_eq!(request.headers.as_slice()[0].key, "k");
    assert_eq!(request.headers.as_slice()[0].value, "v");
}

struct BoundedWriter {
    bytes: Vec<u8>,
    room: usize,
}

impl minicbor::encode::Write for BoundedWriter {
    type Error = ();

    fn write_all(&mut self, buf: &[u8]) -> Result<(), ()> {
        if self.bytes.len() + buf.len() > self.room {
            return Err(());
        }
        self.bytes.extend_from_slice(buf);
        Ok(())
    }
}

fn written<W: minicbor::encode::Write>(
    encoder: &mut minicbor::Encoder<W>,
    request: &PresentationStartRequest,
) -> Result<(), minicbor::encode::Error<W::Error>> {
    encoder.map(4)?.u8(0)?.u64(request.request_id)?;
    encoder.u8(1)?.str(request.presentation_id)?;
    encoder.u8(2)?.str(request.url)?;
    encoder.u8(3)?.array(request.headers.len() as u64)?;
    for header in request.headers.as_slice() {
        encoder.array(2)?.str(header.key)?.str(header.value)?;
    }
    Ok(())
}

fn keeps_what_was_written<const N: usize>() {
    let url = "u".repeat(300);
    let request = PresentationStartRequest {
        request_id: 70000,
        presentation_id: "an id of more than 23 bytes",
        url: &url,
        headers: list(&[HttpHeader { key: "key", value: "value" }]),
    };
    let mut buf: BoundedVec<u8, N> = BoundedVec::new();
    assert!(buf.push(9).is_ok());
    let done = request.encode(&mut buf);
    let start = [9, 0x40, 0x68];
    let mut encoder =
        minicbor::Encoder::new(BoundedWriter { bytes: start.to_vec(), room: N });
    let expected = written(&mut encoder, &request);
    assert_eq!(done.is_ok(), expected.is_ok());
    assert!(done.is_ok() || done == Err(MessageError::EncodeFailed));
    assert_eq!(buf.as_slice(), &encoder.into_writer().bytes[..]);
}

#[test]
fn failed_writes_keep_whole_parts() {
    keeps_what_was_written::<3>();
    keeps_what_was_written::<4>();
    keeps_what_was_written::<5>();
    keeps_what_was_written::<6>();
    keeps_what_was_written::<9>();
    keeps_what_was_written::<10>();
    keeps_what_was_written::<11>();
    keeps_what_was_written::<12>();
    keeps_what_was_written::<13>();
    keeps_what_was_written::<38>();
    keeps_what_was_written::<39>();
    keeps_what_was_written::<40>();
    keeps_what_was_written::<41>();
    keeps_what_was_written::<42>();
    keeps_what_was_written::<43>();
    keeps_what_was_written::<44>();
    keeps_what_was_written::<200>();
    keeps_what_was_written::<343>();
    keeps_what_was_written::<344>();
    keeps_what_was_written::<350>();
    keeps_what_was_written::<355>();
    keeps_what_was_written::<360>();
    keeps_what_was_written::<400>();
}

#[test]
fn failed_writes_keep_the_head_of_a_text() {
    let event = PresentationConnectionMessage { connection_id: 1, message: b"content" };
    let mut buf: BoundedVec<u8, 8> = BoundedVec::new();
    assert_eq!(event.encode(&mut buf), Err(MessageError::EncodeFailed));
    assert_eq!(buf.as_slice(), &[0x10, 0xa2, 0x00, 0x01, 0x01, 0x47]);
}
