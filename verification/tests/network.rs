//! Network protocol messages and the states that take them.
use openscreen::bounded::BoundedVec;
use openscreen::common::error::MessageError;
use openscreen::crypto::operation::{CryptoOpKind, Spake2Operation};
use openscreen::network::crypto_data::CryptoData;
use openscreen::network::messages::{
    encode_network_message, AuthCapabilities, AuthInitiationToken, AuthSpake2Confirmation,
    AuthSpake2Handshake, AuthStatus, AuthStatusCode, NetworkMessage, NetworkMessageType,
    PskInputEase, PskInputMethod, Spake2PskStatus, MAX_MESSAGE_SIZE,
};
use openscreen::network::state_machine::awaiting_capabilities::AwaitingCapabilities;
use openscreen::network::state_machine::awaiting_handshake::AwaitingHandshake;
use openscreen::network::state_machine::State;
use openscreen::network::{NetworkError, NetworkInput, NetworkOutput};

fn capabilities() -> AuthCapabilities {
    let mut methods = BoundedVec::new();
    assert!(methods.push(PskInputMethod::Numeric).is_ok());
    assert!(methods.push(PskInputMethod::QrCode).is_ok());
    AuthCapabilities {
        psk_input_ease: PskInputEase::Simple,
        psk_input_methods: methods,
        psk_min_bits_of_entropy: 20,
    }
}

#[test]
fn test_auth_capabilities_encode_decode() {
    let msg = capabilities();

    let mut buf = BoundedVec::<u8, MAX_MESSAGE_SIZE>::new();
    msg.encode(&mut buf).unwrap();

    let decoded = AuthCapabilities::decode(buf.as_slice());
    assert!(decoded == Ok(msg));
}

#[test]
fn test_auth_status_encode_decode() {
    let msg = AuthStatus {
        status: AuthStatusCode::Okay,
    };

    let mut buf = BoundedVec::<u8, MAX_MESSAGE_SIZE>::new();
    msg.encode(&mut buf).unwrap();

    let decoded = AuthStatus::decode(buf.as_slice()).unwrap();
    assert_eq!(msg, decoded);
}

#[test]
fn test_auth_spake2_handshake_encode_decode() {
    let public_value = b"test_public_value_1234567890";

    let msg = AuthSpake2Handshake {
        initiation_token: AuthInitiationToken {
            token: Some("test-token"),
        },
        psk_status: Spake2PskStatus::PskShown,
        public_value,
    };

    let mut buf = BoundedVec::<u8, MAX_MESSAGE_SIZE>::new();
    msg.encode(&mut buf).unwrap();

    let decoded = AuthSpake2Handshake::decode(buf.as_slice()).unwrap();
    assert_eq!(msg, decoded);
}

#[test]
fn test_auth_spake2_confirmation_encode_decode() {
    let confirmation = b"test_confirmation_value_64bytes_xxxxxxxxxxxxxxxxxxxxxxxxxxxxx";

    let msg = AuthSpake2Confirmation {
        confirmation_value: confirmation,
    };

    let mut buf = BoundedVec::<u8, MAX_MESSAGE_SIZE>::new();
    msg.encode(&mut buf).unwrap();

    let decoded = AuthSpake2Confirmation::decode(buf.as_slice()).unwrap();
    assert_eq!(msg, decoded);
}

#[test]
fn test_network_message_roundtrip() {
    let msg = NetworkMessage::AuthStatus(AuthStatus {
        status: AuthStatusCode::Okay,
    });

    let mut buf = BoundedVec::<u8, MAX_MESSAGE_SIZE>::new();
    msg.encode(&mut buf).unwrap();

    let decoded = NetworkMessage::decode(buf.as_slice());
    assert!(decoded == Ok(msg));
}

#[test]
fn status_on_the_wire() {
    let msg = AuthStatus { status: AuthStatusCode::Okay };
    let mut buf = BoundedVec::<u8, 8>::new();
    msg.encode(&mut buf).unwrap();
    assert_eq!(buf.as_slice(), &[0x43, 0xec, 0xa1, 0x00, 0x00]);
}

#[test]
fn handshake_on_the_wire() {
    let msg = NetworkMessage::AuthSpake2Handshake(AuthSpake2Handshake {
        initiation_token: AuthInitiationToken { token: Some("ab") },
        psk_status: Spake2PskStatus::PskShown,
        public_value: &[9, 8],
    });
    let bytes = encode_network_message(&msg).ok().unwrap();
    assert_eq!(
        bytes.as_slice(),
        &[
            0x43, 0xed, 0xa3, 0x00, 0xa1, 0x00, 0x62, 0x61, 0x62, 0x01, 0x01, 0x02, 0x42, 0x09,
            0x08
        ]
    );
    assert_eq!(msg.name(), "AuthSpake2Handshake");
}

#[test]
fn network_messages_that_cannot_be_read() {
    assert_eq!(NetworkMessage::decode(&[]).err(), Some(MessageError::DecodeFailed));
    assert_eq!(
        NetworkMessage::decode(&[0x05, 0xa0]).err(),
        Some(MessageError::InvalidMessageType)
    );
    assert_eq!(
        AuthStatus::decode(&[0x43, 0xed, 0xa1, 0x00, 0x00]).err(),
        Some(MessageError::InvalidMessageType)
    );
    assert_eq!(
        AuthStatus::decode(&[0x43, 0xec, 0xa1, 0x01, 0x00]).err(),
        Some(MessageError::InvalidField)
    );
    assert_eq!(
        AuthStatus::decode(&[0x43, 0xec, 0xa1, 0x00]).err(),
        Some(MessageError::DecodeFailed)
    );
    let long = [0u8; 65];
    let msg = AuthSpake2Handshake {
        initiation_token: AuthInitiationToken { token: None },
        psk_status: Spake2PskStatus::PskShown,
        public_value: &long,
    };
    let mut buf = BoundedVec::<u8, MAX_MESSAGE_SIZE>::new();
    msg.encode(&mut buf).unwrap();
    assert_eq!(
        AuthSpake2Handshake::decode(buf.as_slice()).err(),
        Some(MessageError::FieldTooLong)
    );
    let twice = [0x43, 0xed, 0xa3, 0x01, 0x01, 0x01, 0x01, 0x02, 0x42, 0x09, 0x08];
    assert_eq!(
        AuthSpake2Handshake::decode(&twice).err(),
        Some(MessageError::MissingField)
    );
}

#[test]
fn messages_have_to_fit() {
    let content = vec![0u8; 2000];
    let msg = NetworkMessage::AuthSpake2Confirmation(AuthSpake2Confirmation {
        confirmation_value: &content,
    });
    assert_eq!(encode_network_message(&msg).err(), Some(MessageError::EncodeFailed));
    let mut small = BoundedVec::<u8, 1>::new();
    assert_eq!(msg.encode(&mut small).err(), Some(MessageError::BufferFull));
}

#[test]
fn type_keys_of_messages() {
    for key in 1001..1006 {
        assert_eq!(NetworkMessageType::from_u16(key).unwrap().to_u16(), key);
    }
    assert_eq!(NetworkMessageType::from_u16(1000), Err(MessageError::InvalidMessageType));
    assert_eq!(PskInputMethod::from_u8(99), Err(MessageError::InvalidField));
}

fn outputs<'a>() -> BoundedVec<NetworkOutput<'a>, 16> {
    BoundedVec::new()
}

#[test]
fn capabilities_lead_on() {
    let bytes = encode_network_message(&NetworkMessage::AuthCapabilities(capabilities()))
        .ok()
        .unwrap();
    let input = NetworkInput::DataReceived(0, bytes.as_slice());

    let mut data = CryptoData::new();
    data.set_psk(b"secret").unwrap();
    let mut out = outputs();
    let next = AwaitingCapabilities::new().handle(&mut data, &input, &mut out);
    assert!(matches!(next, Ok(State::InitiatingHandshake)));
    match &out.as_slice()[0] {
        NetworkOutput::RequestCrypto(request) => {
            assert_eq!(request.op_id, 1);
            assert!(matches!(
                request.kind,
                CryptoOpKind::Spake2(Spake2Operation::Start {
                    password_id: None,
                    password: b"secret",
                    is_responder: false
                })
            ));
        }
        _ => panic!("no request"),
    }

    let mut data = CryptoData::new();
    data.set_role(true);
    let mut out = outputs();
    let next = AwaitingCapabilities::default().handle(&mut data, &input, &mut out);
    assert!(matches!(next, Ok(State::AwaitingHandshake(_))));
    assert!(out.is_empty());

    let mut data = CryptoData::new();
    let mut out = outputs();
    let junk = NetworkInput::DataReceived(0, b"junk");
    let next = AwaitingCapabilities::new().handle(&mut data, &junk, &mut out);
    assert_eq!(next.err(), Some(NetworkError::DecodeFailed));

    let mut data = CryptoData::new();
    let mut out = outputs();
    let next = AwaitingCapabilities::new().handle(&mut data, &NetworkInput::Tick(1), &mut out);
    assert!(matches!(next, Ok(State::AwaitingCapabilities(_))));
}

fn handshake_bytes(token: Option<&str>) -> Vec<u8> {
    let msg = NetworkMessage::AuthSpake2Handshake(AuthSpake2Handshake {
        initiation_token: AuthInitiationToken { token },
        psk_status: Spake2PskStatus::PskShown,
        public_value: &[7; 33],
    });
    encode_network_message(&msg).ok().unwrap().as_slice().to_vec()
}

fn responder_with_token(token: &[u8]) -> CryptoData {
    let mut data = CryptoData::new();
    data.set_role(true);
    data.set_psk(b"secret").unwrap();
    data.set_auth_token(token).unwrap();
    data
}

#[test]
fn responder_wants_its_token() {
    let right = handshake_bytes(Some("token"));
    let mut data = responder_with_token(b"token");
    let mut out = outputs();
    let input = NetworkInput::DataReceived(0, &right);
    let next = AwaitingHandshake::new().handle(&mut data, &input, &mut out);
    assert!(matches!(next, Ok(State::GeneratingHandshake)));
    match &out.as_slice()[0] {
        NetworkOutput::RequestCrypto(request) => {
            assert_eq!(request.op_id, 1);
            assert!(matches!(
                request.kind,
                CryptoOpKind::Spake2(Spake2Operation::Start {
                    password_id: None,
                    password: b"secret",
                    is_responder: true
                })
            ));
        }
        _ => panic!("no request"),
    }
    drop(out);
    assert_eq!(data.peer_handshake_msg.as_slice(), &right[..]);
    assert_eq!(data.peer_public_temp.as_slice(), &[7; 33]);

    for wrong in [handshake_bytes(Some("other")), handshake_bytes(None)] {
        let mut data = responder_with_token(b"token");
        let mut out = outputs();
        let input = NetworkInput::DataReceived(0, &wrong);
        let next = AwaitingHandshake::new().handle(&mut data, &input, &mut out);
        assert_eq!(next.err(), Some(NetworkError::AuthenticationFailed));
        assert!(out.is_empty());
        drop(out);
        assert!(data.peer_handshake_msg.is_empty());
    }

    let mut data = responder_with_token(&[0xff]);
    let mut out = outputs();
    let input = NetworkInput::DataReceived(0, &right);
    let next = AwaitingHandshake::new().handle(&mut data, &input, &mut out);
    assert_eq!(next.err(), Some(NetworkError::AuthenticationFailed));
}

#[test]
fn initiator_finishes_the_exchange() {
    let theirs = handshake_bytes(None);
    let mut data = CryptoData::new();
    data.set_auth_token(b"token").unwrap();
    data.set_my_fingerprint(&[1; 32]).unwrap();
    data.set_peer_fingerprint(&[2; 32]).unwrap();
    data.spake2_public.extend_from_slice(b"ours").unwrap();
    data.our_handshake_msg.extend_from_slice(b"our message").unwrap();
    let mut out = outputs();
    let input = NetworkInput::DataReceived(0, &theirs);
    let next = AwaitingHandshake::default().handle(&mut data, &input, &mut out);
    assert!(matches!(next, Ok(State::Computing)));
    match &out.as_slice()[0] {
        NetworkOutput::RequestCrypto(request) => {
            assert_eq!(request.op_id, 3);
            match request.kind {
                CryptoOpKind::Spake2(Spake2Operation::FinishWithConfirmation {
                    state,
                    peer_public,
                    message_transcript,
                    my_tls_fingerprint,
                    peer_tls_fingerprint,
                    is_responder,
                }) => {
                    assert_eq!(state, b"ours");
                    assert_eq!(peer_public, &[7; 33]);
                    let mut transcript = b"our message".to_vec();
                    transcript.extend_from_slice(&theirs);
                    assert_eq!(message_transcript, &transcript[..]);
                    assert_eq!(my_tls_fingerprint, &[1; 32]);
                    assert_eq!(peer_tls_fingerprint, &[2; 32]);
                    assert!(!is_responder);
                }
                _ => panic!("another operation"),
            }
        }
        _ => panic!("no request"),
    }
}

#[test]
fn handshake_refuses_other_messages() {
    let status = [0x43, 0xec, 0xa1, 0x00, 0x00];
    let mut data = CryptoData::new();
    let mut out = outputs();
    let input = NetworkInput::DataReceived(0, &status);
    let next = AwaitingHandshake::new().handle(&mut data, &input, &mut out);
    assert_eq!(next.err(), Some(NetworkError::DecodeFailed));
    let mut data = CryptoData::new();
    let mut out = outputs();
    let input = NetworkInput::Tick(5);
    let next = AwaitingHandshake::new().handle(&mut data, &input, &mut out);
    assert!(matches!(next, Ok(State::AwaitingHandshake(_))));
}

#[test]
fn full_queue_is_reported() {
    let theirs = handshake_bytes(None);
    let input = NetworkInput::DataReceived(0, &theirs);
    let mut data = CryptoData::new();
    let mut out = outputs();
    while out.push(NetworkOutput::NeedsPoll).is_ok() {}
    let next = AwaitingHandshake::new().handle(&mut data, &input, &mut out);
    assert_eq!(next.err(), Some(NetworkError::BufferFull));
    assert_eq!(out.len(), 16);
    let mut long = handshake_bytes(None);
    long.resize(1025, 0);
    let input = NetworkInput::DataReceived(0, &long);
    let mut data = CryptoData::new();
    let mut out = outputs();
    let next = AwaitingHandshake::new().handle(&mut data, &input, &mut out);
    assert_eq!(next.err(), Some(NetworkError::BufferFull));
}

#[test]
fn crypto_data_has_limits() {
    let mut data = CryptoData::new();
    assert_eq!(data.set_psk(&[0; 257]), Err(NetworkError::BufferFull));
    assert_eq!(data.set_my_fingerprint(&[0; 33]), Err(NetworkError::BufferFull));
    assert!(data.set_psk(&[0; 256]).is_ok());
    assert!(data.set_auth_token("t\u{f6}ken".as_bytes()).is_ok());
    assert_eq!(data.auth_token_str(), Some("t\u{f6}ken"));
    assert!(data.set_auth_token(&[0xc3]).is_ok());
    assert_eq!(data.auth_token_str(), None);
}

fn handshake_is_read_as(token: &str, public_value: &[u8]) -> Option<MessageError> {
    let message = NetworkMessage::AuthSpake2Handshake(AuthSpake2Handshake {
        initiation_token: AuthInitiationToken { token: Some(token) },
        psk_status: Spake2PskStatus::PskShown,
        public_value,
    });
    let bytes = encode_network_message(&message).unwrap();
    match NetworkMessage::decode(bytes.as_slice()) {
        Ok(found) => {
            assert!(found == message);
            None
        }
        Err(e) => Some(e),
    }
}

#[test]
fn oversized_handshakes_are_refused() {
    let token = "t".repeat(257);
    assert_eq!(handshake_is_read_as(&token[..256], &[1; 64]), None);
    assert_eq!(handshake_is_read_as(&token, &[1; 64]), Some(MessageError::FieldTooLong));
    assert_eq!(handshake_is_read_as(&token[..256], &[1; 65]), Some(MessageError::FieldTooLong));
}

#[test]
fn input_methods_may_be_of_indefinite_length() {
    let body = [0xa3, 0x00, 0x00, 0x01, 0x9f, 0x00, 0x01, 0xff, 0x02, 0x18, 0x20];
    let capabilities = AuthCapabilities::decode_body(&body).unwrap();
    assert_eq!(capabilities.psk_input_methods.len(), 2);
    assert_eq!(capabilities.psk_min_bits_of_entropy, 32);
}

#[test]
fn requests_for_the_key_are_told_apart() {
    assert!(NetworkMessage::is_need(&[0x43, 0xea, 0xa0]));
    assert!(!NetworkMessage::is_need(&[0x43, 0xec, 0xa1, 0x00, 0x00]));
    assert!(!NetworkMessage::is_need(&[0x43]));
    assert!(!NetworkMessage::is_need(&[]));
}
