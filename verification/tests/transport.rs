//! What a transport is told to do.
use openscreen::cert::key::CertificateKey;
use openscreen::crypto::operation::{CryptoOpKind, CryptoRequest};
use openscreen::network::messages::{
    AuthSpake2Confirmation, AuthStatus, AuthStatusCode, NetworkMessage,
};
use openscreen::network::{NetworkError, NetworkEvent, NetworkInput, NetworkOutput};
use openscreen::transport::client::{next_step, Directive, Phase};
use openscreen::transport::fingerprint_verifier::FingerprintVerifier;
use openscreen::transport::outputs::{PendingAction, Stop};
use openscreen::transport::server::{next_server_step, ServerDirective, ServerPhase};
use openscreen::transport::session::{
    after_turn, client_feed, prepare_client, prepare_server, server_feed, Feed, TransportEvent, Turn,
};
use openscreen::network::crypto_data::CryptoData;

fn status<'a>() -> NetworkOutput<'a> {
    NetworkOutput::SendMessage(NetworkMessage::AuthStatus(AuthStatus {
        status: AuthStatusCode::Okay,
    }))
}

const STATUS: [u8; 5] = [0x43, 0xec, 0xa1, 0x00, 0x00];

fn request<'a>() -> NetworkOutput<'a> {
    NetworkOutput::RequestCrypto(CryptoRequest { op_id: 1, kind: CryptoOpKind::Other })
}

fn oversized(content: &[u8]) -> NetworkOutput<'_> {
    NetworkOutput::SendMessage(NetworkMessage::AuthSpake2Confirmation(AuthSpake2Confirmation {
        confirmation_value: content,
    }))
}

#[test]
fn operations_come_first() {
    let outputs = [status(), NetworkOutput::NeedsPoll, request(), request()];
    let step = next_step(Phase::Event, &outputs, true);
    assert!(step.messages.is_empty());
    assert!(matches!(step.directive, Directive::Execute(2)));
    assert_eq!(step.phase, Phase::Event);
}

#[test]
fn polls_come_next() {
    let outputs = [status(), NetworkOutput::NeedsPoll];
    let step = next_step(Phase::Event, &outputs, true);
    assert!(matches!(step.directive, Directive::Tick));
    assert_eq!(step.phase, Phase::Poll { iteration: 0 });
}

#[test]
fn actions_come_last() {
    let outputs = [
        status(),
        NetworkOutput::OpenUniStream,
        NetworkOutput::SendData { data: b"app" },
        NetworkOutput::Event(NetworkEvent::Authenticated),
        NetworkOutput::CloseStream(4),
        NetworkOutput::CloseConnection,
    ];
    let step = next_step(Phase::Event, &outputs, true);
    match step.directive {
        Directive::Perform(actions) => {
            assert_eq!(actions.len(), 5);
            match &actions[0] {
                PendingAction::SendBytes { data, description, is_app_data } => {
                    assert_eq!(data[..], STATUS);
                    assert_eq!(*description, "AuthStatus");
                    assert!(!is_app_data);
                }
                _ => panic!("another action"),
            }
            match &actions[1] {
                PendingAction::SendBytes { data, description, is_app_data } => {
                    assert_eq!(data, b"app");
                    assert_eq!(*description, "raw app data");
                    assert!(is_app_data);
                }
                _ => panic!("another action"),
            }
            assert!(matches!(actions[2], PendingAction::Event(NetworkEvent::Authenticated)));
            assert!(matches!(actions[3], PendingAction::CloseStream(4)));
            assert!(matches!(actions[4], PendingAction::CloseConnection));
        }
        _ => panic!("another directive"),
    }
    let long = [0u8; 2000];
    let step = next_step(Phase::Event, &[status(), oversized(&long)], true);
    assert!(matches!(step.directive, Directive::Fail(NetworkError::EncodeFailed)));
    assert!(step.messages.is_empty());
}

#[test]
fn polling_comes_to_an_end() {
    let outputs = [NetworkOutput::NeedsPoll];
    let mut phase = Phase::Event;
    let mut ticks = 0;
    loop {
        let step = next_step(phase, &outputs, true);
        match step.directive {
            Directive::Tick => {
                ticks += 1;
                phase = step.phase;
            }
            Directive::Done => break,
            _ => panic!("another directive"),
        }
    }
    assert_eq!(ticks, 10);
}

#[test]
fn operations_of_a_poll() {
    let step = next_step(Phase::Poll { iteration: 3 }, &[NetworkOutput::NeedsPoll, request()], true);
    assert!(matches!(step.directive, Directive::Execute(1)));
    assert_eq!(step.phase, Phase::PollCrypto { iteration: 3, needs_poll: true });

    let step = next_step(step.phase, &[status(), status()], true);
    assert_eq!(step.messages, vec![STATUS.to_vec(), STATUS.to_vec()]);
    assert!(matches!(step.directive, Directive::Tick));
    assert_eq!(step.phase, Phase::Poll { iteration: 4 });

    let phase = Phase::PollCrypto { iteration: 4, needs_poll: false };
    let step = next_step(phase, &[status()], false);
    assert!(step.messages.is_empty());
    assert!(matches!(step.directive, Directive::Done));

    let long = [0u8; 2000];
    let step = next_step(phase, &[status(), oversized(&long), status()], true);
    assert_eq!(step.messages, vec![STATUS.to_vec()]);
    assert!(matches!(step.directive, Directive::Fail(NetworkError::EncodeFailed)));

    let step = next_step(Phase::Poll { iteration: 0 }, &[status()], true);
    assert!(matches!(step.directive, Directive::Done));
}

#[test]
fn server_sends_before_it_computes() {
    let failed = NetworkOutput::Event(NetworkEvent::AuthenticationFailed(NetworkError::CryptoFailed));
    let outputs = [status(), failed.clone(), request(), status()];
    let step = next_server_step(ServerPhase::Data, &outputs);
    assert_eq!(step.messages.len(), 2);
    assert_eq!(step.directive, ServerDirective::Execute(2));

    let step = next_server_step(ServerPhase::Data, &[status(), failed.clone(), status()]);
    assert_eq!(step.messages, vec![STATUS.to_vec()]);
    assert_eq!(
        step.directive,
        ServerDirective::Fail(Stop::AuthenticationFailed(NetworkError::CryptoFailed))
    );

    let step = next_server_step(ServerPhase::Data, &[NetworkOutput::NeedsPoll]);
    assert_eq!(step.directive, ServerDirective::Tick);
    let step = next_server_step(ServerPhase::Poll, &[NetworkOutput::NeedsPoll, failed, status()]);
    assert_eq!(step.messages.len(), 1);
    assert_eq!(step.directive, ServerDirective::Done);
    let step = next_server_step(ServerPhase::Data, &[]);
    assert_eq!(step.directive, ServerDirective::Done);
    let long = [0u8; 2000];
    let step = next_server_step(ServerPhase::Poll, &[oversized(&long)]);
    assert_eq!(step.directive, ServerDirective::Fail(Stop::EncodeFailed));
}

#[test]
fn feeds() {
    let empty = TransportEvent::Data(vec![]);
    let data = TransportEvent::Data(vec![1, 2]);
    assert!(matches!(client_feed(&empty), Feed::Input(NetworkInput::DataReceived(0, []))));
    assert!(matches!(server_feed(&empty), Feed::Nothing));
    assert!(matches!(client_feed(&data), Feed::Input(NetworkInput::DataReceived(0, [1, 2]))));
    assert!(matches!(server_feed(&data), Feed::Input(NetworkInput::DataReceived(0, [1, 2]))));
    assert!(matches!(
        client_feed(&TransportEvent::TimerElapsed),
        Feed::Input(NetworkInput::Tick(0))
    ));
    assert!(matches!(
        server_feed(&TransportEvent::TimerElapsed),
        Feed::Input(NetworkInput::Tick(0))
    ));
    assert!(matches!(client_feed(&TransportEvent::Disconnected), Feed::Lost));
    assert!(matches!(server_feed(&TransportEvent::Disconnected), Feed::Lost));
}

#[test]
fn sessions_are_prepared() {
    let mut data = CryptoData::new();
    data.set_role(true);
    prepare_client(&mut data, &[1; 32], &[2; 32]).unwrap();
    assert!(!data.is_responder);
    assert_eq!(data.my_fingerprint.as_slice(), &[1; 32]);
    assert_eq!(data.peer_fingerprint.as_slice(), &[2; 32]);

    let data = prepare_server(b"psk", &[1; 32], &[2; 32], Some(b"token")).ok().unwrap();
    assert!(data.is_responder);
    assert_eq!(data.psk.as_slice(), b"psk");
    assert_eq!(data.auth_token.as_slice(), b"token");
    assert_eq!(
        prepare_server(&[0; 257], &[1; 32], &[2; 32], None).err(),
        Some(NetworkError::BufferFull)
    );
    assert_eq!(
        prepare_server(b"", &[1; 32], &[2; 32], Some(&[0; 257])).err(),
        Some(NetworkError::BufferFull)
    );
}

#[test]
fn certificates_need_the_right_fingerprint() {
    let ours = CertificateKey::generate("a", "local").unwrap();
    let theirs = CertificateKey::generate("b", "local").unwrap();
    let check = FingerprintVerifier::new(*ours.fingerprint.as_bytes());
    assert_eq!(check.verify_certificate(&ours.cert_der), Ok(()));
    assert_eq!(
        check.verify_certificate(&theirs.cert_der),
        Err(format!(
            "Certificate fingerprint mismatch: expected {}, got {}",
            ours.fingerprint.to_hex(),
            theirs.fingerprint.to_hex()
        ))
    );
    let cause = x509_parser::parse_x509_certificate(b"junk").unwrap_err();
    assert_eq!(
        check.verify_certificate(b"junk"),
        Err(format!("Fingerprint computation failed: Failed to parse certificate: {cause}"))
    );
    let mut near = *ours.fingerprint.as_bytes();
    near[31] ^= 1;
    assert!(check.check_fingerprint(&near).is_err());
    assert!(FingerprintVerifier::new([0; 32]).verify_certificate(&ours.cert_der).is_err());
}

#[test]
fn authentication_ends_with_success_or_loss() {
    assert_eq!(after_turn(true, &Feed::Nothing), Turn::Authenticated);
    assert_eq!(after_turn(true, &Feed::Lost), Turn::Authenticated);
    assert_eq!(after_turn(false, &Feed::Lost), Turn::Lost);
    assert_eq!(after_turn(false, &Feed::Nothing), Turn::Continue);
    assert_eq!(after_turn(false, &Feed::Input(NetworkInput::Tick(0))), Turn::Continue);
}
