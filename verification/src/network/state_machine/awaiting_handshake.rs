//! Waiting for the handshake of the peer.
use crate::bounded::BoundedVec;
use crate::cbor::fields::Value;
use crate::common::type_key::type_key_bytes;
use crate::crypto::operation::{CryptoOpKind, CryptoRequest, Spake2Operation};
use crate::crypto::primitive::constant_time_eq;
use crate::network::crypto_data::{
    replace, CryptoData, CryptoModel, MAX_HANDSHAKE_LEN, MAX_PUBLIC_LEN,
};
use crate::network::messages::{
    is_need_message, network_message_at, AuthSpake2Handshake, NetworkMessage, NetworkMessageType,
};
use crate::network::state_machine::{asks_to_finish, asks_to_start, State};
use crate::network::{NetworkError, NetworkInput, NetworkOutput, MAX_OUTPUT_QUEUE};
use vstd::prelude::*;
use vstd::string::StringSliceAdditionalSpecFns;
use vstd::utf8::{encode_utf8, encode_utf8_valid_utf8};

verus! {

/// Waiting for the handshake of the peer.
#[derive(Debug)]
pub struct AwaitingHandshake {}

/// The token and the public value of a handshake message.
pub open spec fn handshake_at(message: Seq<u8>) -> Option<(Option<Seq<char>>, Seq<u8>)> {
    match network_message_at(message) {
        Ok((NetworkMessageType::AuthSpake2Handshake, table)) => match (table[0], table[2]) {
            (Some(Value::Token(token)), Some(Value::Blob(public))) => Some((token, public)),
            _ => None,
        },
        _ => None,
    }
}

/// Whether the token of the peer is acceptable: a responder that advertised a token wants
/// that token, anybody else takes any.
pub open spec fn is_token_accepted(data: CryptoModel, token: Option<Seq<char>>) -> bool {
    data.is_responder && data.auth_token.len() > 0 ==> {
        &&& token matches Some(text)
        &&& encode_utf8(text) == data.auth_token
    }
}

/// What a message does: the state that follows or an error, and what becomes of the data.
/// `has_room` tells whether one more output can be queued.
pub open spec fn handshake_outcome(data: CryptoModel, message: Seq<u8>, has_room: bool) -> (
    Result<State, NetworkError>,
    CryptoModel,
) {
    match handshake_at(message) {
        None => (Err(NetworkError::DecodeFailed), data),
        Some((token, public)) => if !is_token_accepted(data, token) {
            (Err(NetworkError::AuthenticationFailed), data)
        } else if message.len() > MAX_HANDSHAKE_LEN {
            (
                Err(NetworkError::BufferFull),
                CryptoModel { peer_handshake_msg: Seq::empty(), ..data },
            )
        } else if public.len() > MAX_PUBLIC_LEN {
            (
                Err(NetworkError::BufferFull),
                CryptoModel {
                    peer_handshake_msg: message,
                    peer_public_temp: Seq::empty(),
                    ..data
                },
            )
        } else if data.is_responder && data.spake2_public.len() == 0 {
            (
                if has_room {
                    Ok(State::GeneratingHandshake)
                } else {
                    Err(NetworkError::BufferFull)
                },
                CryptoModel { peer_handshake_msg: message, peer_public_temp: public, ..data },
            )
        } else {
            (
                if has_room {
                    Ok(State::Computing)
                } else {
                    Err(NetworkError::BufferFull)
                },
                CryptoModel {
                    peer_handshake_msg: message,
                    peer_public_temp: public,
                    transcript: data.our_handshake_msg + message,
                    ..data
                },
            )
        },
    }
}

/// Whether an output asks for what the state that follows a handshake waits for: the public value
/// of the responder, or the shared secret and its confirmation.
pub open spec fn asks_for_next(output: NetworkOutput, next: State, data: CryptoModel) -> bool {
    if next is GeneratingHandshake {
        asks_to_start(output, 1, data.psk, data.is_responder)
    } else {
        asks_to_finish(output, 3, data)
    }
}

impl AwaitingHandshake {
    pub fn new() -> (s: Self)
        ensures
            s == (AwaitingHandshake {  }),
    {
        AwaitingHandshake {  }
    }

    /// Takes the handshake of the peer. The responder, which has no public value yet, asks
    /// for one; the initiator asks for the shared secret and its confirmation.
    pub fn handle<'a, 'b>(
        self,
        crypto_data: &'a mut CryptoData,
        input: &'b NetworkInput<'b>,
        outputs: &mut BoundedVec<NetworkOutput<'a>, MAX_OUTPUT_QUEUE>,
    ) -> (r: Result<State, NetworkError>)
        requires
            match *input {
                NetworkInput::DataReceived(_, message) => !is_need_message(message@),
                NetworkInput::Tick(_) => true,
                _ => false,
            },
        ensures
            match *input {
                NetworkInput::DataReceived(_, message) => {
                    let (result, after) = handshake_outcome(
                        old(crypto_data)@,
                        message@,
                        old(outputs)@.len() < MAX_OUTPUT_QUEUE,
                    );
                    &&& r == result
                    &&& final(crypto_data)@ == after
                    &&& match r {
                        Ok(next) => {
                            &&& final(outputs)@.len() == old(outputs)@.len() + 1
                            &&& final(outputs)@.drop_last() == old(outputs)@
                            &&& if next is GeneratingHandshake {
                                asks_to_start(
                                    final(outputs)@.last(),
                                    1,
                                    after.psk,
                                    after.is_responder,
                                )
                            } else {
                                asks_to_finish(final(outputs)@.last(), 3, after)
                            }
                            &&& asks_for_next(final(outputs)@.last(), next, after)
                        },
                        Err(_) => final(outputs)@ == old(outputs)@,
                    }
                },
                _ => {
                    &&& r == Ok::<State, NetworkError>(State::AwaitingHandshake(self))
                    &&& final(crypto_data)@ == old(crypto_data)@
                    &&& final(outputs)@ == old(outputs)@
                },
            },
    {
        match input {
            NetworkInput::DataReceived(_stream, message) => {
                let handshake = match NetworkMessage::decode(message) {
                    Ok(NetworkMessage::AuthSpake2Handshake(handshake)) => handshake,
                    _ => return Err(NetworkError::DecodeFailed),
                };
                proof {
                    assert(handshake_at(message@) == Some(
                        (handshake.initiation_token.text(), handshake.public_value@),
                    ));
                }
                if crypto_data.is_responder && !crypto_data.auth_token.is_empty() {
                    let expected = match crypto_data.auth_token_str() {
                        Some(text) => text,
                        None => {
                            proof {
                                if let Some(text) = handshake.initiation_token.text() {
                                    encode_utf8_valid_utf8(text);
                                }
                            }
                            return Err(NetworkError::AuthenticationFailed);
                        },
                    };
                    match handshake.initiation_token.token {
                        Some(received) => {
                            if !constant_time_eq(received.as_bytes(), expected.as_bytes()) {
                                return Err(NetworkError::AuthenticationFailed);
                            }
                        },
                        None => return Err(NetworkError::AuthenticationFailed),
                    }
                }
                match replace(&mut crypto_data.peer_handshake_msg, message) {
                    Ok(()) => {},
                    Err(e) => return Err(e),
                }
                match replace(&mut crypto_data.peer_public_temp, handshake.public_value) {
                    Ok(()) => {},
                    Err(e) => return Err(e),
                }
                if crypto_data.is_responder && crypto_data.spake2_public.is_empty() {
                    let request = CryptoRequest {
                        op_id: 1,
                        kind: CryptoOpKind::Spake2(
                            Spake2Operation::Start {
                                password_id: None,
                                password: crypto_data.psk.as_slice(),
                                is_responder: crypto_data.is_responder,
                            },
                        ),
                    };
                    match outputs.push(NetworkOutput::RequestCrypto(request)) {
                        Ok(()) => {
                            proof {
                                assert(outputs@.drop_last() =~= old(outputs)@);
                            }
                            Ok(State::GeneratingHandshake)
                        },
                        Err(_) => Err(NetworkError::BufferFull),
                    }
                } else {
                    match replace(
                        &mut crypto_data.transcript,
                        crypto_data.our_handshake_msg.as_slice(),
                    ) {
                        Ok(()) => {},
                        Err(e) => return Err(e),
                    }
                    match crypto_data.transcript.extend_from_slice(
                        crypto_data.peer_handshake_msg.as_slice(),
                    ) {
                        Ok(()) => {},
                        Err(()) => return Err(NetworkError::BufferFull),
                    }
                    let request = CryptoRequest {
                        op_id: 3,
                        kind: CryptoOpKind::Spake2(
                            Spake2Operation::FinishWithConfirmation {
                                state: crypto_data.spake2_public.as_slice(),
                                peer_public: crypto_data.peer_public_temp.as_slice(),
                                message_transcript: crypto_data.transcript.as_slice(),
                                my_tls_fingerprint: crypto_data.my_fingerprint.as_slice(),
                                peer_tls_fingerprint: crypto_data.peer_fingerprint.as_slice(),
                                is_responder: crypto_data.is_responder,
                            },
                        ),
                    };
                    match outputs.push(NetworkOutput::RequestCrypto(request)) {
                        Ok(()) => {
                            proof {
                                assert(outputs@.drop_last() =~= old(outputs)@);
                            }
                            Ok(State::Computing)
                        },
                        Err(_) => Err(NetworkError::BufferFull),
                    }
                }
            },
            _ => Ok(State::AwaitingHandshake(self)),
        }
    }
}

impl Default for AwaitingHandshake {
    fn default() -> (s: Self)
        ensures
            s == (AwaitingHandshake {  }),
    {
        AwaitingHandshake::new()
    }
}

// ---- Laws ----

/// The handshake that a peer sends is read as what it holds.
pub proof fn lemma_handshake_is_read(handshake: AuthSpake2Handshake)
    requires
        NetworkMessage::AuthSpake2Handshake(handshake).is_readable(),
    ensures
        handshake_at(type_key_bytes(1005) + handshake.body()) == Some(
            (handshake.initiation_token.text(), handshake.public_value@),
        ),
{
    let message = NetworkMessage::AuthSpake2Handshake(handshake);
    message.round_trip(Seq::empty());
    assert(message.bytes() + Seq::<u8>::empty() =~= type_key_bytes(1005) + handshake.body());
}

/// A responder that advertised a token discards a handshake with another token or none, and
/// keeps nothing of it.
pub proof fn other_token_is_refused(data: CryptoModel, handshake: AuthSpake2Handshake, has_room: bool)
    requires
        NetworkMessage::AuthSpake2Handshake(handshake).is_readable(),
        data.is_responder,
        data.auth_token.len() > 0,
        handshake.initiation_token.text() matches Some(text) ==> encode_utf8(text)
            != data.auth_token,
    ensures
        handshake_outcome(data, type_key_bytes(1005) + handshake.body(), has_room) == (
            Err::<State, NetworkError>(NetworkError::AuthenticationFailed),
            data,
        ),
{
    lemma_handshake_is_read(handshake);
}

/// A responder accepts a handshake that repeats the token that it advertised, keeps the
/// message and the public value, and goes on to its own public value.
pub proof fn same_token_is_accepted(data: CryptoModel, handshake: AuthSpake2Handshake, text: Seq<char>)
    requires
        NetworkMessage::AuthSpake2Handshake(handshake).is_readable(),
        (type_key_bytes(1005) + handshake.body()).len() <= MAX_HANDSHAKE_LEN,
        data.is_responder,
        data.spake2_public.len() == 0,
        handshake.initiation_token.text() == Some(text),
        data.auth_token == encode_utf8(text),
    ensures
        handshake_outcome(data, type_key_bytes(1005) + handshake.body(), true) == (
            Ok::<State, NetworkError>(State::GeneratingHandshake),
            CryptoModel {
                peer_handshake_msg: type_key_bytes(1005) + handshake.body(),
                peer_public_temp: handshake.public_value@,
                ..data
            },
        ),
{
    lemma_handshake_is_read(handshake);
    assert(handshake.fields()[2] == Some(Value::Blob(handshake.public_value@)));
}

} // verus!
