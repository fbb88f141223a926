//! Both sides wait for the capabilities of the peer.
use crate::bounded::BoundedVec;
use crate::cbor::reader::message_at;
use crate::crypto::operation::{CryptoOpKind, CryptoRequest, Spake2Operation};
use crate::network::crypto_data::CryptoData;
use crate::network::messages::AuthCapabilities;
use crate::network::state_machine::awaiting_handshake::AwaitingHandshake;
use crate::network::state_machine::{asks_to_start, State};
use crate::network::{NetworkError, NetworkInput, NetworkOutput, MAX_OUTPUT_QUEUE};
use vstd::prelude::*;

verus! {

/// Waiting for the capabilities of the peer.
#[derive(Debug)]
pub struct AwaitingCapabilities;

/// What a message does: the state that follows, or an error. `has_room` tells whether one more
/// output can be queued.
pub open spec fn capabilities_outcome(is_responder: bool, message: Seq<u8>, has_room: bool) -> Result<
    State,
    NetworkError,
> {
    match message_at(1001, AuthCapabilities::layout(), message) {
        Err(_) => Err(NetworkError::DecodeFailed),
        Ok(_) => if is_responder {
            Ok(State::AwaitingHandshake(AwaitingHandshake {  }))
        } else if has_room {
            Ok(State::InitiatingHandshake)
        } else {
            Err(NetworkError::BufferFull)
        },
    }
}

impl AwaitingCapabilities {
    pub fn new() -> (s: Self)
        ensures
            s == AwaitingCapabilities,
    {
        AwaitingCapabilities
    }

    /// Takes the capabilities of the peer, whatever they are. The responder goes on to wait
    /// for the handshake of the initiator; the initiator asks for its public value.
    pub fn handle<'a>(
        self,
        crypto_data: &'a mut CryptoData,
        input: &NetworkInput,
        outputs: &mut BoundedVec<NetworkOutput<'a>, MAX_OUTPUT_QUEUE>,
    ) -> (r: Result<State, NetworkError>)
        requires
            input is DataReceived || input is Tick,
        ensures
            final(crypto_data)@ == old(crypto_data)@,
            match *input {
                NetworkInput::DataReceived(_, data) => match message_at(
                    1001,
                    AuthCapabilities::layout(),
                    data@,
                ) {
                    Err(_) => r == Err::<State, NetworkError>(NetworkError::DecodeFailed) && final(outputs)@ == old(outputs)@,
                    Ok(_) => if old(crypto_data).is_responder {
                        r == Ok::<State, NetworkError>(State::AwaitingHandshake(AwaitingHandshake {  }))
                            && final(outputs)@ == old(outputs)@
                    } else if old(outputs)@.len() >= MAX_OUTPUT_QUEUE {
                        r == Err::<State, NetworkError>(NetworkError::BufferFull) && final(outputs)@ == old(outputs)@
                    } else {
                        &&& r == Ok::<State, NetworkError>(State::InitiatingHandshake)
                        &&& final(outputs)@.len() == old(outputs)@.len() + 1
                        &&& final(outputs)@.drop_last() == old(outputs)@
                        &&& asks_to_start(
                            final(outputs)@.last(),
                            1,
                            old(crypto_data).psk@,
                            false,
                        )
                    },
                },
                _ => r == Ok::<State, NetworkError>(State::AwaitingCapabilities(self)) && final(outputs)@ == old(outputs)@,
            },
            input matches NetworkInput::DataReceived(_, data) ==> r == capabilities_outcome(
                old(crypto_data).is_responder,
                data@,
                old(outputs)@.len() < MAX_OUTPUT_QUEUE,
            ),
    {
        match input {
            NetworkInput::DataReceived(_stream_id, data) => {
                match AuthCapabilities::decode(data) {
                    Ok(_) => {},
                    Err(_) => return Err(NetworkError::DecodeFailed),
                }
                if crypto_data.is_responder {
                    return Ok(State::AwaitingHandshake(AwaitingHandshake::new()));
                }
                let request = CryptoRequest {
                    op_id: 1,
                    kind: CryptoOpKind::Spake2(
                        Spake2Operation::Start {
                            password_id: None,
                            password: crypto_data.psk.as_slice(),
                            is_responder: false,
                        },
                    ),
                };
                match outputs.push(NetworkOutput::RequestCrypto(request)) {
                    Ok(()) => {
                        proof {
                            assert(outputs@.drop_last() =~= old(outputs)@);
                        }
                        Ok(State::InitiatingHandshake)
                    },
                    Err(_) => Err(NetworkError::BufferFull),
                }
            },
            _ => Ok(State::AwaitingCapabilities(self)),
        }
    }
}

impl Default for AwaitingCapabilities {
    fn default() -> (s: Self)
        ensures
            s == AwaitingCapabilities,
    {
        AwaitingCapabilities::new()
    }
}

} // verus!
