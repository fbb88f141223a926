//! The states of an authentication that take messages of the peer.
pub mod awaiting_capabilities;
pub mod awaiting_handshake;

use crate::crypto::operation::{CryptoOpId, CryptoOpKind, Spake2Operation};
use crate::network::crypto_data::CryptoModel;
use crate::network::state_machine::awaiting_capabilities::AwaitingCapabilities;
use crate::network::state_machine::awaiting_handshake::AwaitingHandshake;
use crate::network::NetworkOutput;
use vstd::prelude::*;

verus! {

/// The state that follows an input.
#[derive(Debug)]
pub enum State {
    /// Waiting for the capabilities of the peer.
    AwaitingCapabilities(AwaitingCapabilities),
    /// The initiator waits for its public value.
    InitiatingHandshake,
    /// Waiting for the handshake of the peer.
    AwaitingHandshake(AwaitingHandshake),
    /// The responder waits for its public value.
    GeneratingHandshake,
    /// Waiting for the shared secret and its confirmation.
    Computing,
}

/// Whether `output` asks for the start of a key exchange under a password, with the usual
/// identities.
pub open spec fn asks_to_start(
    output: NetworkOutput,
    op_id: CryptoOpId,
    password: Seq<u8>,
    is_responder: bool,
) -> bool {
    &&& output matches NetworkOutput::RequestCrypto(request)
    &&& request.op_id == op_id
    &&& request.kind matches CryptoOpKind::Spake2(operation)
    &&& operation matches Spake2Operation::Start { password_id, password: given, is_responder: role }
    &&& password_id is None
    &&& given@ == password
    &&& role == is_responder
}

/// Whether `output` asks for the end of the key exchange that `data` tells of, and for the
/// confirmation of its transcript.
pub open spec fn asks_to_finish(output: NetworkOutput, op_id: CryptoOpId, data: CryptoModel) -> bool {
    &&& output matches NetworkOutput::RequestCrypto(request)
    &&& request.op_id == op_id
    &&& request.kind matches CryptoOpKind::Spake2(operation)
    &&& operation matches Spake2Operation::FinishWithConfirmation {
        state,
        peer_public,
        message_transcript,
        my_tls_fingerprint,
        peer_tls_fingerprint,
        is_responder,
    }
    &&& state@ == data.spake2_public
    &&& peer_public@ == data.peer_public_temp
    &&& message_transcript@ == data.transcript
    &&& my_tls_fingerprint@ == data.my_fingerprint
    &&& peer_tls_fingerprint@ == data.peer_fingerprint
    &&& is_responder == data.is_responder
}

} // verus!
