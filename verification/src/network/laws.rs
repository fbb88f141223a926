//! What the messages of the network protocol are on the wire, which are accepted, and what a
//! handshake does.
use crate::cbor::code::{codes_of, WireCode};
use crate::cbor::fields::{body_at, code_items, entries_bytes, entry_count, Table, Value};
use crate::cbor::item::{blob_bytes, head_bytes, text_bytes, uint_bytes, ARRAY, MAP};
use crate::cbor::laws::conforms;
use crate::cbor::reading::accepted_bodies_keep_to_limits;
use crate::common::error::MessageError;
use crate::common::type_key::{type_key_bytes, type_key_of};
use crate::crypto::operation::{CryptoOpId, CryptoOpKind, Spake2Operation};
use crate::network::crypto_data::CryptoModel;
use crate::network::messages::{
    is_need_message, network_message_at, AuthCapabilities, AuthSpake2Confirmation,
    AuthSpake2Handshake, AuthStatus, NetworkMessage, NetworkMessageType, PskInputMethod,
};
use crate::network::state_machine::awaiting_capabilities::capabilities_outcome;
use crate::network::state_machine::awaiting_handshake::{
    asks_for_next, handshake_outcome, lemma_handshake_is_read, AwaitingHandshake,
};
use crate::network::state_machine::{asks_to_finish, asks_to_start, State};
use crate::network::{NetworkError, NetworkOutput};
use vstd::prelude::*;
use vstd::utf8::encode_utf8;

verus! {

/// An auth capabilities on the wire.
/// Its fields keep to what a reader accepts if and only if they keep to these limits.
pub proof fn auth_capabilities_on_the_wire(
    message: AuthCapabilities,
)
    ensures
        message.psk_input_methods@.len() > 0 ==> message.body() == head_bytes(MAP, 3)
            + uint_bytes(0) + uint_bytes(message.psk_input_ease.code() as nat) + uint_bytes(1)
            + (head_bytes(ARRAY, message.psk_input_methods@.len())
            + code_items(codes_of(message.psk_input_methods@))) + uint_bytes(2)
            + uint_bytes(message.psk_min_bits_of_entropy as nat),
        message.psk_input_methods@.len() == 0 ==> message.body() == head_bytes(MAP, 2)
            + uint_bytes(0) + uint_bytes(message.psk_input_ease.code() as nat) + uint_bytes(2)
            + uint_bytes(message.psk_min_bits_of_entropy as nat),
        conforms(AuthCapabilities::schema(), message.fields())
            <==> (message.psk_input_methods@.len() <= 8),
{
    reveal_with_fuel(entries_bytes, 4);
    reveal_with_fuel(entry_count, 4);
    message.psk_input_ease.protocol_numbers(message.psk_input_ease.code());
    let codes = codes_of(message.psk_input_methods@);
    assert forall|i: int| 0 <= i < codes.len() implies PskInputMethod::codes().contains(
        #[trigger] codes[i],
    ) by {
        assert(codes[i] == message.psk_input_methods@[i].code());
    }
}

/// An auth capabilities that is accepted holds every field that it needs.
/// Each is within its limits, and the map has a number of entries that it allows.
pub proof fn auth_capabilities_is_accepted(
    data: Seq<u8>,
    pos: int,
    table: Table,
)
    requires
        body_at(AuthCapabilities::layout(), data, pos)
            == Ok::<Table, MessageError>(table),
    ensures
        table.len() == 3,
        (table[0] matches Some(Value::Uint(n)) && (n == 0 || n == 1 || n == 2 || n == 3)),
        (table[1] matches Some(Value::Codes(codes)) && codes.len() <= 8
            && (forall|i: int| 0 <= i < codes.len() ==> #[trigger] codes[i] == 0 || codes[i] == 1
            || codes[i] == 2)),
        (table[2] matches Some(Value::Uint(n)) && n <= u32::MAX),
        AuthCapabilities::layout().min == 2,
        AuthCapabilities::layout().max == 3,
        AuthCapabilities::layout().count_error == MessageError::InvalidField,
{
    accepted_bodies_keep_to_limits(AuthCapabilities::layout(), data, pos);
    assert(table[0] is Some);
    assert(table[1] is Some);
    assert(table[2] is Some);
}

/// An auth SPAKE2 handshake on the wire.
/// Its fields keep to what a reader accepts if and only if they keep to these limits.
pub proof fn auth_spake2_handshake_on_the_wire<'a>(
    message: AuthSpake2Handshake<'a>,
)
    ensures
        message.initiation_token.token matches Some(text) ==> message.body() == head_bytes(MAP, 3)
            + uint_bytes(0) + (head_bytes(MAP, 1) + uint_bytes(0) + text_bytes(text@))
            + uint_bytes(1) + uint_bytes(message.psk_status.code() as nat) + uint_bytes(2)
            + blob_bytes(message.public_value@),
        message.initiation_token.token is None ==> message.body() == head_bytes(MAP, 3)
            + uint_bytes(0) + head_bytes(MAP, 0) + uint_bytes(1)
            + uint_bytes(message.psk_status.code() as nat) + uint_bytes(2)
            + blob_bytes(message.public_value@),
        conforms(AuthSpake2Handshake::schema(), message.fields())
            <==> (message.initiation_token.token matches Some(text)
            ==> encode_utf8(text@).len() <= 256) && (message.public_value@.len() <= 64),
{
    reveal_with_fuel(entries_bytes, 4);
    reveal_with_fuel(entry_count, 4);
    message.psk_status.protocol_numbers(message.psk_status.code());
}

/// An auth SPAKE2 handshake that is accepted holds every field that it needs.
/// Each is within its limits, and the map has a number of entries that it allows.
pub proof fn auth_spake2_handshake_is_accepted(
    data: Seq<u8>,
    pos: int,
    table: Table,
)
    requires
        body_at(AuthSpake2Handshake::layout(), data, pos)
            == Ok::<Table, MessageError>(table),
    ensures
        table.len() == 3,
        (table[0] matches Some(Value::Token(token)) && (token matches Some(text)
            ==> encode_utf8(text).len() <= 256)),
        (table[1] matches Some(Value::Uint(n)) && (n == 0 || n == 1 || n == 2)),
        (table[2] matches Some(Value::Blob(content)) && content.len() <= 64),
        AuthSpake2Handshake::layout().min == 3,
        AuthSpake2Handshake::layout().max == 3,
        AuthSpake2Handshake::layout().count_error == MessageError::InvalidField,
{
    accepted_bodies_keep_to_limits(AuthSpake2Handshake::layout(), data, pos);
    assert(table[0] is Some);
    assert(table[1] is Some);
    assert(table[2] is Some);
}

/// An auth SPAKE2 confirmation on the wire.
/// Its fields keep to what a reader accepts if and only if they keep to these limits.
pub proof fn auth_spake2_confirmation_on_the_wire<'a>(
    message: AuthSpake2Confirmation<'a>,
)
    ensures
        message.body() == head_bytes(MAP, 1) + uint_bytes(0)
            + blob_bytes(message.confirmation_value@),
        conforms(AuthSpake2Confirmation::schema(), message.fields())
            <==> (message.confirmation_value@.len() <= u64::MAX),
{
    reveal_with_fuel(entries_bytes, 2);
    reveal_with_fuel(entry_count, 2);
    assert(message.fields()[0] is Some);
}

/// An auth SPAKE2 confirmation that is accepted holds every field that it needs.
/// Each is within its limits, and the map has a number of entries that it allows.
pub proof fn auth_spake2_confirmation_is_accepted(
    data: Seq<u8>,
    pos: int,
    table: Table,
)
    requires
        body_at(AuthSpake2Confirmation::layout(), data, pos)
            == Ok::<Table, MessageError>(table),
    ensures
        table.len() == 1,
        (table[0] matches Some(Value::Blob(_))),
        AuthSpake2Confirmation::layout().min == 1,
        AuthSpake2Confirmation::layout().max == 1,
        AuthSpake2Confirmation::layout().count_error == MessageError::InvalidField,
{
    accepted_bodies_keep_to_limits(AuthSpake2Confirmation::layout(), data, pos);
    assert(table[0] is Some);
}

/// An auth status on the wire.
/// Its fields keep to what a reader accepts if and only if they keep to these limits.
pub proof fn auth_status_on_the_wire(
    message: AuthStatus,
)
    ensures
        message.body() == head_bytes(MAP, 1) + uint_bytes(0)
            + uint_bytes(message.status.code() as nat),
        conforms(AuthStatus::schema(), message.fields()),
{
    reveal_with_fuel(entries_bytes, 2);
    reveal_with_fuel(entry_count, 2);
    assert(message.fields()[0] is Some);
    message.status.protocol_numbers(message.status.code());
}

/// An auth status that is accepted holds every field that it needs.
/// Each is within its limits, and the map has a number of entries that it allows.
pub proof fn auth_status_is_accepted(
    data: Seq<u8>,
    pos: int,
    table: Table,
)
    requires
        body_at(AuthStatus::layout(), data, pos)
            == Ok::<Table, MessageError>(table),
    ensures
        table.len() == 1,
        (table[0] matches Some(Value::Uint(n)) && (n == 0 || n == 1 || n == 2 || n == 3 || n == 4
            || n == 5)),
        AuthStatus::layout().min == 1,
        AuthStatus::layout().max == 1,
        AuthStatus::layout().count_error == MessageError::InvalidField,
{
    accepted_bodies_keep_to_limits(AuthStatus::layout(), data, pos);
    assert(table[0] is Some);
}

// ---- Any message ----

/// The type key decides how the rest of a message is read. A key of no message, or of one that
/// has no representation, is refused.
pub proof fn network_messages_are_read_by_type(data: Seq<u8>, type_key: u16, width: int)
    requires
        type_key_of(data) == Ok::<(u16, int), MessageError>((type_key, width)),
    ensures
        type_key == 1001 ==> network_message_at(data) == of_type(
            NetworkMessageType::AuthCapabilities,
            body_at(AuthCapabilities::layout(), data.skip(width), 0),
        ),
        type_key == 1005 ==> network_message_at(data) == of_type(
            NetworkMessageType::AuthSpake2Handshake,
            body_at(AuthSpake2Handshake::layout(), data.skip(width), 0),
        ),
        type_key == 1003 ==> network_message_at(data) == of_type(
            NetworkMessageType::AuthSpake2Confirmation,
            body_at(AuthSpake2Confirmation::layout(), data.skip(width), 0),
        ),
        type_key == 1004 ==> network_message_at(data) == of_type(
            NetworkMessageType::AuthStatus,
            body_at(AuthStatus::layout(), data.skip(width), 0),
        ),
        type_key != 1001 && type_key != 1003 && type_key != 1004 && type_key != 1005
            ==> network_message_at(data) == Err::<(NetworkMessageType, Table), MessageError>(
            MessageError::InvalidMessageType,
        ),
        is_need_message(data) <==> type_key == 1002,
{
    NetworkMessageType::AuthSpake2Need.protocol_keys(type_key);
    if let Some(message_type) = NetworkMessageType::with_key(type_key) {
        message_type.protocol_keys(type_key);
    }
}

/// What was read of a body, told with its type.
pub open spec fn of_type(
    message_type: NetworkMessageType,
    body: Result<Table, MessageError>,
) -> Result<(NetworkMessageType, Table), MessageError> {
    match body {
        Ok(table) => Ok((message_type, table)),
        Err(e) => Err(e),
    }
}

/// The type keys that messages are written with.
pub proof fn network_messages_have_their_keys<'a>(message: NetworkMessage<'a>)
    ensures
        message is AuthCapabilities ==> message.message_type().key() == 1001,
        message is AuthSpake2Handshake ==> message.message_type().key() == 1005,
        message is AuthSpake2Confirmation ==> message.message_type().key() == 1003,
        message is AuthStatus ==> message.message_type().key() == 1004,
        message.bytes() == type_key_bytes(message.message_type().key()) + message.body(),
        message.is_oversized() <==> (message matches NetworkMessage::AuthSpake2Handshake(
            handshake,
        ) && (handshake.public_value@.len() > 64 || (handshake.initiation_token.token matches Some(
            text,
        ) && encode_utf8(text@).len() > 256))),
{
    message.message_type().protocol_keys(message.message_type().key());
}

/// A message of any type has the body and the fields of that type, and a reader accepts it exactly
/// where its fields keep to the limits of that type. What it is read back as is itself, or an error
/// where a field is too long.
pub proof fn network_messages_are_of_their_type<'a>(message: NetworkMessage<'a>, bytes: Seq<u8>)
    ensures
        message matches NetworkMessage::AuthCapabilities(inner) ==> {
            &&& message.is_readable() <==> conforms(AuthCapabilities::schema(), inner.fields())
            &&& message.body() == inner.body()
            &&& message.fields() == inner.fields()
        },
        message matches NetworkMessage::AuthSpake2Handshake(inner) ==> {
            &&& message.is_readable() <==> conforms(AuthSpake2Handshake::schema(), inner.fields())
            &&& message.body() == inner.body()
            &&& message.fields() == inner.fields()
        },
        message matches NetworkMessage::AuthSpake2Confirmation(inner) ==> {
            &&& message.is_readable() <==> conforms(AuthSpake2Confirmation::schema(), inner.fields())
            &&& message.body() == inner.body()
            &&& message.fields() == inner.fields()
        },
        message matches NetworkMessage::AuthStatus(inner) ==> {
            &&& message.is_readable() <==> conforms(AuthStatus::schema(), inner.fields())
            &&& message.body() == inner.body()
            &&& message.fields() == inner.fields()
        },
        message.is_read_back(bytes) && !message.is_oversized() ==> network_message_at(bytes) == Ok::<
            (NetworkMessageType, Table),
            MessageError,
        >((message.message_type(), message.fields())),
        message.is_read_back(bytes) && message.is_oversized() ==> network_message_at(bytes) == Err::<
            (NetworkMessageType, Table),
            MessageError,
        >(MessageError::FieldTooLong),
{
}

// ---- The handshake ----

/// The initiator takes any handshake of up to 1024 bytes, whatever its token: it keeps the
/// message and the public value, its transcript is its own message and then this one, and
/// nothing else of its data changes. Then it asks for the shared secret, if one more output can
/// be queued.
pub proof fn initiator_takes_handshakes(
    data: CryptoModel,
    handshake: AuthSpake2Handshake,
    has_room: bool,
)
    requires
        NetworkMessage::AuthSpake2Handshake(handshake).is_readable(),
        type_key_bytes(1005).len() + handshake.body().len() <= 1024,
        !data.is_responder,
    ensures
        ({
            let message = type_key_bytes(1005) + handshake.body();
            let (result, after) = handshake_outcome(data, message, has_room);
            &&& has_room ==> result == Ok::<State, NetworkError>(State::Computing)
            &&& !has_room ==> result == Err::<State, NetworkError>(NetworkError::BufferFull)
            &&& after.transcript == data.our_handshake_msg + message
            &&& after.peer_handshake_msg == message
            &&& after.peer_public_temp == handshake.public_value@
            &&& same_keys(data, after)
        }),
{
    lemma_handshake_is_read(handshake);
    auth_spake2_handshake_on_the_wire(handshake);
}

/// Whether two states of the data have the same keys, token, role, fingerprints and own message.
pub open spec fn same_keys(before: CryptoModel, after: CryptoModel) -> bool {
    &&& after.psk == before.psk
    &&& after.auth_token == before.auth_token
    &&& after.is_responder == before.is_responder
    &&& after.spake2_public == before.spake2_public
    &&& after.our_handshake_msg == before.our_handshake_msg
    &&& after.my_fingerprint == before.my_fingerprint
    &&& after.peer_fingerprint == before.peer_fingerprint
}

/// A responder without a token, or whose token the handshake repeats, takes it: it keeps the
/// message and the public value. Without a public value of its own it asks for one, and its
/// transcript stays as it was; with one it asks for the shared secret as the initiator does.
pub proof fn responder_takes_handshakes(
    data: CryptoModel,
    handshake: AuthSpake2Handshake,
    has_room: bool,
)
    requires
        NetworkMessage::AuthSpake2Handshake(handshake).is_readable(),
        type_key_bytes(1005).len() + handshake.body().len() <= 1024,
        data.is_responder,
        data.auth_token.len() == 0 || (handshake.initiation_token.token matches Some(text)
            && encode_utf8(text@) == data.auth_token),
    ensures
        ({
            let message = type_key_bytes(1005) + handshake.body();
            let (result, after) = handshake_outcome(data, message, has_room);
            &&& !has_room ==> result == Err::<State, NetworkError>(NetworkError::BufferFull)
            &&& has_room && data.spake2_public.len() == 0 ==> result == Ok::<State, NetworkError>(
                State::GeneratingHandshake,
            )
            &&& has_room && data.spake2_public.len() > 0 ==> result == Ok::<State, NetworkError>(
                State::Computing,
            )
            &&& data.spake2_public.len() == 0 ==> after.transcript == data.transcript
            &&& data.spake2_public.len() > 0 ==> after.transcript == data.our_handshake_msg
                + message
            &&& after.peer_handshake_msg == message
            &&& after.peer_public_temp == handshake.public_value@
            &&& same_keys(data, after)
        }),
{
    lemma_handshake_is_read(handshake);
    auth_spake2_handshake_on_the_wire(handshake);
}

/// A responder with a token refuses a handshake with another token or none, and keeps nothing
/// of it.
pub proof fn responder_refuses_other_tokens(
    data: CryptoModel,
    handshake: AuthSpake2Handshake,
    has_room: bool,
)
    requires
        NetworkMessage::AuthSpake2Handshake(handshake).is_readable(),
        data.is_responder,
        data.auth_token.len() > 0,
        handshake.initiation_token.token matches Some(text) ==> encode_utf8(text@)
            != data.auth_token,
    ensures
        handshake_outcome(data, type_key_bytes(1005) + handshake.body(), has_room).0 == Err::<
            State,
            NetworkError,
        >(NetworkError::AuthenticationFailed),
        handshake_outcome(data, type_key_bytes(1005) + handshake.body(), has_room).1 == data,
{
    lemma_handshake_is_read(handshake);
}

/// A handshake with more than 1024 bytes, counting what follows it, is no longer kept, nor is
/// the one before it.
pub proof fn long_handshakes_are_refused(
    data: CryptoModel,
    handshake: AuthSpake2Handshake,
    rest: Seq<u8>,
    has_room: bool,
)
    requires
        NetworkMessage::AuthSpake2Handshake(handshake).is_readable(),
        type_key_bytes(1005).len() + handshake.body().len() + rest.len() > 1024,
        data.is_responder && data.auth_token.len() > 0 ==> (
        handshake.initiation_token.token matches Some(text) && encode_utf8(text@)
            == data.auth_token),
    ensures
        ({
            let message = type_key_bytes(1005) + handshake.body() + rest;
            let (result, after) = handshake_outcome(data, message, has_room);
            &&& result == Err::<State, NetworkError>(NetworkError::BufferFull)
            &&& after.peer_handshake_msg == Seq::<u8>::empty()
            &&& after.peer_public_temp == data.peer_public_temp
            &&& after.transcript == data.transcript
            &&& same_keys(data, after)
        }),
{
    NetworkMessage::AuthSpake2Handshake(handshake).round_trip(rest);
}

/// Any other message, and what is no message, is refused where a handshake is due, and nothing
/// of it is kept.
pub proof fn only_handshakes_are_taken<'a>(
    data: CryptoModel,
    other: NetworkMessage<'a>,
    bytes: Seq<u8>,
    rest: Seq<u8>,
    has_room: bool,
)
    requires
        network_message_at(bytes) is Err || (bytes == other.bytes() + rest && other.is_readable()
            && !(other is AuthSpake2Handshake)),
    ensures
        handshake_outcome(data, bytes, has_room).0 == Err::<State, NetworkError>(
            NetworkError::DecodeFailed,
        ),
        handshake_outcome(data, bytes, has_room).1 == data,
{
    if network_message_at(bytes) is Ok {
        other.round_trip(rest);
    }
}

/// A request for the start of a key exchange tells the password and the role, and names nobody.
pub proof fn start_requests(
    output: NetworkOutput,
    op_id: CryptoOpId,
    password: Seq<u8>,
    is_responder: bool,
)
    requires
        asks_to_start(output, op_id, password, is_responder),
    ensures
        ({
            &&& output matches NetworkOutput::RequestCrypto(request)
            &&& request.op_id == op_id
            &&& request.kind matches CryptoOpKind::Spake2(operation)
            &&& operation matches Spake2Operation::Start {
                password_id: None,
                password: given,
                is_responder: role,
            }
            &&& given@ == password
            &&& role == is_responder
        }),
{
}

/// A request for the end of a key exchange tells our public value, that of the peer, the
/// transcript, both fingerprints, ours first, and the role.
pub proof fn finish_requests(output: NetworkOutput, op_id: CryptoOpId, data: CryptoModel)
    requires
        asks_to_finish(output, op_id, data),
    ensures
        ({
            &&& output matches NetworkOutput::RequestCrypto(request)
            &&& request.op_id == op_id
            &&& request.kind matches CryptoOpKind::Spake2(operation)
            &&& operation matches Spake2Operation::FinishWithConfirmation {
                state,
                peer_public,
                message_transcript,
                my_tls_fingerprint,
                peer_tls_fingerprint,
                is_responder,
            }
            &&& state@ == data.spake2_public
            &&& peer_public@ == data.peer_public_temp
            &&& message_transcript@ == data.transcript
            &&& my_tls_fingerprint@ == data.my_fingerprint
            &&& peer_tls_fingerprint@ == data.peer_fingerprint
            &&& is_responder == data.is_responder
        }),
{
}

/// What is asked for after a handshake: a public value under the pre-shared key, as the operation
/// 1, or the shared secret for both public values and the transcript, as the operation 3.
pub proof fn handshakes_ask_for_operations(output: NetworkOutput, next: State, data: CryptoModel)
    requires
        asks_for_next(output, next, data),
    ensures
        next is GeneratingHandshake ==> ({
            &&& output matches NetworkOutput::RequestCrypto(request)
            &&& request.op_id == 1
            &&& request.kind matches CryptoOpKind::Spake2(operation)
            &&& operation matches Spake2Operation::Start { password, is_responder, .. }
            &&& password@ == data.psk
            &&& is_responder == data.is_responder
        }),
        next is Computing ==> ({
            &&& output matches NetworkOutput::RequestCrypto(request)
            &&& request.op_id == 3
            &&& request.kind matches CryptoOpKind::Spake2(operation)
            &&& operation matches Spake2Operation::FinishWithConfirmation {
                state,
                peer_public,
                message_transcript,
                ..
            }
            &&& state@ == data.spake2_public
            &&& peer_public@ == data.peer_public_temp
            &&& message_transcript@ == data.transcript
        }),
{
}

/// Whatever capabilities a peer has, its message is taken: any ease of input, any methods and
/// any number of bits. The responder goes on to wait for a handshake, and the initiator to its
/// public value, if one more output can be queued.
pub proof fn capabilities_are_taken(
    capabilities: AuthCapabilities,
    rest: Seq<u8>,
    is_responder: bool,
    has_room: bool,
)
    requires
        capabilities.psk_input_methods@.len() <= 8,
    ensures
        capabilities_outcome(
            is_responder,
            type_key_bytes(1001) + capabilities.body() + rest,
            has_room,
        ) == if is_responder {
            Ok::<State, NetworkError>(State::AwaitingHandshake(AwaitingHandshake {  }))
        } else if has_room {
            Ok(State::InitiatingHandshake)
        } else {
            Err(NetworkError::BufferFull)
        },
{
    auth_capabilities_on_the_wire(capabilities);
    capabilities.round_trip(rest);
}

/// Any other message is refused where capabilities are due.
pub proof fn only_capabilities_are_taken(
    data: Seq<u8>,
    type_key: u16,
    width: int,
    is_responder: bool,
    has_room: bool,
)
    requires
        type_key_of(data) == Ok::<(u16, int), MessageError>((type_key, width)),
        type_key != 1001,
    ensures
        capabilities_outcome(is_responder, data, has_room) == Err::<State, NetworkError>(
            NetworkError::DecodeFailed,
        ),
{
}

} // verus!
