//! How a receiver answers a request for information.
use crate::application::messages::agent::{
    agent_info_response_at, AgentInfo, AgentInfoRequest, AgentInfoResponse,
};
use crate::bounded::{byte_len, BoundedVec};
use crate::cbor::code::codes_of;
use crate::cbor::fields::{entries_bytes, Table, Value};
use crate::cbor::item::{head_bytes, uint_bytes, MAP};
use crate::cbor::laws::conforms;
use crate::cbor::reader::{body_of, message_at, texts_of};
use crate::common::error::MessageError;
use crate::common::quinn_varint::varint_round_trip;
use crate::common::type_key::type_key_bytes;
use vstd::prelude::*;
use vstd::utf8::is_ascii_chars_encode_utf8;

verus! {

/// The most bytes of an answer.
pub const MAX_ANSWER_SIZE: usize = 1024;

/// What a receiver with this name says of itself.
pub open spec fn receiver_fields(name: Seq<char>) -> Table {
    seq![
        Some(Value::Text(name)),
        Some(Value::Text("OpenScreen Test Receiver"@)),
        Some(Value::Codes(Seq::empty())),
        Some(Value::Text("ready"@)),
        Some(Value::Texts(Seq::empty())),
    ]
}

/// The answer of a receiver with this name to the request with this id.
pub open spec fn answer_bytes(request_id: nat, name: Seq<char>) -> Seq<u8> {
    type_key_bytes(11) + entries_bytes(
        head_bytes(MAP, 2) + uint_bytes(0) + uint_bytes(request_id) + uint_bytes(1) + head_bytes(
            MAP,
            5,
        ),
        AgentInfo::schema(),
        receiver_fields(name),
        5,
    )
}

/// Why there is no answer.
#[derive(Debug, Clone, Copy, PartialEq, Eq, Structural)]
pub enum AnswerError {
    /// The request could not be read.
    InvalidRequest(MessageError),
    /// The answer does not fit.
    EncodeFailed(MessageError),
}

/// Answers a request for information. The request id and the answer come back; who asked
/// reads from the answer the id of the request and what the receiver says of itself.
pub fn answer_info_request(request: &[u8], receiver_name: &str) -> (r: Result<
    (u64, BoundedVec<u8, MAX_ANSWER_SIZE>),
    AnswerError,
>)
    ensures
        match message_at(10, AgentInfoRequest::layout(), request@) {
            Err(e) => r matches Err(error) && error == AnswerError::InvalidRequest(e),
            Ok(table) => {
                &&& table[0] matches Some(Value::Uint(id))
                &&& if answer_bytes(id, receiver_name@).len() > MAX_ANSWER_SIZE {
                    r matches Err(error) && error == AnswerError::EncodeFailed(
                        MessageError::EncodeFailed,
                    )
                } else {
                    r matches Ok((request_id, answer)) && request_id == id && answer@
                        == answer_bytes(id, receiver_name@)
                }
            },
        },
        match r {
            Ok((request_id, answer)) => byte_len(receiver_name@) <= 256 ==> (body_of(
                11,
                answer@,
            ) matches Ok(body) && agent_info_response_at(body) == Ok::<Table, MessageError>(
                seq![Some(Value::Uint(request_id as nat))] + receiver_fields(receiver_name@),
            )),
            Err(_) => true,
        },
        r matches Ok((_, answer)) ==> answer@.len() <= 1024,
        r matches Err(AnswerError::EncodeFailed(_)) ==> (message_at(
            10,
            AgentInfoRequest::layout(),
            request@,
        ) matches Ok(table) && (table[0] matches Some(Value::Uint(id)) && answer_bytes(
            id,
            receiver_name@,
        ).len() > 1024)),
{
    let request: AgentInfoRequest = match AgentInfoRequest::decode(request) {
        Ok(request) => request,
        Err(e) => return Err(AnswerError::InvalidRequest(e)),
    };
    let response = AgentInfoResponse {
        request_id: request.request_id,
        agent_info: AgentInfo {
            display_name: receiver_name,
            model_name: "OpenScreen Test Receiver",
            capabilities: BoundedVec::new(),
            state_token: "ready",
            locales: BoundedVec::new(),
        },
    };
    let mut answer: BoundedVec<u8, MAX_ANSWER_SIZE> = BoundedVec::new();
    proof {
        assert(request.fields()[0] == Some(Value::Uint(request.request_id as nat)));
        assert(codes_of(response.agent_info.capabilities@) =~= Seq::empty());
        assert(texts_of(response.agent_info.locales@) =~= Seq::empty());
        assert(response.agent_info.fields() =~= receiver_fields(receiver_name@));
        assert(type_key_bytes(11) + response.body() == answer_bytes(
            request.request_id as nat,
            receiver_name@,
        ));
        assert(Seq::<u8>::empty() + type_key_bytes(11) + response.body() =~= type_key_bytes(11)
            + response.body());
        varint_round_trip(11, Seq::empty());
        if byte_len(receiver_name@) <= 256 {
            reveal_strlit("OpenScreen Test Receiver");
            reveal_strlit("ready");
            is_ascii_chars_encode_utf8("OpenScreen Test Receiver"@);
            is_ascii_chars_encode_utf8("ready"@);
            assert(conforms(AgentInfo::schema(), response.agent_info.fields()));
            response.round_trip(Seq::empty());
            assert(type_key_bytes(11) + response.body() + Seq::<u8>::empty() =~= type_key_bytes(11)
                + response.body());
            assert(response.body() + Seq::<u8>::empty() =~= response.body());
            assert(response.fields() =~= seq![Some(Value::Uint(request.request_id as nat))]
                + receiver_fields(receiver_name@));
        }
    }
    match response.encode(&mut answer) {
        Ok(()) => Ok((request.request_id, answer)),
        Err(e) => Err(AnswerError::EncodeFailed(e)),
    }
}

} // verus!
