//! Type keys: the variable-length integers that start every message.
use crate::bounded::BoundedVec;
use crate::common::error::MessageError;
use crate::common::quinn_varint::{
    lemma_varint_parse_range, varint_bytes, varint_parse, varint_round_trip, Codec, VarInt,
};
use vstd::prelude::*;

verus! {

/// The bytes of a type key.
pub open spec fn type_key_bytes(type_key: u16) -> Seq<u8> {
    varint_bytes(type_key as nat)
}

/// The type key that `data` starts with and the number of bytes that it takes.
pub open spec fn type_key_of(data: Seq<u8>) -> Result<(u16, int), MessageError> {
    match varint_parse(data) {
        None => Err(MessageError::DecodeFailed),
        Some((value, width)) => if value <= u16::MAX {
            Ok((value as u16, width))
        } else {
            Err(MessageError::InvalidMessageType)
        },
    }
}

/// Appends a type key. Without room for it the buffer is left as it was.
pub fn encode_type_key<const N: usize>(type_key: u16, buf: &mut BoundedVec<u8, N>) -> (r: Result<
    (),
    MessageError,
>)
    ensures
        match r {
            Ok(()) => final(buf)@ == old(buf)@ + type_key_bytes(type_key) && final(buf)@.len() <= N,
            Err(e) => e == MessageError::BufferFull && old(buf)@.len() + type_key_bytes(
                type_key,
            ).len() > N && final(buf)@ == old(buf)@,
        },
{
    let varint: VarInt = VarInt::from(type_key);
    let mut bytes: Vec<u8> = Vec::new();
    varint.encode(&mut bytes);
    proof {
        VarInt::lemma_of(type_key as nat);
        assert(bytes@ =~= type_key_bytes(type_key));
    }
    match buf.extend_from_slice(bytes.as_slice()) {
        Ok(()) => Ok(()),
        Err(()) => Err(MessageError::BufferFull),
    }
}

/// Reads the type key at the front of `data`, and the number of bytes that it takes.
pub fn decode_type_key(data: &[u8]) -> (r: Result<(u16, usize), MessageError>)
    ensures
        match type_key_of(data@) {
            Ok((type_key, width)) => r == Ok::<(u16, usize), MessageError>((type_key, width as usize))
                && 0 < width <= data@.len(),
            Err(e) => r == Err::<(u16, usize), MessageError>(e),
        },
{
    let mut cursor: &[u8] = data;
    match VarInt::decode(&mut cursor) {
        Err(_) => Err(MessageError::DecodeFailed),
        Ok(varint) => {
            let consumed: usize = data.len() - cursor.len();
            let value: u64 = varint.into_inner();
            proof {
                lemma_varint_parse_range(data@);
                let (parsed, _) = varint_parse(data@)->0;
                VarInt::lemma_of(parsed);
            }
            if value > 0xffff {
                return Err(MessageError::InvalidMessageType);
            }
            Ok((value as u16, consumed))
        },
    }
}

/// A type key is read back as it was written, with the number of bytes that it took,
/// whatever follows.
pub proof fn type_key_round_trip(type_key: u16, rest: Seq<u8>)
    ensures
        type_key_of(type_key_bytes(type_key) + rest) == Ok::<(u16, int), MessageError>(
            (type_key, type_key_bytes(type_key).len() as int),
        ),
{
    varint_round_trip(type_key as nat, rest);
}

} // verus!
