//! CBOR items: what their bytes are, and the calls into `minicbor` that write and read
//! them.
use crate::common::big_endian::{be_bytes, be_value, lemma_be_round_trip, lemma_byte_ranges};
use crate::common::error::MessageError;
use vstd::prelude::*;
use vstd::string::StringSliceAdditionalSpecFns;
use vstd::utf8::{decode_utf8, encode_utf8, valid_utf8};

verus! {

/// Major type of unsigned integers.
pub const UNSIGNED: u8 = 0;

/// Major type of byte strings.
pub const BYTES: u8 = 2;

/// Major type of text strings.
pub const TEXT: u8 = 3;

/// Major type of arrays.
pub const ARRAY: u8 = 4;

/// Major type of maps.
pub const MAP: u8 = 5;

/// The head of an item of the given major type with the argument `n`, in the shortest
/// form: the major type in the first three bits, then the argument itself if it is below
/// 24, or the number of big-endian bytes that hold it.
pub open spec fn head_bytes(major: u8, n: nat) -> Seq<u8> {
    if n < 24 {
        seq![(32 * major + n) as u8]
    } else if n < 0x100 {
        seq![(32 * major + 24) as u8] + be_bytes(n, 1)
    } else if n < 0x1_0000 {
        seq![(32 * major + 25) as u8] + be_bytes(n, 2)
    } else if n < 0x1_0000_0000 {
        seq![(32 * major + 26) as u8] + be_bytes(n, 4)
    } else {
        seq![(32 * major + 27) as u8] + be_bytes(n, 8)
    }
}

/// An unsigned integer.
pub open spec fn uint_bytes(n: nat) -> Seq<u8> {
    head_bytes(UNSIGNED, n)
}

/// A byte string.
pub open spec fn blob_bytes(content: Seq<u8>) -> Seq<u8> {
    head_bytes(BYTES, content.len()) + content
}

/// A text string.
pub open spec fn text_bytes(text: Seq<char>) -> Seq<u8> {
    head_bytes(TEXT, encode_utf8(text).len()) + encode_utf8(text)
}

/// The number of bytes behind the first one that an item head of this form has.
pub open spec fn argument_width(info: u8) -> nat {
    if info == 24 {
        1
    } else if info == 25 {
        2
    } else if info == 26 {
        4
    } else {
        8
    }
}

/// The argument of an item head and the position behind it. `info` is what the first byte
/// says besides the major type, and `pos` the position behind that byte.
pub open spec fn argument_at(data: Seq<u8>, pos: int, info: u8) -> Option<(nat, int)> {
    if info < 24 {
        Some((info as nat, pos))
    } else if info < 28 && pos + argument_width(info) <= data.len() {
        let end = pos + argument_width(info);
        Some((be_value(data.subrange(pos, end)), end))
    } else {
        None
    }
}

/// The argument of the head at `pos`, if one of this major type and of definite length
/// stands there, and the position behind it.
pub open spec fn head_at(major: u8, data: Seq<u8>, pos: int) -> Option<(nat, int)> {
    if 0 <= pos < data.len() && data[pos] / 32 == major {
        argument_at(data, pos + 1, data[pos] % 32)
    } else {
        None
    }
}

/// The unsigned integer at `pos` if it is no larger than `max`.
pub open spec fn uint_at(max: nat, data: Seq<u8>, pos: int) -> Option<(nat, int)> {
    match head_at(UNSIGNED, data, pos) {
        Some((n, next)) => if n <= max {
            Some((n, next))
        } else {
            None
        },
        None => None,
    }
}

/// The byte string at `pos`.
pub open spec fn blob_at(data: Seq<u8>, pos: int) -> Option<(Seq<u8>, int)> {
    match head_at(BYTES, data, pos) {
        Some((n, next)) => if next + n <= data.len() {
            Some((data.subrange(next, next + n), next + n))
        } else {
            None
        },
        None => None,
    }
}

/// The text string at `pos`.
pub open spec fn text_at(data: Seq<u8>, pos: int) -> Option<(Seq<char>, int)> {
    match head_at(TEXT, data, pos) {
        Some((n, next)) => if next + n <= data.len() && valid_utf8(data.subrange(next, next + n)) {
            Some((decode_utf8(data.subrange(next, next + n)), next + n))
        } else {
            None
        },
        None => None,
    }
}

/// The start of the array or map at `pos`: the number of its elements or entries, or
/// `None` where that is left open.
pub open spec fn collection_at(major: u8, data: Seq<u8>, pos: int) -> Option<(Option<nat>, int)> {
    if 0 <= pos < data.len() && data[pos] == 32 * major + 31 {
        Some((None, pos + 1))
    } else {
        match head_at(major, data, pos) {
            Some((n, next)) => Some((Some(n), next)),
            None => None,
        }
    }
}

#[verifier::external_type_specification]
#[verifier::external_body]
pub struct ExDecodeError(minicbor::decode::Error);

/// `minicbor::Encoder::u8` into a growing vector: the shortest form of the integer.
#[verifier::external_body]
pub(crate) fn minicbor_u8(x: u8) -> (r: Vec<u8>)
    ensures
        r@ == uint_bytes(x as nat),
{
    let mut encoder = minicbor::Encoder::new(Vec::new());
    let _ = encoder.u8(x);
    encoder.into_writer()
}

/// `minicbor::Encoder::u16` into a growing vector: the shortest form of the integer.
#[verifier::external_body]
pub(crate) fn minicbor_u16(x: u16) -> (r: Vec<u8>)
    ensures
        r@ == uint_bytes(x as nat),
{
    let mut encoder = minicbor::Encoder::new(Vec::new());
    let _ = encoder.u16(x);
    encoder.into_writer()
}

/// `minicbor::Encoder::u32` into a growing vector: the shortest form of the integer.
#[verifier::external_body]
pub(crate) fn minicbor_u32(x: u32) -> (r: Vec<u8>)
    ensures
        r@ == uint_bytes(x as nat),
{
    let mut encoder = minicbor::Encoder::new(Vec::new());
    let _ = encoder.u32(x);
    encoder.into_writer()
}

/// `minicbor::Encoder::u64` into a growing vector: the shortest form of the integer.
#[verifier::external_body]
pub(crate) fn minicbor_u64(x: u64) -> (r: Vec<u8>)
    ensures
        r@ == uint_bytes(x as nat),
{
    let mut encoder = minicbor::Encoder::new(Vec::new());
    let _ = encoder.u64(x);
    encoder.into_writer()
}

/// `minicbor::Encoder::map` into a growing vector: the head of a map of `n` entries.
#[verifier::external_body]
pub(crate) fn minicbor_map(n: u64) -> (r: Vec<u8>)
    ensures
        r@ == head_bytes(MAP, n as nat),
{
    let mut encoder = minicbor::Encoder::new(Vec::new());
    let _ = encoder.map(n);
    encoder.into_writer()
}

/// `minicbor::Encoder::array` into a growing vector: the head of an array of `n` elements.
#[verifier::external_body]
pub(crate) fn minicbor_array(n: u64) -> (r: Vec<u8>)
    ensures
        r@ == head_bytes(ARRAY, n as nat),
{
    let mut encoder = minicbor::Encoder::new(Vec::new());
    let _ = encoder.array(n);
    encoder.into_writer()
}

/// `minicbor::Encoder::str` into a growing vector: the head, then the text in UTF-8.
#[verifier::external_body]
pub(crate) fn minicbor_str(s: &str) -> (r: Vec<u8>)
    ensures
        r@ == text_bytes(s@),
{
    let mut encoder = minicbor::Encoder::new(Vec::new());
    let _ = encoder.str(s);
    encoder.into_writer()
}

/// `minicbor::Encoder::bytes` into a growing vector: the head, then the bytes.
#[verifier::external_body]
pub(crate) fn minicbor_bytes(b: &[u8]) -> (r: Vec<u8>)
    ensures
        r@ == blob_bytes(b@),
{
    let mut encoder = minicbor::Encoder::new(Vec::new());
    let _ = encoder.bytes(b);
    encoder.into_writer()
}

/// `minicbor::Decoder::u8` at a position: any width of unsigned integer whose value fits,
/// and the position behind it.
#[verifier::external_body]
fn minicbor_read_u8(data: &[u8], pos: usize) -> (r: Result<(u8, usize), minicbor::decode::Error>)
    ensures
        match uint_at(u8::MAX as nat, data@, pos as int) {
            Some((n, next)) => r matches Ok((value, end)) && value == n && end == next,
            None => r is Err,
        },
{
    let mut decoder = minicbor::Decoder::new(data);
    decoder.set_position(pos);
    let value = decoder.u8()?;
    Ok((value, decoder.position()))
}

/// `minicbor::Decoder::u16` at a position: any width of unsigned integer whose value fits,
/// and the position behind it.
#[verifier::external_body]
fn minicbor_read_u16(data: &[u8], pos: usize) -> (r: Result<(u16, usize), minicbor::decode::Error>)
    ensures
        match uint_at(u16::MAX as nat, data@, pos as int) {
            Some((n, next)) => r matches Ok((value, end)) && value == n && end == next,
            None => r is Err,
        },
{
    let mut decoder = minicbor::Decoder::new(data);
    decoder.set_position(pos);
    let value = decoder.u16()?;
    Ok((value, decoder.position()))
}

/// `minicbor::Decoder::u32` at a position: any width of unsigned integer whose value fits,
/// and the position behind it.
#[verifier::external_body]
fn minicbor_read_u32(data: &[u8], pos: usize) -> (r: Result<(u32, usize), minicbor::decode::Error>)
    ensures
        match uint_at(u32::MAX as nat, data@, pos as int) {
            Some((n, next)) => r matches Ok((value, end)) && value == n && end == next,
            None => r is Err,
        },
{
    let mut decoder = minicbor::Decoder::new(data);
    decoder.set_position(pos);
    let value = decoder.u32()?;
    Ok((value, decoder.position()))
}

/// `minicbor::Decoder::u64` at a position: any width of unsigned integer, and the position
/// behind it.
#[verifier::external_body]
fn minicbor_read_u64(data: &[u8], pos: usize) -> (r: Result<(u64, usize), minicbor::decode::Error>)
    ensures
        match uint_at(u64::MAX as nat, data@, pos as int) {
            Some((n, next)) => r matches Ok((value, end)) && value == n && end == next,
            None => r is Err,
        },
{
    let mut decoder = minicbor::Decoder::new(data);
    decoder.set_position(pos);
    let value = decoder.u64()?;
    Ok((value, decoder.position()))
}

/// `minicbor::Decoder::map` at a position: the number of entries, or `None` for a map of
/// indefinite length, and the position behind the head.
#[verifier::external_body]
fn minicbor_read_map(data: &[u8], pos: usize) -> (r: Result<
    (Option<u64>, usize),
    minicbor::decode::Error,
>)
    ensures
        match collection_at(MAP, data@, pos as int) {
            Some((Some(n), next)) => r matches Ok((Some(count), end)) && count == n && end == next,
            Some((None, next)) => r matches Ok((None, end)) && end == next,
            None => r is Err,
        },
{
    let mut decoder = minicbor::Decoder::new(data);
    decoder.set_position(pos);
    let value = decoder.map()?;
    Ok((value, decoder.position()))
}

/// `minicbor::Decoder::array` at a position: the number of elements, or `None` for an array
/// of indefinite length, and the position behind the head.
#[verifier::external_body]
fn minicbor_read_array(data: &[u8], pos: usize) -> (r: Result<
    (Option<u64>, usize),
    minicbor::decode::Error,
>)
    ensures
        match collection_at(ARRAY, data@, pos as int) {
            Some((Some(n), next)) => r matches Ok((Some(count), end)) && count == n && end == next,
            Some((None, next)) => r matches Ok((None, end)) && end == next,
            None => r is Err,
        },
{
    let mut decoder = minicbor::Decoder::new(data);
    decoder.set_position(pos);
    let value = decoder.array()?;
    Ok((value, decoder.position()))
}

/// `minicbor::Decoder::str` at a position: a text string of definite length whose bytes
/// are valid UTF-8, and the position behind it.
#[verifier::external_body]
fn minicbor_read_str<'a>(data: &'a [u8], pos: usize) -> (r: Result<
    (&'a str, usize),
    minicbor::decode::Error,
>)
    ensures
        match text_at(data@, pos as int) {
            Some((text, next)) => r matches Ok((value, end)) && value@ == text && end == next,
            None => r is Err,
        },
{
    let mut decoder = minicbor::Decoder::new(data);
    decoder.set_position(pos);
    let value = decoder.str()?;
    Ok((value, decoder.position()))
}

/// `minicbor::Decoder::bytes` at a position: a byte string of definite length, and the
/// position behind it.
#[verifier::external_body]
fn minicbor_read_bytes<'a>(data: &'a [u8], pos: usize) -> (r: Result<
    (&'a [u8], usize),
    minicbor::decode::Error,
>)
    ensures
        match blob_at(data@, pos as int) {
            Some((content, next)) => r matches Ok((value, end)) && value@ == content && end == next,
            None => r is Err,
        },
{
    let mut decoder = minicbor::Decoder::new(data);
    decoder.set_position(pos);
    let value = decoder.bytes()?;
    Ok((value, decoder.position()))
}

/// The unsigned integer at `pos`, of at most 8 bits.
pub fn read_u8(data: &[u8], pos: usize) -> (r: Result<(u8, usize), MessageError>)
    ensures
        match uint_at(u8::MAX as nat, data@, pos as int) {
            Some((n, next)) => r matches Ok((value, end)) && value == n && end == next && end
                <= data.len(),
            None => r == Err::<(u8, usize), MessageError>(MessageError::DecodeFailed),
        },
{
    match minicbor_read_u8(data, pos) {
        Ok((value, next)) => Ok((value, next)),
        Err(_) => Err(MessageError::DecodeFailed),
    }
}

/// The unsigned integer at `pos`, of at most 16 bits.
pub fn read_u16(data: &[u8], pos: usize) -> (r: Result<(u16, usize), MessageError>)
    ensures
        match uint_at(u16::MAX as nat, data@, pos as int) {
            Some((n, next)) => r matches Ok((value, end)) && value == n && end == next && end
                <= data.len(),
            None => r == Err::<(u16, usize), MessageError>(MessageError::DecodeFailed),
        },
{
    match minicbor_read_u16(data, pos) {
        Ok((value, next)) => Ok((value, next)),
        Err(_) => Err(MessageError::DecodeFailed),
    }
}

/// The unsigned integer at `pos`, of at most 32 bits.
pub fn read_u32(data: &[u8], pos: usize) -> (r: Result<(u32, usize), MessageError>)
    ensures
        match uint_at(u32::MAX as nat, data@, pos as int) {
            Some((n, next)) => r matches Ok((value, end)) && value == n && end == next && end
                <= data.len(),
            None => r == Err::<(u32, usize), MessageError>(MessageError::DecodeFailed),
        },
{
    match minicbor_read_u32(data, pos) {
        Ok((value, next)) => Ok((value, next)),
        Err(_) => Err(MessageError::DecodeFailed),
    }
}

/// The unsigned integer at `pos`.
pub fn read_u64(data: &[u8], pos: usize) -> (r: Result<(u64, usize), MessageError>)
    ensures
        match uint_at(u64::MAX as nat, data@, pos as int) {
            Some((n, next)) => r matches Ok((value, end)) && value == n && end == next && end
                <= data.len(),
            None => r == Err::<(u64, usize), MessageError>(MessageError::DecodeFailed),
        },
{
    match minicbor_read_u64(data, pos) {
        Ok((value, next)) => Ok((value, next)),
        Err(_) => Err(MessageError::DecodeFailed),
    }
}

/// The start of the map at `pos`.
pub fn read_map(data: &[u8], pos: usize) -> (r: Result<(Option<u64>, usize), MessageError>)
    ensures
        match collection_at(MAP, data@, pos as int) {
            Some((Some(n), next)) => r matches Ok((Some(count), end)) && count == n && end == next
                && end <= data.len(),
            Some((None, next)) => r matches Ok((None, end)) && end == next && end <= data.len(),
            None => r == Err::<(Option<u64>, usize), MessageError>(MessageError::DecodeFailed),
        },
{
    match minicbor_read_map(data, pos) {
        Ok((value, next)) => Ok((value, next)),
        Err(_) => Err(MessageError::DecodeFailed),
    }
}

/// The start of the array at `pos`.
pub fn read_array(data: &[u8], pos: usize) -> (r: Result<(Option<u64>, usize), MessageError>)
    ensures
        match collection_at(ARRAY, data@, pos as int) {
            Some((Some(n), next)) => r matches Ok((Some(count), end)) && count == n && end == next
                && end <= data.len(),
            Some((None, next)) => r matches Ok((None, end)) && end == next && end <= data.len(),
            None => r == Err::<(Option<u64>, usize), MessageError>(MessageError::DecodeFailed),
        },
{
    match minicbor_read_array(data, pos) {
        Ok((value, next)) => Ok((value, next)),
        Err(_) => Err(MessageError::DecodeFailed),
    }
}

/// The text string at `pos`.
pub fn read_str<'a>(data: &'a [u8], pos: usize) -> (r: Result<(&'a str, usize), MessageError>)
    ensures
        match text_at(data@, pos as int) {
            Some((text, next)) => r matches Ok((value, end)) && value@ == text && end == next && end
                <= data.len(),
            None => r == Err::<(&'a str, usize), MessageError>(MessageError::DecodeFailed),
        },
{
    match minicbor_read_str(data, pos) {
        Ok((value, next)) => Ok((value, next)),
        Err(_) => Err(MessageError::DecodeFailed),
    }
}

/// The byte string at `pos`.
pub fn read_bytes<'a>(data: &'a [u8], pos: usize) -> (r: Result<(&'a [u8], usize), MessageError>)
    ensures
        match blob_at(data@, pos as int) {
            Some((content, next)) => r matches Ok((value, end)) && value@ == content && end == next && end
                <= data.len(),
            None => r == Err::<(&'a [u8], usize), MessageError>(MessageError::DecodeFailed),
        },
{
    match minicbor_read_bytes(data, pos) {
        Ok((value, next)) => Ok((value, next)),
        Err(_) => Err(MessageError::DecodeFailed),
    }
}

/// Whether `bytes` stands in `data` from `pos` on.
pub open spec fn stands_at(data: Seq<u8>, pos: int, bytes: Seq<u8>) -> bool {
    0 <= pos && pos + bytes.len() <= data.len() && data.subrange(pos, pos + bytes.len()) == bytes
}

pub proof fn lemma_stands_at_split(data: Seq<u8>, pos: int, a: Seq<u8>, b: Seq<u8>)
    requires
        stands_at(data, pos, a + b),
    ensures
        stands_at(data, pos, a),
        stands_at(data, pos + a.len(), b),
{
    let whole = data.subrange(pos, pos + a.len() + b.len());
    assert(whole == a + b);
    assert(data.subrange(pos, pos + a.len()) =~= a) by {
        assert forall|i: int| 0 <= i < a.len() implies data[pos + i] == a[i] by {
            assert(whole[i] == (a + b)[i]);
        }
    }
    assert(data.subrange(pos + a.len(), pos + a.len() + b.len()) =~= b) by {
        assert forall|i: int| 0 <= i < b.len() implies data[pos + a.len() + i] == b[i] by {
            assert(whole[a.len() + i] == (a + b)[a.len() + i]);
        }
    }
}

/// A head is read back with its argument, from wherever it stands.
pub proof fn head_round_trip(major: u8, n: nat, data: Seq<u8>, pos: int)
    requires
        major < 8,
        n <= u64::MAX,
        stands_at(data, pos, head_bytes(major, n)),
    ensures
        head_at(major, data, pos) == Some((n, pos + head_bytes(major, n).len())),
        collection_at(major, data, pos) == Some(
            (Some(n), pos + head_bytes(major, n).len()),
        ),
{
    let bytes = head_bytes(major, n);
    lemma_byte_ranges();
    let width: nat = if n < 24 {
        0
    } else if n < 0x100 {
        1
    } else if n < 0x1_0000 {
        2
    } else if n < 0x1_0000_0000 {
        4
    } else {
        8
    };
    lemma_be_round_trip(if n < 24 { 0 } else { n }, width);
    assert(data[pos] == data.subrange(pos, pos + bytes.len())[0]);
    if n >= 24 {
        assert(bytes.len() == 1 + width);
        assert(data.subrange(pos + 1, pos + 1 + width) =~= be_bytes(n, width)) by {
            assert forall|i: int| 0 <= i < width implies data[pos + 1 + i] == be_bytes(n, width)[i] by {
                assert(data.subrange(pos, pos + bytes.len())[i + 1] == bytes[i + 1]);
            }
        }
    }
}

/// An integer within the limit is read back.
pub proof fn uint_round_trip(max: nat, n: nat, data: Seq<u8>, pos: int)
    requires
        n <= max,
        n <= u64::MAX,
        stands_at(data, pos, uint_bytes(n)),
    ensures
        uint_at(max, data, pos) == Some((n, pos + uint_bytes(n).len())),
{
    head_round_trip(UNSIGNED, n, data, pos);
}

/// A byte string is read back.
pub proof fn blob_round_trip(content: Seq<u8>, data: Seq<u8>, pos: int)
    requires
        content.len() <= u64::MAX,
        stands_at(data, pos, blob_bytes(content)),
    ensures
        blob_at(data, pos) == Some((content, pos + blob_bytes(content).len())),
{
    let head = head_bytes(BYTES, content.len());
    lemma_stands_at_split(data, pos, head, content);
    head_round_trip(BYTES, content.len(), data, pos);
}

/// A text string is read back.
pub proof fn text_round_trip(text: Seq<char>, data: Seq<u8>, pos: int)
    requires
        encode_utf8(text).len() <= u64::MAX,
        stands_at(data, pos, text_bytes(text)),
    ensures
        text_at(data, pos) == Some((text, pos + text_bytes(text).len())),
{
    let content = encode_utf8(text);
    let head = head_bytes(TEXT, content.len());
    lemma_stands_at_split(data, pos, head, content);
    head_round_trip(TEXT, content.len(), data, pos);
    vstd::utf8::encode_utf8_valid_utf8(text);
    vstd::utf8::encode_utf8_decode_utf8(text);
}

} // verus!
