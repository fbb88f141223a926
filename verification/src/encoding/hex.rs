//! Bytes in hexadecimal digits.
use vstd::prelude::*;

verus! {

#[verifier::external_type_specification]
#[verifier::external_body]
pub struct ExFromHexError(hex::FromHexError);

/// The digits that stand for 0 to 15.
pub open spec fn hex_digits() -> Seq<char> {
    seq!['0', '1', '2', '3', '4', '5', '6', '7', '8', '9', 'a', 'b', 'c', 'd', 'e', 'f']
}

/// Two digits for each byte, in lower case, the higher one first.
pub open spec fn hex_text(bytes: Seq<u8>) -> Seq<char> {
    Seq::new(
        2 * bytes.len(),
        |i: int|
            if i % 2 == 0 {
                hex_digits()[bytes[i / 2] as int / 16]
            } else {
                hex_digits()[bytes[i / 2] as int % 16]
            },
    )
}

/// The value of a digit, in either case.
pub open spec fn hex_value(c: char) -> Option<nat> {
    if '0' <= c <= '9' {
        Some((c as nat - '0' as nat) as nat)
    } else if 'a' <= c <= 'f' {
        Some((c as nat - 'a' as nat + 10) as nat)
    } else if 'A' <= c <= 'F' {
        Some((c as nat - 'A' as nat + 10) as nat)
    } else {
        None
    }
}

/// Whether a text consists of pairs of digits.
pub open spec fn is_hex(text: Seq<char>) -> bool {
    text.len() % 2 == 0 && forall|i: int|
        0 <= i < text.len() ==> hex_value(#[trigger] text[i]) is Some
}

/// The bytes that pairs of digits stand for.
pub open spec fn hex_bytes(text: Seq<char>) -> Seq<u8> {
    Seq::new(
        text.len() / 2,
        |i: int| (hex_value(text[2 * i])->Some_0 * 16 + hex_value(text[2 * i + 1])->Some_0) as u8,
    )
}

/// `hex::encode`: two digits for each byte.
#[verifier::external_body]
pub(crate) fn encode_hex(bytes: &[u8]) -> (r: String)
    ensures
        r@ == hex_text(bytes@),
{
    hex::encode(bytes)
}

/// `hex::decode`: the bytes that pairs of digits in either case stand for; anything else is
/// an error.
#[verifier::external_body]
pub(crate) fn decode_hex(text: &str) -> (r: Result<Vec<u8>, hex::FromHexError>)
    ensures
        match r {
            Ok(bytes) => is_hex(text@) && bytes@ == hex_bytes(text@),
            Err(_) => !is_hex(text@),
        },
{
    hex::decode(text)
}

/// The bytes come back from their digits.
pub proof fn hex_round_trip(bytes: Seq<u8>)
    ensures
        is_hex(hex_text(bytes)),
        hex_bytes(hex_text(bytes)) == bytes,
{
    let text = hex_text(bytes);
    assert forall|n: int| 0 <= n < 16 implies hex_value(#[trigger] hex_digits()[n]) == Some(
        n as nat,
    ) by {}
    assert forall|i: int| 0 <= i < text.len() implies hex_value(#[trigger] text[i]) is Some by {
        let b = bytes[i / 2] as int;
        assert(0 <= b / 16 < 16 && 0 <= b % 16 < 16);
    }
    assert forall|i: int| 0 <= i < bytes.len() implies #[trigger] hex_bytes(text)[i] == bytes[i] by {
        let b = bytes[i] as int;
        assert((2 * i) / 2 == i && (2 * i) % 2 == 0);
        assert((2 * i + 1) / 2 == i && (2 * i + 1) % 2 == 1);
        assert(text[2 * i] == hex_digits()[b / 16]);
        assert(text[2 * i + 1] == hex_digits()[b % 16]);
        assert(0 <= b / 16 < 16 && 0 <= b % 16 < 16);
        assert(b / 16 * 16 + b % 16 == b);
    }
    assert(hex_bytes(text) =~= bytes);
}

} // verus!
