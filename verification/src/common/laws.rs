//! What variable-length integers and type keys are in bytes, whichever form they come in.
use crate::common::big_endian::{be_bytes, be_value, lemma_be_round_trip, lemma_byte_ranges};
use crate::common::error::MessageError;
use crate::common::quinn_varint::{lemma_varint_parse_range, varint_bytes, varint_parse};
use crate::common::type_key::{type_key_bytes, type_key_of};
use vstd::prelude::*;

verus! {

/// The most significant byte comes first: each byte behind others weighs 256 times less than
/// the one before it.
pub proof fn bytes_weigh(bytes: Seq<u8>, last: u8)
    ensures
        be_value(bytes.push(last)) == 256 * be_value(bytes) + last,
        be_value(Seq::empty()) == 0,
{
    assert(bytes.push(last).drop_last() =~= bytes);
}

/// The bytes of a variable-length integer: one byte below 64, two below 2^14, four below 2^30
/// and eight below 2^62. The first two bits of the first byte give their number.
pub proof fn varints_in_bytes(value: nat)
    requires
        value < 0x4000_0000_0000_0000,
    ensures
        value < 64 ==> varint_bytes(value) == seq![value as u8],
        64 <= value < 0x4000 ==> varint_bytes(value) == seq![
            (0x40 + value / 0x100) as u8,
            (value % 0x100) as u8,
        ],
        0x4000 <= value < 0x4000_0000 ==> varint_bytes(value) == seq![
            (0x80 + value / 0x100_0000) as u8,
            (value / 0x1_0000 % 0x100) as u8,
            (value / 0x100 % 0x100) as u8,
            (value % 0x100) as u8,
        ],
        0x4000_0000 <= value ==> varint_bytes(value).len() == 8 && varint_bytes(value)[0] == 0xc0
            + value / 0x100_0000_0000_0000 && be_value(varint_bytes(value))
            == 0xc000_0000_0000_0000 + value,
{
    reveal_with_fuel(be_bytes, 9);
    lemma_byte_ranges();
    if value >= 0x4000_0000 {
        lemma_be_round_trip(0xc000_0000_0000_0000 + value, 8);
    } else if value >= 0x4000 {
        assert(varint_bytes(value) =~= seq![
            (0x80 + value / 0x100_0000) as u8,
            (value / 0x1_0000 % 0x100) as u8,
            (value / 0x100 % 0x100) as u8,
            (value % 0x100) as u8,
        ]);
    } else if value >= 64 {
        assert(varint_bytes(value) =~= seq![
            (0x40 + value / 0x100) as u8,
            (value % 0x100) as u8,
        ]);
    } else {
        assert(varint_bytes(value) =~= seq![value as u8]);
    }
}

/// What a variable-length integer is read as, by its first byte: that byte alone, or with the
/// one, three or seven bytes behind it, of which the first two bits do not count. Whatever the
/// value, any of the four forms is read.
pub proof fn varints_are_read(bytes: Seq<u8>)
    ensures
        bytes.len() == 0 ==> varint_parse(bytes) is None,
        bytes.len() >= 1 && bytes[0] < 0x40 ==> varint_parse(bytes) == Some(
            (bytes[0] as nat, 1int),
        ),
        bytes.len() >= 1 && 0x40 <= bytes[0] < 0x80 ==> if bytes.len() < 2 {
            varint_parse(bytes) is None
        } else {
            varint_parse(bytes) == Some(
                (((bytes[0] - 0x40) * 0x100 + bytes[1]) as nat, 2int),
            )
        },
        bytes.len() >= 1 && 0x80 <= bytes[0] < 0xc0 ==> if bytes.len() < 4 {
            varint_parse(bytes) is None
        } else {
            varint_parse(bytes) == Some(
                (
                    ((bytes[0] - 0x80) * 0x100_0000 + bytes[1] * 0x1_0000 + bytes[2] * 0x100
                        + bytes[3]) as nat,
                    4int,
                ),
            )
        },
        bytes.len() >= 1 && 0xc0 <= bytes[0] ==> if bytes.len() < 8 {
            varint_parse(bytes) is None
        } else {
            varint_parse(bytes) == Some(
                ((be_value(bytes.take(8)) - 0xc000_0000_0000_0000) as nat, 8int),
            )
        },
{
    if bytes.len() >= 1 {
        lemma_be_of_one(bytes.take(1));
    }
    if bytes.len() >= 2 {
        lemma_be_of_two(bytes.take(2));
    }
    if bytes.len() >= 4 {
        lemma_be_of_four(bytes.take(4));
    }
}

proof fn lemma_be_of_one(bytes: Seq<u8>)
    requires
        bytes.len() == 1,
    ensures
        be_value(bytes) == bytes[0],
{
    reveal_with_fuel(be_value, 2);
}

proof fn lemma_be_of_two(bytes: Seq<u8>)
    requires
        bytes.len() == 2,
    ensures
        be_value(bytes) == bytes[0] * 0x100 + bytes[1],
{
    lemma_be_of_one(bytes.drop_last());
}

proof fn lemma_be_of_four(bytes: Seq<u8>)
    requires
        bytes.len() == 4,
    ensures
        be_value(bytes) == bytes[0] * 0x100_0000 + bytes[1] * 0x1_0000 + bytes[2] * 0x100
            + bytes[3],
{
    let three = bytes.drop_last();
    lemma_be_of_two(three.drop_last());
    assert(be_value(three) == be_value(three.drop_last()) * 0x100 + bytes[2]);
}

/// A type key is a variable-length integer of up to 16 bits: data with a larger one is of no
/// known type, data without a whole one cannot be read, and any other is told with the number
/// of bytes that it takes.
pub proof fn type_keys_are_read(data: Seq<u8>)
    ensures
        varint_parse(data) is None ==> type_key_of(data) == Err::<(u16, int), MessageError>(
            MessageError::DecodeFailed,
        ),
        (varint_parse(data) matches Some((value, width)) ==> type_key_of(data) == if value
            < 0x1_0000 {
            Ok::<(u16, int), MessageError>((value as u16, width))
        } else {
            Err(MessageError::InvalidMessageType)
        }),
{
    lemma_varint_parse_range(data);
}

/// The bytes of a type key: one below 64, two below 2^14, four otherwise.
pub proof fn type_keys_in_bytes(type_key: u16)
    ensures
        type_key < 64 ==> type_key_bytes(type_key) == seq![type_key as u8],
        64 <= type_key < 0x4000 ==> type_key_bytes(type_key) == seq![
            (0x40 + type_key / 0x100) as u8,
            (type_key % 0x100) as u8,
        ],
        0x4000 <= type_key ==> type_key_bytes(type_key) == seq![
            0x80u8,
            0u8,
            (type_key / 0x100) as u8,
            (type_key % 0x100) as u8,
        ],
{
    varints_in_bytes(type_key as nat);
}

} // verus!
