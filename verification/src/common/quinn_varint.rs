//! Variable-length integers as specified in RFC 9000 (QUIC).
use crate::common::big_endian::{
    be_bytes, be_value, byte_range, lemma_be_round_trip, lemma_byte_ranges, push_be, read_be,
};
use vstd::prelude::*;

verus! {

/// Error indicating that the provided buffer was too small.
#[derive(Debug, Copy, Clone, Eq, PartialEq, Structural)]
pub struct UnexpectedEnd;

impl UnexpectedEnd {
    /// The message of this error.
    pub fn message(&self) -> (m: String)
        ensures
            m@ == "unexpected end of buffer"@,
    {
        "unexpected end of buffer".to_owned()
    }
}

/// Error returned when a value is too large for a variable-length integer.
#[derive(Debug, Copy, Clone, Eq, PartialEq, Structural)]
pub struct VarIntBoundsExceeded;

/// Coding result type.
pub type Result<T> = core::result::Result<T, UnexpectedEnd>;

/// A value with an encoding of its own.
pub trait Codec: Sized {
    /// The encoding of this value.
    spec fn wire(&self) -> Seq<u8>;

    /// The value at the front of `bytes` and the length of its encoding, if `bytes`
    /// reaches that far.
    spec fn parse(bytes: Seq<u8>) -> Option<(Self, int)>;

    /// Decodes a value from the front of `buf`, which then starts behind it. On an error
    /// no more than the first byte is taken.
    fn decode(buf: &mut &[u8]) -> (r: Result<Self>)
        ensures
            match Self::parse(old(buf)@) {
                Some((value, width)) => r == Ok::<Self, UnexpectedEnd>(value) && final(buf)@ == old(
                    buf,
                )@.skip(width),
                None => r is Err && final(buf)@ == old(buf)@.skip(
                    if old(buf)@.len() == 0 {
                        0
                    } else {
                        1
                    },
                ),
            },
    ;

    /// Appends the encoding of this value to `buf`.
    fn encode(&self, buf: &mut Vec<u8>)
        ensures
            final(buf)@ == old(buf)@ + self.wire(),
    ;
}

/// The number of values that a variable-length integer can take.
pub const VARINT_LIMIT: u64 = 0x4000_0000_0000_0000;

/// The number of bytes that the encoding of `value` takes: the least of 1, 2, 4 and 8
/// whose bits, less two, hold the value.
pub open spec fn varint_size(value: nat) -> nat {
    if value < 0x40 {
        1
    } else if value < 0x4000 {
        2
    } else if value < 0x4000_0000 {
        4
    } else {
        8
    }
}

/// The first two bits of an encoding of `size` bytes, as a part of its value.
pub open spec fn varint_mark(size: nat) -> nat {
    if size == 1 {
        0
    } else if size == 2 {
        0x4000
    } else if size == 4 {
        0x8000_0000
    } else {
        0xc000_0000_0000_0000
    }
}

/// The encoding of `value`: big-endian bytes whose first two bits give their number.
pub open spec fn varint_bytes(value: nat) -> Seq<u8> {
    let size = varint_size(value);
    be_bytes(varint_mark(size) + value, size)
}

/// The number of bytes of an encoding that starts with `first`.
pub open spec fn varint_width(first: u8) -> nat {
    if first < 0x40 {
        1
    } else if first < 0x80 {
        2
    } else if first < 0xc0 {
        4
    } else {
        8
    }
}

/// The value at the front of `bytes` and the number of bytes that it takes.
pub open spec fn varint_parse(bytes: Seq<u8>) -> Option<(nat, int)> {
    if bytes.len() == 0 {
        None
    } else {
        let width = varint_width(bytes[0]);
        if bytes.len() < width {
            None
        } else {
            Some(((be_value(bytes.take(width as int)) - varint_mark(width)) as nat, width as int))
        }
    }
}

/// An integer less than 2^62.
#[derive(Debug, Copy, Clone, Eq, PartialEq, Structural)]
pub struct VarInt(u64);

impl View for VarInt {
    type V = nat;

    closed spec fn view(&self) -> nat {
        self.0 as nat
    }
}

impl VarInt {
    #[verifier::type_invariant]
    spec fn in_range(self) -> bool {
        self.0 < VARINT_LIMIT
    }

    /// The variable-length integer of this value.
    pub closed spec fn of(value: nat) -> VarInt {
        VarInt(value as u64)
    }

    pub proof fn lemma_of(value: nat)
        requires
            value < VARINT_LIMIT,
        ensures
            VarInt::of(value)@ == value,
    {
    }

    /// Constructs a `VarInt` infallibly.
    pub fn from_u32(x: u32) -> (v: Self)
        ensures
            v@ == x,
    {
        VarInt(x as u64)
    }

    /// Succeeds if and only if `x` is less than 2^62.
    pub fn from_u64(x: u64) -> (r: core::result::Result<Self, VarIntBoundsExceeded>)
        ensures
            match r {
                Ok(v) => x < VARINT_LIMIT && v@ == x,
                Err(_) => x >= VARINT_LIMIT,
            },
            r is Ok <==> x < 0x4000_0000_0000_0000,
    {
        if x < VARINT_LIMIT {
            Ok(VarInt(x))
        } else {
            Err(VarIntBoundsExceeded)
        }
    }

    /// The integer value.
    pub fn into_inner(self) -> (x: u64)
        ensures
            x == self@,
            x < VARINT_LIMIT,
    {
        proof {
            use_type_invariant(&self);
        }
        self.0
    }

    /// The number of bytes needed to encode this value.
    pub fn size(self) -> (n: usize)
        ensures
            n == varint_size(self@),
    {
        let x: u64 = self.0;
        if x < 0x40 {
            1
        } else if x < 0x4000 {
            2
        } else if x < 0x4000_0000 {
            4
        } else {
            8
        }
    }
}

impl From<u16> for VarInt {
    fn from(x: u16) -> (v: Self) {
        VarInt(x as u64)
    }
}

impl vstd::std_specs::convert::FromSpecImpl<u16> for VarInt {
    open spec fn obeys_from_spec() -> bool {
        true
    }

    open spec fn from_spec(x: u16) -> VarInt {
        VarInt::of(x as nat)
    }
}

impl Codec for VarInt {
    open spec fn wire(&self) -> Seq<u8> {
        varint_bytes(self@)
    }

    open spec fn parse(bytes: Seq<u8>) -> Option<(VarInt, int)> {
        match varint_parse(bytes) {
            Some((value, width)) => Some((VarInt::of(value), width)),
            None => None,
        }
    }

    fn decode(buf: &mut &[u8]) -> (r: Result<Self>) {
        let data: &[u8] = *buf;
        if data.len() == 0 {
            assert(data@.skip(0) =~= data@);
            return Err(UnexpectedEnd);
        }
        let first: u8 = data[0];
        let width: usize = if first < 0x40 {
            1
        } else if first < 0x80 {
            2
        } else if first < 0xc0 {
            4
        } else {
            8
        };
        if data.len() < width {
            *buf = vstd::slice::slice_subrange(data, 1, data.len());
            return Err(UnexpectedEnd);
        }
        let marked: u64 = read_be(data, 0, width);
        let mark: u64 = if width == 1 {
            0
        } else if width == 2 {
            0x4000
        } else if width == 4 {
            0x8000_0000
        } else {
            0xc000_0000_0000_0000
        };
        proof {
            lemma_marked_range(data@.take(width as int));
        }
        *buf = vstd::slice::slice_subrange(data, width, data.len());
        Ok(VarInt(marked - mark))
    }

    fn encode(&self, buf: &mut Vec<u8>) {
        proof {
            use_type_invariant(self);
        }
        let x: u64 = self.0;
        if x < 0x40 {
            push_be(buf, x, 1);
        } else if x < 0x4000 {
            push_be(buf, 0x4000 + x, 2);
        } else if x < 0x4000_0000 {
            push_be(buf, 0x8000_0000 + x, 4);
        } else {
            push_be(buf, 0xc000_0000_0000_0000 + x, 8);
        }
    }
}

/// The first byte decides the most significant part of a big-endian value.
proof fn lemma_first_byte(bytes: Seq<u8>)
    requires
        bytes.len() > 0,
    ensures
        bytes[0] * byte_range((bytes.len() - 1) as nat) <= be_value(bytes),
        be_value(bytes) < (bytes[0] + 1) * byte_range((bytes.len() - 1) as nat),
    decreases bytes.len(),
{
    let rest = bytes.drop_last();
    let first = bytes[0] as int;
    if rest.len() > 0 {
        lemma_first_byte(rest);
        assert(rest[0] == bytes[0]);
        let low = byte_range((rest.len() - 1) as nat) as int;
        assert(byte_range((bytes.len() - 1) as nat) == 256 * low);
        assert(first * (256 * low) == 256 * (first * low)) by (nonlinear_arith);
        assert((first + 1) * (256 * low) == 256 * ((first + 1) * low)) by (nonlinear_arith);
        assert(be_value(bytes) == be_value(rest) * 256 + bytes.last());
    } else {
        assert(be_value(rest) == 0);
        assert(byte_range((bytes.len() - 1) as nat) == 1);
        assert(bytes.last() == bytes[0]);
    }
}

/// The value of an encoding of full width lies in the quarter that its mark begins.
proof fn lemma_first_byte_of_width(bytes: Seq<u8>)
    requires
        bytes.len() == 1 || bytes.len() == 2 || bytes.len() == 4 || bytes.len() == 8,
    ensures
        bytes.len() == 1 ==> bytes[0] == be_value(bytes),
        bytes.len() == 2 ==> bytes[0] * 0x100 <= be_value(bytes) < (bytes[0] + 1) * 0x100,
        bytes.len() == 4 ==> bytes[0] * 0x100_0000 <= be_value(bytes) < (bytes[0] + 1)
            * 0x100_0000,
        bytes.len() == 8 ==> bytes[0] * 0x100_0000_0000_0000 <= be_value(bytes) < (bytes[0] + 1)
            * 0x100_0000_0000_0000,
{
    lemma_first_byte(bytes);
    reveal_with_fuel(byte_range, 9);
    assert(byte_range(0) == 1);
    assert(byte_range(1) == 0x100);
    assert(byte_range(3) == 0x100_0000);
    assert(byte_range(7) == 0x100_0000_0000_0000);
    if bytes.len() == 1 {
        assert(be_value(bytes.drop_last()) == 0);
    }
}

/// Without its mark an encoding of full width is in range.
proof fn lemma_marked_range(bytes: Seq<u8>)
    requires
        bytes.len() > 0,
        bytes.len() == varint_width(bytes[0]),
    ensures
        varint_mark(bytes.len()) <= be_value(bytes),
        be_value(bytes) - varint_mark(bytes.len()) < VARINT_LIMIT,
{
    lemma_first_byte_of_width(bytes);
}

/// What a decoder reads is in range.
pub proof fn lemma_varint_parse_range(bytes: Seq<u8>)
    ensures
        varint_parse(bytes) matches Some((value, width)) ==> value < VARINT_LIMIT && 0 < width
            <= bytes.len(),
{
    if varint_parse(bytes) is Some {
        lemma_marked_range(bytes.take(varint_width(bytes[0]) as int));
    }
}

/// Decoding what was encoded gives the value back and takes exactly its bytes, whatever
/// follows them.
pub proof fn varint_round_trip(value: nat, rest: Seq<u8>)
    requires
        value < VARINT_LIMIT,
    ensures
        varint_parse(varint_bytes(value) + rest) == Some((value, varint_size(value) as int)),
        varint_bytes(value).len() == varint_size(value),
{
    let size = varint_size(value);
    let marked = varint_mark(size) + value;
    let bytes = be_bytes(marked, size);
    lemma_byte_ranges();
    lemma_be_round_trip(marked, size);
    lemma_first_byte_of_width(bytes);
    let whole = bytes + rest;
    assert(whole.take(size as int) =~= bytes);
    assert(whole[0] == bytes[0]);
    assert(varint_width(bytes[0]) == size);
}

} // verus!
