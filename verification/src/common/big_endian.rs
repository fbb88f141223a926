//! Unsigned integers as big-endian bytes.
use vstd::prelude::*;

verus! {

/// `256` to the power `n`: the number of values that `n` bytes can hold.
pub open spec fn byte_range(n: nat) -> nat
    decreases n,
{
    if n == 0 {
        1
    } else {
        256 * byte_range((n - 1) as nat)
    }
}

/// The last `width` big-endian bytes of `value`.
pub open spec fn be_bytes(value: nat, width: nat) -> Seq<u8>
    decreases width,
{
    if width == 0 {
        Seq::empty()
    } else {
        be_bytes(value / 256, (width - 1) as nat).push((value % 256) as u8)
    }
}

/// The integer that `bytes` stand for.
pub open spec fn be_value(bytes: Seq<u8>) -> nat
    decreases bytes.len(),
{
    if bytes.len() == 0 {
        0
    } else {
        be_value(bytes.drop_last()) * 256 + bytes.last() as nat
    }
}

pub proof fn lemma_be_bytes_len(value: nat, width: nat)
    ensures
        be_bytes(value, width).len() == width,
    decreases width,
{
    if width > 0 {
        lemma_be_bytes_len(value / 256, (width - 1) as nat);
    }
}

/// Reading the big-endian bytes of a value that fits gives the value back.
pub proof fn lemma_be_round_trip(value: nat, width: nat)
    requires
        value < byte_range(width),
    ensures
        be_value(be_bytes(value, width)) == value,
        be_bytes(value, width).len() == width,
    decreases width,
{
    if width > 0 {
        lemma_be_round_trip(value / 256, (width - 1) as nat);
        let bytes = be_bytes(value, width);
        assert(bytes.drop_last() =~= be_bytes(value / 256, (width - 1) as nat));
    }
}

pub proof fn lemma_be_value_bound(bytes: Seq<u8>)
    ensures
        be_value(bytes) < byte_range(bytes.len()),
    decreases bytes.len(),
{
    if bytes.len() > 0 {
        lemma_be_value_bound(bytes.drop_last());
    }
}

pub proof fn lemma_byte_ranges()
    ensures
        byte_range(1) == 0x100,
        byte_range(2) == 0x1_0000,
        byte_range(4) == 0x1_0000_0000,
        byte_range(8) == 0x1_0000_0000_0000_0000,
{
    reveal_with_fuel(byte_range, 9);
}

proof fn lemma_byte_range_monotone(a: nat, b: nat)
    requires
        a <= b,
    ensures
        byte_range(a) <= byte_range(b),
    decreases b,
{
    if a < b {
        lemma_byte_range_monotone(a, (b - 1) as nat);
    }
}

/// Appends the last `width` big-endian bytes of `value`.
pub fn push_be(out: &mut Vec<u8>, value: u64, width: usize)
    ensures
        final(out)@ == old(out)@ + be_bytes(value as nat, width as nat),
    decreases width,
{
    if width > 0 {
        push_be(out, value / 256, width - 1);
        out.push((value % 256) as u8);
    }
}

/// The integer that `data[pos..pos + width]` stands for.
pub fn read_be(data: &[u8], pos: usize, width: usize) -> (value: u64)
    requires
        width <= 8,
        pos + width <= data.len(),
    ensures
        value == be_value(data@.subrange(pos as int, pos + width)),
{
    let mut value: u64 = 0;
    let mut i: usize = 0;
    while i < width
        invariant
            i <= width <= 8,
            pos + width <= data.len(),
            value == be_value(data@.subrange(pos as int, pos + i)),
        decreases width - i,
    {
        proof {
            let next = data@.subrange(pos as int, pos + i + 1);
            assert(next.drop_last() =~= data@.subrange(pos as int, pos + i));
            lemma_be_value_bound(next);
            lemma_byte_range_monotone(next.len(), 8);
            lemma_byte_ranges();
        }
        value = value * 256 + data[pos + i] as u64;
        i = i + 1;
    }
    value
}

} // verus!
