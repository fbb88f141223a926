//! Writing message bodies.
use crate::bounded::BoundedVec;
use crate::cbor::code::{codes_of, WireCode};
use crate::cbor::fields::{code_items, header_bytes, text_items, text_map_bytes, value_bytes, Value};
use crate::cbor::item::{
    argument_at, argument_width, head_bytes, minicbor_array, minicbor_bytes, minicbor_map,
    minicbor_str, minicbor_u16, minicbor_u32, minicbor_u64, minicbor_u8, uint_bytes, ARRAY, BYTES,
    MAP, TEXT,
};
use crate::cbor::reader::texts_of;
use crate::common::big_endian::read_be;
use crate::common::error::MessageError;
use crate::common::type_key::{encode_type_key, type_key_bytes};
use vstd::prelude::*;

verus! {

/// A body that is being written. Its view is the bytes so far.
pub struct Body {
    bytes: Vec<u8>,
}

impl View for Body {
    type V = Seq<u8>;

    closed spec fn view(&self) -> Seq<u8> {
        self.bytes@
    }
}

impl Body {
    fn put(&mut self, item: Vec<u8>)
        ensures
            final(self)@ == old(self)@ + item@,
    {
        let mut item = item;
        self.bytes.append(&mut item);
    }

    /// A body that starts with the head of a map of `n` entries.
    pub fn map(n: u64) -> (b: Self)
        ensures
            b@ == head_bytes(MAP, n as nat),
    {
        let mut b = Body { bytes: Vec::new() };
        b.put(minicbor_map(n));
        proof {
            assert(b@ =~= head_bytes(MAP, n as nat));
        }
        b
    }

    /// Adds the head of a map of `n` entries.
    pub fn put_map(&mut self, n: u64)
        ensures
            final(self)@ == old(self)@ + head_bytes(MAP, n as nat),
    {
        self.put(minicbor_map(n));
    }

    /// Adds an integer.
    pub fn put_u8(&mut self, n: u8)
        ensures
            final(self)@ == old(self)@ + uint_bytes(n as nat),
    {
        self.put(minicbor_u8(n));
    }

    /// Adds an integer.
    pub fn put_u64(&mut self, n: u64)
        ensures
            final(self)@ == old(self)@ + uint_bytes(n as nat),
    {
        self.put(minicbor_u64(n));
    }

    /// Adds an entry: a code.
    pub fn code_field(&mut self, key: u8, code: u8)
        ensures
            final(self)@ == old(self)@ + uint_bytes(key as nat) + value_bytes(
                Value::Uint(code as nat),
            ),
    {
        self.put(minicbor_u8(key));
        self.put(minicbor_u8(code));
    }

    /// Adds an entry: an integer.
    pub fn u16_field(&mut self, key: u8, n: u16)
        ensures
            final(self)@ == old(self)@ + uint_bytes(key as nat) + value_bytes(
                Value::Uint(n as nat),
            ),
    {
        self.put(minicbor_u8(key));
        self.put(minicbor_u16(n));
    }

    /// Adds an entry: an integer.
    pub fn u32_field(&mut self, key: u8, n: u32)
        ensures
            final(self)@ == old(self)@ + uint_bytes(key as nat) + value_bytes(
                Value::Uint(n as nat),
            ),
    {
        self.put(minicbor_u8(key));
        self.put(minicbor_u32(n));
    }

    /// Adds an entry: an integer.
    pub fn u64_field(&mut self, key: u8, n: u64)
        ensures
            final(self)@ == old(self)@ + uint_bytes(key as nat) + value_bytes(
                Value::Uint(n as nat),
            ),
    {
        self.put(minicbor_u8(key));
        self.put(minicbor_u64(n));
    }

    /// Adds an entry: a text.
    pub fn text_field(&mut self, key: u8, text: &str)
        ensures
            final(self)@ == old(self)@ + uint_bytes(key as nat) + value_bytes(Value::Text(text@)),
    {
        self.put(minicbor_u8(key));
        self.put(minicbor_str(text));
    }

    /// Adds an entry: a byte string.
    pub fn bytes_field(&mut self, key: u8, content: &[u8])
        ensures
            final(self)@ == old(self)@ + uint_bytes(key as nat) + value_bytes(
                Value::Blob(content@),
            ),
    {
        self.put(minicbor_u8(key));
        self.put(minicbor_bytes(content));
    }

    /// Adds a map whose one entry, 0, is a text.
    fn put_text_map(&mut self, text: &str)
        ensures
            final(self)@ == old(self)@ + text_map_bytes(text@),
    {
        self.put(minicbor_map(1));
        self.put(minicbor_u8(0));
        self.put(minicbor_str(text));
        proof {
            assert(self@ =~= old(self)@ + text_map_bytes(text@));
        }
    }

    /// Adds an entry: a status.
    pub fn status_field(&mut self, key: u8, text: &str)
        ensures
            final(self)@ == old(self)@ + uint_bytes(key as nat) + value_bytes(Value::Status(text@)),
    {
        self.put(minicbor_u8(key));
        self.put_text_map(text);
    }

    /// Adds an entry: an initiation token.
    pub fn token_field(&mut self, key: u8, token: Option<&str>)
        ensures
            final(self)@ == old(self)@ + uint_bytes(key as nat) + value_bytes(
                Value::Token(
                    match token {
                        Some(text) => Some(text@),
                        None => None,
                    },
                ),
            ),
    {
        self.put(minicbor_u8(key));
        match token {
            Some(text) => self.put_text_map(text),
            None => self.put(minicbor_map(0)),
        }
    }

    /// Adds an entry: a list of codes.
    pub fn codes_field<E: WireCode>(&mut self, key: u8, members: &[E])
        ensures
            final(self)@ == old(self)@ + uint_bytes(key as nat) + value_bytes(
                Value::Codes(codes_of(members@)),
            ),
    {
        self.put(minicbor_u8(key));
        self.put(minicbor_array(members.len() as u64));
        let ghost start = self@;
        let ghost all = codes_of(members@);
        let mut i: usize = 0;
        proof {
            assert(self@ =~= start + code_items(all.take(0)));
        }
        while i < members.len()
            invariant
                i <= members@.len(),
                all == codes_of(members@),
                self@ == start + code_items(all.take(i as int)),
            decreases members.len() - i,
        {
            self.put(minicbor_u8(members[i].to_code()));
            proof {
                assert(all.take(i + 1).drop_last() =~= all.take(i as int));
                assert(self@ =~= start + code_items(all.take(i + 1)));
            }
            i = i + 1;
        }
        proof {
            assert(all.take(i as int) =~= all);
            assert(self@ =~= old(self)@ + uint_bytes(key as nat) + value_bytes(Value::Codes(all)));
        }
    }

    /// Adds an entry: a list of texts.
    pub fn texts_field(&mut self, key: u8, texts: &[&str])
        ensures
            final(self)@ == old(self)@ + uint_bytes(key as nat) + value_bytes(
                Value::Texts(texts_of(texts@)),
            ),
    {
        self.put(minicbor_u8(key));
        self.put(minicbor_array(texts.len() as u64));
        let ghost start = self@;
        let ghost all = texts_of(texts@);
        let mut i: usize = 0;
        proof {
            assert(self@ =~= start + text_items(all.take(0)));
        }
        while i < texts.len()
            invariant
                i <= texts@.len(),
                all == texts_of(texts@),
                self@ == start + text_items(all.take(i as int)),
            decreases texts.len() - i,
        {
            self.put(minicbor_str(texts[i]));
            proof {
                assert(all.take(i + 1).drop_last() =~= all.take(i as int));
                assert(self@ =~= start + text_items(all.take(i + 1)));
            }
            i = i + 1;
        }
        proof {
            assert(all.take(i as int) =~= all);
            assert(self@ =~= old(self)@ + uint_bytes(key as nat) + value_bytes(Value::Texts(all)));
        }
    }

    /// Adds a header: an array of its key and its value.
    pub fn put_header(&mut self, name: &str, value: &str)
        ensures
            final(self)@ == old(self)@ + header_bytes((name@, value@)),
    {
        self.put(minicbor_array(2));
        self.put(minicbor_str(name));
        self.put(minicbor_str(value));
        proof {
            assert(self@ =~= old(self)@ + header_bytes((name@, value@)));
        }
    }

    /// Starts an entry that is a list of `n` elements.
    pub fn begin_list_field(&mut self, key: u8, n: usize)
        ensures
            final(self)@ == old(self)@ + uint_bytes(key as nat) + head_bytes(ARRAY, n as nat),
    {
        self.put(minicbor_u8(key));
        self.put(minicbor_array(n as u64));
    }
}

/// The end of what is written of the items from `pos` on, where only `room` bytes of `data`
/// fit. An item is written in parts: the first byte of its head, together with an argument of
/// one byte; then a longer argument; then the content of a string. Each part is written in
/// full or not at all, and the first one that does not fit is the end.
#[verifier::opaque]
pub open spec fn written_end(data: Seq<u8>, pos: int, room: int) -> int
    decreases room - pos,
{
    let major = data[pos] / 32;
    let info = data[pos] % 32;
    let first = if info == 24 {
        pos + 2
    } else {
        pos + 1
    };
    if first > room {
        pos
    } else if 24 < info < 28 && first + argument_width(info) > room {
        first
    } else {
        match argument_at(data, pos + 1, info) {
            None => first,
            Some((n, end)) => if major != BYTES && major != TEXT {
                written_end(data, end, room)
            } else if end + n > room {
                end
            } else {
                written_end(data, end + n, room)
            },
        }
    }
}

/// The number of bytes that are written of items of which only `room` bytes fit.
fn written_len(data: &[u8], room: usize) -> (r: usize)
    requires
        room < data.len(),
    ensures
        r == written_end(data@, 0, room as int),
        r <= room,
{
    let mut pos: usize = 0;
    loop
        invariant
            pos <= room < data.len(),
            written_end(data@, 0, room as int) == written_end(data@, pos as int, room as int),
        decreases room - pos,
    {
        proof {
            reveal_with_fuel(written_end, 1);
        }
        let major: u8 = data[pos] / 32;
        let info: u8 = data[pos] % 32;
        let first: usize = if info == 24 {
            2
        } else {
            1
        };
        if first > room - pos {
            return pos;
        }
        let width: usize = match info {
            24 => 1,
            25 => 2,
            26 => 4,
            27 => 8,
            _ => 0,
        };
        if info > 24 && width > room - pos - 1 {
            return pos + 1;
        }
        if info >= 28 {
            return pos + 1;
        }
        let argument: u64 = if info < 24 {
            info as u64
        } else {
            read_be(data, pos + 1, width)
        };
        let end: usize = pos + 1 + width;
        if major == BYTES || major == TEXT {
            if argument > (room - end) as u64 {
                return end;
            }
            pos = end + argument as usize;
        } else {
            pos = end;
        }
    }
}

/// What becomes of a buffer of capacity `cap` when a message is appended to it. Without
/// room for the type key nothing is written. Without room for the body the buffer gets the
/// type key and the parts of the body that are written till then.
pub open spec fn is_appended(
    before: Seq<u8>,
    after: Seq<u8>,
    r: Result<(), MessageError>,
    type_key: u16,
    body: Seq<u8>,
    cap: nat,
) -> bool {
    let start = before + type_key_bytes(type_key);
    if start.len() > cap {
        r == Err::<(), MessageError>(MessageError::BufferFull) && after == before
    } else if start.len() + body.len() > cap {
        &&& r == Err::<(), MessageError>(MessageError::EncodeFailed)
        &&& after == start + body.take(written_end(body, 0, cap - start.len()))
    } else {
        r is Ok && after == start + body
    }
}

/// What is written of items of which not all fit ends within the room, at `pos` or behind it.
pub proof fn written_part_fits(data: Seq<u8>, pos: int, room: int)
    requires
        0 <= pos <= room,
    ensures
        pos <= written_end(data, pos, room) <= room,
    decreases room - pos,
{
    reveal_with_fuel(written_end, 1);
    let major = data[pos] / 32;
    let info = data[pos] % 32;
    let first = if info == 24 {
        pos + 2
    } else {
        pos + 1
    };
    if first <= room && !(24 < info < 28 && first + argument_width(info) > room) {
        if let Some((n, end)) = argument_at(data, pos + 1, info) {
            if major != BYTES && major != TEXT {
                written_part_fits(data, end, room);
            } else if end + n <= room {
                written_part_fits(data, end + n, room);
            }
        }
    }
}

/// Appends a type key and a body to a buffer.
pub fn append_message<const N: usize>(
    type_key: u16,
    body: &Body,
    buf: &mut BoundedVec<u8, N>,
) -> (r: Result<(), MessageError>)
    ensures
        is_appended(old(buf)@, final(buf)@, r, type_key, body@, N as nat),
{
    match encode_type_key(type_key, buf) {
        Ok(()) => {},
        Err(e) => return Err(e),
    }
    let room: usize = N - buf.len();
    let bytes = body.bytes.as_slice();
    if bytes.len() <= room {
        return match buf.extend_from_slice(bytes) {
            Ok(()) => Ok(()),
            Err(()) => Err(MessageError::EncodeFailed),
        };
    }
    let end: usize = written_len(bytes, room);
    let written = vstd::slice::slice_subrange(bytes, 0, end);
    proof {
        assert(written@ =~= body@.take(end as int));
    }
    let _ = buf.extend_from_slice(written);
    Err(MessageError::EncodeFailed)
}

} // verus!
