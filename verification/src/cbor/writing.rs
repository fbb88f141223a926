//! What writers put down: lists in their order, messages whole, and of a message that does not
//! fit the parts that do.
use crate::cbor::body::{is_appended, written_end};
use crate::cbor::code::{codes_of, WireCode};
use crate::cbor::fields::{code_items, header_items, text_items};
use crate::cbor::item::{
    head_bytes, head_round_trip, lemma_stands_at_split, stands_at, text_bytes, uint_bytes, ARRAY,
    BYTES, MAP, TEXT, UNSIGNED,
};
use crate::cbor::reader::texts_of;
use crate::common::error::MessageError;
use crate::common::type_key::type_key_bytes;
use vstd::prelude::*;
use vstd::utf8::encode_utf8;

verus! {

// ---- Items ----

/// The major types: 0 for integers, 2 for byte strings, 3 for texts, 4 for arrays and 5 for
/// maps. They stand in the first three bits of an item, and a small argument in the others.
pub proof fn small_items(n: nat)
    requires
        n < 24,
    ensures
        uint_bytes(n) == seq![n as u8],
        head_bytes(UNSIGNED, n) == seq![n as u8],
        head_bytes(BYTES, n) == seq![(0x40 + n) as u8],
        head_bytes(TEXT, n) == seq![(0x60 + n) as u8],
        head_bytes(ARRAY, n) == seq![(0x80 + n) as u8],
        head_bytes(MAP, n) == seq![(0xa0 + n) as u8],
{
}

// ---- Lists ----

/// The elements of a list are written in their order, each in the form of its kind.
pub proof fn lists_are_in_order(
    codes: Seq<u8>,
    code: u8,
    texts: Seq<Seq<char>>,
    text: Seq<char>,
    headers: Seq<(Seq<char>, Seq<char>)>,
    value: Seq<char>,
)
    ensures
        code_items(codes.push(code)) == code_items(codes) + uint_bytes(code as nat),
        text_items(texts.push(text)) == text_items(texts) + head_bytes(
            TEXT,
            encode_utf8(text).len(),
        ) + encode_utf8(text),
        header_items(headers.push((text, value))) == header_items(headers) + head_bytes(ARRAY, 2)
            + text_bytes(text) + text_bytes(value),
        code_items(Seq::empty()) == Seq::<u8>::empty(),
        text_items(Seq::empty()) == Seq::<u8>::empty(),
        header_items(Seq::empty()) == Seq::<u8>::empty(),
{
    assert(codes.push(code).drop_last() =~= codes);
    assert(texts.push(text).drop_last() =~= texts);
    assert(headers.push((text, value)).drop_last() =~= headers);
    assert(text_items(texts.push(text)) =~= text_items(texts) + head_bytes(
        TEXT,
        encode_utf8(text).len(),
    ) + encode_utf8(text));
    assert(header_items(headers.push((text, value))) =~= header_items(headers) + head_bytes(
        ARRAY,
        2,
    ) + text_bytes(text) + text_bytes(value));
}

/// A list of members is written as the list of their codes, and a list of strings as the list
/// of their texts: one for one.
pub proof fn elements_are_written_one_for_one<E: WireCode>(members: Seq<E>, texts: Seq<&str>)
    ensures
        codes_of(members).len() == members.len(),
        forall|i: int|
            0 <= i < members.len() ==> #[trigger] codes_of(members)[i] == members[i].code(),
        texts_of(texts).len() == texts.len(),
        forall|i: int| 0 <= i < texts.len() ==> #[trigger] texts_of(texts)[i] == texts[i]@,
{
}

// ---- Messages ----

/// A message is appended whole if there is room for it, and only then. Without room for
/// its type key the buffer is full and stays as it was. Otherwise the buffer keeps what it held,
/// gets the type key and some first part of the body, and stays within its capacity.
pub proof fn messages_are_appended_whole(
    before: Seq<u8>,
    after: Seq<u8>,
    r: Result<(), MessageError>,
    type_key: u16,
    body: Seq<u8>,
    cap: nat,
)
    requires
        before.len() <= cap,
        is_appended(before, after, r, type_key, body, cap),
    ensures
        r is Ok <==> before.len() + type_key_bytes(type_key).len() + body.len() <= cap,
        r is Ok ==> after == before + type_key_bytes(type_key) + body,
        before.len() + type_key_bytes(type_key).len() > cap ==> r == Err::<(), MessageError>(
            MessageError::BufferFull,
        ) && after == before,
        r is Err && before.len() + type_key_bytes(type_key).len() <= cap ==> r == Err::<
            (),
            MessageError,
        >(MessageError::EncodeFailed) && after.is_prefix_of(
            before + type_key_bytes(type_key) + body,
        ) && (before + type_key_bytes(type_key)).is_prefix_of(after),
        after.len() <= cap,
{
    let start = before + type_key_bytes(type_key);
    if start.len() <= cap && start.len() + body.len() > cap {
        let room = cap - start.len();
        crate::cbor::body::written_part_fits(body, 0, room);
        let whole = start + body;
        assert(after =~= whole.take(after.len() as int));
        assert(after.take(start.len() as int) =~= start);
    }
}

/// Of an integer or the head of a list or map that does not fit, nothing is written where its
/// argument is part of the first byte or the one behind it. Of a longer head the first byte is
/// written if that fits. One that fits is written whole.
pub proof fn heads_are_written(major: u8, n: nat, data: Seq<u8>, pos: int, room: int)
    requires
        major == 0 || major == 4 || major == 5,
        n <= u64::MAX,
        0 <= pos <= room,
        stands_at(data, pos, head_bytes(major, n)),
    ensures
        pos + head_bytes(major, n).len() <= room ==> written_end(data, pos, room) == written_end(
            data,
            pos + head_bytes(major, n).len(),
            room,
        ),
        pos + head_bytes(major, n).len() > room ==> written_end(data, pos, room) == if n >= 0x100
            && pos < room {
            pos + 1
        } else {
            pos
        },
{
    reveal_with_fuel(written_end, 1);
    head_round_trip(major, n, data, pos);
    lemma_first_of_head(major, n, data, pos);
}

proof fn lemma_first_of_head(major: u8, n: nat, data: Seq<u8>, pos: int)
    requires
        major < 8,
        0 <= pos,
        stands_at(data, pos, head_bytes(major, n)),
    ensures
        pos < data.len(),
        data[pos] / 32 == major,
        data[pos] % 32 == if n < 24 {
            n as int
        } else if n < 0x100 {
            24
        } else if n < 0x1_0000 {
            25
        } else if n < 0x1_0000_0000 {
            26
        } else {
            27
        },
        head_bytes(major, n).len() == if n < 24 {
            1int
        } else if n < 0x100 {
            2
        } else if n < 0x1_0000 {
            3
        } else if n < 0x1_0000_0000 {
            5
        } else {
            9
        },
{
    let head = head_bytes(major, n);
    crate::common::big_endian::lemma_be_bytes_len(n, 1);
    crate::common::big_endian::lemma_be_bytes_len(n, 2);
    crate::common::big_endian::lemma_be_bytes_len(n, 4);
    crate::common::big_endian::lemma_be_bytes_len(n, 8);
    assert(data[pos] == data.subrange(pos, pos + head.len())[0]);
    assert(data[pos] == head[0]);
}

/// Of a string whose head fits but whose content does not, the head is written. One that fits
/// is written whole.
pub proof fn strings_are_written(major: u8, content: Seq<u8>, data: Seq<u8>, pos: int, room: int)
    requires
        major == 2 || major == 3,
        content.len() <= u64::MAX,
        0 <= pos <= room,
        stands_at(data, pos, head_bytes(major, content.len()) + content),
    ensures
        pos + head_bytes(major, content.len()).len() + content.len() <= room ==> written_end(
            data,
            pos,
            room,
        ) == written_end(
            data,
            pos + head_bytes(major, content.len()).len() + content.len(),
            room,
        ),
        pos + head_bytes(major, content.len()).len() <= room < pos + head_bytes(
            major,
            content.len(),
        ).len() + content.len() ==> written_end(data, pos, room) == pos + head_bytes(
            major,
            content.len(),
        ).len(),
        pos + head_bytes(major, content.len()).len() > room ==> written_end(data, pos, room)
            == if content.len() >= 0x100 && pos < room {
            pos + 1
        } else {
            pos
        },
{
    reveal_with_fuel(written_end, 1);
    let head = head_bytes(major, content.len());
    lemma_stands_at_split(data, pos, head, content);
    head_round_trip(major, content.len(), data, pos);
    lemma_first_of_head(major, content.len(), data, pos);
}

} // verus!
