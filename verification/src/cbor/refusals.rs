//! What readers make of values, one form after the other, and with which error they refuse the
//! others.
use crate::cbor::fields::{
    blank_table, body_at, codes_at, entries_at, header_at, headers_at, status_at, texts_at,
    token_at, value_at, Field, Kind, Layout, Table, Value,
};
use crate::cbor::item::{
    head_bytes, head_round_trip, lemma_stands_at_split, stands_at, text_bytes, text_round_trip,
    uint_bytes, uint_round_trip,
};
use crate::cbor::reader::{body_of, message_at};
use crate::common::error::MessageError;
use crate::common::type_key::type_key_of;
use vstd::prelude::*;
use vstd::utf8::{encode_utf8, valid_utf8};

verus! {

/// Whether reading a value failed with this error.
pub open spec fn is_refused(
    kind: Kind,
    entry: Option<Value>,
    data: Seq<u8>,
    pos: int,
    error: MessageError,
) -> bool {
    value_at(kind, entry, data, pos) == Err::<(Value, int), MessageError>(error)
}

// ---- The kind of an item ----

/// Where the data ends, or another kind of item stands, a value cannot be read: integers are of
/// the major type 0, byte strings of 2, texts of 3, lists of 4 and maps of 5.
pub proof fn other_items_are_refused(kind: Kind, entry: Option<Value>, data: Seq<u8>, pos: int)
    requires
        0 <= pos,
    ensures
        pos >= data.len() ==> is_refused(kind, entry, data, pos, MessageError::DecodeFailed),
        pos < data.len() && (kind is Uint || kind is Code) && data[pos] / 32 != 0 ==> is_refused(
            kind,
            entry,
            data,
            pos,
            MessageError::DecodeFailed,
        ),
        pos < data.len() && kind is Blob && data[pos] / 32 != 2 ==> is_refused(
            kind,
            entry,
            data,
            pos,
            MessageError::DecodeFailed,
        ),
        pos < data.len() && kind is Text && data[pos] / 32 != 3 ==> is_refused(
            kind,
            entry,
            data,
            pos,
            MessageError::DecodeFailed,
        ),
        pos < data.len() && kind is Content && data[pos] / 32 != 2 && data[pos] / 32 != 3
            ==> is_refused(kind, entry, data, pos, MessageError::DecodeFailed),
        pos < data.len() && (kind is Codes || kind is Texts || kind is Headers) && data[pos] / 32
            != 4 ==> is_refused(kind, entry, data, pos, MessageError::DecodeFailed),
        pos < data.len() && (kind is Status || kind is Token) && data[pos] / 32 != 5 ==> is_refused(
            kind,
            entry,
            data,
            pos,
            MessageError::DecodeFailed,
        ),
{
    if pos < data.len() {
        let first = data[pos];
        assert(32 * 4 + 31 == 159 && 32 * 5 + 31 == 191);
        assert(first == 159 ==> first / 32 == 4);
        assert(first == 191 ==> first / 32 == 5);
    }
}

/// What is no map is no body, and where an entry is due an integer has to stand for its key.
pub proof fn other_bodies_are_refused(
    layout: Layout,
    table: Table,
    data: Seq<u8>,
    pos: int,
    n: nat,
)
    requires
        0 <= pos,
        n > 0,
    ensures
        pos >= data.len() || data[pos] / 32 != 5 ==> body_at(layout, data, pos) == Err::<
            Table,
            MessageError,
        >(MessageError::DecodeFailed),
        pos >= data.len() || data[pos] / 32 != 0 ==> entries_at(
            layout.fields,
            table,
            data,
            pos,
            n,
        ) == Err::<(Table, int), MessageError>(MessageError::DecodeFailed),
{
    reveal_with_fuel(entries_at, 1);
    if pos < data.len() {
        let first = data[pos];
        assert(first == 191 ==> first / 32 == 5);
    }
}

// ---- Integers and strings ----

/// An integer above the limit of its field is refused, and a code of more than one byte.
pub proof fn large_integers_are_refused(kind: Kind, n: nat, data: Seq<u8>, pos: int)
    requires
        n <= u64::MAX,
        stands_at(data, pos, uint_bytes(n)),
    ensures
        (kind matches Kind::Uint { limit } && n > limit) ==> is_refused(
            kind,
            None,
            data,
            pos,
            MessageError::DecodeFailed,
        ),
        kind is Code && n > 255 ==> is_refused(kind, None, data, pos, MessageError::DecodeFailed),
{
    head_round_trip(0, n, data, pos);
}

/// A string that the data does not hold whole is refused, and so is a text that is not UTF-8. A
/// byte string that is longer than its field allows is refused for that.
pub proof fn broken_strings_are_refused(kind: Kind, n: nat, data: Seq<u8>, pos: int)
    requires
        n <= u64::MAX,
        0 <= pos,
    ensures
        kind is Blob && stands_at(data, pos, head_bytes(2, n)) && pos + head_bytes(2, n).len() + n
            > data.len() ==> is_refused(kind, None, data, pos, MessageError::DecodeFailed),
        kind is Text && stands_at(data, pos, head_bytes(3, n)) && pos + head_bytes(3, n).len() + n
            > data.len() ==> is_refused(kind, None, data, pos, MessageError::DecodeFailed),
        kind is Text && stands_at(data, pos, head_bytes(3, n)) && pos + head_bytes(3, n).len() + n
            <= data.len() && !valid_utf8(
            data.subrange(pos + head_bytes(3, n).len(), pos + head_bytes(3, n).len() + n),
        ) ==> is_refused(kind, None, data, pos, MessageError::DecodeFailed),
        (kind matches Kind::Blob { max: Some(max) } && n > max) && stands_at(
            data,
            pos,
            head_bytes(2, n),
        ) && pos + head_bytes(2, n).len() + n <= data.len() ==> is_refused(
            kind,
            None,
            data,
            pos,
            MessageError::FieldTooLong,
        ),
{
    if stands_at(data, pos, head_bytes(2, n)) {
        head_round_trip(2, n, data, pos);
    }
    if stands_at(data, pos, head_bytes(3, n)) {
        head_round_trip(3, n, data, pos);
    }
}

// ---- Statuses and tokens ----

/// A status is a map of one entry, and a token one of one entry or none. The entry is the text
/// with the key 0, of up to 256 bytes.
pub proof fn other_inner_maps_are_refused(
    n: nat,
    key: nat,
    text: Seq<char>,
    data: Seq<u8>,
    pos: int,
)
    requires
        n <= u64::MAX,
        key <= 255,
        encode_utf8(text).len() <= u64::MAX,
        0 <= pos,
    ensures
        stands_at(data, pos, head_bytes(5, n)) && n != 1 ==> status_at(data, pos) == Err::<
            (Seq<char>, int),
            MessageError,
        >(MessageError::DecodeFailed),
        stands_at(data, pos, head_bytes(5, n)) && n > 1 ==> token_at(data, pos) == Err::<
            (Option<Seq<char>>, int),
            MessageError,
        >(MessageError::InvalidField),
        stands_at(data, pos, seq![0xbfu8]) ==> status_at(data, pos) == Err::<
            (Seq<char>, int),
            MessageError,
        >(MessageError::DecodeFailed) && token_at(data, pos) == Err::<
            (Option<Seq<char>>, int),
            MessageError,
        >(MessageError::InvalidField),
        stands_at(data, pos, head_bytes(5, 1) + uint_bytes(key)) && key != 0 ==> status_at(data, pos)
            == Err::<(Seq<char>, int), MessageError>(MessageError::InvalidField) && token_at(
            data,
            pos,
        ) == Err::<(Option<Seq<char>>, int), MessageError>(MessageError::InvalidField),
        stands_at(data, pos, head_bytes(5, 1) + uint_bytes(0) + text_bytes(text)) && encode_utf8(
            text,
        ).len() > 256 ==> status_at(data, pos) == Err::<(Seq<char>, int), MessageError>(
            MessageError::FieldTooLong,
        ) && token_at(data, pos) == Err::<(Option<Seq<char>>, int), MessageError>(
            MessageError::FieldTooLong,
        ),
{
    let head = head_bytes(5, 1);
    if stands_at(data, pos, head_bytes(5, n)) {
        head_round_trip(5, n, data, pos);
    }
    if stands_at(data, pos, seq![0xbfu8]) {
        assert(data[pos] == data.subrange(pos, pos + 1)[0]);
    }
    if stands_at(data, pos, head + uint_bytes(key)) {
        lemma_stands_at_split(data, pos, head, uint_bytes(key));
        head_round_trip(5, 1, data, pos);
        uint_round_trip(255, key, data, pos + head.len());
    }
    if stands_at(data, pos, head + uint_bytes(0) + text_bytes(text)) {
        lemma_stands_at_split(data, pos, head + uint_bytes(0), text_bytes(text));
        lemma_stands_at_split(data, pos, head, uint_bytes(0));
        head_round_trip(5, 1, data, pos);
        uint_round_trip(255, 0, data, pos + head.len());
        text_round_trip(text, data, pos + head.len() + uint_bytes(0).len());
    }
}

/// A field with a status or a token is read as just that.
pub proof fn inner_maps_are_values(entry: Option<Value>, data: Seq<u8>, pos: int)
    ensures
        value_at(Kind::Status, entry, data, pos) == match status_at(data, pos) {
            Ok((text, next)) => Ok::<(Value, int), MessageError>((Value::Status(text), next)),
            Err(e) => Err(e),
        },
        value_at(Kind::Token, entry, data, pos) == match token_at(data, pos) {
            Ok((token, next)) => Ok::<(Value, int), MessageError>((Value::Token(token), next)),
            Err(e) => Err(e),
        },
{
}

// ---- Lists ----

/// A list of fixed length begins with the number of its items, and one of indefinite length with
/// the byte 9f, which only a list that grows may. What the field held already comes before the
/// items of a list that grows, and counts no more for another.
pub proof fn lists_begin(
    allowed: Set<u8>,
    max: Option<nat>,
    cap: nat,
    codes: Seq<u8>,
    texts: Seq<Seq<char>>,
    headers: Seq<(Seq<char>, Seq<char>)>,
    n: nat,
    data: Seq<u8>,
    pos: int,
)
    requires
        n <= u64::MAX,
        0 <= pos,
    ensures
        stands_at(data, pos, head_bytes(4, n)) ==> {
            let next = pos + head_bytes(4, n).len();
            &&& value_at(
                (Kind::Codes { allowed, cap, grows: true }),
                Some(Value::Codes(codes)),
                data,
                pos,
            ) == as_codes(codes_at(allowed, cap, codes, data, next, Some(n)))
            &&& value_at(
                (Kind::Codes { allowed, cap, grows: false }),
                Some(Value::Codes(codes)),
                data,
                pos,
            ) == as_codes(codes_at(allowed, cap, Seq::empty(), data, next, Some(n)))
            &&& value_at(
                (Kind::Texts { max, cap, grows: true }),
                Some(Value::Texts(texts)),
                data,
                pos,
            ) == as_texts(texts_at(max, cap, texts, data, next, Some(n)))
            &&& value_at(
                (Kind::Texts { max, cap, grows: false }),
                Some(Value::Texts(texts)),
                data,
                pos,
            ) == as_texts(texts_at(max, cap, Seq::empty(), data, next, Some(n)))
            &&& value_at((Kind::Headers { cap }), Some(Value::Headers(headers)), data, pos)
                == as_headers(headers_at(cap, headers, data, next, Some(n)))
        },
        stands_at(data, pos, seq![0x9fu8]) ==> {
            &&& value_at(
                (Kind::Codes { allowed, cap, grows: true }),
                Some(Value::Codes(codes)),
                data,
                pos,
            ) == as_codes(codes_at(allowed, cap, codes, data, pos + 1, None))
            &&& value_at(
                (Kind::Texts { max, cap, grows: true }),
                Some(Value::Texts(texts)),
                data,
                pos,
            ) == as_texts(texts_at(max, cap, texts, data, pos + 1, None))
            &&& value_at((Kind::Headers { cap }), Some(Value::Headers(headers)), data, pos)
                == as_headers(headers_at(cap, headers, data, pos + 1, None))
            &&& is_refused(
                (Kind::Codes { allowed, cap, grows: false }),
                None,
                data,
                pos,
                MessageError::InvalidField,
            )
            &&& is_refused(
                (Kind::Texts { max, cap, grows: false }),
                None,
                data,
                pos,
                MessageError::InvalidField,
            )
        },
{
    if stands_at(data, pos, head_bytes(4, n)) {
        head_round_trip(4, n, data, pos);
    }
    if stands_at(data, pos, seq![0x9fu8]) {
        assert(data[pos] == data.subrange(pos, pos + 1)[0]);
    }
}

/// Codes that were read, as a value.
pub open spec fn as_codes(r: Result<(Seq<u8>, int), MessageError>) -> Result<
    (Value, int),
    MessageError,
> {
    match r {
        Ok((codes, next)) => Ok((Value::Codes(codes), next)),
        Err(e) => Err(e),
    }
}

/// Texts that were read, as a value.
pub open spec fn as_texts(r: Result<(Seq<Seq<char>>, int), MessageError>) -> Result<
    (Value, int),
    MessageError,
> {
    match r {
        Ok((texts, next)) => Ok((Value::Texts(texts), next)),
        Err(e) => Err(e),
    }
}

/// Headers that were read, as a value.
pub open spec fn as_headers(
    r: Result<(Seq<(Seq<char>, Seq<char>)>, int), MessageError>,
) -> Result<(Value, int), MessageError> {
    match r {
        Ok((headers, next)) => Ok((Value::Headers(headers), next)),
        Err(e) => Err(e),
    }
}

/// A list ends when all its items are read or, where their number is open, with the byte ff.
pub proof fn lists_end(
    allowed: Set<u8>,
    max: Option<nat>,
    cap: nat,
    codes: Seq<u8>,
    texts: Seq<Seq<char>>,
    headers: Seq<(Seq<char>, Seq<char>)>,
    data: Seq<u8>,
    pos: int,
)
    ensures
        codes_at(allowed, cap, codes, data, pos, Some(0)) == Ok::<(Seq<u8>, int), MessageError>(
            (codes, pos),
        ),
        texts_at(max, cap, texts, data, pos, Some(0)) == Ok::<(Seq<Seq<char>>, int), MessageError>(
            (texts, pos),
        ),
        headers_at(cap, headers, data, pos, Some(0)) == Ok::<
            (Seq<(Seq<char>, Seq<char>)>, int),
            MessageError,
        >((headers, pos)),
        0 <= pos < data.len() && data[pos] == 0xff ==> {
            &&& codes_at(allowed, cap, codes, data, pos, None) == Ok::<
                (Seq<u8>, int),
                MessageError,
            >((codes, pos + 1))
            &&& texts_at(max, cap, texts, data, pos, None) == Ok::<
                (Seq<Seq<char>>, int),
                MessageError,
            >((texts, pos + 1))
            &&& headers_at(cap, headers, data, pos, None) == Ok::<
                (Seq<(Seq<char>, Seq<char>)>, int),
                MessageError,
            >((headers, pos + 1))
        },
{
    reveal_with_fuel(codes_at, 1);
    reveal_with_fuel(texts_at, 1);
    reveal_with_fuel(headers_at, 1);
}

/// What is left of a list of fixed or of open length after one more item.
pub open spec fn fewer(left: Option<nat>) -> Option<nat> {
    match left {
        Some(n) => Some((n - 1) as nat),
        None => None,
    }
}

proof fn lemma_no_break(major: u8, n: nat, data: Seq<u8>, pos: int)
    requires
        major < 7,
        n <= u64::MAX,
        stands_at(data, pos, head_bytes(major, n)),
        0 <= pos,
    ensures
        pos < data.len(),
        data[pos] != 0xff,
{
    head_round_trip(major, n, data, pos);
    assert(data[pos] / 32 == major);
}

/// One more code goes to the end of the list. One that no member has is refused, and one that the
/// list has no room for.
pub proof fn codes_are_appended(
    allowed: Set<u8>,
    cap: nat,
    held: Seq<u8>,
    code: u8,
    left: Option<nat>,
    data: Seq<u8>,
    pos: int,
)
    requires
        0 <= pos,
        left matches Some(n) ==> n > 0,
        stands_at(data, pos, uint_bytes(code as nat)),
    ensures
        codes_at(allowed, cap, held, data, pos, left) == if !allowed.contains(code) {
            Err::<(Seq<u8>, int), MessageError>(MessageError::InvalidField)
        } else if held.len() >= cap {
            Err(MessageError::BufferFull)
        } else {
            codes_at(
                allowed,
                cap,
                held.push(code),
                data,
                pos + uint_bytes(code as nat).len(),
                fewer(left),
            )
        },
{
    reveal_with_fuel(codes_at, 1);
    lemma_no_break(0, code as nat, data, pos);
    uint_round_trip(255, code as nat, data, pos);
}

/// One more text goes to the end of the list. One that is too long is refused for that, and one
/// that the list has no room for.
pub proof fn texts_are_appended(
    max: Option<nat>,
    cap: nat,
    held: Seq<Seq<char>>,
    text: Seq<char>,
    left: Option<nat>,
    data: Seq<u8>,
    pos: int,
)
    requires
        0 <= pos,
        left matches Some(n) ==> n > 0,
        encode_utf8(text).len() <= u64::MAX,
        stands_at(data, pos, text_bytes(text)),
    ensures
        texts_at(max, cap, held, data, pos, left) == if max matches Some(limit) && encode_utf8(
            text,
        ).len() > limit {
            Err::<(Seq<Seq<char>>, int), MessageError>(MessageError::FieldTooLong)
        } else if held.len() >= cap {
            Err(MessageError::BufferFull)
        } else {
            texts_at(
                max,
                cap,
                held.push(text),
                data,
                pos + text_bytes(text).len(),
                fewer(left),
            )
        },
{
    reveal_with_fuel(texts_at, 1);
    let content = encode_utf8(text);
    lemma_stands_at_split(data, pos, head_bytes(3, content.len()), content);
    lemma_no_break(3, content.len(), data, pos);
    text_round_trip(text, data, pos);
}

/// One more header goes to the end of the list: an array of a key and a value, of up to 256 bytes
/// each. One that the list has no room for is refused.
pub proof fn headers_are_appended(
    cap: nat,
    held: Seq<(Seq<char>, Seq<char>)>,
    key: Seq<char>,
    value: Seq<char>,
    left: Option<nat>,
    data: Seq<u8>,
    pos: int,
)
    requires
        0 <= pos,
        left matches Some(n) ==> n > 0,
        encode_utf8(key).len() <= u64::MAX,
        encode_utf8(value).len() <= u64::MAX,
        stands_at(data, pos, head_bytes(4, 2) + text_bytes(key) + text_bytes(value)),
    ensures
        headers_at(cap, held, data, pos, left) == if encode_utf8(key).len() > 256 || encode_utf8(
            value,
        ).len() > 256 {
            Err::<(Seq<(Seq<char>, Seq<char>)>, int), MessageError>(MessageError::FieldTooLong)
        } else if held.len() >= cap {
            Err(MessageError::BufferFull)
        } else {
            headers_at(
                cap,
                held.push((key, value)),
                data,
                pos + (head_bytes(4, 2) + text_bytes(key) + text_bytes(value)).len(),
                fewer(left),
            )
        },
{
    reveal_with_fuel(headers_at, 1);
    let head = head_bytes(4, 2);
    lemma_stands_at_split(data, pos, head + text_bytes(key), text_bytes(value));
    lemma_stands_at_split(data, pos, head, text_bytes(key));
    lemma_no_break(4, 2, data, pos);
    head_round_trip(4, 2, data, pos);
    text_round_trip(key, data, pos + head.len());
    text_round_trip(value, data, pos + head.len() + text_bytes(key).len());
}

/// A header is an array of two items, no more and no fewer.
pub proof fn other_headers_are_refused(n: nat, data: Seq<u8>, pos: int)
    requires
        n <= u64::MAX,
        0 <= pos,
    ensures
        stands_at(data, pos, head_bytes(4, n)) && n != 2 ==> header_at(data, pos) == Err::<
            ((Seq<char>, Seq<char>), int),
            MessageError,
        >(MessageError::InvalidField),
        stands_at(data, pos, seq![0x9fu8]) ==> header_at(data, pos) == Err::<
            ((Seq<char>, Seq<char>), int),
            MessageError,
        >(MessageError::InvalidField),
{
    if stands_at(data, pos, head_bytes(4, n)) {
        head_round_trip(4, n, data, pos);
    }
    if stands_at(data, pos, seq![0x9fu8]) {
        assert(data[pos] == data.subrange(pos, pos + 1)[0]);
    }
}

// ---- Entries ----

/// An entry gives its field the value that was read; the other fields stay as they were. A value
/// that is refused ends the reading with its error.
pub proof fn entries_are_taken(
    fields: Seq<Field>,
    table: Table,
    key: nat,
    n: nat,
    data: Seq<u8>,
    pos: int,
)
    requires
        0 <= pos,
        n > 0,
        key < fields.len() <= 255,
        table.len() == fields.len(),
        stands_at(data, pos, uint_bytes(key)),
    ensures
        ({
            let at = pos + uint_bytes(key).len();
            entries_at(fields, table, data, pos, n) == match value_at(
                fields[key as int].kind,
                table[key as int],
                data,
                at,
            ) {
                Ok((value, next)) => entries_at(
                    fields,
                    table.update(key as int, Some(value)),
                    data,
                    next,
                    (n - 1) as nat,
                ),
                Err(e) => Err(e),
            }
        }),
        entries_at(fields, table, data, pos, 0) == Ok::<(Table, int), MessageError>((table, pos)),
{
    reveal_with_fuel(entries_at, 1);
    uint_round_trip(255, key, data, pos);
}

/// Before anything is read, a list that grows is empty, and nothing else is known.
pub proof fn nothing_is_known_at_first(fields: Seq<Field>, i: int)
    requires
        0 <= i < fields.len(),
    ensures
        blank_table(fields).len() == fields.len(),
        blank_table(fields)[i] == match fields[i].kind {
            Kind::Codes { grows: true, .. } => Some(Value::Codes(Seq::empty())),
            Kind::Texts { grows: true, .. } => Some(Value::Texts(Seq::empty())),
            Kind::Headers { .. } => Some(Value::Headers(Seq::empty())),
            _ => None,
        },
{
}

/// A body is a map with a number of entries that its layout allows. When they are read, every
/// field that is required has to be known, whatever stands behind the map.
pub proof fn bodies_are_maps(layout: Layout, n: nat, data: Seq<u8>, pos: int)
    requires
        n <= u64::MAX,
        0 <= pos,
        layout.min <= n <= layout.max,
        stands_at(data, pos, head_bytes(5, n)),
    ensures
        body_at(layout, data, pos) == match entries_at(
            layout.fields,
            blank_table(layout.fields),
            data,
            pos + head_bytes(5, n).len(),
            n,
        ) {
            Ok((table, _)) => if forall|i: int|
                0 <= i < layout.fields.len() && layout.fields[i].presence is Required ==> (
                #[trigger] table[i]) is Some {
                Ok::<Table, MessageError>(table)
            } else {
                Err(MessageError::MissingField)
            },
            Err(e) => Err(e),
        },
{
    head_round_trip(5, n, data, pos);
}

// ---- Messages ----

/// A message of one type is read from behind its type key. Data with another type key is refused
/// for that, and data without one with the error of that.
pub proof fn messages_of_one_type(type_key: u16, layout: Layout, data: Seq<u8>)
    ensures
        type_key_of(data) matches Ok((found, width)) ==> if found == type_key {
            &&& body_of(type_key, data) == Ok::<Seq<u8>, MessageError>(data.skip(width))
            &&& message_at(type_key, layout, data) == body_at(layout, data.skip(width), 0)
        } else {
            &&& body_of(type_key, data) == Err::<Seq<u8>, MessageError>(
                MessageError::InvalidMessageType,
            )
            &&& message_at(type_key, layout, data) == Err::<Table, MessageError>(
                MessageError::InvalidMessageType,
            )
        },
        type_key_of(data) matches Err(e) ==> body_of(type_key, data) == Err::<
            Seq<u8>,
            MessageError,
        >(e) && message_at(type_key, layout, data) == Err::<Table, MessageError>(e),
{
}

} // verus!
