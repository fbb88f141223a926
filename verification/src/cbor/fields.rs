//! Messages as maps of numbered fields: what the values of fields are, how a message
//! lays them out, which bytes stand for them, and what a reader makes of bytes.
use crate::cbor::item::{
    blob_at, blob_bytes, collection_at, head_bytes, text_at, text_bytes, uint_at, uint_bytes,
    ARRAY, MAP,
};
use crate::common::error::MessageError;
use vstd::prelude::*;
use vstd::utf8::encode_utf8;

verus! {

/// The value of a field.
pub enum Value {
    /// An unsigned integer, or the code of an enumeration.
    Uint(nat),
    /// A text.
    Text(Seq<char>),
    /// A byte string.
    Blob(Seq<u8>),
    /// A status: a map whose one entry, 0, is a text.
    Status(Seq<char>),
    /// An initiation token: a map with the entry 0, a text, or none.
    Token(Option<Seq<char>>),
    /// A list of codes.
    Codes(Seq<u8>),
    /// A list of texts.
    Texts(Seq<Seq<char>>),
    /// A list of headers, each a key and a value.
    Headers(Seq<(Seq<char>, Seq<char>)>),
}

/// Which values a field may have.
pub enum Kind {
    /// An integer up to a limit.
    Uint { limit: nat },
    /// One of these codes.
    Code { allowed: Set<u8> },
    /// A text, up to a number of bytes if there is a limit.
    Text { max: Option<nat> },
    /// A byte string, up to a number of bytes if there is a limit.
    Blob { max: Option<nat> },
    /// A byte string or a text, of which the bytes count.
    Content,
    /// A status.
    Status,
    /// An initiation token.
    Token,
    /// Up to `cap` of these codes. Where the list `grows`, it is there from the start and
    /// each entry adds to it; otherwise the last entry counts.
    Codes { allowed: Set<u8>, cap: nat, grows: bool },
    /// Up to `cap` texts, likewise.
    Texts { max: Option<nat>, cap: nat, grows: bool },
    /// Up to `cap` headers; the list grows.
    Headers { cap: nat },
}

/// When a field is present.
pub enum Presence {
    /// Always.
    Required,
    /// It may be absent.
    Optional,
    /// It may be absent, and stands for an empty list then.
    NonEmpty,
}

/// A field of a message. Its key is its place among the fields.
pub struct Field {
    pub kind: Kind,
    pub presence: Presence,
}

/// The fields of a message, how many entries its map may have, and the error for any other
/// number.
pub struct Layout {
    pub fields: Seq<Field>,
    pub min: nat,
    pub max: nat,
    pub count_error: MessageError,
}

/// What is known of each field: its value, or that there is none.
pub type Table = Seq<Option<Value>>;

pub open spec fn required(kind: Kind) -> Field {
    Field { kind, presence: Presence::Required }
}

pub open spec fn optional(kind: Kind) -> Field {
    Field { kind, presence: Presence::Optional }
}

/// A layout with exactly one entry for each field.
pub open spec fn exactly(fields: Seq<Field>) -> Layout {
    Layout {
        fields,
        min: fields.len(),
        max: fields.len(),
        count_error: MessageError::InvalidField,
    }
}

/// Whether a text or byte string of `len` bytes keeps to a limit.
pub open spec fn within(max: Option<nat>, len: nat) -> bool {
    match max {
        Some(limit) => len <= limit,
        None => true,
    }
}

/// The length limit of texts.
pub open spec fn text_limit() -> Option<nat> {
    Some(crate::common::error::MAX_STRING_LENGTH as nat)
}

// ---- Writing ----

/// The codes, one after the other.
pub open spec fn code_items(codes: Seq<u8>) -> Seq<u8>
    decreases codes.len(),
{
    if codes.len() == 0 {
        Seq::empty()
    } else {
        code_items(codes.drop_last()) + uint_bytes(codes.last() as nat)
    }
}

/// The texts, one after the other.
pub open spec fn text_items(texts: Seq<Seq<char>>) -> Seq<u8>
    decreases texts.len(),
{
    if texts.len() == 0 {
        Seq::empty()
    } else {
        text_items(texts.drop_last()) + text_bytes(texts.last())
    }
}

/// A header: an array of its key and its value.
pub open spec fn header_bytes(header: (Seq<char>, Seq<char>)) -> Seq<u8> {
    head_bytes(ARRAY, 2) + text_bytes(header.0) + text_bytes(header.1)
}

/// The headers, one after the other.
pub open spec fn header_items(headers: Seq<(Seq<char>, Seq<char>)>) -> Seq<u8>
    decreases headers.len(),
{
    if headers.len() == 0 {
        Seq::empty()
    } else {
        header_items(headers.drop_last()) + header_bytes(headers.last())
    }
}

/// A map with the one entry 0, a text.
pub open spec fn text_map_bytes(text: Seq<char>) -> Seq<u8> {
    head_bytes(MAP, 1) + uint_bytes(0) + text_bytes(text)
}

/// The bytes of a value.
pub open spec fn value_bytes(value: Value) -> Seq<u8> {
    match value {
        Value::Uint(n) => uint_bytes(n),
        Value::Text(text) => text_bytes(text),
        Value::Blob(content) => blob_bytes(content),
        Value::Status(text) => text_map_bytes(text),
        Value::Token(Some(text)) => text_map_bytes(text),
        Value::Token(None) => head_bytes(MAP, 0),
        Value::Codes(codes) => head_bytes(ARRAY, codes.len()) + code_items(codes),
        Value::Texts(texts) => head_bytes(ARRAY, texts.len()) + text_items(texts),
        Value::Headers(headers) => head_bytes(ARRAY, headers.len()) + header_items(headers),
    }
}

/// Whether a value is a list without elements.
pub open spec fn is_empty_list(value: Value) -> bool {
    match value {
        Value::Codes(codes) => codes.len() == 0,
        Value::Texts(texts) => texts.len() == 0,
        Value::Headers(headers) => headers.len() == 0,
        _ => false,
    }
}

/// Whether a field is written: it has a value, which is no empty list where such a list
/// goes without saying.
pub open spec fn is_written(field: Field, entry: Option<Value>) -> bool {
    match entry {
        Some(value) => !(field.presence is NonEmpty && is_empty_list(value)),
        None => false,
    }
}

/// The number of entries among the first `k` fields.
pub open spec fn entry_count(fields: Seq<Field>, table: Table, k: nat) -> nat
    decreases k,
{
    if k == 0 {
        0
    } else {
        entry_count(fields, table, (k - 1) as nat) + if is_written(fields[k - 1], table[k - 1]) {
            1nat
        } else {
            0
        }
    }
}

/// `start` and behind it the entries of the first `k` fields: each a key and a value.
pub open spec fn entries_bytes(
    start: Seq<u8>,
    fields: Seq<Field>,
    table: Table,
    k: nat,
) -> Seq<u8>
    decreases k,
{
    if k == 0 {
        start
    } else {
        let before = entries_bytes(start, fields, table, (k - 1) as nat);
        if is_written(fields[k - 1], table[k - 1]) {
            before + uint_bytes((k - 1) as nat) + value_bytes(table[k - 1]->0)
        } else {
            before
        }
    }
}

/// The body of a message: the head of a map, then the entries in the order of their keys.
pub open spec fn body_bytes(fields: Seq<Field>, table: Table) -> Seq<u8> {
    let head = head_bytes(MAP, entry_count(fields, table, fields.len()));
    entries_bytes(head, fields, table, fields.len())
}

// ---- Reading ----

/// The byte that ends a list of indefinite length.
pub const BREAK: u8 = 0xff;

/// The position behind a list of which `left` items are still to come, if it ends at `pos`.
/// Where the number of items is left open, the list ends with a break.
pub open spec fn list_end(left: Option<nat>, data: Seq<u8>, pos: int) -> Option<int> {
    match left {
        Some(n) => if n == 0 {
            Some(pos)
        } else {
            None
        },
        None => if 0 <= pos < data.len() && data[pos] == BREAK {
            Some(pos + 1)
        } else {
            None
        },
    }
}

/// What is still to come after one more item.
pub open spec fn one_less(left: Option<nat>) -> Option<nat> {
    match left {
        Some(n) => Some((n - 1) as nat),
        None => None,
    }
}

/// Reads the codes that are still to come, behind those in `held`.
#[verifier::opaque]
pub open spec fn codes_at(
    allowed: Set<u8>,
    cap: nat,
    held: Seq<u8>,
    data: Seq<u8>,
    pos: int,
    left: Option<nat>,
) -> Result<(Seq<u8>, int), MessageError>
    decreases cap - held.len(),
{
    match list_end(left, data, pos) {
        Some(end) => Ok((held, end)),
        None => match uint_at(u8::MAX as nat, data, pos) {
            None => Err(MessageError::DecodeFailed),
            Some((code, next)) => if !allowed.contains(code as u8) {
                Err(MessageError::InvalidField)
            } else if held.len() >= cap {
                Err(MessageError::BufferFull)
            } else {
                codes_at(allowed, cap, held.push(code as u8), data, next, one_less(left))
            },
        },
    }
}

/// Reads a text that keeps to a limit.
pub open spec fn limited_text_at(max: Option<nat>, data: Seq<u8>, pos: int) -> Result<
    (Seq<char>, int),
    MessageError,
> {
    match text_at(data, pos) {
        None => Err(MessageError::DecodeFailed),
        Some((text, next)) => if within(max, encode_utf8(text).len()) {
            Ok((text, next))
        } else {
            Err(MessageError::FieldTooLong)
        },
    }
}

/// Reads the texts that are still to come, behind those in `held`.
#[verifier::opaque]
pub open spec fn texts_at(
    max: Option<nat>,
    cap: nat,
    held: Seq<Seq<char>>,
    data: Seq<u8>,
    pos: int,
    left: Option<nat>,
) -> Result<(Seq<Seq<char>>, int), MessageError>
    decreases cap - held.len(),
{
    match list_end(left, data, pos) {
        Some(end) => Ok((held, end)),
        None => match limited_text_at(max, data, pos) {
            Err(e) => Err(e),
            Ok((text, next)) => if held.len() >= cap {
                Err(MessageError::BufferFull)
            } else {
                texts_at(max, cap, held.push(text), data, next, one_less(left))
            },
        },
    }
}

/// Reads a header: an array of exactly a key and a value.
pub open spec fn header_at(data: Seq<u8>, pos: int) -> Result<
    ((Seq<char>, Seq<char>), int),
    MessageError,
> {
    match collection_at(ARRAY, data, pos) {
        None => Err(MessageError::DecodeFailed),
        Some((count, first)) => if count != Some(2nat) {
            Err(MessageError::InvalidField)
        } else {
            match limited_text_at(text_limit(), data, first) {
                Err(e) => Err(e),
                Ok((key, second)) => match limited_text_at(text_limit(), data, second) {
                    Err(e) => Err(e),
                    Ok((value, next)) => Ok(((key, value), next)),
                },
            }
        },
    }
}

/// Reads the headers that are still to come, behind those in `held`.
#[verifier::opaque]
pub open spec fn headers_at(
    cap: nat,
    held: Seq<(Seq<char>, Seq<char>)>,
    data: Seq<u8>,
    pos: int,
    left: Option<nat>,
) -> Result<(Seq<(Seq<char>, Seq<char>)>, int), MessageError>
    decreases cap - held.len(),
{
    match list_end(left, data, pos) {
        Some(end) => Ok((held, end)),
        None => match header_at(data, pos) {
            Err(e) => Err(e),
            Ok((header, next)) => if held.len() >= cap {
                Err(MessageError::BufferFull)
            } else {
                headers_at(cap, held.push(header), data, next, one_less(left))
            },
        },
    }
}

/// The bytes of the byte string or of the text at `pos`.
pub open spec fn content_at(data: Seq<u8>, pos: int) -> Option<(Seq<u8>, int)> {
    match blob_at(data, pos) {
        Some((content, next)) => Some((content, next)),
        None => match text_at(data, pos) {
            Some((text, next)) => Some((encode_utf8(text), next)),
            None => None,
        },
    }
}

/// Reads the entry 0, a text, of a map whose head has been read.
pub open spec fn inner_text_at(data: Seq<u8>, pos: int) -> Result<(Seq<char>, int), MessageError> {
    match uint_at(u8::MAX as nat, data, pos) {
        None => Err(MessageError::DecodeFailed),
        Some((key, next)) => if key != 0 {
            Err(MessageError::InvalidField)
        } else {
            limited_text_at(text_limit(), data, next)
        },
    }
}

/// Reads a status.
pub open spec fn status_at(data: Seq<u8>, pos: int) -> Result<(Seq<char>, int), MessageError> {
    match collection_at(MAP, data, pos) {
        None => Err(MessageError::DecodeFailed),
        Some((count, next)) => if count != Some(1nat) {
            Err(MessageError::DecodeFailed)
        } else {
            inner_text_at(data, next)
        },
    }
}

/// Reads an initiation token.
pub open spec fn token_at(data: Seq<u8>, pos: int) -> Result<
    (Option<Seq<char>>, int),
    MessageError,
> {
    match collection_at(MAP, data, pos) {
        None => Err(MessageError::DecodeFailed),
        Some((count, next)) => if count == Some(1nat) {
            match inner_text_at(data, next) {
                Ok((text, end)) => Ok((Some(text), end)),
                Err(e) => Err(e),
            }
        } else if count == Some(0nat) {
            Ok((None, next))
        } else {
            Err(MessageError::InvalidField)
        },
    }
}

/// What a list already holds when an entry for it is read.
pub open spec fn held_codes(entry: Option<Value>, grows: bool) -> Seq<u8> {
    match entry {
        Some(Value::Codes(codes)) if grows => codes,
        _ => Seq::empty(),
    }
}

pub open spec fn held_texts(entry: Option<Value>, grows: bool) -> Seq<Seq<char>> {
    match entry {
        Some(Value::Texts(texts)) if grows => texts,
        _ => Seq::empty(),
    }
}

pub open spec fn held_headers(entry: Option<Value>) -> Seq<(Seq<char>, Seq<char>)> {
    match entry {
        Some(Value::Headers(headers)) => headers,
        _ => Seq::empty(),
    }
}

/// Reads a value of a field. A list that grows may be an array of indefinite length; another
/// list does not allow one.
pub open spec fn value_at(kind: Kind, entry: Option<Value>, data: Seq<u8>, pos: int) -> Result<
    (Value, int),
    MessageError,
> {
    match kind {
        Kind::Uint { limit } => match uint_at(limit, data, pos) {
            Some((n, next)) => Ok((Value::Uint(n), next)),
            None => Err(MessageError::DecodeFailed),
        },
        Kind::Code { allowed } => match uint_at(u8::MAX as nat, data, pos) {
            Some((n, next)) => if allowed.contains(n as u8) {
                Ok((Value::Uint(n), next))
            } else {
                Err(MessageError::InvalidField)
            },
            None => Err(MessageError::DecodeFailed),
        },
        Kind::Text { max } => match limited_text_at(max, data, pos) {
            Ok((text, next)) => Ok((Value::Text(text), next)),
            Err(e) => Err(e),
        },
        Kind::Blob { max } => match blob_at(data, pos) {
            Some((content, next)) => if within(max, content.len()) {
                Ok((Value::Blob(content), next))
            } else {
                Err(MessageError::FieldTooLong)
            },
            None => Err(MessageError::DecodeFailed),
        },
        Kind::Content => match content_at(data, pos) {
            Some((content, next)) => Ok((Value::Blob(content), next)),
            None => Err(MessageError::DecodeFailed),
        },
        Kind::Status => match status_at(data, pos) {
            Ok((text, next)) => Ok((Value::Status(text), next)),
            Err(e) => Err(e),
        },
        Kind::Token => match token_at(data, pos) {
            Ok((token, next)) => Ok((Value::Token(token), next)),
            Err(e) => Err(e),
        },
        Kind::Codes { allowed, cap, grows } => match collection_at(ARRAY, data, pos) {
            None => Err(MessageError::DecodeFailed),
            Some((left, next)) => if left is None && !grows {
                Err(MessageError::InvalidField)
            } else {
                match codes_at(allowed, cap, held_codes(entry, grows), data, next, left) {
                    Ok((codes, end)) => Ok((Value::Codes(codes), end)),
                    Err(e) => Err(e),
                }
            },
        },
        Kind::Texts { max, cap, grows } => match collection_at(ARRAY, data, pos) {
            None => Err(MessageError::DecodeFailed),
            Some((left, next)) => if left is None && !grows {
                Err(MessageError::InvalidField)
            } else {
                match texts_at(max, cap, held_texts(entry, grows), data, next, left) {
                    Ok((texts, end)) => Ok((Value::Texts(texts), end)),
                    Err(e) => Err(e),
                }
            },
        },
        Kind::Headers { cap } => match collection_at(ARRAY, data, pos) {
            None => Err(MessageError::DecodeFailed),
            Some((left, next)) => match headers_at(cap, held_headers(entry), data, next, left) {
                Ok((headers, end)) => Ok((Value::Headers(headers), end)),
                Err(e) => Err(e),
            },
        },
    }
}

/// What a field holds before anything is read: a list that grows is empty, and nothing
/// else is known.
pub open spec fn blank(kind: Kind) -> Option<Value> {
    match kind {
        Kind::Codes { grows: true, .. } => Some(Value::Codes(Seq::empty())),
        Kind::Texts { grows: true, .. } => Some(Value::Texts(Seq::empty())),
        Kind::Headers { .. } => Some(Value::Headers(Seq::empty())),
        _ => None,
    }
}

pub open spec fn blank_table(fields: Seq<Field>) -> Table {
    Seq::new(fields.len(), |i: int| blank(fields[i].kind))
}

/// Reads the value of the field with this key.
pub open spec fn field_at(
    fields: Seq<Field>,
    table: Table,
    key: nat,
    data: Seq<u8>,
    pos: int,
) -> Result<(Table, int), MessageError> {
    if key >= fields.len() {
        Err(MessageError::InvalidField)
    } else {
        match value_at(fields[key as int].kind, table[key as int], data, pos) {
            Err(e) => Err(e),
            Ok((value, next)) => Ok((table.update(key as int, Some(value)), next)),
        }
    }
}

/// Reads `n` entries, in whatever order they come.
#[verifier::opaque]
pub open spec fn entries_at(
    fields: Seq<Field>,
    table: Table,
    data: Seq<u8>,
    pos: int,
    n: nat,
) -> Result<(Table, int), MessageError>
    decreases n,
{
    if n == 0 {
        Ok((table, pos))
    } else {
        match uint_at(u8::MAX as nat, data, pos) {
            None => Err(MessageError::DecodeFailed),
            Some((key, value_pos)) => match field_at(fields, table, key, data, value_pos) {
                Err(e) => Err(e),
                Ok((next_table, next)) => entries_at(
                    fields,
                    next_table,
                    data,
                    next,
                    (n - 1) as nat,
                ),
            },
        }
    }
}

/// Whether every required field has a value.
pub open spec fn is_complete(fields: Seq<Field>, table: Table) -> bool {
    forall|i: int|
        0 <= i < fields.len() && fields[i].presence is Required ==> (#[trigger] table[i]) is Some
}

/// Reads the map at `pos`, without asking whether it is complete.
pub open spec fn map_at(layout: Layout, data: Seq<u8>, pos: int) -> Result<
    (Table, int),
    MessageError,
> {
    match collection_at(MAP, data, pos) {
        None => Err(MessageError::DecodeFailed),
        Some((None, _)) => Err(layout.count_error),
        Some((Some(n), next)) => if layout.min <= n <= layout.max {
            entries_at(layout.fields, blank_table(layout.fields), data, next, n)
        } else {
            Err(layout.count_error)
        },
    }
}

/// What the fields of a body are. Bytes behind the map are not looked at.
pub open spec fn body_at(layout: Layout, data: Seq<u8>, pos: int) -> Result<Table, MessageError> {
    match map_at(layout, data, pos) {
        Err(e) => Err(e),
        Ok((table, _)) => if is_complete(layout.fields, table) {
            Ok(table)
        } else {
            Err(MessageError::MissingField)
        },
    }
}

} // verus!
