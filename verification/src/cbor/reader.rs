//! Reading message bodies.
use crate::bounded::BoundedVec;
use crate::cbor::code::{codes_of, WireCode};
use crate::cbor::fields::{
    blank_table, body_at, codes_at, content_at, entries_at, field_at, header_at, inner_text_at,
    limited_text_at, list_end, map_at, one_less, status_at, text_limit, texts_at, token_at, Field,
    Layout, Table, Value, BREAK,
};
use crate::cbor::item::{read_array, read_bytes, read_map, read_str, read_u8, uint_at};
use crate::common::error::{MessageError, MAX_STRING_LENGTH};
use crate::common::type_key::{decode_type_key, type_key_of};
use vstd::prelude::*;

verus! {

/// The texts of a list.
pub open spec fn texts_of(texts: Seq<&str>) -> Seq<Seq<char>> {
    texts.map_values(|text: &str| text@)
}

/// The member whose code stands at `pos`.
pub fn read_code<E: WireCode>(data: &[u8], pos: usize) -> (r: Result<(E, usize), MessageError>)
    ensures
        match uint_at(u8::MAX as nat, data@, pos as int) {
            Some((n, next)) => if E::codes().contains(n as u8) {
                r matches Ok((member, end)) && member.code() == n && end == next && end
                <= data.len()
            } else {
                r == Err::<(E, usize), MessageError>(MessageError::InvalidField)
            },
            None => r == Err::<(E, usize), MessageError>(MessageError::DecodeFailed),
        },
{
    match read_u8(data, pos) {
        Err(e) => Err(e),
        Ok((code, next)) => match E::from_code(code) {
            Ok(member) => Ok((member, next)),
            Err(e) => Err(e),
        },
    }
}

/// The text at `pos`, of at most `MAX_STRING_LENGTH` bytes.
pub fn read_limited_str<'a>(data: &'a [u8], pos: usize) -> (r: Result<
    (&'a str, usize),
    MessageError,
>)
    ensures
        match limited_text_at(text_limit(), data@, pos as int) {
            Ok((text, next)) => r matches Ok((value, end)) && value@ == text && end == next && end
                <= data.len(),
            Err(e) => r == Err::<(&'a str, usize), MessageError>(e),
        },
{
    match read_str(data, pos) {
        Err(e) => Err(e),
        Ok((text, next)) => {
            if text.as_bytes().len() > MAX_STRING_LENGTH {
                return Err(MessageError::FieldTooLong);
            }
            Ok((text, next))
        },
    }
}

/// The number of items that are still to come.
pub open spec fn left_of(left: Option<u64>) -> Option<nat> {
    match left {
        Some(n) => Some(n as nat),
        None => None,
    }
}

/// The position behind a list of which `left` items are still to come, if it ends at `pos`.
pub fn read_list_end(data: &[u8], pos: usize, left: Option<u64>) -> (r: Option<usize>)
    requires
        pos <= data.len(),
    ensures
        match list_end(left_of(left), data@, pos as int) {
            Some(end) => r matches Some(found) && found == end && found <= data.len(),
            None => r is None,
        },
{
    match left {
        Some(n) => if n == 0 {
            Some(pos)
        } else {
            None
        },
        None => if pos < data.len() && data[pos] == BREAK {
            Some(pos + 1)
        } else {
            None
        },
    }
}

/// What is still to come after one more item.
pub fn after_item(left: Option<u64>) -> (r: Option<u64>)
    requires
        left != Some(0u64),
    ensures
        left_of(r) == one_less(left_of(left)),
{
    match left {
        Some(n) => Some(n - 1),
        None => None,
    }
}

/// The bytes of the byte string or of the text at `pos`.
pub fn read_content<'a>(data: &'a [u8], pos: usize) -> (r: Result<(&'a [u8], usize), MessageError>)
    ensures
        match content_at(data@, pos as int) {
            Some((content, next)) => r matches Ok((value, end)) && value@ == content && end == next
                && end <= data.len(),
            None => r == Err::<(&'a [u8], usize), MessageError>(MessageError::DecodeFailed),
        },
{
    match read_bytes(data, pos) {
        Ok((content, next)) => Ok((content, next)),
        Err(_) => match read_str(data, pos) {
            Ok((text, next)) => Ok((text.as_bytes(), next)),
            Err(e) => Err(e),
        },
    }
}

/// Reads the members that are still to come, behind those in `list`.
pub fn read_codes<E: WireCode, const N: usize>(
    list: &mut BoundedVec<E, N>,
    data: &[u8],
    pos: usize,
    count: Option<u64>,
) -> (r: Result<usize, MessageError>)
    requires
        pos <= data.len(),
    ensures
        match codes_at(E::codes(), N as nat, codes_of(old(list)@), data@, pos as int, left_of(count)) {
            Ok((codes, next)) => r matches Ok(end) && end == next && end <= data.len() && codes_of(
                final(list)@,
            ) == codes,
            Err(e) => r == Err::<usize, MessageError>(e),
        },
{
    let mut at: usize = pos;
    let mut left: Option<u64> = count;
    loop
        invariant
            at <= data.len(),
            codes_at(E::codes(), N as nat, codes_of(old(list)@), data@, pos as int, left_of(count))
                == codes_at(
                E::codes(),
                N as nat,
                codes_of(list@),
                data@,
                at as int,
                left_of(left),
            ),
        decreases N - list@.len(),
    {
        proof {
            reveal_with_fuel(codes_at, 1);
        }
        if let Some(end) = read_list_end(data, at, left) {
            return Ok(end);
        }
        let ghost held = list@;
        match read_code::<E>(data, at) {
            Err(e) => return Err(e),
            Ok((member, next)) => {
                match list.push(member) {
                    Ok(()) => {
                        proof {
                            assert(codes_of(list@) =~= codes_of(held).push(member.code()));
                        }
                    },
                    Err(_) => return Err(MessageError::BufferFull),
                }
                at = next;
            },
        }
        left = after_item(left);
    }
}

/// Reads the texts that are still to come, of at most `MAX_STRING_LENGTH` bytes each, behind
/// those in `list`.
pub fn read_limited_strs<'a, const N: usize>(
    list: &mut BoundedVec<&'a str, N>,
    data: &'a [u8],
    pos: usize,
    count: Option<u64>,
) -> (r: Result<usize, MessageError>)
    requires
        pos <= data.len(),
    ensures
        match texts_at(
            text_limit(),
            N as nat,
            texts_of(old(list)@),
            data@,
            pos as int,
            left_of(count),
        ) {
            Ok((texts, next)) => r matches Ok(end) && end == next && end <= data.len() && texts_of(
                final(list)@,
            ) == texts,
            Err(e) => r == Err::<usize, MessageError>(e),
        },
{
    let mut at: usize = pos;
    let mut left: Option<u64> = count;
    loop
        invariant
            at <= data.len(),
            texts_at(text_limit(), N as nat, texts_of(old(list)@), data@, pos as int, left_of(count))
                == texts_at(
                text_limit(),
                N as nat,
                texts_of(list@),
                data@,
                at as int,
                left_of(left),
            ),
        decreases N - list@.len(),
    {
        proof {
            reveal_with_fuel(texts_at, 1);
        }
        if let Some(end) = read_list_end(data, at, left) {
            return Ok(end);
        }
        let ghost held = list@;
        match read_limited_str(data, at) {
            Err(e) => return Err(e),
            Ok((text, next)) => {
                match list.push(text) {
                    Ok(()) => {
                        proof {
                            assert(texts_of(list@) =~= texts_of(held).push(text@));
                        }
                    },
                    Err(_) => return Err(MessageError::BufferFull),
                }
                at = next;
            },
        }
        left = after_item(left);
    }
}

/// Reads the texts that are still to come, of any length, behind those in `list`.
pub fn read_strs<'a, const N: usize>(
    list: &mut BoundedVec<&'a str, N>,
    data: &'a [u8],
    pos: usize,
    count: Option<u64>,
) -> (r: Result<usize, MessageError>)
    requires
        pos <= data.len(),
    ensures
        match texts_at(None, N as nat, texts_of(old(list)@), data@, pos as int, left_of(count)) {
            Ok((texts, next)) => r matches Ok(end) && end == next && end <= data.len() && texts_of(
                final(list)@,
            ) == texts,
            Err(e) => r == Err::<usize, MessageError>(e),
        },
{
    let mut at: usize = pos;
    let mut left: Option<u64> = count;
    loop
        invariant
            at <= data.len(),
            texts_at(None, N as nat, texts_of(old(list)@), data@, pos as int, left_of(count)) == texts_at(
                None,
                N as nat,
                texts_of(list@),
                data@,
                at as int,
                left_of(left),
            ),
        decreases N - list@.len(),
    {
        proof {
            reveal_with_fuel(texts_at, 1);
        }
        if let Some(end) = read_list_end(data, at, left) {
            return Ok(end);
        }
        let ghost held = list@;
        match read_str(data, at) {
            Err(e) => return Err(e),
            Ok((text, next)) => {
                match list.push(text) {
                    Ok(()) => {
                        proof {
                            assert(texts_of(list@) =~= texts_of(held).push(text@));
                        }
                    },
                    Err(_) => return Err(MessageError::BufferFull),
                }
                at = next;
            },
        }
        left = after_item(left);
    }
}

/// The key and the value of the header at `pos`.
pub fn read_header<'a>(data: &'a [u8], pos: usize) -> (r: Result<
    (&'a str, &'a str, usize),
    MessageError,
>)
    ensures
        match header_at(data@, pos as int) {
            Ok((header, next)) => r matches Ok((name, value, end)) && header == (name@, value@)
                && end == next && end
                <= data.len(),
            Err(e) => r == Err::<(&'a str, &'a str, usize), MessageError>(e),
        },
{
    match read_array(data, pos) {
        Err(e) => Err(e),
        Ok((count, first)) => {
            match count {
                Some(2) => {},
                _ => return Err(MessageError::InvalidField),
            }
            match read_limited_str(data, first) {
                Err(e) => Err(e),
                Ok((name, second)) => match read_limited_str(data, second) {
                    Err(e) => Err(e),
                    Ok((value, next)) => Ok((name, value, next)),
                },
            }
        },
    }
}

/// The entry 0, a text, of a map whose head has been read.
fn read_inner_text<'a>(data: &'a [u8], pos: usize) -> (r: Result<(&'a str, usize), MessageError>)
    ensures
        match inner_text_at(data@, pos as int) {
            Ok((text, next)) => r matches Ok((value, end)) && value@ == text && end == next && end
                <= data.len(),
            Err(e) => r == Err::<(&'a str, usize), MessageError>(e),
        },
{
    match read_u8(data, pos) {
        Err(e) => Err(e),
        Ok((key, next)) => {
            if key != 0 {
                return Err(MessageError::InvalidField);
            }
            read_limited_str(data, next)
        },
    }
}

/// The text of the status at `pos`.
pub fn read_status<'a>(data: &'a [u8], pos: usize) -> (r: Result<(&'a str, usize), MessageError>)
    ensures
        match status_at(data@, pos as int) {
            Ok((text, next)) => r matches Ok((value, end)) && value@ == text && end == next && end
                <= data.len(),
            Err(e) => r == Err::<(&'a str, usize), MessageError>(e),
        },
{
    match read_map(data, pos) {
        Err(e) => Err(e),
        Ok((count, next)) => match count {
            Some(1) => read_inner_text(data, next),
            _ => Err(MessageError::DecodeFailed),
        },
    }
}

/// The text of the initiation token at `pos`, if it has one.
pub fn read_token<'a>(data: &'a [u8], pos: usize) -> (r: Result<
    (Option<&'a str>, usize),
    MessageError,
>)
    ensures
        match token_at(data@, pos as int) {
            Ok((Some(text), next)) => r matches Ok((Some(value), end)) && value@ == text && end == next && end
                <= data.len(),
            Ok((None, next)) => r matches Ok((None, end)) && end == next && end
                <= data.len(),
            Err(e) => r == Err::<(Option<&'a str>, usize), MessageError>(e),
        },
{
    match read_map(data, pos) {
        Err(e) => Err(e),
        Ok((count, next)) => match count {
            Some(1) => match read_inner_text(data, next) {
                Ok((text, end)) => Ok((Some(text), end)),
                Err(e) => Err(e),
            },
            Some(0) => Ok((None, next)),
            _ => Err(MessageError::InvalidField),
        },
    }
}

/// The fields of a message while it is being read.
pub trait FieldTable<'a>: Sized {
    /// The fields.
    spec fn schema() -> Seq<Field>;

    /// What is known of them.
    spec fn table(&self) -> Table;

    /// Reads the value of the field with this key.
    fn read_field(&mut self, key: u8, data: &'a [u8], pos: usize) -> (r: Result<
        usize,
        MessageError,
    >)
        requires
            pos <= data.len(),
        ensures
            match field_at(Self::schema(), old(self).table(), key as nat, data@, pos as int) {
                Ok((table, next)) => r matches Ok(end) && end == next && end <= data.len()
                    && final(self).table() == table,
                Err(e) => r == Err::<usize, MessageError>(e),
            },
    ;
}

/// Reads `n` entries.
pub fn read_entries<'a, T: FieldTable<'a>>(
    fields: &mut T,
    data: &'a [u8],
    pos: usize,
    n: u64,
) -> (r: Result<usize, MessageError>)
    requires
        pos <= data.len(),
    ensures
        match entries_at(T::schema(), old(fields).table(), data@, pos as int, n as nat) {
            Ok((table, next)) => r matches Ok(end) && end == next && end <= data.len()
                && final(fields).table() == table,
            Err(e) => r == Err::<usize, MessageError>(e),
        },
{
    let mut at: usize = pos;
    let mut left: u64 = n;
    while left > 0
        invariant
            left <= n,
            at <= data.len(),
            entries_at(T::schema(), old(fields).table(), data@, pos as int, n as nat)
                == entries_at(T::schema(), fields.table(), data@, at as int, left as nat),
        decreases left,
    {
        proof {
            reveal_with_fuel(entries_at, 1);
        }
        match read_u8(data, at) {
            Err(e) => return Err(e),
            Ok((key, value_pos)) => match fields.read_field(key, data, value_pos) {
                Err(e) => return Err(e),
                Ok(next) => {
                    at = next;
                },
            },
        }
        left = left - 1;
    }
    proof {
        reveal_with_fuel(entries_at, 1);
    }
    Ok(at)
}

/// Reads the map at `pos` into fields of which nothing is known yet. The map has at least
/// `min` and at most `max` entries, and `count_error` is the error otherwise.
pub fn read_fields<'a, T: FieldTable<'a>>(
    fields: &mut T,
    data: &'a [u8],
    pos: usize,
    min: u64,
    max: u64,
    count_error: MessageError,
) -> (r: Result<usize, MessageError>)
    requires
        old(fields).table() == blank_table(T::schema()),
    ensures
        match map_at(
            Layout { fields: T::schema(), min: min as nat, max: max as nat, count_error },
            data@,
            pos as int,
        ) {
            Ok((table, next)) => r matches Ok(end) && end == next && end <= data.len()
                && final(fields).table() == table,
            Err(e) => r == Err::<usize, MessageError>(e),
        },
{
    match read_map(data, pos) {
        Err(e) => Err(e),
        Ok((None, _)) => Err(count_error),
        Ok((Some(n), next)) => {
            if n < min || n > max {
                return Err(count_error);
            }
            read_entries(fields, data, next, n)
        },
    }
}

/// The fields of the message with this type key and layout.
pub open spec fn message_at(type_key: u16, layout: Layout, data: Seq<u8>) -> Result<
    Table,
    MessageError,
> {
    match body_of(type_key, data) {
        Ok(body) => body_at(layout, body, 0),
        Err(e) => Err(e),
    }
}

/// What follows the type key of a message, if it is the expected one.
pub open spec fn body_of(type_key: u16, data: Seq<u8>) -> Result<Seq<u8>, MessageError> {
    match type_key_of(data) {
        Err(e) => Err(e),
        Ok((found, width)) => if found == type_key {
            Ok(data.skip(width))
        } else {
            Err(MessageError::InvalidMessageType)
        },
    }
}

/// The body of the message with this type key.
pub fn expect_body<'a>(type_key: u16, data: &'a [u8]) -> (r: Result<&'a [u8], MessageError>)
    ensures
        match body_of(type_key, data@) {
            Ok(body) => r matches Ok(b) && b@ == body,
            Err(e) => r == Err::<&'a [u8], MessageError>(e),
        },
{
    match decode_type_key(data) {
        Err(e) => Err(e),
        Ok((found, width)) => {
            if found != type_key {
                return Err(MessageError::InvalidMessageType);
            }
            Ok(vstd::slice::slice_subrange(data, width, data.len()))
        },
    }
}

// ---- What is known of a field ----

pub open spec fn u64_entry(n: Option<u64>) -> Option<Value> {
    match n {
        Some(n) => Some(Value::Uint(n as nat)),
        None => None,
    }
}

pub open spec fn u32_entry(n: Option<u32>) -> Option<Value> {
    match n {
        Some(n) => Some(Value::Uint(n as nat)),
        None => None,
    }
}

pub open spec fn u16_entry(n: Option<u16>) -> Option<Value> {
    match n {
        Some(n) => Some(Value::Uint(n as nat)),
        None => None,
    }
}

pub open spec fn code_entry<E: WireCode>(member: Option<E>) -> Option<Value> {
    match member {
        Some(member) => Some(Value::Uint(member.code() as nat)),
        None => None,
    }
}

pub open spec fn text_entry(text: Option<&str>) -> Option<Value> {
    match text {
        Some(text) => Some(Value::Text(text@)),
        None => None,
    }
}

pub open spec fn blob_entry(content: Option<&[u8]>) -> Option<Value> {
    match content {
        Some(content) => Some(Value::Blob(content@)),
        None => None,
    }
}

} // verus!
