//! Starting and terminating presentations.
use crate::bounded::BoundedVec;
use crate::cbor::body::{append_message, is_appended, Body};
use crate::cbor::code::WireCode;
use crate::cbor::fields::{
    blank_table, body_at, body_bytes, entries_bytes, entry_count, exactly, header_items,
    headers_at, optional, required, text_limit, value_bytes, Field, Kind, Layout, Table, Value,
};
use crate::cbor::item::{read_array, read_str, read_u16, read_u64, uint_bytes};
use crate::cbor::laws::{body_reads_as, conforms, message_round_trip, reads_as};
use crate::cbor::reader::{
    after_item, code_entry, expect_body, left_of, message_at, read_code, read_fields, read_header,
    read_limited_str, read_list_end, text_entry, u16_entry, u64_entry, FieldTable,
};
use crate::common::error::MessageError;
use crate::common::type_key::type_key_bytes;
use crate::application::messages::codes::{
    PresentationResult, PresentationTerminationReason, PresentationTerminationSource,
};
use vstd::prelude::*;

verus! {

/// An HTTP header.
///
/// ```cddl
/// http-header = [key: text, value: text]
/// ```
#[derive(Debug, Clone, PartialEq, Eq)]
pub struct HttpHeader<'a> {
    pub key: &'a str,
    pub value: &'a str,
}

/// The keys and values of headers.
pub open spec fn headers_of(headers: Seq<HttpHeader>) -> Seq<(Seq<char>, Seq<char>)> {
    headers.map_values(|header: HttpHeader| (header.key@, header.value@))
}

/// Adds an entry: a list of headers.
fn put_headers(body: &mut Body, key: u8, headers: &[HttpHeader])
    ensures
        final(body)@ == old(body)@ + uint_bytes(key as nat) + value_bytes(
            Value::Headers(headers_of(headers@)),
        ),
{
    body.begin_list_field(key, headers.len());
    let ghost start = body@;
    let ghost all = headers_of(headers@);
    let mut i: usize = 0;
    proof {
        assert(body@ =~= start + header_items(all.take(0)));
    }
    while i < headers.len()
        invariant
            i <= headers@.len(),
            all == headers_of(headers@),
            body@ == start + header_items(all.take(i as int)),
        decreases headers.len() - i,
    {
        body.put_header(headers[i].key, headers[i].value);
        proof {
            assert(all.take(i + 1).drop_last() =~= all.take(i as int));
            assert(body@ =~= start + header_items(all.take(i + 1)));
        }
        i = i + 1;
    }
    proof {
        assert(all.take(i as int) =~= all);
        assert(body@ =~= old(body)@ + uint_bytes(key as nat) + value_bytes(Value::Headers(all)));
    }
}

/// Reads the headers that are still to come, behind those in `list`.
fn read_headers<'a, const N: usize>(
    list: &mut BoundedVec<HttpHeader<'a>, N>,
    data: &'a [u8],
    pos: usize,
    count: Option<u64>,
) -> (r: Result<usize, MessageError>)
    requires
        pos <= data.len(),
    ensures
        match headers_at(N as nat, headers_of(old(list)@), data@, pos as int, left_of(count)) {
            Ok((headers, next)) => r matches Ok(end) && end == next && end <= data.len()
                && headers_of(final(list)@) == headers,
            Err(e) => r == Err::<usize, MessageError>(e),
        },
{
    let mut at: usize = pos;
    let mut left: Option<u64> = count;
    loop
        invariant
            at <= data.len(),
            headers_at(N as nat, headers_of(old(list)@), data@, pos as int, left_of(count)) == headers_at(
                N as nat,
                headers_of(list@),
                data@,
                at as int,
                left_of(left),
            ),
        decreases N - list@.len(),
    {
        proof {
            reveal_with_fuel(headers_at, 1);
        }
        if let Some(end) = read_list_end(data, at, left) {
            return Ok(end);
        }
        let ghost held = list@;
        match read_header(data, at) {
            Err(e) => return Err(e),
            Ok((key, value, next)) => {
                match list.push(HttpHeader { key, value }) {
                    Ok(()) => {
                        proof {
                            assert(headers_of(list@) =~= headers_of(held).push((key@, value@)));
                        }
                    },
                    Err(_) => return Err(MessageError::BufferFull),
                }
                at = next;
            },
        }
        left = after_item(left);
    }
}


/// Asks a receiver to start a presentation (type key 104).
///
/// ```cddl
/// presentation-start-request = {
///   0: request-id
///   1: text ; presentation-id
///   2: text ; url
///   3: [* http-header] ; headers
/// }
/// ```
#[derive(Clone, PartialEq, Eq)]
pub struct PresentationStartRequest<'a> {
    pub request_id: u64,
    pub presentation_id: &'a str,
    pub url: &'a str,
    pub headers: BoundedVec<HttpHeader<'a>, 8>,
}

impl<'a> PresentationStartRequest<'a> {
    /// The fields of this message.
    pub open spec fn schema() -> Seq<Field> {
        seq![
            required(Kind::Uint { limit: u64::MAX as nat }),
            required(Kind::Text { max: text_limit() }),
            required(Kind::Text { max: text_limit() }),
            optional(Kind::Headers { cap: 8 }),
        ]
    }

    pub open spec fn layout() -> Layout {
        exactly(Self::schema())
    }

    /// What this message says of each field.
    pub open spec fn fields(&self) -> Table {
        seq![
            Some(Value::Uint(self.request_id as nat)),
            Some(Value::Text(self.presentation_id@)),
            Some(Value::Text(self.url@)),
            Some(Value::Headers(headers_of(self.headers@))),
        ]
    }

    /// The bytes of the body.
    pub open spec fn body(&self) -> Seq<u8> {
        body_bytes(Self::schema(), self.fields())
    }

    /// Appends this message to `buf`: its type key, then its body.
    pub fn encode<const N: usize>(&self, buf: &mut BoundedVec<u8, N>) -> (r: Result<
        (),
        MessageError,
    >)
        ensures
            is_appended(old(buf)@, final(buf)@, r, 104, self.body(), N as nat),
    {
        let mut body = Body::map(4);
        body.u64_field(0, self.request_id);
        body.text_field(1, self.presentation_id);
        body.text_field(2, self.url);
        put_headers(&mut body, 3, self.headers.as_slice());
        proof {
            reveal_with_fuel(entries_bytes, 5);
            reveal_with_fuel(entry_count, 5);
        }
        append_message(104, &body, buf)
    }

    /// This message is read back from its bytes, whatever follows them.
    pub proof fn round_trip(self, rest: Seq<u8>)
        requires
            conforms(Self::schema(), self.fields()),
        ensures
            reads_as(
                104,
                Self::layout(),
                self.fields(),
                type_key_bytes(104) + self.body() + rest,
            ),
            body_reads_as(Self::layout(), self.fields(), self.body() + rest),
    {
        assert(4 <= entry_count(Self::schema(), self.fields(), 4) <= 4) by {
            reveal_with_fuel(entry_count, 5);
        }
        message_round_trip(104, Self::layout(), self.fields(), self.body(), rest);
    }

    /// Reads a message, starting with its type key.
    pub fn decode(data: &'a [u8]) -> (r: Result<Self, MessageError>)
        ensures
            match message_at(104, Self::layout(), data@) {
                Ok(table) => r matches Ok(message) && message.fields() == table,
                Err(e) => r == Err::<Self, MessageError>(e),
            },
    {
        match expect_body(104, data) {
            Ok(body) => Self::decode_body(body),
            Err(e) => Err(e),
        }
    }

    /// Reads the body of a message.
    pub fn decode_body(body: &'a [u8]) -> (r: Result<Self, MessageError>)
        ensures
            match body_at(Self::layout(), body@, 0) {
                Ok(table) => r matches Ok(message) && message.fields() == table,
                Err(e) => r == Err::<Self, MessageError>(e),
            },
    {
        let mut known = PresentationStartRequestFields {
            request_id: None,
            presentation_id: None,
            url: None,
            headers: BoundedVec::new(),
        };
        proof {
            assert(headers_of(known.headers@) =~= Seq::empty());
            assert(known.table() =~= blank_table(Self::schema()));
        }
        match read_fields(&mut known, body, 0, 4, 4, MessageError::InvalidField) {
            Err(e) => return Err(e),
            Ok(_) => {},
        }
        let ghost table = known.table();
        match (known.request_id, known.presentation_id, known.url) {
            (Some(request_id), Some(presentation_id), Some(url)) => {
                let message = PresentationStartRequest { request_id, presentation_id, url, headers: known.headers };
                proof {
                    assert(message.fields() =~= table);
                }
                Ok(message)
            },
            _ => {
                proof {
                    assert(table[0] is None || table[1] is None || table[2] is None);
                }
                Err(MessageError::MissingField)
            },
        }
    }
}

/// What is known of the fields while a [`PresentationStartRequest`] is being read.
struct PresentationStartRequestFields<'a> {
    request_id: Option<u64>,
    presentation_id: Option<&'a str>,
    url: Option<&'a str>,
    headers: BoundedVec<HttpHeader<'a>, 8>,
}

impl<'a> FieldTable<'a> for PresentationStartRequestFields<'a> {
    open spec fn schema() -> Seq<Field> {
        PresentationStartRequest::schema()
    }

    closed spec fn table(&self) -> Table {
        seq![
            u64_entry(self.request_id),
            text_entry(self.presentation_id),
            text_entry(self.url),
            Some(Value::Headers(headers_of(self.headers@))),
        ]
    }

    fn read_field(&mut self, key: u8, data: &'a [u8], pos: usize) -> (r: Result<
        usize,
        MessageError,
    >) {
        let ghost before = self.table();
        match key {
            0 => match read_u64(data, pos) {
                Err(e) => Err(e),
                Ok((n, next)) => {
                    self.request_id = Some(n);
                    proof {
                        assert(self.table() =~= before.update(0, Some(Value::Uint(n as nat))));
                    }
                    Ok(next)
                },
            },
            1 => match read_limited_str(data, pos) {
                Err(e) => Err(e),
                Ok((text, next)) => {
                    self.presentation_id = Some(text);
                    proof {
                        assert(self.table() =~= before.update(1, Some(Value::Text(text@))));
                    }
                    Ok(next)
                },
            },
            2 => match read_limited_str(data, pos) {
                Err(e) => Err(e),
                Ok((text, next)) => {
                    self.url = Some(text);
                    proof {
                        assert(self.table() =~= before.update(2, Some(Value::Text(text@))));
                    }
                    Ok(next)
                },
            },
            3 => match read_array(data, pos) {
                Err(e) => Err(e),
                Ok((count, first)) => match read_headers(&mut self.headers, data, first, count) {
                    Err(e) => Err(e),
                    Ok(next) => {
                        proof {
                            assert(self.table() =~= before.update(3, Some(Value::Headers(headers_of(self.headers@)))));
                        }
                        Ok(next)
                    },
                },
            },
            _ => Err(MessageError::InvalidField),
        }
    }
}

/// Answers a start request (type key 105).
///
/// ```cddl
/// presentation-start-response = {
///   0: request-id
///   1: &result
///   2: uint ; connection-id
///   ? 3: uint ; http-response-code
/// }
/// ```
#[derive(Debug, Clone, PartialEq, Eq)]
pub struct PresentationStartResponse {
    pub request_id: u64,
    pub result: PresentationResult,
    pub connection_id: u64,
    pub http_response_code: Option<u16>,
}

impl PresentationStartResponse {
    /// The fields of this message.
    pub open spec fn schema() -> Seq<Field> {
        seq![
            required(Kind::Uint { limit: u64::MAX as nat }),
            required(Kind::Code { allowed: PresentationResult::codes() }),
            required(Kind::Uint { limit: u64::MAX as nat }),
            optional(Kind::Uint { limit: u16::MAX as nat }),
        ]
    }

    pub open spec fn layout() -> Layout {
        Layout {
            fields: Self::schema(),
            min: 3,
            max: 4,
            count_error: MessageError::InvalidField,
        }
    }

    /// What this message says of each field.
    pub open spec fn fields(&self) -> Table {
        seq![
            Some(Value::Uint(self.request_id as nat)),
            Some(Value::Uint(self.result.code() as nat)),
            Some(Value::Uint(self.connection_id as nat)),
            u16_entry(self.http_response_code),
        ]
    }

    /// The bytes of the body.
    pub open spec fn body(&self) -> Seq<u8> {
        body_bytes(Self::schema(), self.fields())
    }

    /// Appends this message to `buf`: its type key, then its body.
    pub fn encode<const N: usize>(&self, buf: &mut BoundedVec<u8, N>) -> (r: Result<
        (),
        MessageError,
    >)
        ensures
            is_appended(old(buf)@, final(buf)@, r, 105, self.body(), N as nat),
    {
        let count: u64 = if self.http_response_code.is_none() {
            3
        } else {
            4
        };
        let mut body = Body::map(count);
        body.u64_field(0, self.request_id);
        body.code_field(1, self.result.to_code());
        body.u64_field(2, self.connection_id);
        if let Some(code) = self.http_response_code {
            body.u16_field(3, code);
        }
        proof {
            reveal_with_fuel(entries_bytes, 5);
            reveal_with_fuel(entry_count, 5);
        }
        append_message(105, &body, buf)
    }

    /// This message is read back from its bytes, whatever follows them.
    pub proof fn round_trip(self, rest: Seq<u8>)
        requires
            conforms(Self::schema(), self.fields()),
        ensures
            reads_as(
                105,
                Self::layout(),
                self.fields(),
                type_key_bytes(105) + self.body() + rest,
            ),
            body_reads_as(Self::layout(), self.fields(), self.body() + rest),
    {
        assert(3 <= entry_count(Self::schema(), self.fields(), 4) <= 4) by {
            reveal_with_fuel(entry_count, 5);
        }
        message_round_trip(105, Self::layout(), self.fields(), self.body(), rest);
    }

    /// Reads a message, starting with its type key.
    pub fn decode(data: &[u8]) -> (r: Result<Self, MessageError>)
        ensures
            match message_at(105, Self::layout(), data@) {
                Ok(table) => r matches Ok(message) && message.fields() == table,
                Err(e) => r == Err::<Self, MessageError>(e),
            },
    {
        match expect_body(105, data) {
            Ok(body) => Self::decode_body(body),
            Err(e) => Err(e),
        }
    }

    /// Reads the body of a message.
    pub fn decode_body(body: &[u8]) -> (r: Result<Self, MessageError>)
        ensures
            match body_at(Self::layout(), body@, 0) {
                Ok(table) => r matches Ok(message) && message.fields() == table,
                Err(e) => r == Err::<Self, MessageError>(e),
            },
    {
        let mut known = PresentationStartResponseFields {
            request_id: None,
            result: None,
            connection_id: None,
            http_response_code: None,
        };
        proof {
            assert(known.table() =~= blank_table(Self::schema()));
        }
        match read_fields(&mut known, body, 0, 3, 4, MessageError::InvalidField) {
            Err(e) => return Err(e),
            Ok(_) => {},
        }
        let ghost table = known.table();
        match (known.request_id, known.result, known.connection_id) {
            (Some(request_id), Some(result), Some(connection_id)) => {
                let message = PresentationStartResponse { request_id, result, connection_id, http_response_code: known.http_response_code };
                proof {
                    assert(message.fields() =~= table);
                }
                Ok(message)
            },
            _ => {
                proof {
                    assert(table[0] is None || table[1] is None || table[2] is None);
                }
                Err(MessageError::MissingField)
            },
        }
    }
}

/// What is known of the fields while a [`PresentationStartResponse`] is being read.
struct PresentationStartResponseFields {
    request_id: Option<u64>,
    result: Option<PresentationResult>,
    connection_id: Option<u64>,
    http_response_code: Option<u16>,
}

impl<'a> FieldTable<'a> for PresentationStartResponseFields {
    open spec fn schema() -> Seq<Field> {
        PresentationStartResponse::schema()
    }

    closed spec fn table(&self) -> Table {
        seq![
            u64_entry(self.request_id),
            code_entry(self.result),
            u64_entry(self.connection_id),
            u16_entry(self.http_response_code),
        ]
    }

    fn read_field(&mut self, key: u8, data: &'a [u8], pos: usize) -> (r: Result<
        usize,
        MessageError,
    >) {
        let ghost before = self.table();
        match key {
            0 => match read_u64(data, pos) {
                Err(e) => Err(e),
                Ok((n, next)) => {
                    self.request_id = Some(n);
                    proof {
                        assert(self.table() =~= before.update(0, Some(Value::Uint(n as nat))));
                    }
                    Ok(next)
                },
            },
            1 => match read_code::<PresentationResult>(data, pos) {
                Err(e) => Err(e),
                Ok((member, next)) => {
                    self.result = Some(member);
                    proof {
                        assert(self.table() =~= before.update(1, Some(Value::Uint(member.code() as nat))));
                    }
                    Ok(next)
                },
            },
            2 => match read_u64(data, pos) {
                Err(e) => Err(e),
                Ok((n, next)) => {
                    self.connection_id = Some(n);
                    proof {
                        assert(self.table() =~= before.update(2, Some(Value::Uint(n as nat))));
                    }
                    Ok(next)
                },
            },
            3 => match read_u16(data, pos) {
                Err(e) => Err(e),
                Ok((n, next)) => {
                    self.http_response_code = Some(n);
                    proof {
                        assert(self.table() =~= before.update(3, Some(Value::Uint(n as nat))));
                    }
                    Ok(next)
                },
            },
            _ => Err(MessageError::InvalidField),
        }
    }
}

/// Asks a receiver to terminate a presentation (type key 106).
///
/// ```cddl
/// presentation-termination-request = {
///   request
///   1: text ; presentation-id
///   2: presentation-termination-reason ; reason
/// }
/// ```
#[derive(Debug, Clone, PartialEq, Eq)]
pub struct PresentationTerminationRequest<'a> {
    pub request_id: u64,
    pub presentation_id: &'a str,
    pub reason: PresentationTerminationReason,
}

impl<'a> PresentationTerminationRequest<'a> {
    /// The fields of this message.
    pub open spec fn schema() -> Seq<Field> {
        seq![
            required(Kind::Uint { limit: u64::MAX as nat }),
            required(Kind::Text { max: None }),
            required(Kind::Code { allowed: PresentationTerminationReason::codes() }),
        ]
    }

    pub open spec fn layout() -> Layout {
        exactly(Self::schema())
    }

    /// What this message says of each field.
    pub open spec fn fields(&self) -> Table {
        seq![
            Some(Value::Uint(self.request_id as nat)),
            Some(Value::Text(self.presentation_id@)),
            Some(Value::Uint(self.reason.code() as nat)),
        ]
    }

    /// The bytes of the body.
    pub open spec fn body(&self) -> Seq<u8> {
        body_bytes(Self::schema(), self.fields())
    }

    /// Appends this message to `buf`: its type key, then its body.
    pub fn encode<const N: usize>(&self, buf: &mut BoundedVec<u8, N>) -> (r: Result<
        (),
        MessageError,
    >)
        ensures
            is_appended(old(buf)@, final(buf)@, r, 106, self.body(), N as nat),
    {
        let mut body = Body::map(3);
        body.u64_field(0, self.request_id);
        body.text_field(1, self.presentation_id);
        body.code_field(2, self.reason.to_code());
        proof {
            reveal_with_fuel(entries_bytes, 4);
            reveal_with_fuel(entry_count, 4);
        }
        append_message(106, &body, buf)
    }

    /// This message is read back from its bytes, whatever follows them.
    pub proof fn round_trip(self, rest: Seq<u8>)
        requires
            conforms(Self::schema(), self.fields()),
        ensures
            reads_as(
                106,
                Self::layout(),
                self.fields(),
                type_key_bytes(106) + self.body() + rest,
            ),
            body_reads_as(Self::layout(), self.fields(), self.body() + rest),
    {
        assert(3 <= entry_count(Self::schema(), self.fields(), 3) <= 3) by {
            reveal_with_fuel(entry_count, 4);
        }
        message_round_trip(106, Self::layout(), self.fields(), self.body(), rest);
    }

    /// Reads a message, starting with its type key.
    pub fn decode(data: &'a [u8]) -> (r: Result<Self, MessageError>)
        ensures
            match message_at(106, Self::layout(), data@) {
                Ok(table) => r matches Ok(message) && message.fields() == table,
                Err(e) => r == Err::<Self, MessageError>(e),
            },
    {
        match expect_body(106, data) {
            Ok(body) => Self::decode_body(body),
            Err(e) => Err(e),
        }
    }

    /// Reads the body of a message.
    pub fn decode_body(body: &'a [u8]) -> (r: Result<Self, MessageError>)
        ensures
            match body_at(Self::layout(), body@, 0) {
                Ok(table) => r matches Ok(message) && message.fields() == table,
                Err(e) => r == Err::<Self, MessageError>(e),
            },
    {
        let mut known = PresentationTerminationRequestFields {
            request_id: None,
            presentation_id: None,
            reason: None,
        };
        proof {
            assert(known.table() =~= blank_table(Self::schema()));
        }
        match read_fields(&mut known, body, 0, 3, 3, MessageError::InvalidField) {
            Err(e) => return Err(e),
            Ok(_) => {},
        }
        let ghost table = known.table();
        match (known.request_id, known.presentation_id, known.reason) {
            (Some(request_id), Some(presentation_id), Some(reason)) => {
                let message = PresentationTerminationRequest { request_id, presentation_id, reason };
                proof {
                    assert(message.fields() =~= table);
                }
                Ok(message)
            },
            _ => {
                proof {
                    assert(table[0] is None || table[1] is None || table[2] is None);
                }
                Err(MessageError::MissingField)
            },
        }
    }
}

/// What is known of the fields while a [`PresentationTerminationRequest`] is being read.
struct PresentationTerminationRequestFields<'a> {
    request_id: Option<u64>,
    presentation_id: Option<&'a str>,
    reason: Option<PresentationTerminationReason>,
}

impl<'a> FieldTable<'a> for PresentationTerminationRequestFields<'a> {
    open spec fn schema() -> Seq<Field> {
        PresentationTerminationRequest::schema()
    }

    closed spec fn table(&self) -> Table {
        seq![
            u64_entry(self.request_id),
            text_entry(self.presentation_id),
            code_entry(self.reason),
        ]
    }

    fn read_field(&mut self, key: u8, data: &'a [u8], pos: usize) -> (r: Result<
        usize,
        MessageError,
    >) {
        let ghost before = self.table();
        match key {
            0 => match read_u64(data, pos) {
                Err(e) => Err(e),
                Ok((n, next)) => {
                    self.request_id = Some(n);
                    proof {
                        assert(self.table() =~= before.update(0, Some(Value::Uint(n as nat))));
                    }
                    Ok(next)
                },
            },
            1 => match read_str(data, pos) {
                Err(e) => Err(e),
                Ok((text, next)) => {
                    self.presentation_id = Some(text);
                    proof {
                        assert(self.table() =~= before.update(1, Some(Value::Text(text@))));
                    }
                    Ok(next)
                },
            },
            2 => match read_code::<PresentationTerminationReason>(data, pos) {
                Err(e) => Err(e),
                Ok((member, next)) => {
                    self.reason = Some(member);
                    proof {
                        assert(self.table() =~= before.update(2, Some(Value::Uint(member.code() as nat))));
                    }
                    Ok(next)
                },
            },
            _ => Err(MessageError::InvalidField),
        }
    }
}

/// Answers a termination request (type key 107).
///
/// ```cddl
/// presentation-termination-response = {
///   response
///   1: &result ; result
/// }
/// ```
#[derive(Debug, Clone, PartialEq, Eq)]
pub struct PresentationTerminationResponse {
    pub request_id: u64,
    pub result: PresentationResult,
}

impl PresentationTerminationResponse {
    /// The fields of this message.
    pub open spec fn schema() -> Seq<Field> {
        seq![
            required(Kind::Uint { limit: u64::MAX as nat }),
            required(Kind::Code { allowed: PresentationResult::codes() }),
        ]
    }

    pub open spec fn layout() -> Layout {
        exactly(Self::schema())
    }

    /// What this message says of each field.
    pub open spec fn fields(&self) -> Table {
        seq![
            Some(Value::Uint(self.request_id as nat)),
            Some(Value::Uint(self.result.code() as nat)),
        ]
    }

    /// The bytes of the body.
    pub open spec fn body(&self) -> Seq<u8> {
        body_bytes(Self::schema(), self.fields())
    }

    /// Appends this message to `buf`: its type key, then its body.
    pub fn encode<const N: usize>(&self, buf: &mut BoundedVec<u8, N>) -> (r: Result<
        (),
        MessageError,
    >)
        ensures
            is_appended(old(buf)@, final(buf)@, r, 107, self.body(), N as nat),
    {
        let mut body = Body::map(2);
        body.u64_field(0, self.request_id);
        body.code_field(1, self.result.to_code());
        proof {
            reveal_with_fuel(entries_bytes, 3);
            reveal_with_fuel(entry_count, 3);
        }
        append_message(107, &body, buf)
    }

    /// This message is read back from its bytes, whatever follows them.
    pub proof fn round_trip(self, rest: Seq<u8>)
        requires
            conforms(Self::schema(), self.fields()),
        ensures
            reads_as(
                107,
                Self::layout(),
                self.fields(),
                type_key_bytes(107) + self.body() + rest,
            ),
            body_reads_as(Self::layout(), self.fields(), self.body() + rest),
    {
        assert(2 <= entry_count(Self::schema(), self.fields(), 2) <= 2) by {
            reveal_with_fuel(entry_count, 3);
        }
        message_round_trip(107, Self::layout(), self.fields(), self.body(), rest);
    }

    /// Reads a message, starting with its type key.
    pub fn decode(data: &[u8]) -> (r: Result<Self, MessageError>)
        ensures
            match message_at(107, Self::layout(), data@) {
                Ok(table) => r matches Ok(message) && message.fields() == table,
                Err(e) => r == Err::<Self, MessageError>(e),
            },
    {
        match expect_body(107, data) {
            Ok(body) => Self::decode_body(body),
            Err(e) => Err(e),
        }
    }

    /// Reads the body of a message.
    pub fn decode_body(body: &[u8]) -> (r: Result<Self, MessageError>)
        ensures
            match body_at(Self::layout(), body@, 0) {
                Ok(table) => r matches Ok(message) && message.fields() == table,
                Err(e) => r == Err::<Self, MessageError>(e),
            },
    {
        let mut known = PresentationTerminationResponseFields {
            request_id: None,
            result: None,
        };
        proof {
            assert(known.table() =~= blank_table(Self::schema()));
        }
        match read_fields(&mut known, body, 0, 2, 2, MessageError::InvalidField) {
            Err(e) => return Err(e),
            Ok(_) => {},
        }
        let ghost table = known.table();
        match (known.request_id, known.result) {
            (Some(request_id), Some(result)) => {
                let message = PresentationTerminationResponse { request_id, result };
                proof {
                    assert(message.fields() =~= table);
                }
                Ok(message)
            },
            _ => {
                proof {
                    assert(table[0] is None || table[1] is None);
                }
                Err(MessageError::MissingField)
            },
        }
    }
}

/// What is known of the fields while a [`PresentationTerminationResponse`] is being read.
struct PresentationTerminationResponseFields {
    request_id: Option<u64>,
    result: Option<PresentationResult>,
}

impl<'a> FieldTable<'a> for PresentationTerminationResponseFields {
    open spec fn schema() -> Seq<Field> {
        PresentationTerminationResponse::schema()
    }

    closed spec fn table(&self) -> Table {
        seq![
            u64_entry(self.request_id),
            code_entry(self.result),
        ]
    }

    fn read_field(&mut self, key: u8, data: &'a [u8], pos: usize) -> (r: Result<
        usize,
        MessageError,
    >) {
        let ghost before = self.table();
        match key {
            0 => match read_u64(data, pos) {
                Err(e) => Err(e),
                Ok((n, next)) => {
                    self.request_id = Some(n);
                    proof {
                        assert(self.table() =~= before.update(0, Some(Value::Uint(n as nat))));
                    }
                    Ok(next)
                },
            },
            1 => match read_code::<PresentationResult>(data, pos) {
                Err(e) => Err(e),
                Ok((member, next)) => {
                    self.result = Some(member);
                    proof {
                        assert(self.table() =~= before.update(1, Some(Value::Uint(member.code() as nat))));
                    }
                    Ok(next)
                },
            },
            _ => Err(MessageError::InvalidField),
        }
    }
}

/// Tells that a presentation was terminated (type key 108).
///
/// ```cddl
/// presentation-termination-event = {
///   0: text ; presentation-id
///   1: presentation-termination-source ; source
///   2: presentation-termination-reason ; reason
/// }
/// ```
#[derive(Debug, Clone, PartialEq, Eq)]
pub struct PresentationTerminationEvent<'a> {
    pub presentation_id: &'a str,
    pub source: PresentationTerminationSource,
    pub reason: PresentationTerminationReason,
}

impl<'a> PresentationTerminationEvent<'a> {
    /// The fields of this message.
    pub open spec fn schema() -> Seq<Field> {
        seq![
            required(Kind::Text { max: None }),
            required(Kind::Code { allowed: PresentationTerminationSource::codes() }),
            required(Kind::Code { allowed: PresentationTerminationReason::codes() }),
        ]
    }

    pub open spec fn layout() -> Layout {
        exactly(Self::schema())
    }

    /// What this message says of each field.
    pub open spec fn fields(&self) -> Table {
        seq![
            Some(Value::Text(self.presentation_id@)),
            Some(Value::Uint(self.source.code() as nat)),
            Some(Value::Uint(self.reason.code() as nat)),
        ]
    }

    /// The bytes of the body.
    pub open spec fn body(&self) -> Seq<u8> {
        body_bytes(Self::schema(), self.fields())
    }

    /// Appends this message to `buf`: its type key, then its body.
    pub fn encode<const N: usize>(&self, buf: &mut BoundedVec<u8, N>) -> (r: Result<
        (),
        MessageError,
    >)
        ensures
            is_appended(old(buf)@, final(buf)@, r, 108, self.body(), N as nat),
    {
        let mut body = Body::map(3);
        body.text_field(0, self.presentation_id);
        body.code_field(1, self.source.to_code());
        body.code_field(2, self.reason.to_code());
        proof {
            reveal_with_fuel(entries_bytes, 4);
            reveal_with_fuel(entry_count, 4);
        }
        append_message(108, &body, buf)
    }

    /// This message is read back from its bytes, whatever follows them.
    pub proof fn round_trip(self, rest: Seq<u8>)
        requires
            conforms(Self::schema(), self.fields()),
        ensures
            reads_as(
                108,
                Self::layout(),
                self.fields(),
                type_key_bytes(108) + self.body() + rest,
            ),
            body_reads_as(Self::layout(), self.fields(), self.body() + rest),
    {
        assert(3 <= entry_count(Self::schema(), self.fields(), 3) <= 3) by {
            reveal_with_fuel(entry_count, 4);
        }
        message_round_trip(108, Self::layout(), self.fields(), self.body(), rest);
    }

    /// Reads a message, starting with its type key.
    pub fn decode(data: &'a [u8]) -> (r: Result<Self, MessageError>)
        ensures
            match message_at(108, Self::layout(), data@) {
                Ok(table) => r matches Ok(message) && message.fields() == table,
                Err(e) => r == Err::<Self, MessageError>(e),
            },
    {
        match expect_body(108, data) {
            Ok(body) => Self::decode_body(body),
            Err(e) => Err(e),
        }
    }

    /// Reads the body of a message.
    pub fn decode_body(body: &'a [u8]) -> (r: Result<Self, MessageError>)
        ensures
            match body_at(Self::layout(), body@, 0) {
                Ok(table) => r matches Ok(message) && message.fields() == table,
                Err(e) => r == Err::<Self, MessageError>(e),
            },
    {
        let mut known = PresentationTerminationEventFields {
            presentation_id: None,
            source: None,
            reason: None,
        };
        proof {
            assert(known.table() =~= blank_table(Self::schema()));
        }
        match read_fields(&mut known, body, 0, 3, 3, MessageError::InvalidField) {
            Err(e) => return Err(e),
            Ok(_) => {},
        }
        let ghost table = known.table();
        match (known.presentation_id, known.source, known.reason) {
            (Some(presentation_id), Some(source), Some(reason)) => {
                let message = PresentationTerminationEvent { presentation_id, source, reason };
                proof {
                    assert(message.fields() =~= table);
                }
                Ok(message)
            },
            _ => {
                proof {
                    assert(table[0] is None || table[1] is None || table[2] is None);
                }
                Err(MessageError::MissingField)
            },
        }
    }
}

/// What is known of the fields while a [`PresentationTerminationEvent`] is being read.
struct PresentationTerminationEventFields<'a> {
    presentation_id: Option<&'a str>,
    source: Option<PresentationTerminationSource>,
    reason: Option<PresentationTerminationReason>,
}

impl<'a> FieldTable<'a> for PresentationTerminationEventFields<'a> {
    open spec fn schema() -> Seq<Field> {
        PresentationTerminationEvent::schema()
    }

    closed spec fn table(&self) -> Table {
        seq![
            text_entry(self.presentation_id),
            code_entry(self.source),
            code_entry(self.reason),
        ]
    }

    fn read_field(&mut self, key: u8, data: &'a [u8], pos: usize) -> (r: Result<
        usize,
        MessageError,
    >) {
        let ghost before = self.table();
        match key {
            0 => match read_str(data, pos) {
                Err(e) => Err(e),
                Ok((text, next)) => {
                    self.presentation_id = Some(text);
                    proof {
                        assert(self.table() =~= before.update(0, Some(Value::Text(text@))));
                    }
                    Ok(next)
                },
            },
            1 => match read_code::<PresentationTerminationSource>(data, pos) {
                Err(e) => Err(e),
                Ok((member, next)) => {
                    self.source = Some(member);
                    proof {
                        assert(self.table() =~= before.update(1, Some(Value::Uint(member.code() as nat))));
                    }
                    Ok(next)
                },
            },
            2 => match read_code::<PresentationTerminationReason>(data, pos) {
                Err(e) => Err(e),
                Ok((member, next)) => {
                    self.reason = Some(member);
                    proof {
                        assert(self.table() =~= before.update(2, Some(Value::Uint(member.code() as nat))));
                    }
                    Ok(next)
                },
            },
            _ => Err(MessageError::InvalidField),
        }
    }
}

} // verus!
