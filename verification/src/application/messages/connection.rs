//! Connections to presentations.
use crate::bounded::BoundedVec;
use crate::cbor::body::{append_message, is_appended, Body};
use crate::cbor::code::WireCode;
use crate::cbor::fields::{
    blank_table, body_at, body_bytes, entries_bytes, entry_count, exactly, optional, required,
    Field, Kind, Layout, Table, Value,
};
use crate::cbor::item::{read_str, read_u64};
use crate::cbor::laws::{body_reads_as, conforms, message_round_trip, reads_as};
use crate::cbor::reader::{
    blob_entry, code_entry, expect_body, message_at, read_code, read_content, read_fields,
    text_entry, u64_entry, FieldTable,
};
use crate::common::error::MessageError;
use crate::common::type_key::type_key_bytes;
use crate::application::messages::codes::{PresentationConnectionCloseReason, PresentationResult};
use vstd::prelude::*;

verus! {

/// Asks to open a connection to a presentation (type key 109).
///
/// ```cddl
/// presentation-connection-open-request = {
///   request
///   1: text ; presentation-id
///   2: text ; url
/// }
/// ```
#[derive(Debug, Clone, PartialEq, Eq)]
pub struct PresentationConnectionOpenRequest<'a> {
    pub request_id: u64,
    pub presentation_id: &'a str,
    pub url: &'a str,
}

impl<'a> PresentationConnectionOpenRequest<'a> {
    /// The fields of this message.
    pub open spec fn schema() -> Seq<Field> {
        seq![
            required(Kind::Uint { limit: u64::MAX as nat }),
            required(Kind::Text { max: None }),
            required(Kind::Text { max: None }),
        ]
    }

    pub open spec fn layout() -> Layout {
        exactly(Self::schema())
    }

    /// What this message says of each field.
    pub open spec fn fields(&self) -> Table {
        seq![
            Some(Value::Uint(self.request_id as nat)),
            Some(Value::Text(self.presentation_id@)),
            Some(Value::Text(self.url@)),
        ]
    }

    /// The bytes of the body.
    pub open spec fn body(&self) -> Seq<u8> {
        body_bytes(Self::schema(), self.fields())
    }

    /// Appends this message to `buf`: its type key, then its body.
    pub fn encode<const N: usize>(&self, buf: &mut BoundedVec<u8, N>) -> (r: Result<
        (),
        MessageError,
    >)
        ensures
            is_appended(old(buf)@, final(buf)@, r, 109, self.body(), N as nat),
    {
        let mut body = Body::map(3);
        body.u64_field(0, self.request_id);
        body.text_field(1, self.presentation_id);
        body.text_field(2, self.url);
        proof {
            reveal_with_fuel(entries_bytes, 4);
            reveal_with_fuel(entry_count, 4);
        }
        append_message(109, &body, buf)
    }

    /// This message is read back from its bytes, whatever follows them.
    pub proof fn round_trip(self, rest: Seq<u8>)
        requires
            conforms(Self::schema(), self.fields()),
        ensures
            reads_as(
                109,
                Self::layout(),
                self.fields(),
                type_key_bytes(109) + self.body() + rest,
            ),
            body_reads_as(Self::layout(), self.fields(), self.body() + rest),
    {
        assert(3 <= entry_count(Self::schema(), self.fields(), 3) <= 3) by {
            reveal_with_fuel(entry_count, 4);
        }
        message_round_trip(109, Self::layout(), self.fields(), self.body(), rest);
    }

    /// Reads a message, starting with its type key.
    pub fn decode(data: &'a [u8]) -> (r: Result<Self, MessageError>)
        ensures
            match message_at(109, Self::layout(), data@) {
                Ok(table) => r matches Ok(message) && message.fields() == table,
                Err(e) => r == Err::<Self, MessageError>(e),
            },
    {
        match expect_body(109, data) {
            Ok(body) => Self::decode_body(body),
            Err(e) => Err(e),
        }
    }

    /// Reads the body of a message.
    pub fn decode_body(body: &'a [u8]) -> (r: Result<Self, MessageError>)
        ensures
            match body_at(Self::layout(), body@, 0) {
                Ok(table) => r matches Ok(message) && message.fields() == table,
                Err(e) => r == Err::<Self, MessageError>(e),
            },
    {
        let mut known = PresentationConnectionOpenRequestFields {
            request_id: None,
            presentation_id: None,
            url: None,
        };
        proof {
            assert(known.table() =~= blank_table(Self::schema()));
        }
        match read_fields(&mut known, body, 0, 3, 3, MessageError::InvalidField) {
            Err(e) => return Err(e),
            Ok(_) => {},
        }
        let ghost table = known.table();
        match (known.request_id, known.presentation_id, known.url) {
            (Some(request_id), Some(presentation_id), Some(url)) => {
                let message = PresentationConnectionOpenRequest { request_id, presentation_id, url };
                proof {
                    assert(message.fields() =~= table);
                }
                Ok(message)
            },
            _ => {
                proof {
                    assert(table[0] is None || table[1] is None || table[2] is None);
                }
                Err(MessageError::MissingField)
            },
        }
    }
}

/// What is known of the fields while a [`PresentationConnectionOpenRequest`] is being read.
struct PresentationConnectionOpenRequestFields<'a> {
    request_id: Option<u64>,
    presentation_id: Option<&'a str>,
    url: Option<&'a str>,
}

impl<'a> FieldTable<'a> for PresentationConnectionOpenRequestFields<'a> {
    open spec fn schema() -> Seq<Field> {
        PresentationConnectionOpenRequest::schema()
    }

    closed spec fn table(&self) -> Table {
        seq![
            u64_entry(self.request_id),
            text_entry(self.presentation_id),
            text_entry(self.url),
        ]
    }

    fn read_field(&mut self, key: u8, data: &'a [u8], pos: usize) -> (r: Result<
        usize,
        MessageError,
    >) {
        let ghost before = self.table();
        match key {
            0 => match read_u64(data, pos) {
                Err(e) => Err(e),
                Ok((n, next)) => {
                    self.request_id = Some(n);
                    proof {
                        assert(self.table() =~= before.update(0, Some(Value::Uint(n as nat))));
                    }
                    Ok(next)
                },
            },
            1 => match read_str(data, pos) {
                Err(e) => Err(e),
                Ok((text, next)) => {
                    self.presentation_id = Some(text);
                    proof {
                        assert(self.table() =~= before.update(1, Some(Value::Text(text@))));
                    }
                    Ok(next)
                },
            },
            2 => match read_str(data, pos) {
                Err(e) => Err(e),
                Ok((text, next)) => {
                    self.url = Some(text);
                    proof {
                        assert(self.table() =~= before.update(2, Some(Value::Text(text@))));
                    }
                    Ok(next)
                },
            },
            _ => Err(MessageError::InvalidField),
        }
    }
}

/// Answers an open request (type key 110).
///
/// ```cddl
/// presentation-connection-open-response = {
///   response
///   1: &result ; result
///   2: uint ; connection-id
///   3: uint ; connection-count
/// }
/// ```
#[derive(Debug, Clone, PartialEq, Eq)]
pub struct PresentationConnectionOpenResponse {
    pub request_id: u64,
    pub result: PresentationResult,
    pub connection_id: u64,
    pub connection_count: u64,
}

impl PresentationConnectionOpenResponse {
    /// The fields of this message.
    pub open spec fn schema() -> Seq<Field> {
        seq![
            required(Kind::Uint { limit: u64::MAX as nat }),
            required(Kind::Code { allowed: PresentationResult::codes() }),
            required(Kind::Uint { limit: u64::MAX as nat }),
            required(Kind::Uint { limit: u64::MAX as nat }),
        ]
    }

    pub open spec fn layout() -> Layout {
        exactly(Self::schema())
    }

    /// What this message says of each field.
    pub open spec fn fields(&self) -> Table {
        seq![
            Some(Value::Uint(self.request_id as nat)),
            Some(Value::Uint(self.result.code() as nat)),
            Some(Value::Uint(self.connection_id as nat)),
            Some(Value::Uint(self.connection_count as nat)),
        ]
    }

    /// The bytes of the body.
    pub open spec fn body(&self) -> Seq<u8> {
        body_bytes(Self::schema(), self.fields())
    }

    /// Appends this message to `buf`: its type key, then its body.
    pub fn encode<const N: usize>(&self, buf: &mut BoundedVec<u8, N>) -> (r: Result<
        (),
        MessageError,
    >)
        ensures
            is_appended(old(buf)@, final(buf)@, r, 110, self.body(), N as nat),
    {
        let mut body = Body::map(4);
        body.u64_field(0, self.request_id);
        body.code_field(1, self.result.to_code());
        body.u64_field(2, self.connection_id);
        body.u64_field(3, self.connection_count);
        proof {
            reveal_with_fuel(entries_bytes, 5);
            reveal_with_fuel(entry_count, 5);
        }
        append_message(110, &body, buf)
    }

    /// This message is read back from its bytes, whatever follows them.
    pub proof fn round_trip(self, rest: Seq<u8>)
        requires
            conforms(Self::schema(), self.fields()),
        ensures
            reads_as(
                110,
                Self::layout(),
                self.fields(),
                type_key_bytes(110) + self.body() + rest,
            ),
            body_reads_as(Self::layout(), self.fields(), self.body() + rest),
    {
        assert(4 <= entry_count(Self::schema(), self.fields(), 4) <= 4) by {
            reveal_with_fuel(entry_count, 5);
        }
        message_round_trip(110, Self::layout(), self.fields(), self.body(), rest);
    }

    /// Reads a message, starting with its type key.
    pub fn decode(data: &[u8]) -> (r: Result<Self, MessageError>)
        ensures
            match message_at(110, Self::layout(), data@) {
                Ok(table) => r matches Ok(message) && message.fields() == table,
                Err(e) => r == Err::<Self, MessageError>(e),
            },
    {
        match expect_body(110, data) {
            Ok(body) => Self::decode_body(body),
            Err(e) => Err(e),
        }
    }

    /// Reads the body of a message.
    pub fn decode_body(body: &[u8]) -> (r: Result<Self, MessageError>)
        ensures
            match body_at(Self::layout(), body@, 0) {
                Ok(table) => r matches Ok(message) && message.fields() == table,
                Err(e) => r == Err::<Self, MessageError>(e),
            },
    {
        let mut known = PresentationConnectionOpenResponseFields {
            request_id: None,
            result: None,
            connection_id: None,
            connection_count: None,
        };
        proof {
            assert(known.table() =~= blank_table(Self::schema()));
        }
        match read_fields(&mut known, body, 0, 4, 4, MessageError::InvalidField) {
            Err(e) => return Err(e),
            Ok(_) => {},
        }
        let ghost table = known.table();
        match (known.request_id, known.result, known.connection_id, known.connection_count) {
            (Some(request_id), Some(result), Some(connection_id), Some(connection_count)) => {
                let message = PresentationConnectionOpenResponse { request_id, result, connection_id, connection_count };
                proof {
                    assert(message.fields() =~= table);
                }
                Ok(message)
            },
            _ => {
                proof {
                    assert(table[0] is None || table[1] is None || table[2] is None || table[3] is None);
                }
                Err(MessageError::MissingField)
            },
        }
    }
}

/// What is known of the fields while a [`PresentationConnectionOpenResponse`] is being read.
struct PresentationConnectionOpenResponseFields {
    request_id: Option<u64>,
    result: Option<PresentationResult>,
    connection_id: Option<u64>,
    connection_count: Option<u64>,
}

impl<'a> FieldTable<'a> for PresentationConnectionOpenResponseFields {
    open spec fn schema() -> Seq<Field> {
        PresentationConnectionOpenResponse::schema()
    }

    closed spec fn table(&self) -> Table {
        seq![
            u64_entry(self.request_id),
            code_entry(self.result),
            u64_entry(self.connection_id),
            u64_entry(self.connection_count),
        ]
    }

    fn read_field(&mut self, key: u8, data: &'a [u8], pos: usize) -> (r: Result<
        usize,
        MessageError,
    >) {
        let ghost before = self.table();
        match key {
            0 => match read_u64(data, pos) {
                Err(e) => Err(e),
                Ok((n, next)) => {
                    self.request_id = Some(n);
                    proof {
                        assert(self.table() =~= before.update(0, Some(Value::Uint(n as nat))));
                    }
                    Ok(next)
                },
            },
            1 => match read_code::<PresentationResult>(data, pos) {
                Err(e) => Err(e),
                Ok((member, next)) => {
                    self.result = Some(member);
                    proof {
                        assert(self.table() =~= before.update(1, Some(Value::Uint(member.code() as nat))));
                    }
                    Ok(next)
                },
            },
            2 => match read_u64(data, pos) {
                Err(e) => Err(e),
                Ok((n, next)) => {
                    self.connection_id = Some(n);
                    proof {
                        assert(self.table() =~= before.update(2, Some(Value::Uint(n as nat))));
                    }
                    Ok(next)
                },
            },
            3 => match read_u64(data, pos) {
                Err(e) => Err(e),
                Ok((n, next)) => {
                    self.connection_count = Some(n);
                    proof {
                        assert(self.table() =~= before.update(3, Some(Value::Uint(n as nat))));
                    }
                    Ok(next)
                },
            },
            _ => Err(MessageError::InvalidField),
        }
    }
}

/// Tells that a connection was closed (type key 113).
///
/// ```cddl
/// presentation-connection-close-event = {
///   0: uint ; connection-id
///   1: &(close-method-called: 1, connection-object-discarded: 10,
///        unrecoverable-error-while-sending-or-receiving-message: 100) ; reason
///   ? 2: text ; error-message
///   3: uint ; connection-count
/// }
/// ```
#[derive(Debug, Clone, PartialEq, Eq)]
pub struct PresentationConnectionCloseEvent<'a> {
    pub connection_id: u64,
    pub reason: PresentationConnectionCloseReason,
    pub error_message: Option<&'a str>,
    pub connection_count: u64,
}

impl<'a> PresentationConnectionCloseEvent<'a> {
    /// The fields of this message.
    pub open spec fn schema() -> Seq<Field> {
        seq![
            required(Kind::Uint { limit: u64::MAX as nat }),
            required(Kind::Code { allowed: PresentationConnectionCloseReason::codes() }),
            optional(Kind::Text { max: None }),
            required(Kind::Uint { limit: u64::MAX as nat }),
        ]
    }

    pub open spec fn layout() -> Layout {
        Layout {
            fields: Self::schema(),
            min: 3,
            max: 4,
            count_error: MessageError::InvalidField,
        }
    }

    /// What this message says of each field.
    pub open spec fn fields(&self) -> Table {
        seq![
            Some(Value::Uint(self.connection_id as nat)),
            Some(Value::Uint(self.reason.code() as nat)),
            text_entry(self.error_message),
            Some(Value::Uint(self.connection_count as nat)),
        ]
    }

    /// The bytes of the body.
    pub open spec fn body(&self) -> Seq<u8> {
        body_bytes(Self::schema(), self.fields())
    }

    /// Appends this message to `buf`: its type key, then its body.
    pub fn encode<const N: usize>(&self, buf: &mut BoundedVec<u8, N>) -> (r: Result<
        (),
        MessageError,
    >)
        ensures
            is_appended(old(buf)@, final(buf)@, r, 113, self.body(), N as nat),
    {
        let count: u64 = if self.error_message.is_none() {
            3
        } else {
            4
        };
        let mut body = Body::map(count);
        body.u64_field(0, self.connection_id);
        body.code_field(1, self.reason.to_code());
        if let Some(text) = self.error_message {
            body.text_field(2, text);
        }
        body.u64_field(3, self.connection_count);
        proof {
            reveal_with_fuel(entries_bytes, 5);
            reveal_with_fuel(entry_count, 5);
        }
        append_message(113, &body, buf)
    }

    /// This message is read back from its bytes, whatever follows them.
    pub proof fn round_trip(self, rest: Seq<u8>)
        requires
            conforms(Self::schema(), self.fields()),
        ensures
            reads_as(
                113,
                Self::layout(),
                self.fields(),
                type_key_bytes(113) + self.body() + rest,
            ),
            body_reads_as(Self::layout(), self.fields(), self.body() + rest),
    {
        assert(3 <= entry_count(Self::schema(), self.fields(), 4) <= 4) by {
            reveal_with_fuel(entry_count, 5);
        }
        message_round_trip(113, Self::layout(), self.fields(), self.body(), rest);
    }

    /// Reads a message, starting with its type key.
    pub fn decode(data: &'a [u8]) -> (r: Result<Self, MessageError>)
        ensures
            match message_at(113, Self::layout(), data@) {
                Ok(table) => r matches Ok(message) && message.fields() == table,
                Err(e) => r == Err::<Self, MessageError>(e),
            },
    {
        match expect_body(113, data) {
            Ok(body) => Self::decode_body(body),
            Err(e) => Err(e),
        }
    }

    /// Reads the body of a message.
    pub fn decode_body(body: &'a [u8]) -> (r: Result<Self, MessageError>)
        ensures
            match body_at(Self::layout(), body@, 0) {
                Ok(table) => r matches Ok(message) && message.fields() == table,
                Err(e) => r == Err::<Self, MessageError>(e),
            },
    {
        let mut known = PresentationConnectionCloseEventFields {
            connection_id: None,
            reason: None,
            error_message: None,
            connection_count: None,
        };
        proof {
            assert(known.table() =~= blank_table(Self::schema()));
        }
        match read_fields(&mut known, body, 0, 3, 4, MessageError::InvalidField) {
            Err(e) => return Err(e),
            Ok(_) => {},
        }
        let ghost table = known.table();
        match (known.connection_id, known.reason, known.connection_count) {
            (Some(connection_id), Some(reason), Some(connection_count)) => {
                let message = PresentationConnectionCloseEvent { connection_id, reason, error_message: known.error_message, connection_count };
                proof {
                    assert(message.fields() =~= table);
                }
                Ok(message)
            },
            _ => {
                proof {
                    assert(table[0] is None || table[1] is None || table[3] is None);
                }
                Err(MessageError::MissingField)
            },
        }
    }
}

/// What is known of the fields while a [`PresentationConnectionCloseEvent`] is being read.
struct PresentationConnectionCloseEventFields<'a> {
    connection_id: Option<u64>,
    reason: Option<PresentationConnectionCloseReason>,
    error_message: Option<&'a str>,
    connection_count: Option<u64>,
}

impl<'a> FieldTable<'a> for PresentationConnectionCloseEventFields<'a> {
    open spec fn schema() -> Seq<Field> {
        PresentationConnectionCloseEvent::schema()
    }

    closed spec fn table(&self) -> Table {
        seq![
            u64_entry(self.connection_id),
            code_entry(self.reason),
            text_entry(self.error_message),
            u64_entry(self.connection_count),
        ]
    }

    fn read_field(&mut self, key: u8, data: &'a [u8], pos: usize) -> (r: Result<
        usize,
        MessageError,
    >) {
        let ghost before = self.table();
        match key {
            0 => match read_u64(data, pos) {
                Err(e) => Err(e),
                Ok((n, next)) => {
                    self.connection_id = Some(n);
                    proof {
                        assert(self.table() =~= before.update(0, Some(Value::Uint(n as nat))));
                    }
                    Ok(next)
                },
            },
            1 => match read_code::<PresentationConnectionCloseReason>(data, pos) {
                Err(e) => Err(e),
                Ok((member, next)) => {
                    self.reason = Some(member);
                    proof {
                        assert(self.table() =~= before.update(1, Some(Value::Uint(member.code() as nat))));
                    }
                    Ok(next)
                },
            },
            2 => match read_str(data, pos) {
                Err(e) => Err(e),
                Ok((text, next)) => {
                    self.error_message = Some(text);
                    proof {
                        assert(self.table() =~= before.update(2, Some(Value::Text(text@))));
                    }
                    Ok(next)
                },
            },
            3 => match read_u64(data, pos) {
                Err(e) => Err(e),
                Ok((n, next)) => {
                    self.connection_count = Some(n);
                    proof {
                        assert(self.table() =~= before.update(3, Some(Value::Uint(n as nat))));
                    }
                    Ok(next)
                },
            },
            _ => Err(MessageError::InvalidField),
        }
    }
}

/// Carries data over a connection (type key 16).
///
/// ```cddl
/// presentation-connection-message = {
///   0: uint ; connection-id
///   1: bytes / text ; message
/// }
/// ```
#[derive(Debug, Clone, PartialEq)]
pub struct PresentationConnectionMessage<'a> {
    pub connection_id: u64,
    pub message: &'a [u8],
}

impl<'a> PresentationConnectionMessage<'a> {
    /// The fields of this message.
    pub open spec fn schema() -> Seq<Field> {
        seq![
            required(Kind::Uint { limit: u64::MAX as nat }),
            required(Kind::Content),
        ]
    }

    pub open spec fn layout() -> Layout {
        exactly(Self::schema())
    }

    /// What this message says of each field.
    pub open spec fn fields(&self) -> Table {
        seq![
            Some(Value::Uint(self.connection_id as nat)),
            Some(Value::Blob(self.message@)),
        ]
    }

    /// The bytes of the body.
    pub open spec fn body(&self) -> Seq<u8> {
        body_bytes(Self::schema(), self.fields())
    }

    /// Appends this message to `buf`: its type key, then its body.
    pub fn encode<const N: usize>(&self, buf: &mut BoundedVec<u8, N>) -> (r: Result<
        (),
        MessageError,
    >)
        ensures
            is_appended(old(buf)@, final(buf)@, r, 16, self.body(), N as nat),
    {
        let mut body = Body::map(2);
        body.u64_field(0, self.connection_id);
        body.bytes_field(1, self.message);
        proof {
            reveal_with_fuel(entries_bytes, 3);
            reveal_with_fuel(entry_count, 3);
        }
        append_message(16, &body, buf)
    }

    /// This message is read back from its bytes, whatever follows them.
    pub proof fn round_trip(self, rest: Seq<u8>)
        requires
            conforms(Self::schema(), self.fields()),
        ensures
            reads_as(
                16,
                Self::layout(),
                self.fields(),
                type_key_bytes(16) + self.body() + rest,
            ),
            body_reads_as(Self::layout(), self.fields(), self.body() + rest),
    {
        assert(2 <= entry_count(Self::schema(), self.fields(), 2) <= 2) by {
            reveal_with_fuel(entry_count, 3);
        }
        message_round_trip(16, Self::layout(), self.fields(), self.body(), rest);
    }

    /// Reads a message, starting with its type key.
    pub fn decode(data: &'a [u8]) -> (r: Result<Self, MessageError>)
        ensures
            match message_at(16, Self::layout(), data@) {
                Ok(table) => r matches Ok(message) && message.fields() == table,
                Err(e) => r == Err::<Self, MessageError>(e),
            },
    {
        match expect_body(16, data) {
            Ok(body) => Self::decode_body(body),
            Err(e) => Err(e),
        }
    }

    /// Reads the body of a message.
    pub fn decode_body(body: &'a [u8]) -> (r: Result<Self, MessageError>)
        ensures
            match body_at(Self::layout(), body@, 0) {
                Ok(table) => r matches Ok(message) && message.fields() == table,
                Err(e) => r == Err::<Self, MessageError>(e),
            },
    {
        let mut known = PresentationConnectionMessageFields {
            connection_id: None,
            message: None,
        };
        proof {
            assert(known.table() =~= blank_table(Self::schema()));
        }
        match read_fields(&mut known, body, 0, 2, 2, MessageError::InvalidField) {
            Err(e) => return Err(e),
            Ok(_) => {},
        }
        let ghost table = known.table();
        match (known.connection_id, known.message) {
            (Some(connection_id), Some(message)) => {
                let message = PresentationConnectionMessage { connection_id, message };
                proof {
                    assert(message.fields() =~= table);
                }
                Ok(message)
            },
            _ => {
                proof {
                    assert(table[0] is None || table[1] is None);
                }
                Err(MessageError::MissingField)
            },
        }
    }
}

/// What is known of the fields while a [`PresentationConnectionMessage`] is being read.
struct PresentationConnectionMessageFields<'a> {
    connection_id: Option<u64>,
    message: Option<&'a [u8]>,
}

impl<'a> FieldTable<'a> for PresentationConnectionMessageFields<'a> {
    open spec fn schema() -> Seq<Field> {
        PresentationConnectionMessage::schema()
    }

    closed spec fn table(&self) -> Table {
        seq![
            u64_entry(self.connection_id),
            blob_entry(self.message),
        ]
    }

    fn read_field(&mut self, key: u8, data: &'a [u8], pos: usize) -> (r: Result<
        usize,
        MessageError,
    >) {
        let ghost before = self.table();
        match key {
            0 => match read_u64(data, pos) {
                Err(e) => Err(e),
                Ok((n, next)) => {
                    self.connection_id = Some(n);
                    proof {
                        assert(self.table() =~= before.update(0, Some(Value::Uint(n as nat))));
                    }
                    Ok(next)
                },
            },
            1 => match read_content(data, pos) {
                Err(e) => Err(e),
                Ok((content, next)) => {
                    self.message = Some(content);
                    proof {
                        assert(self.table() =~= before.update(1, Some(Value::Blob(content@))));
                    }
                    Ok(next)
                },
            },
            _ => Err(MessageError::InvalidField),
        }
    }
}

/// Tells how many connections a presentation has (type key 121).
///
/// ```cddl
/// presentation-change-event = {
///   0: text ; presentation-id
///   1: uint ; connection-count
/// }
/// ```
#[derive(Debug, Clone, PartialEq, Eq)]
pub struct PresentationChangeEvent<'a> {
    pub presentation_id: &'a str,
    pub connection_count: u64,
}

impl<'a> PresentationChangeEvent<'a> {
    /// The fields of this message.
    pub open spec fn schema() -> Seq<Field> {
        seq![
            required(Kind::Text { max: None }),
            required(Kind::Uint { limit: u64::MAX as nat }),
        ]
    }

    pub open spec fn layout() -> Layout {
        exactly(Self::schema())
    }

    /// What this message says of each field.
    pub open spec fn fields(&self) -> Table {
        seq![
            Some(Value::Text(self.presentation_id@)),
            Some(Value::Uint(self.connection_count as nat)),
        ]
    }

    /// The bytes of the body.
    pub open spec fn body(&self) -> Seq<u8> {
        body_bytes(Self::schema(), self.fields())
    }

    /// Appends this message to `buf`: its type key, then its body.
    pub fn encode<const N: usize>(&self, buf: &mut BoundedVec<u8, N>) -> (r: Result<
        (),
        MessageError,
    >)
        ensures
            is_appended(old(buf)@, final(buf)@, r, 121, self.body(), N as nat),
    {
        let mut body = Body::map(2);
        body.text_field(0, self.presentation_id);
        body.u64_field(1, self.connection_count);
        proof {
            reveal_with_fuel(entries_bytes, 3);
            reveal_with_fuel(entry_count, 3);
        }
        append_message(121, &body, buf)
    }

    /// This message is read back from its bytes, whatever follows them.
    pub proof fn round_trip(self, rest: Seq<u8>)
        requires
            conforms(Self::schema(), self.fields()),
        ensures
            reads_as(
                121,
                Self::layout(),
                self.fields(),
                type_key_bytes(121) + self.body() + rest,
            ),
            body_reads_as(Self::layout(), self.fields(), self.body() + rest),
    {
        assert(2 <= entry_count(Self::schema(), self.fields(), 2) <= 2) by {
            reveal_with_fuel(entry_count, 3);
        }
        message_round_trip(121, Self::layout(), self.fields(), self.body(), rest);
    }

    /// Reads a message, starting with its type key.
    pub fn decode(data: &'a [u8]) -> (r: Result<Self, MessageError>)
        ensures
            match message_at(121, Self::layout(), data@) {
                Ok(table) => r matches Ok(message) && message.fields() == table,
                Err(e) => r == Err::<Self, MessageError>(e),
            },
    {
        match expect_body(121, data) {
            Ok(body) => Self::decode_body(body),
            Err(e) => Err(e),
        }
    }

    /// Reads the body of a message.
    pub fn decode_body(body: &'a [u8]) -> (r: Result<Self, MessageError>)
        ensures
            match body_at(Self::layout(), body@, 0) {
                Ok(table) => r matches Ok(message) && message.fields() == table,
                Err(e) => r == Err::<Self, MessageError>(e),
            },
    {
        let mut known = PresentationChangeEventFields {
            presentation_id: None,
            connection_count: None,
        };
        proof {
            assert(known.table() =~= blank_table(Self::schema()));
        }
        match read_fields(&mut known, body, 0, 2, 2, MessageError::InvalidField) {
            Err(e) => return Err(e),
            Ok(_) => {},
        }
        let ghost table = known.table();
        match (known.presentation_id, known.connection_count) {
            (Some(presentation_id), Some(connection_count)) => {
                let message = PresentationChangeEvent { presentation_id, connection_count };
                proof {
                    assert(message.fields() =~= table);
                }
                Ok(message)
            },
            _ => {
                proof {
                    assert(table[0] is None || table[1] is None);
                }
                Err(MessageError::MissingField)
            },
        }
    }
}

/// What is known of the fields while a [`PresentationChangeEvent`] is being read.
struct PresentationChangeEventFields<'a> {
    presentation_id: Option<&'a str>,
    connection_count: Option<u64>,
}

impl<'a> FieldTable<'a> for PresentationChangeEventFields<'a> {
    open spec fn schema() -> Seq<Field> {
        PresentationChangeEvent::schema()
    }

    closed spec fn table(&self) -> Table {
        seq![
            text_entry(self.presentation_id),
            u64_entry(self.connection_count),
        ]
    }

    fn read_field(&mut self, key: u8, data: &'a [u8], pos: usize) -> (r: Result<
        usize,
        MessageError,
    >) {
        let ghost before = self.table();
        match key {
            0 => match read_str(data, pos) {
                Err(e) => Err(e),
                Ok((text, next)) => {
                    self.presentation_id = Some(text);
                    proof {
                        assert(self.table() =~= before.update(0, Some(Value::Text(text@))));
                    }
                    Ok(next)
                },
            },
            1 => match read_u64(data, pos) {
                Err(e) => Err(e),
                Ok((n, next)) => {
                    self.connection_count = Some(n);
                    proof {
                        assert(self.table() =~= before.update(1, Some(Value::Uint(n as nat))));
                    }
                    Ok(next)
                },
            },
            _ => Err(MessageError::InvalidField),
        }
    }
}

} // verus!
