//! Agent information and status.
use crate::bounded::BoundedVec;
use crate::cbor::body::{append_message, is_appended, Body};
use crate::cbor::code::{codes_of, WireCode};
use crate::cbor::fields::{
    blank_table, body_at, body_bytes, entries_bytes, entry_count, exactly, optional, required,
    text_limit, Field, Kind, Layout, Table, Value,
};
use crate::cbor::item::{
    collection_at, head_bytes, head_round_trip, lemma_stands_at_split, stands_at,
    uint_round_trip, read_array, read_map, read_u64, read_u8, uint_at, uint_bytes, MAP,
};
use crate::cbor::laws::{
    body_reads_as, body_round_trip, conforms, lemma_body_of, lemma_entries_start,
    message_round_trip, reads_as,
};
use crate::cbor::reader::{
    body_of, expect_body, message_at, read_codes, read_fields, read_limited_str,
    read_limited_strs, read_status, text_entry, texts_of, u64_entry, FieldTable,
};
use crate::common::error::MessageError;
use crate::common::type_key::type_key_bytes;
use crate::application::messages::codes::AgentCapability;
use vstd::prelude::*;

verus! {

/// The status of an agent.
///
/// ```cddl
/// status = { 0: text }
/// ```
#[derive(Debug, Clone, PartialEq, Eq)]
pub struct Status<'a> {
    pub status: &'a str,
}

/// What a message says of a status.
pub open spec fn status_entry(status: Option<Status>) -> Option<Value> {
    match status {
        Some(status) => Some(Value::Status(status.status@)),
        None => None,
    }
}


/// Asks for the information on an agent (type key 10).
///
/// ```cddl
/// agent-info-request = { 0: request-id }
/// ```
#[derive(Debug, Clone, Copy, PartialEq, Eq)]
pub struct AgentInfoRequest {
    pub request_id: u64,
}

impl AgentInfoRequest {
    /// The fields of this message.
    pub open spec fn schema() -> Seq<Field> {
        seq![
            required(Kind::Uint { limit: u64::MAX as nat }),
        ]
    }

    pub open spec fn layout() -> Layout {
        exactly(Self::schema())
    }

    /// What this message says of each field.
    pub open spec fn fields(&self) -> Table {
        seq![
            Some(Value::Uint(self.request_id as nat)),
        ]
    }

    /// The bytes of the body.
    pub open spec fn body(&self) -> Seq<u8> {
        body_bytes(Self::schema(), self.fields())
    }

    /// Appends this message to `buf`: its type key, then its body.
    pub fn encode<const N: usize>(&self, buf: &mut BoundedVec<u8, N>) -> (r: Result<
        (),
        MessageError,
    >)
        ensures
            is_appended(old(buf)@, final(buf)@, r, 10, self.body(), N as nat),
    {
        let mut body = Body::map(1);
        body.u64_field(0, self.request_id);
        proof {
            reveal_with_fuel(entries_bytes, 2);
            reveal_with_fuel(entry_count, 2);
        }
        append_message(10, &body, buf)
    }

    /// This message is read back from its bytes, whatever follows them.
    pub proof fn round_trip(self, rest: Seq<u8>)
        requires
            conforms(Self::schema(), self.fields()),
        ensures
            reads_as(
                10,
                Self::layout(),
                self.fields(),
                type_key_bytes(10) + self.body() + rest,
            ),
            body_reads_as(Self::layout(), self.fields(), self.body() + rest),
    {
        assert(1 <= entry_count(Self::schema(), self.fields(), 1) <= 1) by {
            reveal_with_fuel(entry_count, 2);
        }
        message_round_trip(10, Self::layout(), self.fields(), self.body(), rest);
    }

    /// Reads a message, starting with its type key.
    pub fn decode(data: &[u8]) -> (r: Result<Self, MessageError>)
        ensures
            match message_at(10, Self::layout(), data@) {
                Ok(table) => r matches Ok(message) && message.fields() == table,
                Err(e) => r == Err::<Self, MessageError>(e),
            },
    {
        match expect_body(10, data) {
            Ok(body) => Self::decode_body(body),
            Err(e) => Err(e),
        }
    }

    /// Reads the body of a message.
    pub fn decode_body(body: &[u8]) -> (r: Result<Self, MessageError>)
        ensures
            match body_at(Self::layout(), body@, 0) {
                Ok(table) => r matches Ok(message) && message.fields() == table,
                Err(e) => r == Err::<Self, MessageError>(e),
            },
    {
        let mut known = AgentInfoRequestFields {
            request_id: None,
        };
        proof {
            assert(known.table() =~= blank_table(Self::schema()));
        }
        match read_fields(&mut known, body, 0, 1, 1, MessageError::InvalidField) {
            Err(e) => return Err(e),
            Ok(_) => {},
        }
        let ghost table = known.table();
        match known.request_id {
            Some(request_id) => {
                let message = AgentInfoRequest { request_id };
                proof {
                    assert(message.fields() =~= table);
                }
                Ok(message)
            },
            _ => {
                proof {
                    assert(table[0] is None);
                }
                Err(MessageError::MissingField)
            },
        }
    }
}

/// What is known of the fields while a [`AgentInfoRequest`] is being read.
struct AgentInfoRequestFields {
    request_id: Option<u64>,
}

impl<'a> FieldTable<'a> for AgentInfoRequestFields {
    open spec fn schema() -> Seq<Field> {
        AgentInfoRequest::schema()
    }

    closed spec fn table(&self) -> Table {
        seq![
            u64_entry(self.request_id),
        ]
    }

    fn read_field(&mut self, key: u8, data: &'a [u8], pos: usize) -> (r: Result<
        usize,
        MessageError,
    >) {
        let ghost before = self.table();
        match key {
            0 => match read_u64(data, pos) {
                Err(e) => Err(e),
                Ok((n, next)) => {
                    self.request_id = Some(n);
                    proof {
                        assert(self.table() =~= before.update(0, Some(Value::Uint(n as nat))));
                    }
                    Ok(next)
                },
            },
            _ => Err(MessageError::InvalidField),
        }
    }
}

/// Asks for the status of an agent (type key 12).
///
/// ```cddl
/// agent-status-request = { request, ? 1: status }
/// ```
#[derive(Debug, Clone, PartialEq, Eq)]
pub struct AgentStatusRequest<'a> {
    pub request_id: u64,
    pub status: Option<Status<'a>>,
}

impl<'a> AgentStatusRequest<'a> {
    /// The fields of this message.
    pub open spec fn schema() -> Seq<Field> {
        seq![
            required(Kind::Uint { limit: u64::MAX as nat }),
            optional(Kind::Status),
        ]
    }

    pub open spec fn layout() -> Layout {
        Layout {
            fields: Self::schema(),
            min: 0,
            max: u64::MAX as nat,
            count_error: MessageError::DecodeFailed,
        }
    }

    /// What this message says of each field.
    pub open spec fn fields(&self) -> Table {
        seq![
            Some(Value::Uint(self.request_id as nat)),
            status_entry(self.status),
        ]
    }

    /// The bytes of the body.
    pub open spec fn body(&self) -> Seq<u8> {
        body_bytes(Self::schema(), self.fields())
    }

    /// Appends this message to `buf`: its type key, then its body.
    pub fn encode<const N: usize>(&self, buf: &mut BoundedVec<u8, N>) -> (r: Result<
        (),
        MessageError,
    >)
        ensures
            is_appended(old(buf)@, final(buf)@, r, 12, self.body(), N as nat),
    {
        let count: u64 = if self.status.is_none() {
            1
        } else {
            2
        };
        let mut body = Body::map(count);
        body.u64_field(0, self.request_id);
        if let Some(status) = &self.status {
            body.status_field(1, status.status);
        }
        proof {
            reveal_with_fuel(entries_bytes, 3);
            reveal_with_fuel(entry_count, 3);
        }
        append_message(12, &body, buf)
    }

    /// This message is read back from its bytes, whatever follows them.
    pub proof fn round_trip(self, rest: Seq<u8>)
        requires
            conforms(Self::schema(), self.fields()),
        ensures
            reads_as(
                12,
                Self::layout(),
                self.fields(),
                type_key_bytes(12) + self.body() + rest,
            ),
            body_reads_as(Self::layout(), self.fields(), self.body() + rest),
    {
        assert(0 <= entry_count(Self::schema(), self.fields(), 2) <= u64::MAX) by {
            reveal_with_fuel(entry_count, 3);
        }
        message_round_trip(12, Self::layout(), self.fields(), self.body(), rest);
    }

    /// Reads a message, starting with its type key.
    pub fn decode(data: &'a [u8]) -> (r: Result<Self, MessageError>)
        ensures
            match message_at(12, Self::layout(), data@) {
                Ok(table) => r matches Ok(message) && message.fields() == table,
                Err(e) => r == Err::<Self, MessageError>(e),
            },
    {
        match expect_body(12, data) {
            Ok(body) => Self::decode_body(body),
            Err(e) => Err(e),
        }
    }

    /// Reads the body of a message.
    pub fn decode_body(body: &'a [u8]) -> (r: Result<Self, MessageError>)
        ensures
            match body_at(Self::layout(), body@, 0) {
                Ok(table) => r matches Ok(message) && message.fields() == table,
                Err(e) => r == Err::<Self, MessageError>(e),
            },
    {
        let mut known = AgentStatusRequestFields {
            request_id: None,
            status: None,
        };
        proof {
            assert(known.table() =~= blank_table(Self::schema()));
        }
        match read_fields(&mut known, body, 0, 0, u64::MAX, MessageError::DecodeFailed) {
            Err(e) => return Err(e),
            Ok(_) => {},
        }
        let ghost table = known.table();
        match known.request_id {
            Some(request_id) => {
                let message = AgentStatusRequest { request_id, status: known.status };
                proof {
                    assert(message.fields() =~= table);
                }
                Ok(message)
            },
            _ => {
                proof {
                    assert(table[0] is None);
                }
                Err(MessageError::MissingField)
            },
        }
    }
}

/// What is known of the fields while a [`AgentStatusRequest`] is being read.
struct AgentStatusRequestFields<'a> {
    request_id: Option<u64>,
    status: Option<Status<'a>>,
}

impl<'a> FieldTable<'a> for AgentStatusRequestFields<'a> {
    open spec fn schema() -> Seq<Field> {
        AgentStatusRequest::schema()
    }

    closed spec fn table(&self) -> Table {
        seq![
            u64_entry(self.request_id),
            status_entry(self.status),
        ]
    }

    fn read_field(&mut self, key: u8, data: &'a [u8], pos: usize) -> (r: Result<
        usize,
        MessageError,
    >) {
        let ghost before = self.table();
        match key {
            0 => match read_u64(data, pos) {
                Err(e) => Err(e),
                Ok((n, next)) => {
                    self.request_id = Some(n);
                    proof {
                        assert(self.table() =~= before.update(0, Some(Value::Uint(n as nat))));
                    }
                    Ok(next)
                },
            },
            1 => match read_status(data, pos) {
                Err(e) => Err(e),
                Ok((status, next)) => {
                    self.status = Some(Status { status });
                    proof {
                        assert(self.table() =~= before.update(1, Some(Value::Status(status@))));
                    }
                    Ok(next)
                },
            },
            _ => Err(MessageError::InvalidField),
        }
    }
}

/// Answers a status request (type key 13).
///
/// ```cddl
/// agent-status-response = { response, ? 1: status }
/// ```
#[derive(Debug, Clone, PartialEq, Eq)]
pub struct AgentStatusResponse<'a> {
    pub request_id: u64,
    pub status: Option<Status<'a>>,
}

impl<'a> AgentStatusResponse<'a> {
    /// The fields of this message.
    pub open spec fn schema() -> Seq<Field> {
        seq![
            required(Kind::Uint { limit: u64::MAX as nat }),
            optional(Kind::Status),
        ]
    }

    pub open spec fn layout() -> Layout {
        Layout {
            fields: Self::schema(),
            min: 0,
            max: u64::MAX as nat,
            count_error: MessageError::DecodeFailed,
        }
    }

    /// What this message says of each field.
    pub open spec fn fields(&self) -> Table {
        seq![
            Some(Value::Uint(self.request_id as nat)),
            status_entry(self.status),
        ]
    }

    /// The bytes of the body.
    pub open spec fn body(&self) -> Seq<u8> {
        body_bytes(Self::schema(), self.fields())
    }

    /// Appends this message to `buf`: its type key, then its body.
    pub fn encode<const N: usize>(&self, buf: &mut BoundedVec<u8, N>) -> (r: Result<
        (),
        MessageError,
    >)
        ensures
            is_appended(old(buf)@, final(buf)@, r, 13, self.body(), N as nat),
    {
        let count: u64 = if self.status.is_none() {
            1
        } else {
            2
        };
        let mut body = Body::map(count);
        body.u64_field(0, self.request_id);
        if let Some(status) = &self.status {
            body.status_field(1, status.status);
        }
        proof {
            reveal_with_fuel(entries_bytes, 3);
            reveal_with_fuel(entry_count, 3);
        }
        append_message(13, &body, buf)
    }

    /// This message is read back from its bytes, whatever follows them.
    pub proof fn round_trip(self, rest: Seq<u8>)
        requires
            conforms(Self::schema(), self.fields()),
        ensures
            reads_as(
                13,
                Self::layout(),
                self.fields(),
                type_key_bytes(13) + self.body() + rest,
            ),
            body_reads_as(Self::layout(), self.fields(), self.body() + rest),
    {
        assert(0 <= entry_count(Self::schema(), self.fields(), 2) <= u64::MAX) by {
            reveal_with_fuel(entry_count, 3);
        }
        message_round_trip(13, Self::layout(), self.fields(), self.body(), rest);
    }

    /// Reads a message, starting with its type key.
    pub fn decode(data: &'a [u8]) -> (r: Result<Self, MessageError>)
        ensures
            match message_at(13, Self::layout(), data@) {
                Ok(table) => r matches Ok(message) && message.fields() == table,
                Err(e) => r == Err::<Self, MessageError>(e),
            },
    {
        match expect_body(13, data) {
            Ok(body) => Self::decode_body(body),
            Err(e) => Err(e),
        }
    }

    /// Reads the body of a message.
    pub fn decode_body(body: &'a [u8]) -> (r: Result<Self, MessageError>)
        ensures
            match body_at(Self::layout(), body@, 0) {
                Ok(table) => r matches Ok(message) && message.fields() == table,
                Err(e) => r == Err::<Self, MessageError>(e),
            },
    {
        let mut known = AgentStatusResponseFields {
            request_id: None,
            status: None,
        };
        proof {
            assert(known.table() =~= blank_table(Self::schema()));
        }
        match read_fields(&mut known, body, 0, 0, u64::MAX, MessageError::DecodeFailed) {
            Err(e) => return Err(e),
            Ok(_) => {},
        }
        let ghost table = known.table();
        match known.request_id {
            Some(request_id) => {
                let message = AgentStatusResponse { request_id, status: known.status };
                proof {
                    assert(message.fields() =~= table);
                }
                Ok(message)
            },
            _ => {
                proof {
                    assert(table[0] is None);
                }
                Err(MessageError::MissingField)
            },
        }
    }
}

/// What is known of the fields while a [`AgentStatusResponse`] is being read.
struct AgentStatusResponseFields<'a> {
    request_id: Option<u64>,
    status: Option<Status<'a>>,
}

impl<'a> FieldTable<'a> for AgentStatusResponseFields<'a> {
    open spec fn schema() -> Seq<Field> {
        AgentStatusResponse::schema()
    }

    closed spec fn table(&self) -> Table {
        seq![
            u64_entry(self.request_id),
            status_entry(self.status),
        ]
    }

    fn read_field(&mut self, key: u8, data: &'a [u8], pos: usize) -> (r: Result<
        usize,
        MessageError,
    >) {
        let ghost before = self.table();
        match key {
            0 => match read_u64(data, pos) {
                Err(e) => Err(e),
                Ok((n, next)) => {
                    self.request_id = Some(n);
                    proof {
                        assert(self.table() =~= before.update(0, Some(Value::Uint(n as nat))));
                    }
                    Ok(next)
                },
            },
            1 => match read_status(data, pos) {
                Err(e) => Err(e),
                Ok((status, next)) => {
                    self.status = Some(Status { status });
                    proof {
                        assert(self.table() =~= before.update(1, Some(Value::Status(status@))));
                    }
                    Ok(next)
                },
            },
            _ => Err(MessageError::InvalidField),
        }
    }
}

/// What there is to know about an agent.
///
/// ```cddl
/// agent-info = {
///   0: text ; display-name
///   1: text ; model-name
///   2: [* agent-capability] ; capabilities
///   3: text ; state-token
///   4: [* text] ; locales
/// }
/// ```
#[derive(Clone, PartialEq, Eq)]
pub struct AgentInfo<'a> {
    pub display_name: &'a str,
    pub model_name: &'a str,
    pub capabilities: BoundedVec<AgentCapability, 16>,
    pub state_token: &'a str,
    pub locales: BoundedVec<&'a str, 8>,
}

impl<'a> AgentInfo<'a> {
    /// The fields of an agent-info map.
    pub open spec fn schema() -> Seq<Field> {
        seq![
            required(Kind::Text { max: text_limit() }),
            required(Kind::Text { max: text_limit() }),
            optional(Kind::Codes { allowed: AgentCapability::codes(), cap: 16, grows: true }),
            required(Kind::Text { max: text_limit() }),
            optional(Kind::Texts { max: text_limit(), cap: 8, grows: true }),
        ]
    }

    /// The layout of an agent-info map in a message that reports a wrong number of entries
    /// as `count_error`.
    pub open spec fn layout(count_error: MessageError) -> Layout {
        Layout { fields: Self::schema(), min: 5, max: 5, count_error }
    }

    /// What this information says of each field.
    pub open spec fn fields(&self) -> Table {
        seq![
            Some(Value::Text(self.display_name@)),
            Some(Value::Text(self.model_name@)),
            Some(Value::Codes(codes_of(self.capabilities@))),
            Some(Value::Text(self.state_token@)),
            Some(Value::Texts(texts_of(self.locales@))),
        ]
    }

    /// The entries of the map behind `start`, which ends with its head.
    pub open spec fn entries(&self, start: Seq<u8>) -> Seq<u8> {
        entries_bytes(start, Self::schema(), self.fields(), 5)
    }

    /// The information is read back from the map that stands behind `before`.
    proof fn read_back(self, count_error: MessageError, before: Seq<u8>, rest: Seq<u8>)
        requires
            conforms(Self::schema(), self.fields()),
        ensures
            body_at(
                Self::layout(count_error),
                self.entries(before + head_bytes(MAP, 5)) + rest,
                before.len() as int,
            ) == Ok::<Table, MessageError>(self.fields()),
            stands_at(self.entries(before + head_bytes(MAP, 5)) + rest, 0, before),
    {
        let table = self.fields();
        let body = body_bytes(Self::schema(), table);
        let data = self.entries(before + head_bytes(MAP, 5)) + rest;
        reveal_with_fuel(entry_count, 6);
        lemma_entries_start(before, head_bytes(MAP, 5), Self::schema(), table, 5);
        assert(self.entries(before + head_bytes(MAP, 5)) == before + body);
        assert(data.subrange(before.len() as int, (before.len() + body.len()) as int) =~= body);
        assert(data.subrange(0, before.len() as int) =~= before);
        body_round_trip(Self::layout(count_error), table, data, before.len() as int);
    }

    /// Adds the agent-info map to a body.
    fn put(&self, body: &mut Body)
        ensures
            final(body)@ == self.entries(old(body)@ + head_bytes(MAP, 5)),
    {
        body.put_map(5);
        body.text_field(0, self.display_name);
        body.text_field(1, self.model_name);
        body.codes_field(2, self.capabilities.as_slice());
        body.text_field(3, self.state_token);
        body.texts_field(4, self.locales.as_slice());
        proof {
            reveal_with_fuel(entries_bytes, 6);
        }
    }

    /// Reads the agent-info map at `pos`.
    fn read(data: &'a [u8], pos: usize, count_error: MessageError) -> (r: Result<
        Self,
        MessageError,
    >)
        ensures
            match body_at(Self::layout(count_error), data@, pos as int) {
                Ok(table) => r matches Ok(info) && info.fields() == table,
                Err(e) => r == Err::<Self, MessageError>(e),
            },
    {
        let mut known = AgentInfoFields {
            display_name: None,
            model_name: None,
            capabilities: BoundedVec::new(),
            state_token: None,
            locales: BoundedVec::new(),
        };
        proof {
            assert(codes_of(known.capabilities@) =~= Seq::empty());
            assert(texts_of(known.locales@) =~= Seq::empty());
            assert(known.table() =~= blank_table(Self::schema()));
        }
        match read_fields(&mut known, data, pos, 5, 5, count_error) {
            Err(e) => return Err(e),
            Ok(_) => {},
        }
        let ghost table = known.table();
        match (known.display_name, known.model_name, known.state_token) {
            (Some(display_name), Some(model_name), Some(state_token)) => {
                let info = AgentInfo {
                    display_name,
                    model_name,
                    capabilities: known.capabilities,
                    state_token,
                    locales: known.locales,
                };
                proof {
                    assert(info.fields() =~= table);
                }
                Ok(info)
            },
            _ => {
                proof {
                    assert(table[0] is None || table[1] is None || table[3] is None);
                }
                Err(MessageError::MissingField)
            },
        }
    }
}

/// What is known of the fields while an [`AgentInfo`] is being read.
struct AgentInfoFields<'a> {
    display_name: Option<&'a str>,
    model_name: Option<&'a str>,
    capabilities: BoundedVec<AgentCapability, 16>,
    state_token: Option<&'a str>,
    locales: BoundedVec<&'a str, 8>,
}

impl<'a> FieldTable<'a> for AgentInfoFields<'a> {
    open spec fn schema() -> Seq<Field> {
        AgentInfo::schema()
    }

    closed spec fn table(&self) -> Table {
        seq![
            text_entry(self.display_name),
            text_entry(self.model_name),
            Some(Value::Codes(codes_of(self.capabilities@))),
            text_entry(self.state_token),
            Some(Value::Texts(texts_of(self.locales@))),
        ]
    }

    fn read_field(&mut self, key: u8, data: &'a [u8], pos: usize) -> (r: Result<
        usize,
        MessageError,
    >) {
        let ghost before = self.table();
        match key {
            0 => match read_limited_str(data, pos) {
                Err(e) => Err(e),
                Ok((text, next)) => {
                    self.display_name = Some(text);
                    proof {
                        assert(self.table() =~= before.update(0, Some(Value::Text(text@))));
                    }
                    Ok(next)
                },
            },
            1 => match read_limited_str(data, pos) {
                Err(e) => Err(e),
                Ok((text, next)) => {
                    self.model_name = Some(text);
                    proof {
                        assert(self.table() =~= before.update(1, Some(Value::Text(text@))));
                    }
                    Ok(next)
                },
            },
            2 => match read_array(data, pos) {
                Err(e) => Err(e),
                Ok((count, first)) => match read_codes(&mut self.capabilities, data, first, count) {
                    Err(e) => Err(e),
                    Ok(next) => {
                        proof {
                            assert(self.table() =~= before.update(2, Some(Value::Codes(codes_of(self.capabilities@)))));
                        }
                        Ok(next)
                    },
                },
            },
            3 => match read_limited_str(data, pos) {
                Err(e) => Err(e),
                Ok((text, next)) => {
                    self.state_token = Some(text);
                    proof {
                        assert(self.table() =~= before.update(3, Some(Value::Text(text@))));
                    }
                    Ok(next)
                },
            },
            4 => match read_array(data, pos) {
                Err(e) => Err(e),
                Ok((count, first)) => match read_limited_strs(&mut self.locales, data, first, count) {
                    Err(e) => Err(e),
                    Ok(next) => {
                        proof {
                            assert(self.table() =~= before.update(4, Some(Value::Texts(texts_of(self.locales@)))));
                        }
                        Ok(next)
                    },
                },
            },
            _ => Err(MessageError::InvalidField),
        }
    }
}

/// The position behind the map key at `pos`, which is the expected one.
pub open spec fn key_at(key: nat, data: Seq<u8>, pos: int) -> Result<int, MessageError> {
    match uint_at(u8::MAX as nat, data, pos) {
        None => Err(MessageError::DecodeFailed),
        Some((found, next)) => if found == key {
            Ok(next)
        } else {
            Err(MessageError::InvalidField)
        },
    }
}

/// The position behind the head of a map of `n` entries at `pos`.
pub open spec fn map_of_at(n: nat, count_error: MessageError, data: Seq<u8>, pos: int) -> Result<
    int,
    MessageError,
> {
    match collection_at(MAP, data, pos) {
        None => Err(MessageError::DecodeFailed),
        Some((count, next)) => if count == Some(n) {
            Ok(next)
        } else {
            Err(count_error)
        },
    }
}

fn expect_key(key: u8, data: &[u8], pos: usize) -> (r: Result<usize, MessageError>)
    ensures
        match key_at(key as nat, data@, pos as int) {
            Ok(next) => r matches Ok(end) && end == next && end <= data.len(),
            Err(e) => r == Err::<usize, MessageError>(e),
        },
{
    match read_u8(data, pos) {
        Err(e) => Err(e),
        Ok((found, next)) => {
            if found != key {
                return Err(MessageError::InvalidField);
            }
            Ok(next)
        },
    }
}

fn expect_map(n: u64, count_error: MessageError, data: &[u8], pos: usize) -> (r: Result<
    usize,
    MessageError,
>)
    ensures
        match map_of_at(n as nat, count_error, data@, pos as int) {
            Ok(next) => r matches Ok(end) && end == next && end <= data.len(),
            Err(e) => r == Err::<usize, MessageError>(e),
        },
{
    match read_map(data, pos) {
        Err(e) => Err(e),
        Ok((Some(count), next)) => {
            if count != n {
                return Err(count_error);
            }
            Ok(next)
        },
        Ok((None, _)) => Err(count_error),
    }
}

/// Answers an information request (type key 11). Its two entries stand in this order.
///
/// ```cddl
/// agent-info-response = { 0: request-id, 1: agent-info }
/// ```
#[derive(Clone, PartialEq, Eq)]
pub struct AgentInfoResponse<'a> {
    pub request_id: u64,
    pub agent_info: AgentInfo<'a>,
}

/// What an agent-info response says: the request id, then each field of the information.
pub open spec fn agent_info_response_at(data: Seq<u8>) -> Result<Table, MessageError> {
    match map_of_at(2, MessageError::InvalidField, data, 0) {
        Err(e) => Err(e),
        Ok(first) => match key_at(0, data, first) {
            Err(e) => Err(e),
            Ok(id_pos) => match uint_at(u64::MAX as nat, data, id_pos) {
                None => Err(MessageError::DecodeFailed),
                Some((request_id, second)) => match key_at(1, data, second) {
                    Err(e) => Err(e),
                    Ok(info_pos) => match body_at(
                        AgentInfo::layout(MessageError::InvalidField),
                        data,
                        info_pos,
                    ) {
                        Err(e) => Err(e),
                        Ok(table) => Ok(seq![Some(Value::Uint(request_id))] + table),
                    },
                },
            },
        },
    }
}

impl<'a> AgentInfoResponse<'a> {
    /// What this message says: the request id, then each field of the information.
    pub open spec fn fields(&self) -> Table {
        seq![Some(Value::Uint(self.request_id as nat))] + self.agent_info.fields()
    }

    /// The bytes of the body.
    pub open spec fn body(&self) -> Seq<u8> {
        self.agent_info.entries(
            head_bytes(MAP, 2) + uint_bytes(0) + uint_bytes(self.request_id as nat) + uint_bytes(1)
                + head_bytes(MAP, 5),
        )
    }

    /// This message is read back from its bytes, whatever follows them.
    pub proof fn round_trip(self, rest: Seq<u8>)
        requires
            conforms(AgentInfo::schema(), self.agent_info.fields()),
        ensures
            agent_info_response_at(self.body() + rest) == Ok::<Table, MessageError>(self.fields()),
            body_of(11, type_key_bytes(11) + self.body() + rest) == Ok::<Seq<u8>, MessageError>(
                self.body() + rest,
            ),
    {
        let data = self.body() + rest;
        let id = uint_bytes(self.request_id as nat);
        let head = head_bytes(MAP, 2);
        let before = head + uint_bytes(0) + id + uint_bytes(1);
        self.agent_info.read_back(MessageError::InvalidField, before, rest);
        lemma_stands_at_split(data, 0, head + uint_bytes(0) + id, uint_bytes(1));
        lemma_stands_at_split(data, 0, head + uint_bytes(0), id);
        lemma_stands_at_split(data, 0, head, uint_bytes(0));
        head_round_trip(MAP, 2, data, 0);
        uint_round_trip(u8::MAX as nat, 0, data, head.len() as int);
        uint_round_trip(
            u64::MAX as nat,
            self.request_id as nat,
            data,
            (head + uint_bytes(0)).len() as int,
        );
        uint_round_trip(u8::MAX as nat, 1, data, (head + uint_bytes(0) + id).len() as int);
        lemma_body_of(11, self.body(), rest);
    }

    /// Appends this message to `buf`: its type key, then its body.
    pub fn encode<const N: usize>(&self, buf: &mut BoundedVec<u8, N>) -> (r: Result<
        (),
        MessageError,
    >)
        ensures
            is_appended(old(buf)@, final(buf)@, r, 11, self.body(), N as nat),
    {
        let mut body = Body::map(2);
        body.u64_field(0, self.request_id);
        body.put_u8(1);
        self.agent_info.put(&mut body);
        append_message(11, &body, buf)
    }

    /// Reads a message, starting with its type key.
    pub fn decode(data: &'a [u8]) -> (r: Result<Self, MessageError>)
        ensures
            match body_of(11, data@) {
                Ok(body) => match agent_info_response_at(body) {
                    Ok(table) => r matches Ok(message) && message.fields() == table,
                    Err(e) => r == Err::<Self, MessageError>(e),
                },
                Err(e) => r == Err::<Self, MessageError>(e),
            },
    {
        match expect_body(11, data) {
            Ok(body) => Self::decode_body(body),
            Err(e) => Err(e),
        }
    }

    /// Reads the body of a message.
    pub fn decode_body(body: &'a [u8]) -> (r: Result<Self, MessageError>)
        ensures
            match agent_info_response_at(body@) {
                Ok(table) => r matches Ok(message) && message.fields() == table,
                Err(e) => r == Err::<Self, MessageError>(e),
            },
    {
        let first: usize = match expect_map(2, MessageError::InvalidField, body, 0) {
            Ok(next) => next,
            Err(e) => return Err(e),
        };
        let id_pos: usize = match expect_key(0, body, first) {
            Ok(next) => next,
            Err(e) => return Err(e),
        };
        let (request_id, second): (u64, usize) = match read_u64(body, id_pos) {
            Ok(found) => found,
            Err(e) => return Err(e),
        };
        let info_pos: usize = match expect_key(1, body, second) {
            Ok(next) => next,
            Err(e) => return Err(e),
        };
        match AgentInfo::read(body, info_pos, MessageError::InvalidField) {
            Ok(agent_info) => Ok(AgentInfoResponse { request_id, agent_info }),
            Err(e) => Err(e),
        }
    }
}

/// Tells that the information on an agent changed (type key 120).
///
/// ```cddl
/// agent-info-event = { 0: agent-info }
/// ```
#[derive(Clone, PartialEq, Eq)]
pub struct AgentInfoEvent<'a> {
    pub agent_info: AgentInfo<'a>,
}

/// What an agent-info event says: each field of the information.
pub open spec fn agent_info_event_at(data: Seq<u8>) -> Result<Table, MessageError> {
    match map_of_at(1, MessageError::DecodeFailed, data, 0) {
        Err(e) => Err(e),
        Ok(first) => match key_at(0, data, first) {
            Err(e) => Err(e),
            Ok(info_pos) => body_at(AgentInfo::layout(MessageError::DecodeFailed), data, info_pos),
        },
    }
}

impl<'a> AgentInfoEvent<'a> {
    /// What this message says: each field of the information.
    pub open spec fn fields(&self) -> Table {
        self.agent_info.fields()
    }

    /// The bytes of the body.
    pub open spec fn body(&self) -> Seq<u8> {
        self.agent_info.entries(head_bytes(MAP, 1) + uint_bytes(0) + head_bytes(MAP, 5))
    }

    /// This message is read back from its bytes, whatever follows them.
    pub proof fn round_trip(self, rest: Seq<u8>)
        requires
            conforms(AgentInfo::schema(), self.agent_info.fields()),
        ensures
            agent_info_event_at(self.body() + rest) == Ok::<Table, MessageError>(self.fields()),
            body_of(120, type_key_bytes(120) + self.body() + rest) == Ok::<Seq<u8>, MessageError>(
                self.body() + rest,
            ),
    {
        let data = self.body() + rest;
        let head = head_bytes(MAP, 1);
        self.agent_info.read_back(MessageError::DecodeFailed, head + uint_bytes(0), rest);
        lemma_stands_at_split(data, 0, head, uint_bytes(0));
        head_round_trip(MAP, 1, data, 0);
        uint_round_trip(u8::MAX as nat, 0, data, head.len() as int);
        lemma_body_of(120, self.body(), rest);
    }

    /// Appends this message to `buf`: its type key, then its body.
    pub fn encode<const N: usize>(&self, buf: &mut BoundedVec<u8, N>) -> (r: Result<
        (),
        MessageError,
    >)
        ensures
            is_appended(old(buf)@, final(buf)@, r, 120, self.body(), N as nat),
    {
        let mut body = Body::map(1);
        body.put_u8(0);
        self.agent_info.put(&mut body);
        append_message(120, &body, buf)
    }

    /// Reads a message, starting with its type key.
    pub fn decode(data: &'a [u8]) -> (r: Result<Self, MessageError>)
        ensures
            match body_of(120, data@) {
                Ok(body) => match agent_info_event_at(body) {
                    Ok(table) => r matches Ok(message) && message.fields() == table,
                    Err(e) => r == Err::<Self, MessageError>(e),
                },
                Err(e) => r == Err::<Self, MessageError>(e),
            },
    {
        match expect_body(120, data) {
            Ok(body) => Self::decode_body(body),
            Err(e) => Err(e),
        }
    }

    /// Reads the body of a message.
    pub fn decode_body(body: &'a [u8]) -> (r: Result<Self, MessageError>)
        ensures
            match agent_info_event_at(body@) {
                Ok(table) => r matches Ok(message) && message.fields() == table,
                Err(e) => r == Err::<Self, MessageError>(e),
            },
    {
        let first: usize = match expect_map(1, MessageError::DecodeFailed, body, 0) {
            Ok(next) => next,
            Err(e) => return Err(e),
        };
        let info_pos: usize = match expect_key(0, body, first) {
            Ok(next) => next,
            Err(e) => return Err(e),
        };
        match AgentInfo::read(body, info_pos, MessageError::DecodeFailed) {
            Ok(agent_info) => Ok(AgentInfoEvent { agent_info }),
            Err(e) => Err(e),
        }
    }
}

} // verus!
