//! The availability of URLs.
use crate::bounded::BoundedVec;
use crate::cbor::body::{append_message, is_appended, Body};
use crate::cbor::code::{codes_of, WireCode};
use crate::cbor::fields::{
    blank_table, body_at, body_bytes, entries_bytes, entry_count, exactly, required, Field,
    Kind, Layout, Table, Value,
};
use crate::cbor::item::{read_array, read_u64};
use crate::cbor::laws::{body_reads_as, conforms, message_round_trip, reads_as};
use crate::cbor::reader::{
    expect_body, message_at, read_codes, read_fields, read_strs, texts_of, u64_entry,
    FieldTable,
};
use crate::common::error::{MessageError, MAX_URLS};
use crate::common::type_key::type_key_bytes;
use crate::application::messages::codes::UrlAvailability;
use vstd::prelude::*;

verus! {

/// What is known of a list of URLs.
spec fn texts_entry(list: Option<BoundedVec<&str, MAX_URLS>>) -> Option<Value> {
    match list {
        Some(list) => Some(Value::Texts(texts_of(list@))),
        None => None,
    }
}

/// What is known of a list of availabilities.
spec fn codes_entry(list: Option<BoundedVec<UrlAvailability, MAX_URLS>>) -> Option<Value> {
    match list {
        Some(list) => Some(Value::Codes(codes_of(list@))),
        None => None,
    }
}


/// Asks whether URLs can be presented (type key 14).
///
/// ```cddl
/// presentation-url-availability-request = {
///   request
///   1: [1* text] ; urls
///   2: microseconds ; watch-duration
///   3: watch-id ; watch-id
/// }
/// ```
#[derive(Clone, PartialEq, Eq)]
pub struct PresentationUrlAvailabilityRequest<'a> {
    pub request_id: u64,
    pub urls: BoundedVec<&'a str, MAX_URLS>,
    pub watch_duration: u64,
    pub watch_id: u64,
}

impl<'a> PresentationUrlAvailabilityRequest<'a> {
    /// The fields of this message.
    pub open spec fn schema() -> Seq<Field> {
        seq![
            required(Kind::Uint { limit: u64::MAX as nat }),
            required(Kind::Texts { max: None, cap: MAX_URLS as nat, grows: false }),
            required(Kind::Uint { limit: u64::MAX as nat }),
            required(Kind::Uint { limit: u64::MAX as nat }),
        ]
    }

    pub open spec fn layout() -> Layout {
        exactly(Self::schema())
    }

    /// What this message says of each field.
    pub open spec fn fields(&self) -> Table {
        seq![
            Some(Value::Uint(self.request_id as nat)),
            Some(Value::Texts(texts_of(self.urls@))),
            Some(Value::Uint(self.watch_duration as nat)),
            Some(Value::Uint(self.watch_id as nat)),
        ]
    }

    /// The bytes of the body.
    pub open spec fn body(&self) -> Seq<u8> {
        body_bytes(Self::schema(), self.fields())
    }

    /// Appends this message to `buf`: its type key, then its body.
    pub fn encode<const N: usize>(&self, buf: &mut BoundedVec<u8, N>) -> (r: Result<
        (),
        MessageError,
    >)
        ensures
            is_appended(old(buf)@, final(buf)@, r, 14, self.body(), N as nat),
    {
        let mut body = Body::map(4);
        body.u64_field(0, self.request_id);
        body.texts_field(1, self.urls.as_slice());
        body.u64_field(2, self.watch_duration);
        body.u64_field(3, self.watch_id);
        proof {
            reveal_with_fuel(entries_bytes, 5);
            reveal_with_fuel(entry_count, 5);
        }
        append_message(14, &body, buf)
    }

    /// This message is read back from its bytes, whatever follows them.
    pub proof fn round_trip(self, rest: Seq<u8>)
        requires
            conforms(Self::schema(), self.fields()),
        ensures
            reads_as(
                14,
                Self::layout(),
                self.fields(),
                type_key_bytes(14) + self.body() + rest,
            ),
            body_reads_as(Self::layout(), self.fields(), self.body() + rest),
    {
        assert(4 <= entry_count(Self::schema(), self.fields(), 4) <= 4) by {
            reveal_with_fuel(entry_count, 5);
        }
        message_round_trip(14, Self::layout(), self.fields(), self.body(), rest);
    }

    /// Reads a message, starting with its type key.
    pub fn decode(data: &'a [u8]) -> (r: Result<Self, MessageError>)
        ensures
            match message_at(14, Self::layout(), data@) {
                Ok(table) => r matches Ok(message) && message.fields() == table,
                Err(e) => r == Err::<Self, MessageError>(e),
            },
    {
        match expect_body(14, data) {
            Ok(body) => Self::decode_body(body),
            Err(e) => Err(e),
        }
    }

    /// Reads the body of a message.
    pub fn decode_body(body: &'a [u8]) -> (r: Result<Self, MessageError>)
        ensures
            match body_at(Self::layout(), body@, 0) {
                Ok(table) => r matches Ok(message) && message.fields() == table,
                Err(e) => r == Err::<Self, MessageError>(e),
            },
    {
        let mut known = PresentationUrlAvailabilityRequestFields {
            request_id: None,
            urls: None,
            watch_duration: None,
            watch_id: None,
        };
        proof {
            assert(known.table() =~= blank_table(Self::schema()));
        }
        match read_fields(&mut known, body, 0, 4, 4, MessageError::InvalidField) {
            Err(e) => return Err(e),
            Ok(_) => {},
        }
        let ghost table = known.table();
        match (known.request_id, known.urls, known.watch_duration, known.watch_id) {
            (Some(request_id), Some(urls), Some(watch_duration), Some(watch_id)) => {
                let message = PresentationUrlAvailabilityRequest { request_id, urls, watch_duration, watch_id };
                proof {
                    assert(message.fields() =~= table);
                }
                Ok(message)
            },
            _ => {
                proof {
                    assert(table[0] is None || table[1] is None || table[2] is None || table[3] is None);
                }
                Err(MessageError::MissingField)
            },
        }
    }
}

/// What is known of the fields while a [`PresentationUrlAvailabilityRequest`] is being read.
struct PresentationUrlAvailabilityRequestFields<'a> {
    request_id: Option<u64>,
    urls: Option<BoundedVec<&'a str, MAX_URLS>>,
    watch_duration: Option<u64>,
    watch_id: Option<u64>,
}

impl<'a> FieldTable<'a> for PresentationUrlAvailabilityRequestFields<'a> {
    open spec fn schema() -> Seq<Field> {
        PresentationUrlAvailabilityRequest::schema()
    }

    closed spec fn table(&self) -> Table {
        seq![
            u64_entry(self.request_id),
            texts_entry(self.urls),
            u64_entry(self.watch_duration),
            u64_entry(self.watch_id),
        ]
    }

    fn read_field(&mut self, key: u8, data: &'a [u8], pos: usize) -> (r: Result<
        usize,
        MessageError,
    >) {
        let ghost before = self.table();
        match key {
            0 => match read_u64(data, pos) {
                Err(e) => Err(e),
                Ok((n, next)) => {
                    self.request_id = Some(n);
                    proof {
                        assert(self.table() =~= before.update(0, Some(Value::Uint(n as nat))));
                    }
                    Ok(next)
                },
            },
            1 => match read_array(data, pos) {
                Err(e) => Err(e),
                Ok((None, _)) => Err(MessageError::InvalidField),
                Ok((Some(count), first)) => {
                    let mut list: BoundedVec<&'a str, MAX_URLS> = BoundedVec::new();
                    proof {
                        assert(texts_of(list@) =~= Seq::empty());
                    }
                    match read_strs(&mut list, data, first, Some(count)) {
                        Err(e) => Err(e),
                        Ok(next) => {
                            let ghost value = Value::Texts(texts_of(list@));
                            self.urls = Some(list);
                            proof {
                                assert(self.table() =~= before.update(1, Some(value)));
                            }
                            Ok(next)
                        },
                    }
                },
            },
            2 => match read_u64(data, pos) {
                Err(e) => Err(e),
                Ok((n, next)) => {
                    self.watch_duration = Some(n);
                    proof {
                        assert(self.table() =~= before.update(2, Some(Value::Uint(n as nat))));
                    }
                    Ok(next)
                },
            },
            3 => match read_u64(data, pos) {
                Err(e) => Err(e),
                Ok((n, next)) => {
                    self.watch_id = Some(n);
                    proof {
                        assert(self.table() =~= before.update(3, Some(Value::Uint(n as nat))));
                    }
                    Ok(next)
                },
            },
            _ => Err(MessageError::InvalidField),
        }
    }
}

/// Answers an availability request (type key 15).
///
/// ```cddl
/// presentation-url-availability-response = {
///   response
///   1: [1* url-availability] ; url-availabilities
/// }
/// ```
#[derive(Clone, PartialEq, Eq)]
pub struct PresentationUrlAvailabilityResponse {
    pub request_id: u64,
    pub url_availabilities: BoundedVec<UrlAvailability, MAX_URLS>,
}

impl PresentationUrlAvailabilityResponse {
    /// The fields of this message.
    pub open spec fn schema() -> Seq<Field> {
        seq![
            required(Kind::Uint { limit: u64::MAX as nat }),
            required(Kind::Codes { allowed: UrlAvailability::codes(), cap: MAX_URLS as nat, grows: false }),
        ]
    }

    pub open spec fn layout() -> Layout {
        exactly(Self::schema())
    }

    /// What this message says of each field.
    pub open spec fn fields(&self) -> Table {
        seq![
            Some(Value::Uint(self.request_id as nat)),
            Some(Value::Codes(codes_of(self.url_availabilities@))),
        ]
    }

    /// The bytes of the body.
    pub open spec fn body(&self) -> Seq<u8> {
        body_bytes(Self::schema(), self.fields())
    }

    /// Appends this message to `buf`: its type key, then its body.
    pub fn encode<const N: usize>(&self, buf: &mut BoundedVec<u8, N>) -> (r: Result<
        (),
        MessageError,
    >)
        ensures
            is_appended(old(buf)@, final(buf)@, r, 15, self.body(), N as nat),
    {
        let mut body = Body::map(2);
        body.u64_field(0, self.request_id);
        body.codes_field(1, self.url_availabilities.as_slice());
        proof {
            reveal_with_fuel(entries_bytes, 3);
            reveal_with_fuel(entry_count, 3);
        }
        append_message(15, &body, buf)
    }

    /// This message is read back from its bytes, whatever follows them.
    pub proof fn round_trip(self, rest: Seq<u8>)
        requires
            conforms(Self::schema(), self.fields()),
        ensures
            reads_as(
                15,
                Self::layout(),
                self.fields(),
                type_key_bytes(15) + self.body() + rest,
            ),
            body_reads_as(Self::layout(), self.fields(), self.body() + rest),
    {
        assert(2 <= entry_count(Self::schema(), self.fields(), 2) <= 2) by {
            reveal_with_fuel(entry_count, 3);
        }
        message_round_trip(15, Self::layout(), self.fields(), self.body(), rest);
    }

    /// Reads a message, starting with its type key.
    pub fn decode(data: &[u8]) -> (r: Result<Self, MessageError>)
        ensures
            match message_at(15, Self::layout(), data@) {
                Ok(table) => r matches Ok(message) && message.fields() == table,
                Err(e) => r == Err::<Self, MessageError>(e),
            },
    {
        match expect_body(15, data) {
            Ok(body) => Self::decode_body(body),
            Err(e) => Err(e),
        }
    }

    /// Reads the body of a message.
    pub fn decode_body(body: &[u8]) -> (r: Result<Self, MessageError>)
        ensures
            match body_at(Self::layout(), body@, 0) {
                Ok(table) => r matches Ok(message) && message.fields() == table,
                Err(e) => r == Err::<Self, MessageError>(e),
            },
    {
        let mut known = PresentationUrlAvailabilityResponseFields {
            request_id: None,
            url_availabilities: None,
        };
        proof {
            assert(known.table() =~= blank_table(Self::schema()));
        }
        match read_fields(&mut known, body, 0, 2, 2, MessageError::InvalidField) {
            Err(e) => return Err(e),
            Ok(_) => {},
        }
        let ghost table = known.table();
        match (known.request_id, known.url_availabilities) {
            (Some(request_id), Some(url_availabilities)) => {
                let message = PresentationUrlAvailabilityResponse { request_id, url_availabilities };
                proof {
                    assert(message.fields() =~= table);
                }
                Ok(message)
            },
            _ => {
                proof {
                    assert(table[0] is None || table[1] is None);
                }
                Err(MessageError::MissingField)
            },
        }
    }
}

/// What is known of the fields while a [`PresentationUrlAvailabilityResponse`] is being read.
struct PresentationUrlAvailabilityResponseFields {
    request_id: Option<u64>,
    url_availabilities: Option<BoundedVec<UrlAvailability, MAX_URLS>>,
}

impl<'a> FieldTable<'a> for PresentationUrlAvailabilityResponseFields {
    open spec fn schema() -> Seq<Field> {
        PresentationUrlAvailabilityResponse::schema()
    }

    closed spec fn table(&self) -> Table {
        seq![
            u64_entry(self.request_id),
            codes_entry(self.url_availabilities),
        ]
    }

    fn read_field(&mut self, key: u8, data: &'a [u8], pos: usize) -> (r: Result<
        usize,
        MessageError,
    >) {
        let ghost before = self.table();
        match key {
            0 => match read_u64(data, pos) {
                Err(e) => Err(e),
                Ok((n, next)) => {
                    self.request_id = Some(n);
                    proof {
                        assert(self.table() =~= before.update(0, Some(Value::Uint(n as nat))));
                    }
                    Ok(next)
                },
            },
            1 => match read_array(data, pos) {
                Err(e) => Err(e),
                Ok((None, _)) => Err(MessageError::InvalidField),
                Ok((Some(count), first)) => {
                    let mut list: BoundedVec<UrlAvailability, MAX_URLS> = BoundedVec::new();
                    proof {
                        assert(codes_of(list@) =~= Seq::empty());
                    }
                    match read_codes(&mut list, data, first, Some(count)) {
                        Err(e) => Err(e),
                        Ok(next) => {
                            let ghost value = Value::Codes(codes_of(list@));
                            self.url_availabilities = Some(list);
                            proof {
                                assert(self.table() =~= before.update(1, Some(value)));
                            }
                            Ok(next)
                        },
                    }
                },
            },
            _ => Err(MessageError::InvalidField),
        }
    }
}

/// Tells that the availability of watched URLs changed (type key 103).
///
/// ```cddl
/// presentation-url-availability-event = {
///   0: watch-id ; watch-id
///   1: [1* url-availability] ; url-availabilities
/// }
/// ```
#[derive(Clone, PartialEq, Eq)]
pub struct PresentationUrlAvailabilityEvent {
    pub watch_id: u64,
    pub url_availabilities: BoundedVec<UrlAvailability, MAX_URLS>,
}

impl PresentationUrlAvailabilityEvent {
    /// The fields of this message.
    pub open spec fn schema() -> Seq<Field> {
        seq![
            required(Kind::Uint { limit: u64::MAX as nat }),
            required(Kind::Codes { allowed: UrlAvailability::codes(), cap: MAX_URLS as nat, grows: false }),
        ]
    }

    pub open spec fn layout() -> Layout {
        exactly(Self::schema())
    }

    /// What this message says of each field.
    pub open spec fn fields(&self) -> Table {
        seq![
            Some(Value::Uint(self.watch_id as nat)),
            Some(Value::Codes(codes_of(self.url_availabilities@))),
        ]
    }

    /// The bytes of the body.
    pub open spec fn body(&self) -> Seq<u8> {
        body_bytes(Self::schema(), self.fields())
    }

    /// Appends this message to `buf`: its type key, then its body.
    pub fn encode<const N: usize>(&self, buf: &mut BoundedVec<u8, N>) -> (r: Result<
        (),
        MessageError,
    >)
        ensures
            is_appended(old(buf)@, final(buf)@, r, 103, self.body(), N as nat),
    {
        let mut body = Body::map(2);
        body.u64_field(0, self.watch_id);
        body.codes_field(1, self.url_availabilities.as_slice());
        proof {
            reveal_with_fuel(entries_bytes, 3);
            reveal_with_fuel(entry_count, 3);
        }
        append_message(103, &body, buf)
    }

    /// This message is read back from its bytes, whatever follows them.
    pub proof fn round_trip(self, rest: Seq<u8>)
        requires
            conforms(Self::schema(), self.fields()),
        ensures
            reads_as(
                103,
                Self::layout(),
                self.fields(),
                type_key_bytes(103) + self.body() + rest,
            ),
            body_reads_as(Self::layout(), self.fields(), self.body() + rest),
    {
        assert(2 <= entry_count(Self::schema(), self.fields(), 2) <= 2) by {
            reveal_with_fuel(entry_count, 3);
        }
        message_round_trip(103, Self::layout(), self.fields(), self.body(), rest);
    }

    /// Reads a message, starting with its type key.
    pub fn decode(data: &[u8]) -> (r: Result<Self, MessageError>)
        ensures
            match message_at(103, Self::layout(), data@) {
                Ok(table) => r matches Ok(message) && message.fields() == table,
                Err(e) => r == Err::<Self, MessageError>(e),
            },
    {
        match expect_body(103, data) {
            Ok(body) => Self::decode_body(body),
            Err(e) => Err(e),
        }
    }

    /// Reads the body of a message.
    pub fn decode_body(body: &[u8]) -> (r: Result<Self, MessageError>)
        ensures
            match body_at(Self::layout(), body@, 0) {
                Ok(table) => r matches Ok(message) && message.fields() == table,
                Err(e) => r == Err::<Self, MessageError>(e),
            },
    {
        let mut known = PresentationUrlAvailabilityEventFields {
            watch_id: None,
            url_availabilities: None,
        };
        proof {
            assert(known.table() =~= blank_table(Self::schema()));
        }
        match read_fields(&mut known, body, 0, 2, 2, MessageError::InvalidField) {
            Err(e) => return Err(e),
            Ok(_) => {},
        }
        let ghost table = known.table();
        match (known.watch_id, known.url_availabilities) {
            (Some(watch_id), Some(url_availabilities)) => {
                let message = PresentationUrlAvailabilityEvent { watch_id, url_availabilities };
                proof {
                    assert(message.fields() =~= table);
                }
                Ok(message)
            },
            _ => {
                proof {
                    assert(table[0] is None || table[1] is None);
                }
                Err(MessageError::MissingField)
            },
        }
    }
}

/// What is known of the fields while a [`PresentationUrlAvailabilityEvent`] is being read.
struct PresentationUrlAvailabilityEventFields {
    watch_id: Option<u64>,
    url_availabilities: Option<BoundedVec<UrlAvailability, MAX_URLS>>,
}

impl<'a> FieldTable<'a> for PresentationUrlAvailabilityEventFields {
    open spec fn schema() -> Seq<Field> {
        PresentationUrlAvailabilityEvent::schema()
    }

    closed spec fn table(&self) -> Table {
        seq![
            u64_entry(self.watch_id),
            codes_entry(self.url_availabilities),
        ]
    }

    fn read_field(&mut self, key: u8, data: &'a [u8], pos: usize) -> (r: Result<
        usize,
        MessageError,
    >) {
        let ghost before = self.table();
        match key {
            0 => match read_u64(data, pos) {
                Err(e) => Err(e),
                Ok((n, next)) => {
                    self.watch_id = Some(n);
                    proof {
                        assert(self.table() =~= before.update(0, Some(Value::Uint(n as nat))));
                    }
                    Ok(next)
                },
            },
            1 => match read_array(data, pos) {
                Err(e) => Err(e),
                Ok((None, _)) => Err(MessageError::InvalidField),
                Ok((Some(count), first)) => {
                    let mut list: BoundedVec<UrlAvailability, MAX_URLS> = BoundedVec::new();
                    proof {
                        assert(codes_of(list@) =~= Seq::empty());
                    }
                    match read_codes(&mut list, data, first, Some(count)) {
                        Err(e) => Err(e),
                        Ok(next) => {
                            let ghost value = Value::Codes(codes_of(list@));
                            self.url_availabilities = Some(list);
                            proof {
                                assert(self.table() =~= before.update(1, Some(value)));
                            }
                            Ok(next)
                        },
                    }
                },
            },
            _ => Err(MessageError::InvalidField),
        }
    }
}

} // verus!
