//! Network protocol messages: authentication.
//!
//! A message is a type key, a variable-length integer as in RFC 9000, and a body, a CBOR map.
use crate::bounded::BoundedVec;
use crate::cbor::body::{append_message, is_appended, Body};
use crate::cbor::code::{codes_of, WireCode};
use crate::cbor::fields::{
    blank_table, body_at, body_bytes, entries_bytes, entry_count, exactly, required,
    value_at, value_bytes, Field, Kind, Layout, Presence, Table, Value,
};
use crate::cbor::item::{
    blob_round_trip, head_bytes, head_round_trip, lemma_stands_at_split, read_array, read_bytes,
    read_u32, stands_at, text_bytes, text_round_trip, uint_bytes, uint_round_trip, MAP,
};
use crate::cbor::laws::{
    body_reads_as, body_refused, conforms, lemma_body_of, message_round_trip, reads_as,
};
use crate::cbor::reader::{
    blob_entry, code_entry, expect_body, message_at, read_code, read_codes, read_fields,
    read_token, u32_entry, FieldTable,
};
use crate::common::error::MessageError;
use crate::common::type_key::{decode_type_key, type_key_bytes, type_key_of, type_key_round_trip};
use crate::common::quinn_varint::varint_round_trip;
use vstd::prelude::*;
use vstd::utf8::encode_utf8;

verus! {

/// Maximum size for a single CBOR message.
pub const MAX_MESSAGE_SIZE: usize = 1024;

/// Maximum length for text fields.
pub const MAX_STRING_LEN: usize = 256;

/// Maximum size for byte strings such as public keys.
pub const MAX_BYTES_LEN: usize = 64;

/// The types of network protocol messages.
#[derive(Debug, Clone, Copy, PartialEq, Eq, Structural)]
pub enum NetworkMessageType {
    AuthCapabilities,
    AuthSpake2Need,
    AuthSpake2Confirmation,
    AuthStatus,
    AuthSpake2Handshake,
}

impl NetworkMessageType {
    /// The type key of messages of this type.
    pub open spec fn key(self) -> u16 {
        match self {
            NetworkMessageType::AuthCapabilities => 1001,
            NetworkMessageType::AuthSpake2Need => 1002,
            NetworkMessageType::AuthSpake2Confirmation => 1003,
            NetworkMessageType::AuthStatus => 1004,
            NetworkMessageType::AuthSpake2Handshake => 1005,
        }
    }

    /// The type with this key.
    pub open spec fn with_key(key: u16) -> Option<Self> {
        if key == 1001 {
            Some(NetworkMessageType::AuthCapabilities)
        } else if key == 1002 {
            Some(NetworkMessageType::AuthSpake2Need)
        } else if key == 1003 {
            Some(NetworkMessageType::AuthSpake2Confirmation)
        } else if key == 1004 {
            Some(NetworkMessageType::AuthStatus)
        } else if key == 1005 {
            Some(NetworkMessageType::AuthSpake2Handshake)
        } else {
            None
        }
    }

    /// The type with this key.
    pub fn from_u16(value: u16) -> (r: Result<Self, MessageError>)
        ensures
            match Self::with_key(value) {
                Some(t) => r == Ok::<Self, MessageError>(t),
                None => r == Err::<Self, MessageError>(MessageError::InvalidMessageType),
            },
            value == 1001 <==> r == Ok::<Self, MessageError>(NetworkMessageType::AuthCapabilities),
            value == 1002 <==> r == Ok::<Self, MessageError>(NetworkMessageType::AuthSpake2Need),
            value == 1003 <==> r == Ok::<Self, MessageError>(NetworkMessageType::AuthSpake2Confirmation),
            value == 1004 <==> r == Ok::<Self, MessageError>(NetworkMessageType::AuthStatus),
            value == 1005 <==> r == Ok::<Self, MessageError>(NetworkMessageType::AuthSpake2Handshake),
    {
        match value {
            1001 => Ok(NetworkMessageType::AuthCapabilities),
            1002 => Ok(NetworkMessageType::AuthSpake2Need),
            1003 => Ok(NetworkMessageType::AuthSpake2Confirmation),
            1004 => Ok(NetworkMessageType::AuthStatus),
            1005 => Ok(NetworkMessageType::AuthSpake2Handshake),
            _ => Err(MessageError::InvalidMessageType),
        }
    }

    /// The type key of messages of this type.
    pub fn to_u16(self) -> (key: u16)
        ensures
            key == self.key(),
            self == NetworkMessageType::AuthCapabilities <==> key == 1001,
            self == NetworkMessageType::AuthSpake2Need <==> key == 1002,
            self == NetworkMessageType::AuthSpake2Confirmation <==> key == 1003,
            self == NetworkMessageType::AuthStatus <==> key == 1004,
            self == NetworkMessageType::AuthSpake2Handshake <==> key == 1005,
    {
        match self {
            NetworkMessageType::AuthCapabilities => 1001,
            NetworkMessageType::AuthSpake2Need => 1002,
            NetworkMessageType::AuthSpake2Confirmation => 1003,
            NetworkMessageType::AuthStatus => 1004,
            NetworkMessageType::AuthSpake2Handshake => 1005,
        }
    }

    /// Each type is the one that its key stands for, and a key stands for no more than one
    /// type.
    pub proof fn key_round_trip(self, key: u16)
        ensures
            Self::with_key(self.key()) == Some(self),
            Self::with_key(key) matches Some(t) ==> t.key() == key,
    {
    }

    /// The type keys of the protocol: each type is written with its own, and read from no
    /// other.
    pub proof fn protocol_keys(self, key: u16)
        ensures
            self == NetworkMessageType::AuthCapabilities <==> self.key() == 1001,
            key == 1001 <==> Self::with_key(key) == Some(NetworkMessageType::AuthCapabilities),
            self == NetworkMessageType::AuthSpake2Need <==> self.key() == 1002,
            key == 1002 <==> Self::with_key(key) == Some(NetworkMessageType::AuthSpake2Need),
            self == NetworkMessageType::AuthSpake2Confirmation <==> self.key() == 1003,
            key == 1003 <==> Self::with_key(key) == Some(NetworkMessageType::AuthSpake2Confirmation),
            self == NetworkMessageType::AuthStatus <==> self.key() == 1004,
            key == 1004 <==> Self::with_key(key) == Some(NetworkMessageType::AuthStatus),
            self == NetworkMessageType::AuthSpake2Handshake <==> self.key() == 1005,
            key == 1005 <==> Self::with_key(key) == Some(NetworkMessageType::AuthSpake2Handshake),
    {
    }
}

/// Where the pre-shared key stands.
///
/// ```cddl
/// spake2-psk-status = &(psk-needs-presentation: 0, psk-shown: 1, psk-input: 2)
/// ```
#[derive(Debug, Clone, Copy, PartialEq, Eq, Structural)]
pub enum Spake2PskStatus {
    PskNeedsPresentation,
    PskShown,
    PskInput,
}

impl WireCode for Spake2PskStatus {
    open spec fn code(self) -> u8 {
        match self {
            Spake2PskStatus::PskNeedsPresentation => 0,
            Spake2PskStatus::PskShown => 1,
            Spake2PskStatus::PskInput => 2,
        }
    }

    open spec fn codes() -> Set<u8> {
        set![0u8, 1, 2]
    }

    fn from_code(code: u8) -> (r: Result<Self, MessageError>) {
        Spake2PskStatus::from_u8(code)
    }

    fn to_code(self) -> (code: u8)
        ensures
            self == Spake2PskStatus::PskNeedsPresentation <==> code == 0,
            self == Spake2PskStatus::PskShown <==> code == 1,
            self == Spake2PskStatus::PskInput <==> code == 2,
    {
        match self {
            Spake2PskStatus::PskNeedsPresentation => 0,
            Spake2PskStatus::PskShown => 1,
            Spake2PskStatus::PskInput => 2,
        }
    }
}

impl Spake2PskStatus {
    /// The member with this code.
    pub fn from_u8(value: u8) -> (r: Result<Self, MessageError>)
        ensures
            match r {
                Ok(member) => Self::codes().contains(value) && member.code() == value,
                Err(e) => e == MessageError::InvalidField && !Self::codes().contains(value),
            },
            value == 0 <==> r == Ok::<Self, MessageError>(Spake2PskStatus::PskNeedsPresentation),
            value == 1 <==> r == Ok::<Self, MessageError>(Spake2PskStatus::PskShown),
            value == 2 <==> r == Ok::<Self, MessageError>(Spake2PskStatus::PskInput),
    {
        match value {
            0 => Ok(Spake2PskStatus::PskNeedsPresentation),
            1 => Ok(Spake2PskStatus::PskShown),
            2 => Ok(Spake2PskStatus::PskInput),
            _ => Err(MessageError::InvalidField),
        }
    }

    /// The numbers of the protocol: each member is written as its own, a member is read from
    /// each of these numbers, and from no other.
    pub proof fn protocol_numbers(self, code: u8)
        ensures
            self == Spake2PskStatus::PskNeedsPresentation <==> self.code() == 0,
            self == Spake2PskStatus::PskShown <==> self.code() == 1,
            self == Spake2PskStatus::PskInput <==> self.code() == 2,
            Self::codes().contains(code) <==> (code == 0 || code == 1 || code == 2),
    {
    }
}

/// Authentication initiation token.
///
/// ```cddl
/// auth-initiation-token = { ? 0: text }
/// ```
#[derive(Debug, Clone, PartialEq, Eq)]
pub struct AuthInitiationToken<'a> {
    pub token: Option<&'a str>,
}

impl<'a> AuthInitiationToken<'a> {
    /// The text of the token, if it has one.
    pub open spec fn text(self) -> Option<Seq<char>> {
        match self.token {
            Some(text) => Some(text@),
            None => None,
        }
    }
}

/// What is known of a token.
spec fn token_entry(token: Option<AuthInitiationToken>) -> Option<Value> {
    match token {
        Some(token) => Some(Value::Token(token.text())),
        None => None,
    }
}

/// How easy it is to enter a pre-shared key.
///
/// ```cddl
/// auth-psk-input-ease = &(input-unknown: 0, input-simple: 1, input-moderate: 2, input-hard: 3)
/// ```
#[derive(Debug, Clone, Copy, PartialEq, Eq, Structural)]
pub enum PskInputEase {
    Unknown,
    Simple,
    Moderate,
    Hard,
}

impl WireCode for PskInputEase {
    open spec fn code(self) -> u8 {
        match self {
            PskInputEase::Unknown => 0,
            PskInputEase::Simple => 1,
            PskInputEase::Moderate => 2,
            PskInputEase::Hard => 3,
        }
    }

    open spec fn codes() -> Set<u8> {
        set![0u8, 1, 2, 3]
    }

    fn from_code(code: u8) -> (r: Result<Self, MessageError>) {
        PskInputEase::from_u8(code)
    }

    fn to_code(self) -> (code: u8)
        ensures
            self == PskInputEase::Unknown <==> code == 0,
            self == PskInputEase::Simple <==> code == 1,
            self == PskInputEase::Moderate <==> code == 2,
            self == PskInputEase::Hard <==> code == 3,
    {
        match self {
            PskInputEase::Unknown => 0,
            PskInputEase::Simple => 1,
            PskInputEase::Moderate => 2,
            PskInputEase::Hard => 3,
        }
    }
}

impl PskInputEase {
    /// The member with this code.
    pub fn from_u8(value: u8) -> (r: Result<Self, MessageError>)
        ensures
            match r {
                Ok(member) => Self::codes().contains(value) && member.code() == value,
                Err(e) => e == MessageError::InvalidField && !Self::codes().contains(value),
            },
            value == 0 <==> r == Ok::<Self, MessageError>(PskInputEase::Unknown),
            value == 1 <==> r == Ok::<Self, MessageError>(PskInputEase::Simple),
            value == 2 <==> r == Ok::<Self, MessageError>(PskInputEase::Moderate),
            value == 3 <==> r == Ok::<Self, MessageError>(PskInputEase::Hard),
    {
        match value {
            0 => Ok(PskInputEase::Unknown),
            1 => Ok(PskInputEase::Simple),
            2 => Ok(PskInputEase::Moderate),
            3 => Ok(PskInputEase::Hard),
            _ => Err(MessageError::InvalidField),
        }
    }

    /// The numbers of the protocol: each member is written as its own, a member is read from
    /// each of these numbers, and from no other.
    pub proof fn protocol_numbers(self, code: u8)
        ensures
            self == PskInputEase::Unknown <==> self.code() == 0,
            self == PskInputEase::Simple <==> self.code() == 1,
            self == PskInputEase::Moderate <==> self.code() == 2,
            self == PskInputEase::Hard <==> self.code() == 3,
            Self::codes().contains(code) <==> (code == 0 || code == 1 || code == 2 || code == 3),
    {
    }
}

/// How a pre-shared key can be entered.
///
/// ```cddl
/// auth-psk-input-method = &(numeric: 0, qr-code: 1, nfc: 2)
/// ```
#[derive(Debug, Clone, Copy, PartialEq, Eq, Structural)]
pub enum PskInputMethod {
    Numeric,
    QrCode,
    Nfc,
}

impl WireCode for PskInputMethod {
    open spec fn code(self) -> u8 {
        match self {
            PskInputMethod::Numeric => 0,
            PskInputMethod::QrCode => 1,
            PskInputMethod::Nfc => 2,
        }
    }

    open spec fn codes() -> Set<u8> {
        set![0u8, 1, 2]
    }

    fn from_code(code: u8) -> (r: Result<Self, MessageError>) {
        PskInputMethod::from_u8(code)
    }

    fn to_code(self) -> (code: u8)
        ensures
            self == PskInputMethod::Numeric <==> code == 0,
            self == PskInputMethod::QrCode <==> code == 1,
            self == PskInputMethod::Nfc <==> code == 2,
    {
        match self {
            PskInputMethod::Numeric => 0,
            PskInputMethod::QrCode => 1,
            PskInputMethod::Nfc => 2,
        }
    }
}

impl PskInputMethod {
    /// The member with this code.
    pub fn from_u8(value: u8) -> (r: Result<Self, MessageError>)
        ensures
            match r {
                Ok(member) => Self::codes().contains(value) && member.code() == value,
                Err(e) => e == MessageError::InvalidField && !Self::codes().contains(value),
            },
            value == 0 <==> r == Ok::<Self, MessageError>(PskInputMethod::Numeric),
            value == 1 <==> r == Ok::<Self, MessageError>(PskInputMethod::QrCode),
            value == 2 <==> r == Ok::<Self, MessageError>(PskInputMethod::Nfc),
    {
        match value {
            0 => Ok(PskInputMethod::Numeric),
            1 => Ok(PskInputMethod::QrCode),
            2 => Ok(PskInputMethod::Nfc),
            _ => Err(MessageError::InvalidField),
        }
    }

    /// The numbers of the protocol: each member is written as its own, a member is read from
    /// each of these numbers, and from no other.
    pub proof fn protocol_numbers(self, code: u8)
        ensures
            self == PskInputMethod::Numeric <==> self.code() == 0,
            self == PskInputMethod::QrCode <==> self.code() == 1,
            self == PskInputMethod::Nfc <==> self.code() == 2,
            Self::codes().contains(code) <==> (code == 0 || code == 1 || code == 2),
    {
    }
}

/// How an authentication ended.
///
/// ```cddl
/// auth-status-code = &(ok: 0, authentication-failed: 1, unknown-error: 2, timeout: 3,
///   secret-unknown: 4, proof-invalid: 5)
/// ```
#[derive(Debug, Clone, Copy, PartialEq, Eq, Structural)]
pub enum AuthStatusCode {
    Okay,
    AuthenticationFailed,
    UnknownError,
    Timeout,
    SecretUnknown,
    ProofInvalid,
}

impl WireCode for AuthStatusCode {
    open spec fn code(self) -> u8 {
        match self {
            AuthStatusCode::Okay => 0,
            AuthStatusCode::AuthenticationFailed => 1,
            AuthStatusCode::UnknownError => 2,
            AuthStatusCode::Timeout => 3,
            AuthStatusCode::SecretUnknown => 4,
            AuthStatusCode::ProofInvalid => 5,
        }
    }

    open spec fn codes() -> Set<u8> {
        set![0u8, 1, 2, 3, 4, 5]
    }

    fn from_code(code: u8) -> (r: Result<Self, MessageError>) {
        AuthStatusCode::from_u8(code)
    }

    fn to_code(self) -> (code: u8)
        ensures
            self == AuthStatusCode::Okay <==> code == 0,
            self == AuthStatusCode::AuthenticationFailed <==> code == 1,
            self == AuthStatusCode::UnknownError <==> code == 2,
            self == AuthStatusCode::Timeout <==> code == 3,
            self == AuthStatusCode::SecretUnknown <==> code == 4,
            self == AuthStatusCode::ProofInvalid <==> code == 5,
    {
        match self {
            AuthStatusCode::Okay => 0,
            AuthStatusCode::AuthenticationFailed => 1,
            AuthStatusCode::UnknownError => 2,
            AuthStatusCode::Timeout => 3,
            AuthStatusCode::SecretUnknown => 4,
            AuthStatusCode::ProofInvalid => 5,
        }
    }
}

impl AuthStatusCode {
    /// The member with this code.
    pub fn from_u8(value: u8) -> (r: Result<Self, MessageError>)
        ensures
            match r {
                Ok(member) => Self::codes().contains(value) && member.code() == value,
                Err(e) => e == MessageError::InvalidField && !Self::codes().contains(value),
            },
            value == 0 <==> r == Ok::<Self, MessageError>(AuthStatusCode::Okay),
            value == 1 <==> r == Ok::<Self, MessageError>(AuthStatusCode::AuthenticationFailed),
            value == 2 <==> r == Ok::<Self, MessageError>(AuthStatusCode::UnknownError),
            value == 3 <==> r == Ok::<Self, MessageError>(AuthStatusCode::Timeout),
            value == 4 <==> r == Ok::<Self, MessageError>(AuthStatusCode::SecretUnknown),
            value == 5 <==> r == Ok::<Self, MessageError>(AuthStatusCode::ProofInvalid),
    {
        match value {
            0 => Ok(AuthStatusCode::Okay),
            1 => Ok(AuthStatusCode::AuthenticationFailed),
            2 => Ok(AuthStatusCode::UnknownError),
            3 => Ok(AuthStatusCode::Timeout),
            4 => Ok(AuthStatusCode::SecretUnknown),
            5 => Ok(AuthStatusCode::ProofInvalid),
            _ => Err(MessageError::InvalidField),
        }
    }

    /// The numbers of the protocol: each member is written as its own, a member is read from
    /// each of these numbers, and from no other.
    pub proof fn protocol_numbers(self, code: u8)
        ensures
            self == AuthStatusCode::Okay <==> self.code() == 0,
            self == AuthStatusCode::AuthenticationFailed <==> self.code() == 1,
            self == AuthStatusCode::UnknownError <==> self.code() == 2,
            self == AuthStatusCode::Timeout <==> self.code() == 3,
            self == AuthStatusCode::SecretUnknown <==> self.code() == 4,
            self == AuthStatusCode::ProofInvalid <==> self.code() == 5,
            Self::codes().contains(code) <==> (code == 0 || code == 1 || code == 2 || code == 3 || code == 4 || code == 5),
    {
    }
}

/// What an agent offers for authentication (type key 1001).
///
/// ```cddl
/// auth-capabilities = {
///   0: auth-psk-input-ease
///   ? 1: [* auth-psk-input-method]
///   2: uint ; psk-min-bits-of-entropy
/// }
/// ```
#[derive(Clone, PartialEq, Eq)]
pub struct AuthCapabilities {
    pub psk_input_ease: PskInputEase,
    pub psk_input_methods: BoundedVec<PskInputMethod, 8>,
    pub psk_min_bits_of_entropy: u32,
}

impl AuthCapabilities {
    /// The fields of this message.
    pub open spec fn schema() -> Seq<Field> {
        seq![
            required(Kind::Code { allowed: PskInputEase::codes() }),
            Field { kind: Kind::Codes { allowed: PskInputMethod::codes(), cap: 8, grows: true }, presence: Presence::NonEmpty },
            required(Kind::Uint { limit: u32::MAX as nat }),
        ]
    }

    pub open spec fn layout() -> Layout {
        Layout {
            fields: Self::schema(),
            min: 2,
            max: 3,
            count_error: MessageError::InvalidField,
        }
    }

    /// What this message says of each field.
    pub open spec fn fields(&self) -> Table {
        seq![
            Some(Value::Uint(self.psk_input_ease.code() as nat)),
            Some(Value::Codes(codes_of(self.psk_input_methods@))),
            Some(Value::Uint(self.psk_min_bits_of_entropy as nat)),
        ]
    }

    /// The bytes of the body.
    pub open spec fn body(&self) -> Seq<u8> {
        body_bytes(Self::schema(), self.fields())
    }

    /// Appends this message to `buf`: its type key, then its body.
    pub fn encode<const N: usize>(&self, buf: &mut BoundedVec<u8, N>) -> (r: Result<
        (),
        MessageError,
    >)
        ensures
            is_appended(old(buf)@, final(buf)@, r, 1001, self.body(), N as nat),
            conforms(Self::schema(), self.fields()),
    {
        let methods = self.psk_input_methods.as_slice();
        proof {
            let codes = codes_of(methods@);
            assert forall|i: int| 0 <= i < codes.len() implies PskInputMethod::codes().contains(
                #[trigger] codes[i],
            ) by {
                assert(codes[i] == methods@[i].code());
            }
        }
        let count: u64 = if methods.len() == 0 {
            2
        } else {
            3
        };
        let mut body = Body::map(count);
        body.code_field(0, self.psk_input_ease.to_code());
        if methods.len() > 0 {
            body.codes_field(1, methods);
        }
        body.u32_field(2, self.psk_min_bits_of_entropy);
        proof {
            reveal_with_fuel(entries_bytes, 4);
            reveal_with_fuel(entry_count, 4);
        }
        append_message(1001, &body, buf)
    }

    /// This message is read back from its bytes, whatever follows them.
    pub proof fn round_trip(self, rest: Seq<u8>)
        requires
            conforms(Self::schema(), self.fields()),
        ensures
            reads_as(
                1001,
                Self::layout(),
                self.fields(),
                type_key_bytes(1001) + self.body() + rest,
            ),
            body_reads_as(Self::layout(), self.fields(), self.body() + rest),
    {
        assert(2 <= entry_count(Self::schema(), self.fields(), 3) <= 3) by {
            reveal_with_fuel(entry_count, 4);
        }
        message_round_trip(1001, Self::layout(), self.fields(), self.body(), rest);
    }

    /// Reads a message, starting with its type key.
    pub fn decode(data: &[u8]) -> (r: Result<Self, MessageError>)
        ensures
            match message_at(1001, Self::layout(), data@) {
                Ok(table) => r matches Ok(message) && message.fields() == table,
                Err(e) => r == Err::<Self, MessageError>(e),
            },
    {
        match expect_body(1001, data) {
            Ok(body) => Self::decode_body(body),
            Err(e) => Err(e),
        }
    }

    /// Reads the body of a message.
    pub fn decode_body(body: &[u8]) -> (r: Result<Self, MessageError>)
        ensures
            match body_at(Self::layout(), body@, 0) {
                Ok(table) => r matches Ok(message) && message.fields() == table,
                Err(e) => r == Err::<Self, MessageError>(e),
            },
    {
        let mut known = AuthCapabilitiesFields {
            psk_input_ease: None,
            psk_input_methods: BoundedVec::new(),
            psk_min_bits_of_entropy: None,
        };
        proof {
            assert(codes_of(known.psk_input_methods@) =~= Seq::empty());
            assert(known.table() =~= blank_table(Self::schema()));
        }
        match read_fields(&mut known, body, 0, 2, 3, MessageError::InvalidField) {
            Err(e) => return Err(e),
            Ok(_) => {},
        }
        let ghost table = known.table();
        match (known.psk_input_ease, known.psk_min_bits_of_entropy) {
            (Some(psk_input_ease), Some(psk_min_bits_of_entropy)) => {
                let message = AuthCapabilities { psk_input_ease, psk_input_methods: known.psk_input_methods, psk_min_bits_of_entropy };
                proof {
                    assert(message.fields() =~= table);
                }
                Ok(message)
            },
            _ => {
                proof {
                    assert(table[0] is None || table[2] is None);
                }
                Err(MessageError::MissingField)
            },
        }
    }
}

/// What is known of the fields while a [`AuthCapabilities`] is being read.
struct AuthCapabilitiesFields {
    psk_input_ease: Option<PskInputEase>,
    psk_input_methods: BoundedVec<PskInputMethod, 8>,
    psk_min_bits_of_entropy: Option<u32>,
}

impl<'a> FieldTable<'a> for AuthCapabilitiesFields {
    open spec fn schema() -> Seq<Field> {
        AuthCapabilities::schema()
    }

    closed spec fn table(&self) -> Table {
        seq![
            code_entry(self.psk_input_ease),
            Some(Value::Codes(codes_of(self.psk_input_methods@))),
            u32_entry(self.psk_min_bits_of_entropy),
        ]
    }

    fn read_field(&mut self, key: u8, data: &'a [u8], pos: usize) -> (r: Result<
        usize,
        MessageError,
    >) {
        let ghost before = self.table();
        match key {
            0 => match read_code::<PskInputEase>(data, pos) {
                Err(e) => Err(e),
                Ok((member, next)) => {
                    self.psk_input_ease = Some(member);
                    proof {
                        assert(self.table() =~= before.update(0, Some(Value::Uint(member.code() as nat))));
                    }
                    Ok(next)
                },
            },
            1 => match read_array(data, pos) {
                Err(e) => Err(e),
                Ok((count, first)) => match read_codes(&mut self.psk_input_methods, data, first, count) {
                    Err(e) => Err(e),
                    Ok(next) => {
                        proof {
                            assert(self.table() =~= before.update(1, Some(Value::Codes(codes_of(self.psk_input_methods@)))));
                        }
                        Ok(next)
                    },
                },
            },
            2 => match read_u32(data, pos) {
                Err(e) => Err(e),
                Ok((n, next)) => {
                    self.psk_min_bits_of_entropy = Some(n);
                    proof {
                        assert(self.table() =~= before.update(2, Some(Value::Uint(n as nat))));
                    }
                    Ok(next)
                },
            },
            _ => Err(MessageError::InvalidField),
        }
    }
}

/// A token that is too long is refused.
proof fn lemma_long_token(text: Seq<char>, data: Seq<u8>, pos: int)
    requires
        MAX_STRING_LEN < encode_utf8(text).len() <= u64::MAX,
        stands_at(data, pos, value_bytes(Value::Token(Some(text)))),
    ensures
        value_at(Kind::Token, None, data, pos) == Err::<(Value, int), MessageError>(
            MessageError::FieldTooLong,
        ),
{
    let head = head_bytes(MAP, 1);
    lemma_stands_at_split(data, pos, head + uint_bytes(0), text_bytes(text));
    lemma_stands_at_split(data, pos, head, uint_bytes(0));
    head_round_trip(MAP, 1, data, pos);
    uint_round_trip(u8::MAX as nat, 0, data, pos + head.len());
    text_round_trip(text, data, pos + head.len() + uint_bytes(0).len());
}

/// The public value of one side of the key exchange (type key 1005).
///
/// ```cddl
/// auth-spake2-handshake = {
///   0: auth-initiation-token
///   1: spake2-psk-status
///   2: bytes ; public-value
/// }
/// ```
#[derive(Debug, Clone, PartialEq, Eq)]
pub struct AuthSpake2Handshake<'a> {
    pub initiation_token: AuthInitiationToken<'a>,
    pub psk_status: Spake2PskStatus,
    pub public_value: &'a [u8],
}

impl<'a> AuthSpake2Handshake<'a> {
    /// The fields of this message.
    pub open spec fn schema() -> Seq<Field> {
        seq![
            required(Kind::Token),
            required(Kind::Code { allowed: Spake2PskStatus::codes() }),
            required(Kind::Blob { max: Some(MAX_BYTES_LEN as nat) }),
        ]
    }

    pub open spec fn layout() -> Layout {
        exactly(Self::schema())
    }

    /// What this message says of each field.
    pub open spec fn fields(&self) -> Table {
        seq![
            Some(Value::Token(self.initiation_token.text())),
            Some(Value::Uint(self.psk_status.code() as nat)),
            Some(Value::Blob(self.public_value@)),
        ]
    }

    /// The bytes of the body.
    pub open spec fn body(&self) -> Seq<u8> {
        body_bytes(Self::schema(), self.fields())
    }

    /// Appends this message to `buf`: its type key, then its body.
    pub fn encode<const N: usize>(&self, buf: &mut BoundedVec<u8, N>) -> (r: Result<
        (),
        MessageError,
    >)
        ensures
            is_appended(old(buf)@, final(buf)@, r, 1005, self.body(), N as nat),
    {
        let mut body = Body::map(3);
        body.token_field(0, self.initiation_token.token);
        body.code_field(1, self.psk_status.to_code());
        body.bytes_field(2, self.public_value);
        proof {
            reveal_with_fuel(entries_bytes, 4);
            reveal_with_fuel(entry_count, 4);
        }
        append_message(1005, &body, buf)
    }

    /// This message is read back from its bytes, whatever follows them.
    pub proof fn round_trip(self, rest: Seq<u8>)
        requires
            conforms(Self::schema(), self.fields()),
        ensures
            reads_as(
                1005,
                Self::layout(),
                self.fields(),
                type_key_bytes(1005) + self.body() + rest,
            ),
            body_reads_as(Self::layout(), self.fields(), self.body() + rest),
    {
        assert(3 <= entry_count(Self::schema(), self.fields(), 3) <= 3) by {
            reveal_with_fuel(entry_count, 4);
        }
        message_round_trip(1005, Self::layout(), self.fields(), self.body(), rest);
    }

    /// Whether a field is longer than a reader allows.
    pub open spec fn is_oversized(&self) -> bool {
        self.has_long_token() || self.public_value@.len() > MAX_BYTES_LEN
    }

    /// The text of the token is no longer than the body.
    proof fn lemma_lengths(self)
        ensures
            self.initiation_token.text() matches Some(text) ==> encode_utf8(text).len()
                <= self.body().len(),
    {
        reveal_with_fuel(entries_bytes, 4);
        reveal_with_fuel(entry_count, 4);
    }

    /// Whether the token is longer than a reader allows.
    pub open spec fn has_long_token(&self) -> bool {
        self.initiation_token.text() matches Some(text) && encode_utf8(text).len()
            > MAX_STRING_LEN
    }

    /// A handshake whose token or public value is too long is refused, whatever follows it.
    pub proof fn oversized_is_refused(self, rest: Seq<u8>)
        requires
            self.is_oversized(),
            self.initiation_token.text() matches Some(text) ==> encode_utf8(text).len()
                <= u64::MAX,
        ensures
            message_at(1005, Self::layout(), type_key_bytes(1005) + self.body() + rest) == Err::<
                Table,
                MessageError,
            >(MessageError::FieldTooLong),
            body_at(Self::layout(), self.body() + rest, 0) == Err::<Table, MessageError>(
                MessageError::FieldTooLong,
            ),
    {
        let data = self.body() + rest;
        lemma_body_of(1005, self.body(), rest);
        assert(data.subrange(0, self.body().len() as int) =~= self.body());
        if self.public_value@.len() > MAX_BYTES_LEN && !self.has_long_token() {
            self.lemma_long_public(data);
        } else {
            self.lemma_long_token(data);
        }
    }

    proof fn lemma_long_token(self, data: Seq<u8>)
        requires
            self.has_long_token(),
            self.initiation_token.text() matches Some(text) ==> encode_utf8(text).len()
                <= u64::MAX,
            stands_at(data, 0, self.body()),
        ensures
            body_at(Self::layout(), data, 0) == Err::<Table, MessageError>(
                MessageError::FieldTooLong,
            ),
    {
        let table = self.fields();
        let head = head_bytes(MAP, 3);
        let token = value_bytes(table[0]->0);
        assert(entry_count(Self::schema(), table, 3) == 3) by {
            reveal_with_fuel(entry_count, 4);
        }
        let first = head + uint_bytes(0) + token;
        assert(first.is_prefix_of(self.body())) by {
            reveal_with_fuel(entries_bytes, 4);
        }
        let others = self.body().skip(first.len() as int);
        assert(self.body() =~= first + others);
        lemma_stands_at_split(data, 0, first, others);
        lemma_stands_at_split(data, 0, head + uint_bytes(0), token);
        lemma_long_token(
            self.initiation_token.text()->0,
            data,
            (head + uint_bytes(0)).len() as int,
        );
        assert(entries_bytes(head, Self::schema(), table, 0) == head);
        body_refused(Self::layout(), table, 0, MessageError::FieldTooLong, data, 0);
    }

    proof fn lemma_long_public(self, data: Seq<u8>)
        requires
            !self.has_long_token(),
            self.public_value@.len() > MAX_BYTES_LEN,
            stands_at(data, 0, self.body()),
        ensures
            body_at(Self::layout(), data, 0) == Err::<Table, MessageError>(
                MessageError::FieldTooLong,
            ),
    {
        let table = self.fields();
        let head = head_bytes(MAP, 3);
        let public = value_bytes(table[2]->0);
        assert(entry_count(Self::schema(), table, 3) == 3) by {
            reveal_with_fuel(entry_count, 4);
        }
        let second = entries_bytes(head, Self::schema(), table, 2);
        assert(self.body() == second + uint_bytes(2) + public);
        lemma_stands_at_split(data, 0, second + uint_bytes(2), public);
        assert(self.public_value@.len() == self.public_value.len());
        blob_round_trip(
            self.public_value@,
            data,
            (second + uint_bytes(2)).len() as int,
        );
        body_refused(Self::layout(), table, 2, MessageError::FieldTooLong, data, 0);
    }

    /// Reads a message, starting with its type key.
    pub fn decode(data: &'a [u8]) -> (r: Result<Self, MessageError>)
        ensures
            match message_at(1005, Self::layout(), data@) {
                Ok(table) => r matches Ok(message) && message.fields() == table,
                Err(e) => r == Err::<Self, MessageError>(e),
            },
    {
        match expect_body(1005, data) {
            Ok(body) => Self::decode_body(body),
            Err(e) => Err(e),
        }
    }

    /// Reads the body of a message.
    pub fn decode_body(body: &'a [u8]) -> (r: Result<Self, MessageError>)
        ensures
            match body_at(Self::layout(), body@, 0) {
                Ok(table) => r matches Ok(message) && message.fields() == table,
                Err(e) => r == Err::<Self, MessageError>(e),
            },
    {
        let mut known = AuthSpake2HandshakeFields {
            initiation_token: None,
            psk_status: None,
            public_value: None,
        };
        proof {
            assert(known.table() =~= blank_table(Self::schema()));
        }
        match read_fields(&mut known, body, 0, 3, 3, MessageError::InvalidField) {
            Err(e) => return Err(e),
            Ok(_) => {},
        }
        let ghost table = known.table();
        match (known.initiation_token, known.psk_status, known.public_value) {
            (Some(initiation_token), Some(psk_status), Some(public_value)) => {
                let message = AuthSpake2Handshake { initiation_token, psk_status, public_value };
                proof {
                    assert(message.fields() =~= table);
                }
                Ok(message)
            },
            _ => {
                proof {
                    assert(table[0] is None || table[1] is None || table[2] is None);
                }
                Err(MessageError::MissingField)
            },
        }
    }
}

/// What is known of the fields while a [`AuthSpake2Handshake`] is being read.
struct AuthSpake2HandshakeFields<'a> {
    initiation_token: Option<AuthInitiationToken<'a>>,
    psk_status: Option<Spake2PskStatus>,
    public_value: Option<&'a [u8]>,
}

impl<'a> FieldTable<'a> for AuthSpake2HandshakeFields<'a> {
    open spec fn schema() -> Seq<Field> {
        AuthSpake2Handshake::schema()
    }

    closed spec fn table(&self) -> Table {
        seq![
            token_entry(self.initiation_token),
            code_entry(self.psk_status),
            blob_entry(self.public_value),
        ]
    }

    fn read_field(&mut self, key: u8, data: &'a [u8], pos: usize) -> (r: Result<
        usize,
        MessageError,
    >) {
        let ghost before = self.table();
        match key {
            0 => match read_token(data, pos) {
                Err(e) => Err(e),
                Ok((token, next)) => {
                    self.initiation_token = Some(AuthInitiationToken { token });
                    proof {
                        assert(self.table() =~= before.update(0, Some(Value::Token((AuthInitiationToken { token }).text()))));
                    }
                    Ok(next)
                },
            },
            1 => match read_code::<Spake2PskStatus>(data, pos) {
                Err(e) => Err(e),
                Ok((member, next)) => {
                    self.psk_status = Some(member);
                    proof {
                        assert(self.table() =~= before.update(1, Some(Value::Uint(member.code() as nat))));
                    }
                    Ok(next)
                },
            },
            2 => match read_bytes(data, pos) {
                Err(e) => Err(e),
                Ok((content, next)) => {
                    if content.len() > MAX_BYTES_LEN {
                        return Err(MessageError::FieldTooLong);
                    }
                    self.public_value = Some(content);
                    proof {
                        assert(self.table() =~= before.update(2, Some(Value::Blob(content@))));
                    }
                    Ok(next)
                },
            },
            _ => Err(MessageError::InvalidField),
        }
    }
}

/// The proof that one side derived the same key (type key 1003).
///
/// ```cddl
/// auth-spake2-confirmation = {
///   0: bytes ; confirmation-value (64 bytes)
/// }
/// ```
#[derive(Debug, Clone, PartialEq, Eq)]
pub struct AuthSpake2Confirmation<'a> {
    pub confirmation_value: &'a [u8],
}

impl<'a> AuthSpake2Confirmation<'a> {
    /// The fields of this message.
    pub open spec fn schema() -> Seq<Field> {
        seq![
            required(Kind::Blob { max: None }),
        ]
    }

    pub open spec fn layout() -> Layout {
        exactly(Self::schema())
    }

    /// What this message says of each field.
    pub open spec fn fields(&self) -> Table {
        seq![
            Some(Value::Blob(self.confirmation_value@)),
        ]
    }

    /// The bytes of the body.
    pub open spec fn body(&self) -> Seq<u8> {
        body_bytes(Self::schema(), self.fields())
    }

    /// Appends this message to `buf`: its type key, then its body.
    pub fn encode<const N: usize>(&self, buf: &mut BoundedVec<u8, N>) -> (r: Result<
        (),
        MessageError,
    >)
        ensures
            is_appended(old(buf)@, final(buf)@, r, 1003, self.body(), N as nat),
    {
        let mut body = Body::map(1);
        body.bytes_field(0, self.confirmation_value);
        proof {
            reveal_with_fuel(entries_bytes, 2);
            reveal_with_fuel(entry_count, 2);
        }
        append_message(1003, &body, buf)
    }

    /// This message is read back from its bytes, whatever follows them.
    pub proof fn round_trip(self, rest: Seq<u8>)
        requires
            conforms(Self::schema(), self.fields()),
        ensures
            reads_as(
                1003,
                Self::layout(),
                self.fields(),
                type_key_bytes(1003) + self.body() + rest,
            ),
            body_reads_as(Self::layout(), self.fields(), self.body() + rest),
    {
        assert(1 <= entry_count(Self::schema(), self.fields(), 1) <= 1) by {
            reveal_with_fuel(entry_count, 2);
        }
        message_round_trip(1003, Self::layout(), self.fields(), self.body(), rest);
    }

    /// Reads a message, starting with its type key.
    pub fn decode(data: &'a [u8]) -> (r: Result<Self, MessageError>)
        ensures
            match message_at(1003, Self::layout(), data@) {
                Ok(table) => r matches Ok(message) && message.fields() == table,
                Err(e) => r == Err::<Self, MessageError>(e),
            },
    {
        match expect_body(1003, data) {
            Ok(body) => Self::decode_body(body),
            Err(e) => Err(e),
        }
    }

    /// Reads the body of a message.
    pub fn decode_body(body: &'a [u8]) -> (r: Result<Self, MessageError>)
        ensures
            match body_at(Self::layout(), body@, 0) {
                Ok(table) => r matches Ok(message) && message.fields() == table,
                Err(e) => r == Err::<Self, MessageError>(e),
            },
    {
        let mut known = AuthSpake2ConfirmationFields {
            confirmation_value: None,
        };
        proof {
            assert(known.table() =~= blank_table(Self::schema()));
        }
        match read_fields(&mut known, body, 0, 1, 1, MessageError::InvalidField) {
            Err(e) => return Err(e),
            Ok(_) => {},
        }
        let ghost table = known.table();
        match known.confirmation_value {
            Some(confirmation_value) => {
                let message = AuthSpake2Confirmation { confirmation_value };
                proof {
                    assert(message.fields() =~= table);
                }
                Ok(message)
            },
            _ => {
                proof {
                    assert(table[0] is None);
                }
                Err(MessageError::MissingField)
            },
        }
    }
}

/// What is known of the fields while a [`AuthSpake2Confirmation`] is being read.
struct AuthSpake2ConfirmationFields<'a> {
    confirmation_value: Option<&'a [u8]>,
}

impl<'a> FieldTable<'a> for AuthSpake2ConfirmationFields<'a> {
    open spec fn schema() -> Seq<Field> {
        AuthSpake2Confirmation::schema()
    }

    closed spec fn table(&self) -> Table {
        seq![
            blob_entry(self.confirmation_value),
        ]
    }

    fn read_field(&mut self, key: u8, data: &'a [u8], pos: usize) -> (r: Result<
        usize,
        MessageError,
    >) {
        let ghost before = self.table();
        match key {
            0 => match read_bytes(data, pos) {
                Err(e) => Err(e),
                Ok((content, next)) => {
                    self.confirmation_value = Some(content);
                    proof {
                        assert(self.table() =~= before.update(0, Some(Value::Blob(content@))));
                    }
                    Ok(next)
                },
            },
            _ => Err(MessageError::InvalidField),
        }
    }
}

/// How the authentication ended (type key 1004).
///
/// ```cddl
/// auth-status = {
///   0: auth-status-code
/// }
/// ```
#[derive(Debug, Clone, Copy, PartialEq, Eq)]
pub struct AuthStatus {
    pub status: AuthStatusCode,
}

impl AuthStatus {
    /// The fields of this message.
    pub open spec fn schema() -> Seq<Field> {
        seq![
            required(Kind::Code { allowed: AuthStatusCode::codes() }),
        ]
    }

    pub open spec fn layout() -> Layout {
        exactly(Self::schema())
    }

    /// What this message says of each field.
    pub open spec fn fields(&self) -> Table {
        seq![
            Some(Value::Uint(self.status.code() as nat)),
        ]
    }

    /// The bytes of the body.
    pub open spec fn body(&self) -> Seq<u8> {
        body_bytes(Self::schema(), self.fields())
    }

    /// Appends this message to `buf`: its type key, then its body.
    pub fn encode<const N: usize>(&self, buf: &mut BoundedVec<u8, N>) -> (r: Result<
        (),
        MessageError,
    >)
        ensures
            is_appended(old(buf)@, final(buf)@, r, 1004, self.body(), N as nat),
    {
        let mut body = Body::map(1);
        body.code_field(0, self.status.to_code());
        proof {
            reveal_with_fuel(entries_bytes, 2);
            reveal_with_fuel(entry_count, 2);
        }
        append_message(1004, &body, buf)
    }

    /// This message is read back from its bytes, whatever follows them.
    pub proof fn round_trip(self, rest: Seq<u8>)
        requires
            conforms(Self::schema(), self.fields()),
        ensures
            reads_as(
                1004,
                Self::layout(),
                self.fields(),
                type_key_bytes(1004) + self.body() + rest,
            ),
            body_reads_as(Self::layout(), self.fields(), self.body() + rest),
    {
        assert(1 <= entry_count(Self::schema(), self.fields(), 1) <= 1) by {
            reveal_with_fuel(entry_count, 2);
        }
        message_round_trip(1004, Self::layout(), self.fields(), self.body(), rest);
    }

    /// Reads a message, starting with its type key.
    pub fn decode(data: &[u8]) -> (r: Result<Self, MessageError>)
        ensures
            match message_at(1004, Self::layout(), data@) {
                Ok(table) => r matches Ok(message) && message.fields() == table,
                Err(e) => r == Err::<Self, MessageError>(e),
            },
    {
        match expect_body(1004, data) {
            Ok(body) => Self::decode_body(body),
            Err(e) => Err(e),
        }
    }

    /// Reads the body of a message.
    pub fn decode_body(body: &[u8]) -> (r: Result<Self, MessageError>)
        ensures
            match body_at(Self::layout(), body@, 0) {
                Ok(table) => r matches Ok(message) && message.fields() == table,
                Err(e) => r == Err::<Self, MessageError>(e),
            },
    {
        let mut known = AuthStatusFields {
            status: None,
        };
        proof {
            assert(known.table() =~= blank_table(Self::schema()));
        }
        match read_fields(&mut known, body, 0, 1, 1, MessageError::InvalidField) {
            Err(e) => return Err(e),
            Ok(_) => {},
        }
        let ghost table = known.table();
        match known.status {
            Some(status) => {
                let message = AuthStatus { status };
                proof {
                    assert(message.fields() =~= table);
                }
                Ok(message)
            },
            _ => {
                proof {
                    assert(table[0] is None);
                }
                Err(MessageError::MissingField)
            },
        }
    }
}

/// What is known of the fields while a [`AuthStatus`] is being read.
struct AuthStatusFields {
    status: Option<AuthStatusCode>,
}

impl<'a> FieldTable<'a> for AuthStatusFields {
    open spec fn schema() -> Seq<Field> {
        AuthStatus::schema()
    }

    closed spec fn table(&self) -> Table {
        seq![
            code_entry(self.status),
        ]
    }

    fn read_field(&mut self, key: u8, data: &'a [u8], pos: usize) -> (r: Result<
        usize,
        MessageError,
    >) {
        let ghost before = self.table();
        match key {
            0 => match read_code::<AuthStatusCode>(data, pos) {
                Err(e) => Err(e),
                Ok((member, next)) => {
                    self.status = Some(member);
                    proof {
                        assert(self.table() =~= before.update(0, Some(Value::Uint(member.code() as nat))));
                    }
                    Ok(next)
                },
            },
            _ => Err(MessageError::InvalidField),
        }
    }
}

/// Any message of the network protocol.
#[derive(Clone, PartialEq, Eq)]
pub enum NetworkMessage<'a> {
    /// Authentication capabilities.
    AuthCapabilities(AuthCapabilities),
    /// SPAKE2 handshake.
    AuthSpake2Handshake(AuthSpake2Handshake<'a>),
    /// SPAKE2 confirmation.
    AuthSpake2Confirmation(AuthSpake2Confirmation<'a>),
    /// Authentication status.
    AuthStatus(AuthStatus),
}

/// Whether these bytes start with the type key of a request for the pre-shared key, which
/// has no representation here.
pub open spec fn is_need_message(data: Seq<u8>) -> bool {
    type_key_of(data) matches Ok((type_key, _)) && type_key == NetworkMessageType::AuthSpake2Need.key()
}

/// What the body of a message of this type says.
pub open spec fn network_body_at(message_type: NetworkMessageType, body: Seq<u8>) -> Result<
    Table,
    MessageError,
> {
    match message_type {
        NetworkMessageType::AuthCapabilities => body_at(AuthCapabilities::layout(), body, 0),
        NetworkMessageType::AuthSpake2Handshake => body_at(AuthSpake2Handshake::layout(), body, 0),
        NetworkMessageType::AuthSpake2Confirmation => body_at(AuthSpake2Confirmation::layout(), body, 0),
        NetworkMessageType::AuthStatus => body_at(AuthStatus::layout(), body, 0),
        NetworkMessageType::AuthSpake2Need => Err(MessageError::InvalidMessageType),
    }
}

/// The type of the message that starts with a type key, and what its body says.
pub open spec fn network_message_at(data: Seq<u8>) -> Result<(NetworkMessageType, Table), MessageError> {
    match type_key_of(data) {
        Err(e) => Err(e),
        Ok((type_key, width)) => match NetworkMessageType::with_key(type_key) {
            None => Err(MessageError::InvalidMessageType),
            Some(message_type) => match network_body_at(message_type, data.skip(width)) {
                Err(e) => Err(e),
                Ok(table) => Ok((message_type, table)),
            },
        },
    }
}

impl<'a> NetworkMessage<'a> {
    /// The type of this message.
    pub open spec fn message_type(&self) -> NetworkMessageType {
        match self {
            NetworkMessage::AuthCapabilities(_) => NetworkMessageType::AuthCapabilities,
            NetworkMessage::AuthSpake2Handshake(_) => NetworkMessageType::AuthSpake2Handshake,
            NetworkMessage::AuthSpake2Confirmation(_) => NetworkMessageType::AuthSpake2Confirmation,
            NetworkMessage::AuthStatus(_) => NetworkMessageType::AuthStatus,
        }
    }

    /// What this message says of each field.
    pub open spec fn fields(&self) -> Table {
        match self {
            NetworkMessage::AuthCapabilities(message) => message.fields(),
            NetworkMessage::AuthSpake2Handshake(message) => message.fields(),
            NetworkMessage::AuthSpake2Confirmation(message) => message.fields(),
            NetworkMessage::AuthStatus(message) => message.fields(),
        }
    }

    /// The bytes of the body.
    pub open spec fn body(&self) -> Seq<u8> {
        match self {
            NetworkMessage::AuthCapabilities(message) => message.body(),
            NetworkMessage::AuthSpake2Handshake(message) => message.body(),
            NetworkMessage::AuthSpake2Confirmation(message) => message.body(),
            NetworkMessage::AuthStatus(message) => message.body(),
        }
    }

    /// The bytes of the message.
    pub open spec fn bytes(&self) -> Seq<u8> {
        type_key_bytes(self.message_type().key()) + self.body()
    }

    /// Whether every field keeps to the limits that a reader sets.
    pub open spec fn is_readable(&self) -> bool {
        match self {
            NetworkMessage::AuthCapabilities(message) => conforms(AuthCapabilities::schema(), message.fields()),
            NetworkMessage::AuthSpake2Handshake(message) => conforms(AuthSpake2Handshake::schema(), message.fields()),
            NetworkMessage::AuthSpake2Confirmation(message) => conforms(AuthSpake2Confirmation::schema(), message.fields()),
            NetworkMessage::AuthStatus(message) => conforms(AuthStatus::schema(), message.fields()),
        }
    }

    /// The name of the type of this message.
    pub open spec fn name_text(&self) -> Seq<char> {
        match self {
            NetworkMessage::AuthCapabilities(_) => "AuthCapabilities"@,
            NetworkMessage::AuthSpake2Handshake(_) => "AuthSpake2Handshake"@,
            NetworkMessage::AuthSpake2Confirmation(_) => "AuthSpake2Confirmation"@,
            NetworkMessage::AuthStatus(_) => "AuthStatus"@,
        }
    }

    /// The name of the type of this message.
    pub fn name(&self) -> (r: &'static str)
        ensures
            r@ == self.name_text(),
            self is AuthCapabilities ==> r@ == "AuthCapabilities"@,
            self is AuthSpake2Handshake ==> r@ == "AuthSpake2Handshake"@,
            self is AuthSpake2Confirmation ==> r@ == "AuthSpake2Confirmation"@,
            self is AuthStatus ==> r@ == "AuthStatus"@,
    {
        match self {
            NetworkMessage::AuthCapabilities(_) => "AuthCapabilities",
            NetworkMessage::AuthSpake2Handshake(_) => "AuthSpake2Handshake",
            NetworkMessage::AuthSpake2Confirmation(_) => "AuthSpake2Confirmation",
            NetworkMessage::AuthStatus(_) => "AuthStatus",
        }
    }

    /// A message is read back from its bytes, whatever follows them: the same type and the
    /// same fields.
    pub proof fn round_trip(self, rest: Seq<u8>)
        requires
            self.is_readable(),
        ensures
            network_message_at(self.bytes() + rest) == Ok::<
                (NetworkMessageType, Table),
                MessageError,
            >((self.message_type(), self.fields())),
    {
        let message_type = self.message_type();
        let key = message_type.key();
        message_type.key_round_trip(key);
        lemma_body_of(key, self.body(), rest);
        type_key_round_trip(key, self.body() + rest);
        assert(type_key_bytes(key) + self.body() + rest =~= type_key_bytes(key) + (self.body()
            + rest));
        match self {
            NetworkMessage::AuthCapabilities(message) => message.round_trip(rest),
            NetworkMessage::AuthSpake2Handshake(message) => message.round_trip(rest),
            NetworkMessage::AuthSpake2Confirmation(message) => message.round_trip(rest),
            NetworkMessage::AuthStatus(message) => message.round_trip(rest),
        }
    }

    /// Whether a field is longer than a reader allows. Only a handshake can have such a field.
    pub open spec fn is_oversized(&self) -> bool {
        self matches NetworkMessage::AuthSpake2Handshake(message) && message.is_oversized()
    }

    /// A message with a field that is too long is refused for that, whatever follows it.
    pub proof fn oversized_is_refused(self, rest: Seq<u8>)
        requires
            self.is_oversized(),
            self matches NetworkMessage::AuthSpake2Handshake(message) && (
            message.initiation_token.text() matches Some(text) ==> encode_utf8(text).len()
                <= u64::MAX),
        ensures
            network_message_at(self.bytes() + rest) == Err::<
                (NetworkMessageType, Table),
                MessageError,
            >(MessageError::FieldTooLong),
    {
        self->AuthSpake2Handshake_0.oversized_is_refused(rest);
        type_key_round_trip(1005, self.body() + rest);
        assert(type_key_bytes(1005) + self.body() + rest =~= type_key_bytes(1005) + (self.body()
            + rest));
        assert((type_key_bytes(1005) + (self.body() + rest)).skip(
            type_key_bytes(1005).len() as int,
        ) =~= self.body() + rest);
    }

    /// What a reader makes of the bytes of this message alone: the message, or an error where
    /// a field is too long.
    pub open spec fn is_read_back(&self, bytes: Seq<u8>) -> bool {
        network_message_at(bytes) == if self.is_oversized() {
            Err::<(NetworkMessageType, Table), MessageError>(MessageError::FieldTooLong)
        } else {
            Ok((self.message_type(), self.fields()))
        }
    }

    /// Appends this message to `buf`: its type key, then its body. What an empty buffer then
    /// holds is read back.
    pub fn encode<const N: usize>(&self, buf: &mut BoundedVec<u8, N>) -> (r: Result<
        (),
        MessageError,
    >)
        ensures
            is_appended(
                old(buf)@,
                final(buf)@,
                r,
                self.message_type().key(),
                self.body(),
                N as nat,
            ),
            r is Ok && old(buf)@.len() == 0 ==> self.is_read_back(final(buf)@),
    {
        let r: Result<(), MessageError> = match self {
            NetworkMessage::AuthCapabilities(message) => message.encode(buf),
            NetworkMessage::AuthSpake2Handshake(message) => message.encode(buf),
            NetworkMessage::AuthSpake2Confirmation(message) => message.encode(buf),
            NetworkMessage::AuthStatus(message) => message.encode(buf),
        };
        proof {
            if r is Ok && old(buf)@.len() == 0 {
                assert(buf@ =~= self.bytes() + Seq::<u8>::empty());
                if let NetworkMessage::AuthSpake2Handshake(message) = self {
                    message.lemma_lengths();
                }
                if self.is_oversized() {
                    self.oversized_is_refused(Seq::empty());
                } else {
                    self.lemma_readable();
                    self.round_trip(Seq::empty());
                }
            }
        }
        r
    }

    /// A message whose bytes were written keeps to the limits, but for fields that are too
    /// long.
    proof fn lemma_readable(self)
        requires
            !self.is_oversized(),
            self matches NetworkMessage::AuthCapabilities(message) ==> conforms(
                AuthCapabilities::schema(),
                message.fields(),
            ),
        ensures
            self.is_readable(),
    {
        match self {
            NetworkMessage::AuthSpake2Handshake(message) => {
                assert(message.public_value@.len() == message.public_value.len());
            },
            NetworkMessage::AuthSpake2Confirmation(message) => {
                assert(message.confirmation_value@.len() == message.confirmation_value.len());
            },
            _ => {},
        }
    }

    /// Whether data is a request for the pre-shared key, which [`Self::decode`] does not take.
    pub fn is_need(data: &[u8]) -> (r: bool)
        ensures
            r == is_need_message(data@),
    {
        match decode_type_key(data) {
            Ok((type_key, _)) => type_key == NetworkMessageType::AuthSpake2Need.to_u16(),
            Err(_) => false,
        }
    }

    /// Reads any message of the network protocol but a request for the pre-shared key.
    pub fn decode(data: &'a [u8]) -> (r: Result<Self, MessageError>)
        requires
            !is_need_message(data@),
        ensures
            match network_message_at(data@) {
                Ok((message_type, table)) => r matches Ok(message) && message.message_type()
                    == message_type && message.fields() == table,
                Err(e) => r == Err::<Self, MessageError>(e),
            },
    {
        let (type_key, width): (u16, usize) = match decode_type_key(data) {
            Ok(found) => found,
            Err(e) => return Err(e),
        };
        let message_type: NetworkMessageType = match NetworkMessageType::from_u16(type_key) {
            Ok(found) => found,
            Err(e) => return Err(e),
        };
        let body: &'a [u8] = vstd::slice::slice_subrange(data, width, data.len());
        proof {
            assert(body@ =~= data@.skip(width as int));
        }
        match message_type {
            NetworkMessageType::AuthCapabilities => match AuthCapabilities::decode_body(body) {
                Ok(message) => Ok(NetworkMessage::AuthCapabilities(message)),
                Err(e) => Err(e),
            },
            NetworkMessageType::AuthSpake2Handshake => match AuthSpake2Handshake::decode_body(body) {
                Ok(message) => Ok(NetworkMessage::AuthSpake2Handshake(message)),
                Err(e) => Err(e),
            },
            NetworkMessageType::AuthSpake2Confirmation => match AuthSpake2Confirmation::decode_body(body) {
                Ok(message) => Ok(NetworkMessage::AuthSpake2Confirmation(message)),
                Err(e) => Err(e),
            },
            NetworkMessageType::AuthStatus => match AuthStatus::decode_body(body) {
                Ok(message) => Ok(NetworkMessage::AuthStatus(message)),
                Err(e) => Err(e),
            },
            NetworkMessageType::AuthSpake2Need => Err(MessageError::InvalidMessageType),
        }
    }
}

/// The bytes of a message, if they fit in a buffer of `MAX_MESSAGE_SIZE` bytes.
pub fn encode_network_message<'a>(msg: &NetworkMessage<'a>) -> (r: Result<
    BoundedVec<u8, MAX_MESSAGE_SIZE>,
    MessageError,
>)
    ensures
        match r {
            Ok(buffer) => buffer@ == msg.bytes() && msg.bytes().len() <= MAX_MESSAGE_SIZE
                && msg.is_read_back(buffer@),
            Err(e) => e == MessageError::EncodeFailed && msg.bytes().len() > MAX_MESSAGE_SIZE,
        },
        r is Ok <==> msg.bytes().len() <= 1024,
{
    let mut buffer: BoundedVec<u8, MAX_MESSAGE_SIZE> = BoundedVec::new();
    proof {
        let key = msg.message_type().key();
        varint_round_trip(key as nat, Seq::empty());
        assert(Seq::<u8>::empty() + type_key_bytes(key) + msg.body() =~= msg.bytes());
    }
    match msg.encode(&mut buffer) {
        Ok(()) => Ok(buffer),
        Err(e) => Err(e),
    }
}

} // verus!
