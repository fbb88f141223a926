//! Services in multicast DNS.
use crate::common::quinn_varint::{
    lemma_varint_parse_range, varint_bytes, varint_parse, varint_round_trip, Codec, VarInt,
};
use crate::discovery::fingerprint::{Fingerprint, FingerprintError};
use crate::discovery::service_info::{PublishInfo, TxtRecords};
use crate::encoding::base64::{base64_bytes, base64_round_trip, base64_text};
use crate::encoding::utf8::text_of;
use vstd::prelude::*;
use vstd::string::{StringExecFns, StringSliceAdditionalSpecFns};
use vstd::utf8::{
    decode_utf8, decode_utf8_split, encode_utf8, encode_utf8_decode_utf8, encode_utf8_valid_utf8,
    is_ascii_chars_encode_utf8, is_char_boundary, is_char_boundary_start_end_of_seq, valid_utf8,
};

verus! {

// ---- Names ----

/// The most bytes of a DNS label.
pub const MAX_LABEL_LEN: usize = 63;

/// The last place up to `at` where a text can be cut without going through a character.
pub open spec fn cut_before(bytes: Seq<u8>, at: int) -> int
    decreases at,
{
    if at <= 0 || is_char_boundary(bytes, at) {
        at
    } else {
        cut_before(bytes, at - 1)
    }
}

/// Whether this is the instance name for a display name: the display name itself if a label
/// can hold it; otherwise as many of its characters as fit, and a null.
pub open spec fn is_instance_name(name: Seq<char>, display_name: Seq<char>) -> bool {
    let bytes = encode_utf8(display_name);
    if bytes.len() > MAX_LABEL_LEN {
        &&& encode_utf8(name) == bytes.take(cut_before(bytes, MAX_LABEL_LEN as int)).push(0)
        &&& name.last() == '\0'
        &&& name.drop_last().is_prefix_of(display_name)
        &&& encode_utf8(name.drop_last()).len() <= MAX_LABEL_LEN
    } else {
        name == display_name
    }
}

/// The instance name for a display name: a DNS label has at most 63 bytes, so a longer name
/// is cut behind the last character that fits, and ends with a null.
pub fn sanitize_instance_name(display_name: &str) -> (r: String)
    ensures
        is_instance_name(r@, display_name@),
{
    if display_name.as_bytes().len() > MAX_LABEL_LEN {
        let mut cut: usize = MAX_LABEL_LEN;
        proof {
            encode_utf8_valid_utf8(display_name@);
        }
        while !display_name.is_char_boundary(cut)
            invariant
                cut <= MAX_LABEL_LEN < display_name.spec_bytes().len(),
                valid_utf8(display_name.spec_bytes()),
                cut_before(display_name.spec_bytes(), MAX_LABEL_LEN as int) == cut_before(
                    display_name.spec_bytes(),
                    cut as int,
                ),
            decreases cut,
        {
            proof {
                is_char_boundary_start_end_of_seq(display_name.spec_bytes());
            }
            cut = cut - 1;
        }
        let (head, tail) = display_name.split_at(cut);
        let mut name = head.to_owned();
        name.push('\0');
        proof {
            lemma_encode_concat(head@, seq!['\0']);
            assert(name@ =~= head@ + seq!['\0']);
            assert(name@.drop_last() =~= head@);
            is_ascii_chars_encode_utf8(seq!['\0']);
            assert(encode_utf8(seq!['\0']) =~= seq![0u8]);
            assert(encode_utf8(name@) =~= display_name.spec_bytes().take(cut as int).push(0));
            decode_utf8_split(display_name.spec_bytes(), cut as int);
            encode_utf8_decode_utf8(display_name@);
            encode_utf8_decode_utf8(head@);
            assert(display_name@ =~= head@ + decode_utf8(tail.spec_bytes()));
        }
        name
    } else {
        display_name.to_owned()
    }
}

/// A letter of ASCII in lower case; other bytes stay.
pub open spec fn lower(byte: u8) -> u8 {
    if 0x41 <= byte <= 0x5a {
        (byte + 32) as u8
    } else {
        byte
    }
}

/// Whether two texts are equal but for the case of the letters of ASCII.
pub open spec fn same_but_case(a: Seq<u8>, b: Seq<u8>) -> bool {
    a.len() == b.len() && forall|i: int| 0 <= i < a.len() ==> lower(#[trigger] a[i]) == lower(b[i])
}

/// Whether a text ends with another, whatever the case of letters.
pub open spec fn ends_with(text: Seq<u8>, end: Seq<u8>) -> bool {
    text.len() >= end.len() && same_but_case(text.skip(text.len() - end.len()), end)
}

fn to_lower(byte: u8) -> (r: u8)
    ensures
        r == lower(byte),
{
    if byte >= 0x41 && byte <= 0x5a {
        byte + 32
    } else {
        byte
    }
}

fn are_same_but_case(a: &[u8], b: &[u8]) -> (r: bool)
    ensures
        r == same_but_case(a@, b@),
{
    if a.len() != b.len() {
        return false;
    }
    let mut i: usize = 0;
    while i < a.len()
        invariant
            a@.len() == b@.len(),
            i <= a@.len(),
            forall|k: int| 0 <= k < i ==> lower(#[trigger] a@[k]) == lower(b@[k]),
        decreases a.len() - i,
    {
        if to_lower(a[i]) != to_lower(b[i]) {
            proof {
                assert(lower(a@[i as int]) != lower(b@[i as int]));
            }
            return false;
        }
        i = i + 1;
    }
    true
}

fn has_end(text: &[u8], end: &[u8]) -> (r: bool)
    ensures
        r == ends_with(text@, end@),
{
    if text.len() < end.len() {
        return false;
    }
    let tail = vstd::slice::slice_subrange(text, text.len() - end.len(), text.len());
    proof {
        assert(tail@ =~= text@.skip(text@.len() - end@.len()));
    }
    are_same_but_case(tail, end)
}

/// The hostname to register: it has to end with ".local.".
pub open spec fn local_hostname(hostname: Seq<char>) -> Seq<char> {
    if ends_with(encode_utf8(hostname), ".local".spec_bytes()) {
        hostname + "."@
    } else if ends_with(encode_utf8(hostname), ".local.".spec_bytes()) {
        hostname
    } else {
        hostname + ".local."@
    }
}

/// The hostname to register.
pub fn to_local_hostname(hostname: &str) -> (r: String)
    ensures
        r@ == local_hostname(hostname@),
{
    if has_end(hostname.as_bytes(), ".local".as_bytes()) {
        hostname.to_owned().concat(".")
    } else if has_end(hostname.as_bytes(), ".local.".as_bytes()) {
        hostname.to_owned()
    } else {
        hostname.to_owned().concat(".local.")
    }
}

// ---- TXT records ----

/// A property of a TXT record.
#[derive(Debug, Clone)]
pub struct TxtProperty {
    pub key: String,
    pub val: Option<Vec<u8>>,
}

/// The text that the value of a property stands for; what is no text stands for none.
pub open spec fn value_text(value: Option<Seq<u8>>) -> Seq<char> {
    match value {
        Some(bytes) => if valid_utf8(bytes) {
            decode_utf8(bytes)
        } else {
            Seq::empty()
        },
        None => Seq::empty(),
    }
}

impl TxtProperty {
    /// The value of this property.
    pub open spec fn value(&self) -> Option<Seq<u8>> {
        match self.val {
            Some(bytes) => Some(bytes@),
            None => None,
        }
    }

    /// The key.
    pub fn key(&self) -> (r: &str)
        ensures
            r@ == self.key@,
    {
        self.key.as_str()
    }

    /// The value.
    pub fn val(&self) -> (r: Option<&[u8]>)
        ensures
            match r {
                Some(bytes) => self.value() == Some(bytes@),
                None => self.value() is None,
            },
    {
        match &self.val {
            Some(bytes) => Some(bytes.as_slice()),
            None => None,
        }
    }

    /// The value as a text.
    pub fn val_str(&self) -> (r: &str)
        ensures
            r@ == value_text(self.value()),
    {
        proof {
            reveal_strlit("");
        }
        match &self.val {
            Some(bytes) => match text_of(bytes.as_slice()) {
                Some(text) => {
                    proof {
                        encode_utf8_decode_utf8(text@);
                    }
                    text
                },
                None => {
                    proof {
                        assert(""@ =~= Seq::<char>::empty());
                    }
                    ""
                },
            },
            None => {
                proof {
                    assert(""@ =~= Seq::<char>::empty());
                }
                ""
            },
        }
    }
}

/// Whether a property has this key and this value.
pub open spec fn is_property(property: TxtProperty, key: Seq<char>, value: Seq<u8>) -> bool {
    property.key@ == key && property.value() == Some(value)
}

/// Whether these properties carry a fingerprint, a metadata version and a token.
pub open spec fn are_txt_properties(
    properties: Seq<TxtProperty>,
    fp: Seq<char>,
    mv: u32,
    at: Seq<char>,
) -> bool {
    &&& properties.len() == 3
    &&& is_property(properties[0], "fp"@, encode_utf8(fp))
    &&& is_property(properties[1], "mv"@, varint_bytes(mv as nat))
    &&& is_property(properties[2], "at"@, encode_utf8(at))
}

/// A copy of some bytes.
fn to_vec(bytes: &[u8]) -> (r: Vec<u8>)
    ensures
        r@ == bytes@,
{
    let mut v: Vec<u8> = Vec::new();
    v.extend_from_slice(bytes);
    proof {
        assert(v@ =~= bytes@);
    }
    v
}

/// The properties of TXT records. The metadata version is a variable-length integer.
pub fn build_txt_properties(txt: &TxtRecords) -> (r: Vec<TxtProperty>)
    ensures
        are_txt_properties(r@, txt.fp@, txt.mv, txt.at@),
{
    let mut mv_bytes: Vec<u8> = Vec::new();
    VarInt::from_u32(txt.mv).encode(&mut mv_bytes);
    proof {
        assert(mv_bytes@ =~= varint_bytes(txt.mv as nat));
    }
    let mut properties: Vec<TxtProperty> = Vec::new();
    properties.push(
        TxtProperty { key: "fp".to_owned(), val: Some(to_vec(txt.fp.as_str().as_bytes())) },
    );
    properties.push(TxtProperty { key: "mv".to_owned(), val: Some(mv_bytes) });
    properties.push(
        TxtProperty { key: "at".to_owned(), val: Some(to_vec(txt.at.as_str().as_bytes())) },
    );
    properties
}

/// Why a service could not be made out.
#[derive(Debug, Clone, Copy, PartialEq, Eq)]
pub enum ParseError {
    /// A TXT record is missing.
    MissingField(&'static str),
    /// The fingerprint is none.
    InvalidFingerprint(FingerprintError),
    /// The metadata version does not fit.
    InvalidMetadataVersion,
    /// There is no address.
    NoAddress,
}

/// The first property with this key, whatever the case of letters.
pub open spec fn property_with(properties: Seq<TxtProperty>, key: Seq<u8>) -> Option<TxtProperty>
    decreases properties.len(),
{
    if properties.len() == 0 {
        None
    } else if same_but_case(encode_utf8(properties[0].key@), key) {
        Some(properties[0])
    } else {
        property_with(properties.skip(1), key)
    }
}

/// What TXT records tell.
pub struct TxtModel {
    pub fingerprint: Seq<u8>,
    pub metadata_version: u32,
    pub auth_token: Seq<char>,
}

/// The fingerprint in a property.
pub open spec fn fingerprint_in(property: TxtProperty) -> Result<Seq<u8>, ParseError> {
    match base64_bytes(value_text(property.value())) {
        None => Err(ParseError::InvalidFingerprint(FingerprintError::InvalidBase64)),
        Some(bytes) => if bytes.len() == 32 {
            Ok(bytes)
        } else {
            Err(
                ParseError::InvalidFingerprint(
                    FingerprintError::InvalidLength(bytes.len() as usize),
                ),
            )
        },
    }
}

/// The metadata version in a property.
pub open spec fn version_in(property: TxtProperty) -> Option<u32> {
    match property.value() {
        None => None,
        Some(bytes) => match varint_parse(bytes) {
            None => None,
            Some((version, _)) => if version <= u32::MAX {
                Some(version as u32)
            } else {
                None
            },
        },
    }
}

/// What TXT records tell.
pub open spec fn txt_at(properties: Seq<TxtProperty>) -> Result<TxtModel, ParseError> {
    match property_with(properties, "fp".spec_bytes()) {
        None => Err(ParseError::MissingField("fp")),
        Some(fp) => match fingerprint_in(fp) {
            Err(e) => Err(e),
            Ok(fingerprint) => match property_with(properties, "mv".spec_bytes()) {
                None => Err(ParseError::MissingField("mv")),
                Some(mv) => match version_in(mv) {
                    None => Err(ParseError::InvalidMetadataVersion),
                    Some(metadata_version) => match property_with(properties, "at".spec_bytes()) {
                        None => Err(ParseError::MissingField("at")),
                        Some(at) => Ok(
                            TxtModel {
                                fingerprint,
                                metadata_version,
                                auth_token: value_text(at.value()),
                            },
                        ),
                    },
                },
            },
        },
    }
}

/// The first property with this key.
fn find_property<'a>(properties: &'a [TxtProperty], key: &str) -> (r: Option<&'a TxtProperty>)
    ensures
        match r {
            Some(property) => property_with(properties@, key.spec_bytes()) == Some(*property),
            None => property_with(properties@, key.spec_bytes()) is None,
        },
{
    let mut i: usize = 0;
    proof {
        assert(properties@.skip(0) =~= properties@);
    }
    while i < properties.len()
        invariant
            i <= properties@.len(),
            property_with(properties@, key.spec_bytes()) == property_with(
                properties@.skip(i as int),
                key.spec_bytes(),
            ),
        decreases properties.len() - i,
    {
        proof {
            assert(properties@.skip(i as int).skip(1) =~= properties@.skip(i + 1));
        }
        if are_same_but_case(properties[i].key.as_str().as_bytes(), key.as_bytes()) {
            return Some(&properties[i]);
        }
        i = i + 1;
    }
    None
}

/// Reads TXT records: the fingerprint, the metadata version and the token.
pub fn parse_txt_properties(properties: &[TxtProperty]) -> (r: Result<
    (Fingerprint, u32, String),
    ParseError,
>)
    ensures
        match txt_at(properties@) {
            Ok(txt) => r matches Ok((fingerprint, version, token)) && fingerprint@
                == txt.fingerprint && version == txt.metadata_version && token@ == txt.auth_token,
            Err(e) => r == Err::<(Fingerprint, u32, String), ParseError>(e),
        },
{
    let fp = match find_property(properties, "fp") {
        Some(property) => property,
        None => return Err(ParseError::MissingField("fp")),
    };
    let fingerprint = match Fingerprint::from_base64(fp.val_str()) {
        Ok(fingerprint) => fingerprint,
        Err(e) => return Err(ParseError::InvalidFingerprint(e)),
    };
    let mv = match find_property(properties, "mv") {
        Some(property) => property,
        None => return Err(ParseError::MissingField("mv")),
    };
    let mut mv_bytes: &[u8] = match mv.val() {
        Some(bytes) => bytes,
        None => return Err(ParseError::InvalidMetadataVersion),
    };
    proof {
        lemma_varint_parse_range(mv_bytes@);
        if let Some((version, _)) = varint_parse(mv_bytes@) {
            VarInt::lemma_of(version);
        }
    }
    let version: u64 = match VarInt::decode(&mut mv_bytes) {
        Ok(version) => version.into_inner(),
        Err(_) => return Err(ParseError::InvalidMetadataVersion),
    };
    if version > u32::MAX as u64 {
        return Err(ParseError::InvalidMetadataVersion);
    }
    match find_property(properties, "at") {
        Some(property) => Ok((fingerprint, version as u32, property.val_str().to_owned())),
        None => Err(ParseError::MissingField("at")),
    }
}

// ---- Publishing ----

/// What is registered for a service.
#[derive(Debug, Clone)]
pub struct Advertisement {
    pub instance_name: String,
    pub hostname: String,
    pub port: u16,
    pub properties: Vec<TxtProperty>,
}

/// What is registered for a service that is to be published.
pub fn advertise(info: &PublishInfo) -> (r: Advertisement)
    ensures
        is_instance_name(r.instance_name@, info.display_name@),
        r.hostname@ == local_hostname(info.hostname@),
        r.port == info.port,
        are_txt_properties(
            r.properties@,
            base64_text(info.fingerprint@),
            info.metadata_version,
            info.auth_token@,
        ),
{
    let instance_name = sanitize_instance_name(info.display_name.as_str());
    let properties = build_txt_properties(&TxtRecords::from_publish_info(info));
    let hostname = to_local_hostname(info.hostname.as_str());
    Advertisement { instance_name, hostname, port: info.port, properties }
}

// ---- Laws ----

/// The encoding of the keys of TXT records.
proof fn lemma_keys()
    ensures
        encode_utf8("fp"@) == seq![0x66u8, 0x70],
        encode_utf8("mv"@) == seq![0x6du8, 0x76],
        encode_utf8("at"@) == seq![0x61u8, 0x74],
{
    reveal_strlit("fp");
    reveal_strlit("mv");
    reveal_strlit("at");
    is_ascii_chars_encode_utf8("fp"@);
    is_ascii_chars_encode_utf8("mv"@);
    is_ascii_chars_encode_utf8("at"@);
    assert(encode_utf8("fp"@) =~= seq![0x66u8, 0x70]);
    assert(encode_utf8("mv"@) =~= seq![0x6du8, 0x76]);
    assert(encode_utf8("at"@) =~= seq![0x61u8, 0x74]);
}

/// Who browses reads from the TXT records what was published: the fingerprint, the metadata
/// version and the token.
pub proof fn published_is_read(
    properties: Seq<TxtProperty>,
    fingerprint: Seq<u8>,
    metadata_version: u32,
    auth_token: Seq<char>,
)
    requires
        fingerprint.len() == 32,
        are_txt_properties(properties, base64_text(fingerprint), metadata_version, auth_token),
    ensures
        txt_at(properties) == Ok::<TxtModel, ParseError>(
            TxtModel { fingerprint, metadata_version, auth_token },
        ),
{
    lemma_keys();
    let fp = encode_utf8("fp"@);
    let mv = encode_utf8("mv"@);
    let at = encode_utf8("at"@);
    assert(lower(fp[0]) != lower(mv[0]) && lower(fp[0]) != lower(at[0]) && lower(mv[0]) != lower(
        at[0],
    ));
    reveal_with_fuel(property_with, 4);
    assert(properties.skip(1)[0] == properties[1]);
    assert(properties.skip(1).skip(1)[0] == properties[2]);
    assert(property_with(properties, fp) == Some(properties[0]));
    assert(property_with(properties, mv) == Some(properties[1]));
    assert(property_with(properties, at) == Some(properties[2]));
    encode_utf8_valid_utf8(base64_text(fingerprint));
    encode_utf8_decode_utf8(base64_text(fingerprint));
    base64_round_trip(fingerprint);
    encode_utf8_valid_utf8(auth_token);
    encode_utf8_decode_utf8(auth_token);
    varint_round_trip(metadata_version as nat, Seq::empty());
    assert(varint_bytes(metadata_version as nat) + Seq::<u8>::empty() =~= varint_bytes(
        metadata_version as nat,
    ));
}

/// A hostname that is registered ends with ".local.", whatever it was.
pub proof fn registered_hostname_is_local(hostname: Seq<char>)
    ensures
        ends_with(encode_utf8(local_hostname(hostname)), ".local.".spec_bytes()),
{
    reveal_strlit(".");
    reveal_strlit(".local");
    reveal_strlit(".local.");
    is_ascii_chars_encode_utf8("."@);
    is_ascii_chars_encode_utf8(".local"@);
    is_ascii_chars_encode_utf8(".local."@);
    let bytes = encode_utf8(hostname);
    let short = encode_utf8(".local"@);
    let long = encode_utf8(".local."@);
    let dot = encode_utf8("."@);
    lemma_encode_concat(hostname, "."@);
    lemma_encode_concat(hostname, ".local."@);
    if ends_with(bytes, short) {
        let tail = (bytes + dot).skip((bytes + dot).len() - long.len());
        assert(bytes.skip(bytes.len() - short.len()).len() == short.len());
        assert forall|i: int| 0 <= i < tail.len() implies lower(#[trigger] tail[i]) == lower(
            long[i],
        ) by {
            if i < 6 {
                assert(tail[i] == bytes.skip(bytes.len() - short.len())[i]);
                assert(long[i] == short[i]);
            } else {
                assert(tail[i] == dot[0]);
            }
        }
    } else if !ends_with(bytes, long) {
        assert((bytes + long).skip((bytes + long).len() - long.len()) =~= long);
    }
}

/// The encoding of two texts in a row.
pub proof fn lemma_encode_concat(a: Seq<char>, b: Seq<char>)
    ensures
        encode_utf8(a + b) == encode_utf8(a) + encode_utf8(b),
    decreases a.len(),
{
    if a.len() == 0 {
        assert(a + b =~= b);
        assert(encode_utf8(a) + encode_utf8(b) =~= encode_utf8(b));
    } else {
        lemma_encode_concat(a.drop_first(), b);
        assert((a + b).drop_first() =~= a.drop_first() + b);
        let first = vstd::utf8::encode_scalar(a[0] as u32);
        assert(first + (encode_utf8(a.drop_first()) + encode_utf8(b)) =~= first + encode_utf8(
            a.drop_first(),
        ) + encode_utf8(b));
    }
}

} // verus!
