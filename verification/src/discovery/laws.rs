//! What is read of TXT records and addresses, and which names are registered.
use crate::common::quinn_varint::{varint_bytes, varint_parse, varint_round_trip};
use crate::discovery::browser::{is_browse_outcome, BrowseEvent, DiscoveryEvent};
use crate::discovery::direct::{expected_fingerprint, is_direct_service};
use crate::discovery::fingerprint::{Fingerprint, FingerprintError};
use crate::discovery::mdns::{
    are_txt_properties, cut_before, ends_with, is_instance_name, lemma_encode_concat,
    local_hostname, lower,
    property_with, registered_hostname_is_local, same_but_case, txt_at, value_text, ParseError,
    TxtModel, TxtProperty,
};
use crate::discovery::mock::{is_publication, is_update, is_withdrawal, BackendEvent};
use crate::discovery::resolve::{
    is_preferred, is_service_outcome, preferred_address_is_unique, without_scopes, ScopedAddress,
};
use crate::discovery::service_info::{IpAddress, PublishInfo, ServiceInfo};
use crate::discovery::table::are_services;
use crate::encoding::base64::{base64_bytes, base64_round_trip, base64_text};
use crate::encoding::hex::{hex_bytes, hex_round_trip, hex_text, is_hex};
use vstd::prelude::*;
use vstd::std_specs::cmp::PartialEqSpec;
use vstd::string::StringSliceAdditionalSpecFns;
use vstd::utf8::{
    encode_utf8, encode_utf8_decode_utf8, encode_utf8_first_scalar,
    encode_utf8_valid_utf8, is_ascii_chars_encode_utf8, is_char_boundary, pop_first_scalar,
    valid_utf8,
};

verus! {

// ---- TXT records ----

/// Whether the key of a property is these two letters, given in lower case, in either case.
pub open spec fn has_key(property: TxtProperty, first: u8, second: u8) -> bool {
    let key = encode_utf8(property.key@);
    &&& key.len() == 2
    &&& key[0] == first || key[0] == first - 32
    &&& key[1] == second || key[1] == second - 32
}

/// Whether the property at `i` is the first with this key.
pub open spec fn is_first_with(
    properties: Seq<TxtProperty>,
    i: int,
    first: u8,
    second: u8,
) -> bool {
    &&& 0 <= i < properties.len()
    &&& has_key(properties[i], first, second)
    &&& forall|j: int| 0 <= j < i ==> !has_key(#[trigger] properties[j], first, second)
}

/// Whether no property has this key.
pub open spec fn lacks(properties: Seq<TxtProperty>, first: u8, second: u8) -> bool {
    forall|j: int| 0 <= j < properties.len() ==> !has_key(#[trigger] properties[j], first, second)
}

proof fn lemma_key_bytes()
    ensures
        "fp".spec_bytes() == seq![0x66u8, 0x70],
        "mv".spec_bytes() == seq![0x6du8, 0x76],
        "at".spec_bytes() == seq![0x61u8, 0x74],
{
    reveal_strlit("fp");
    reveal_strlit("mv");
    reveal_strlit("at");
    is_ascii_chars_encode_utf8("fp"@);
    is_ascii_chars_encode_utf8("mv"@);
    is_ascii_chars_encode_utf8("at"@);
    assert(encode_utf8("fp"@) =~= seq![0x66u8, 0x70]);
    assert(encode_utf8("mv"@) =~= seq![0x6du8, 0x76]);
    assert(encode_utf8("at"@) =~= seq![0x61u8, 0x74]);
}

proof fn lemma_same_key(property: TxtProperty, first: u8, second: u8)
    requires
        0x61 <= first <= 0x7a,
        0x61 <= second <= 0x7a,
    ensures
        same_but_case(encode_utf8(property.key@), seq![first, second]) <==> has_key(
            property,
            first,
            second,
        ),
{
    let key = encode_utf8(property.key@);
    let wanted = seq![first, second];
    if same_but_case(key, wanted) {
        assert(lower(key[0]) == lower(wanted[0]));
        assert(lower(key[1]) == lower(wanted[1]));
    }
    if has_key(property, first, second) {
        assert forall|i: int| 0 <= i < key.len() implies lower(#[trigger] key[i]) == lower(
            wanted[i],
        ) by {
            assert(i == 0 || i == 1);
        }
    }
}

proof fn lemma_found(properties: Seq<TxtProperty>, i: int, first: u8, second: u8)
    requires
        0x61 <= first <= 0x7a,
        0x61 <= second <= 0x7a,
        is_first_with(properties, i, first, second),
    ensures
        property_with(properties, seq![first, second]) == Some(properties[i]),
    decreases properties.len(),
{
    lemma_same_key(properties[0], first, second);
    if i > 0 {
        let rest = properties.skip(1);
        assert(!has_key(properties[0], first, second));
        assert forall|j: int| 0 <= j < i - 1 implies !has_key(
            #[trigger] rest[j],
            first,
            second,
        ) by {
            assert(rest[j] == properties[j + 1]);
        }
        lemma_found(rest, i - 1, first, second);
    }
}

proof fn lemma_lacking(properties: Seq<TxtProperty>, first: u8, second: u8)
    requires
        0x61 <= first <= 0x7a,
        0x61 <= second <= 0x7a,
        lacks(properties, first, second),
    ensures
        property_with(properties, seq![first, second]) is None,
    decreases properties.len(),
{
    if properties.len() > 0 {
        lemma_same_key(properties[0], first, second);
        let rest = properties.skip(1);
        assert(!has_key(properties[0], first, second));
        assert forall|j: int| 0 <= j < rest.len() implies !has_key(
            #[trigger] rest[j],
            first,
            second,
        ) by {
            assert(rest[j] == properties[j + 1]);
        }
        lemma_lacking(rest, first, second);
    }
}

/// What TXT records tell rests on their keys alone, in either case, and not on their order or
/// on the records among them: wherever the first record with each key stands, its value counts.
/// Bytes behind the metadata version do not matter.
pub proof fn records_are_found_by_key(
    properties: Seq<TxtProperty>,
    fp: int,
    mv: int,
    at: int,
    fingerprint: Seq<u8>,
    version: u32,
    rest: Seq<u8>,
    token: Seq<char>,
)
    requires
        is_first_with(properties, fp, 0x66, 0x70),
        is_first_with(properties, mv, 0x6d, 0x76),
        is_first_with(properties, at, 0x61, 0x74),
        fingerprint.len() == 32,
        properties[fp].value() == Some(encode_utf8(base64_text(fingerprint))),
        properties[mv].value() == Some(varint_bytes(version as nat) + rest),
        properties[at].value() == Some(encode_utf8(token)),
    ensures
        txt_at(properties) == Ok::<TxtModel, ParseError>(
            (TxtModel { fingerprint, metadata_version: version, auth_token: token }),
        ),
{
    lemma_key_bytes();
    lemma_found(properties, fp, 0x66, 0x70);
    lemma_found(properties, mv, 0x6d, 0x76);
    lemma_found(properties, at, 0x61, 0x74);
    encode_utf8_valid_utf8(base64_text(fingerprint));
    encode_utf8_decode_utf8(base64_text(fingerprint));
    base64_round_trip(fingerprint);
    encode_utf8_valid_utf8(token);
    encode_utf8_decode_utf8(token);
    varint_round_trip(version as nat, rest);
}

/// A record that is missing is named, the fingerprint first, then the metadata version.
pub proof fn missing_records_are_named(
    properties: Seq<TxtProperty>,
    fp: int,
    mv: int,
    fingerprint: Seq<u8>,
    version: u32,
)
    requires
        fingerprint.len() == 32,
    ensures
        lacks(properties, 0x66, 0x70) ==> txt_at(properties) == Err::<TxtModel, ParseError>(
            ParseError::MissingField("fp"),
        ),
        is_first_with(properties, fp, 0x66, 0x70) && properties[fp].value() == Some(
            encode_utf8(base64_text(fingerprint)),
        ) ==> {
            &&& lacks(properties, 0x6d, 0x76) ==> txt_at(properties) == Err::<
                TxtModel,
                ParseError,
            >(ParseError::MissingField("mv"))
            &&& is_first_with(properties, mv, 0x6d, 0x76) && properties[mv].value() == Some(
                varint_bytes(version as nat),
            ) && lacks(properties, 0x61, 0x74) ==> txt_at(properties) == Err::<
                TxtModel,
                ParseError,
            >(ParseError::MissingField("at"))
        },
{
    lemma_key_bytes();
    if lacks(properties, 0x66, 0x70) {
        lemma_lacking(properties, 0x66, 0x70);
    }
    if is_first_with(properties, fp, 0x66, 0x70) {
        lemma_found(properties, fp, 0x66, 0x70);
        encode_utf8_valid_utf8(base64_text(fingerprint));
        encode_utf8_decode_utf8(base64_text(fingerprint));
        base64_round_trip(fingerprint);
        if lacks(properties, 0x6d, 0x76) {
            lemma_lacking(properties, 0x6d, 0x76);
        }
        if is_first_with(properties, mv, 0x6d, 0x76) && lacks(properties, 0x61, 0x74) {
            lemma_found(properties, mv, 0x6d, 0x76);
            lemma_lacking(properties, 0x61, 0x74);
            varint_round_trip(version as nat, Seq::empty());
            assert(varint_bytes(version as nat) + Seq::<u8>::empty() =~= varint_bytes(
                version as nat,
            ));
        }
    }
}

/// A fingerprint that is no base64, or not of 32 bytes, and a metadata version that is cut off
/// or above 32 bits are refused.
pub proof fn bad_records_are_refused(
    properties: Seq<TxtProperty>,
    fp: int,
    mv: int,
    bytes: Seq<u8>,
    text: Seq<char>,
    version: nat,
)
    requires
        is_first_with(properties, fp, 0x66, 0x70),
        properties[fp].value() == Some(encode_utf8(text)),
    ensures
        base64_bytes(text) is None ==> txt_at(properties) == Err::<TxtModel, ParseError>(
            ParseError::InvalidFingerprint(FingerprintError::InvalidBase64),
        ),
        text == base64_text(bytes) && bytes.len() != 32 ==> txt_at(properties) == Err::<
            TxtModel,
            ParseError,
        >(ParseError::InvalidFingerprint(FingerprintError::InvalidLength(bytes.len() as usize))),
        text == base64_text(bytes) && bytes.len() == 32 && is_first_with(properties, mv, 0x6d, 0x76)
            && (properties[mv].value() is None || (properties[mv].value() matches Some(value) && (
        varint_parse(value) is None || (varint_parse(value) matches Some((n, _)) && n
            > 0xffff_ffff)))) ==> txt_at(properties) == Err::<TxtModel, ParseError>(
            ParseError::InvalidMetadataVersion,
        ),
{
    lemma_key_bytes();
    lemma_found(properties, fp, 0x66, 0x70);
    encode_utf8_valid_utf8(text);
    encode_utf8_decode_utf8(text);
    if text == base64_text(bytes) {
        base64_round_trip(bytes);
    }
    if is_first_with(properties, mv, 0x6d, 0x76) {
        lemma_found(properties, mv, 0x6d, 0x76);
    }
}

/// A token that is no text, or has no value, is the empty one.
pub proof fn tokens_that_are_no_text(
    properties: Seq<TxtProperty>,
    at: int,
)
    requires
        txt_at(properties) is Ok,
        is_first_with(properties, at, 0x61, 0x74),
        properties[at].value() matches Some(value) ==> !valid_utf8(value),
    ensures
        txt_at(properties)->Ok_0.auth_token.len() == 0,
{
    lemma_key_bytes();
    lemma_found(properties, at, 0x61, 0x74);
}

// ---- Addresses ----

/// The first address of version 4 is used wherever there is one; else the first of version 6
/// that does not start with the bytes fe and 80; else the first.
pub proof fn preference(addresses: Seq<IpAddress>, used: int, k: int)
    requires
        is_preferred(addresses, used),
        0 <= k < addresses.len(),
    ensures
        0 <= used < addresses.len(),
        addresses[k] is V4 ==> addresses[used] is V4 && used <= k,
        addresses[used] matches IpAddress::V6(bytes) ==> !(addresses[k] is V4) && {
            &&& (addresses[k] matches IpAddress::V6(other) && !(other@[0] == 0xfe && other@[1]
                == 0x80)) ==> used <= k && !(bytes@[0] == 0xfe && bytes@[1] == 0x80)
            &&& bytes@[0] == 0xfe && bytes@[1] == 0x80 ==> used == 0
        },
{
    preferred_address_is_unique(addresses, used, used);
    let v4 = |address: IpAddress| address is V4;
    let v6 = |address: IpAddress| crate::discovery::resolve::is_global_v6(address);
    assert(v4(addresses[k]) == (addresses[k] is V4));
    assert(v4(addresses[used]) == (addresses[used] is V4));
    assert(v6(addresses[k]) == crate::discovery::resolve::is_global_v6(addresses[k]));
    if exists|j: int| 0 <= j < addresses.len() && v4(#[trigger] addresses[j]) {
        assert(v4(addresses[used]));
    } else if exists|j: int| 0 <= j < addresses.len() && v6(#[trigger] addresses[j]) {
        assert(v6(addresses[used]));
    }
}

/// How late an address is used: those of version 4 before all others, and those of version 6 that
/// start with the bytes fe and 80 behind all others.
pub open spec fn rank(address: IpAddress) -> int {
    match address {
        IpAddress::V4(_) => 0,
        IpAddress::V6(bytes) => if bytes@[0] == 0xfe && bytes@[1] == 0x80 {
            2
        } else {
            1
        },
    }
}

/// A service that was resolved keeps its name and its port, has what its TXT records tell, and
/// its address is one of those that were found, without the scope: the first one of the lowest
/// rank.
pub proof fn services_are_what_was_resolved(
    info: ServiceInfo,
    fullname: Seq<char>,
    addresses: Seq<ScopedAddress>,
    port: u16,
    properties: Seq<TxtProperty>,
    now: u64,
)
    requires
        is_service_outcome(Ok(info), fullname, without_scopes(addresses), port, properties, now),
    ensures
        info.instance_name@ == fullname,
        info.display_name@ == fullname,
        info.port == port,
        info.discovered_at == now,
        txt_at(properties) matches Ok(txt) && info.fingerprint@ == txt.fingerprint
            && info.metadata_version == txt.metadata_version && info.auth_token@ == txt.auth_token,
        exists|i: int|
            0 <= i < addresses.len() && info.ip_address == (#[trigger] addresses[i]).address && (
            forall|k: int|
                0 <= k < addresses.len() ==> {
                    let other = rank((#[trigger] addresses[k]).address);
                    rank(info.ip_address) < other || rank(info.ip_address) == other && i <= k
                }),
{
    let plain = without_scopes(addresses);
    let i = choose|i: int| is_preferred(plain, i) && info.ip_address == #[trigger] plain[i];
    preferred_address_is_unique(plain, i, i);
    assert(addresses[i].address == plain[i]);
    assert forall|k: int| 0 <= k < addresses.len() implies {
        let other = rank((#[trigger] addresses[k]).address);
        rank(info.ip_address) < other || rank(info.ip_address) == other && i <= k
    } by {
        assert(plain[k] == addresses[k].address);
        preference(plain, i, k);
    }
}

/// A service is made out exactly where its TXT records can be read and it has an address.
pub proof fn services_are_made_out(
    r: Result<ServiceInfo, ParseError>,
    fullname: Seq<char>,
    addresses: Seq<IpAddress>,
    port: u16,
    properties: Seq<TxtProperty>,
    now: u64,
)
    requires
        is_service_outcome(r, fullname, addresses, port, properties, now),
    ensures
        r is Ok <==> txt_at(properties) is Ok && addresses.len() > 0,
        r matches Err(e) ==> {
            &&& txt_at(properties) matches Err(cause) ==> e == cause
            &&& txt_at(properties) is Ok ==> e == ParseError::NoAddress
        },
{
}

// ---- Identities ----

/// A fingerprint is its bytes, and a service is its fingerprint, whatever its names, addresses
/// and records are.
pub proof fn services_are_their_fingerprints(
    a: ServiceInfo,
    b: ServiceInfo,
    x: Fingerprint,
    y: Fingerprint,
)
    ensures
        x.eq_spec(&y) <==> x@ == y@,
        a.eq_spec(&b) <==> a.fingerprint@ == b.fingerprint@,
        Fingerprint::obeys_eq_spec() && ServiceInfo::obeys_eq_spec(),
{
}

/// Every service of a table is listed, nothing else is, and none twice.
pub proof fn services_are_listed(
    services: Seq<ServiceInfo>,
    table: Map<Seq<char>, ServiceInfo>,
    name: Seq<char>,
    i: int,
)
    requires
        are_services(services, table),
    ensures
        services.len() == table.len(),
        table.contains_key(name) ==> services.contains(table[name]),
        0 <= i < services.len() ==> (exists|key: Seq<char>| #[trigger]
            table.contains_key(key) && table[key] == services[i]),
{
    let order = choose|order: Seq<Seq<char>>|
        #[trigger] order.no_duplicates() && order.to_set() == table.dom() && services
            == order.map_values(|name: Seq<char>| table[name]);
    order.unique_seq_to_set();
    if table.contains_key(name) {
        assert(order.to_set().contains(name));
        let k = choose|k: int| 0 <= k < order.len() && order[k] == name;
        assert(services[k] == table[name]);
    }
    if 0 <= i < services.len() {
        assert(order.to_set().contains(order[i]));
        assert(table.contains_key(order[i]) && table[order[i]] == services[i]);
    }
}

/// A service is published with its fingerprint under the key `fp`, its metadata version as a
/// variable-length integer under `mv`, and its token under `at`.
pub proof fn records_are_published(
    properties: Seq<TxtProperty>,
    fp: Seq<char>,
    mv: u32,
    at: Seq<char>,
)
    requires
        are_txt_properties(properties, fp, mv, at),
    ensures
        properties.len() == 3,
        properties[0].key@ == "fp"@ && properties[0].value() == Some(encode_utf8(fp)),
        properties[1].key@ == "mv"@ && properties[1].value() == Some(varint_bytes(mv as nat)),
        properties[2].key@ == "at"@ && properties[2].value() == Some(encode_utf8(at)),
        forall|i: int|
            0 <= i < 3 ==> match (#[trigger] properties[i]).val {
                Some(bytes) => properties[i].value() == Some(bytes@),
                None => properties[i].value() is None,
            },
{
}

/// The value of a property is read as the text that its bytes encode. Without a value, or where
/// the bytes encode none, it is read as the empty text.
pub proof fn values_are_read_as_texts(text: Seq<char>, value: Option<Seq<u8>>)
    ensures
        value_text(Some(encode_utf8(text))) == text,
        (value matches Some(bytes) ==> !valid_utf8(bytes)) ==> value_text(value) == Seq::<
            char,
        >::empty(),
{
    encode_utf8_valid_utf8(text);
    encode_utf8_decode_utf8(text);
}

// ---- Browsing and publishing ----

/// A service that was found is told of and known under its full name, one that is gone is told of
/// and known no more, and nothing else that is known changes.
pub proof fn found_services_are_known(
    before: Map<Seq<char>, ServiceInfo>,
    after: Map<Seq<char>, ServiceInfo>,
    event: BrowseEvent,
    now: u64,
    r: Result<Option<DiscoveryEvent>, ParseError>,
    name: Seq<char>,
)
    requires
        is_browse_outcome(before, after, event, now, r),
    ensures
        event matches BrowseEvent::Resolved(resolved) ==> {
            &&& r is Ok <==> txt_at(resolved.properties@) is Ok && resolved.addresses@.len() > 0
            &&& r matches Ok(told) ==> (told matches Some(DiscoveryEvent::ServiceDiscovered(info))
                && info.instance_name@ == resolved.fullname@ && info.port == resolved.port
                && info.discovered_at == now && after.contains_key(resolved.fullname@)
                && after[resolved.fullname@] == info)
            &&& r is Err ==> after == before
            &&& name != resolved.fullname@ ==> (after.contains_key(name) <==> before.contains_key(
                name,
            )) && (before.contains_key(name) ==> after[name] == before[name])
        },
        event matches BrowseEvent::Removed(fullname) ==> {
            &&& r matches Ok(Some(DiscoveryEvent::ServiceRemoved { instance_name }))
                && instance_name@ == fullname@
            &&& !after.contains_key(fullname@)
            &&& name != fullname@ ==> (after.contains_key(name) <==> before.contains_key(name)) && (
            before.contains_key(name) ==> after[name] == before[name])
        },
        event is Other ==> after == before && (r matches Ok(told) && told is None),
{
}

/// What is published in memory is known under its display name, on this host, with the port, the
/// fingerprint, the metadata version and the token that it was given, and browsers are told. What
/// is withdrawn behind that is known no more, and the registry is as it was without it.
pub proof fn published_services_are_known(
    before: Map<Seq<char>, ServiceInfo>,
    between: Map<Seq<char>, ServiceInfo>,
    after: Map<Seq<char>, ServiceInfo>,
    published: Option<ServiceInfo>,
    told: Seq<BackendEvent>,
    withdrawn: Seq<BackendEvent>,
    info: PublishInfo,
    now: u64,
)
    requires
        is_publication(before, between, published, told, info, now),
        is_withdrawal(between, after, published, withdrawn),
    ensures
        between.contains_key(info.display_name@),
        ({
            let service = between[info.display_name@];
            &&& service.instance_name@ == info.display_name@
            &&& service.display_name@ == info.display_name@
            &&& (service.ip_address matches IpAddress::V4(address) && address@ == seq![
                127u8,
                0,
                0,
                1,
            ])
            &&& service.port == info.port
            &&& service.fingerprint@ == info.fingerprint@
            &&& service.metadata_version == info.metadata_version
            &&& service.auth_token@ == info.auth_token@
            &&& service.discovered_at == now
            &&& told == seq![BackendEvent::ServicePublished(service)]
        }),
        after == before.remove(info.display_name@),
        withdrawn.len() == 1 && (withdrawn[0] matches BackendEvent::ServiceUnpublished(name) && name@
            == info.display_name@),
{
    assert(after =~= before.remove(info.display_name@));
}

/// A publisher without a service has nothing to withdraw and nothing to change. With one, only the
/// metadata version changes; browsers are told that it was withdrawn and published again.
pub proof fn updates_change_versions(
    before: Map<Seq<char>, ServiceInfo>,
    after: Map<Seq<char>, ServiceInfo>,
    published: Option<ServiceInfo>,
    republished: Option<ServiceInfo>,
    events: Seq<BackendEvent>,
    version: u32,
)
    requires
        is_update(before, after, published, republished, events, version),
    ensures
        published is None ==> republished is None && after == before && events.len() == 0,
        is_withdrawal(before, after, None, events) <==> after == before && events.len() == 0,
        published matches Some(service) ==> {
            &&& republished matches Some(updated)
            &&& updated.metadata_version == version
            &&& updated.instance_name == service.instance_name
            &&& updated.display_name == service.display_name
            &&& updated.ip_address == service.ip_address
            &&& updated.port == service.port
            &&& updated.fingerprint == service.fingerprint
            &&& updated.auth_token == service.auth_token
            &&& updated.discovered_at == service.discovered_at
            &&& after == before.insert(service.instance_name@, updated)
            &&& events.len() == 2
            &&& events[0] matches BackendEvent::ServiceUnpublished(name)
            &&& name@ == service.instance_name@
            &&& events[1] == BackendEvent::ServicePublished(updated)
        },
{
}

/// A service that is given by hand has the host for its names, the address, the port, the
/// fingerprint and the token that were given, and the metadata version 1.
pub proof fn services_given_by_hand(
    info: ServiceInfo,
    host: Seq<char>,
    ip_address: IpAddress,
    port: u16,
    fingerprint: Seq<u8>,
    token: Seq<char>,
    now: u64,
)
    requires
        is_direct_service(info, host, ip_address, port, fingerprint, token, now),
    ensures
        info.instance_name@ == host && info.display_name@ == host,
        info.ip_address == ip_address && info.port == port,
        info.fingerprint@ == fingerprint && info.auth_token@ == token,
        info.metadata_version == 1 && info.discovered_at == now,
{
}

// ---- Names ----

/// The encoding of some characters ends on a boundary of the encoding of these and more.
proof fn lemma_boundary(a: Seq<char>, b: Seq<char>)
    ensures
        is_char_boundary(encode_utf8(a + b), encode_utf8(a).len() as int),
    decreases a.len(),
{
    let all = a + b;
    let bytes = encode_utf8(all);
    encode_utf8_valid_utf8(all);
    if a.len() > 0 {
        lemma_boundary(a.drop_first(), b);
        assert(all.drop_first() =~= a.drop_first() + b);
        encode_utf8_first_scalar(all);
        assert(pop_first_scalar(bytes) =~= encode_utf8(all.drop_first()));
        lemma_encode_concat(a, b);
    }
}

proof fn lemma_cut(bytes: Seq<u8>, at: int, boundary: int)
    requires
        0 <= boundary <= at,
        is_char_boundary(bytes, boundary),
    ensures
        boundary <= cut_before(bytes, at) <= at,
    decreases at,
{
    if at > boundary && !is_char_boundary(bytes, at) {
        lemma_cut(bytes, at - 1, boundary);
    }
}

/// An instance name is the display name if a label of 63 bytes can hold it. Otherwise it is as
/// many of its first characters as 63 bytes can hold, and a null.
pub proof fn instance_names_hold_what_fits(name: Seq<char>, display_name: Seq<char>, n: int)
    requires
        is_instance_name(name, display_name),
    ensures
        encode_utf8(display_name).len() <= 63 ==> name == display_name,
        encode_utf8(display_name).len() > 63 ==> {
            let kept = name.drop_last();
            &&& name.len() > 0 && name.last() == '\0'
            &&& kept.is_prefix_of(display_name)
            &&& encode_utf8(kept).len() <= 63
            &&& kept.len() < n <= display_name.len() ==> encode_utf8(display_name.take(n)).len() > 63
        },
{
    let bytes = encode_utf8(display_name);
    if bytes.len() > 63 {
        let kept = name.drop_last();
        assert(name.len() > 0) by {
            if name.len() == 0 {
                assert(encode_utf8(name).len() == 0);
            }
        }
        assert(name =~= kept + seq!['\0']);
        lemma_encode_concat(kept, seq!['\0']);
        is_ascii_chars_encode_utf8(seq!['\0']);
        encode_utf8_valid_utf8(display_name);
        lemma_cut(bytes, 63, 0);
        let cut = cut_before(bytes, 63);
        assert(encode_utf8(seq!['\0']).len() == 1);
        assert(encode_utf8(name).len() == bytes.take(cut).len() + 1);
        assert(encode_utf8(kept).len() == cut);
        if kept.len() < n <= display_name.len() && encode_utf8(display_name.take(n)).len() <= 63 {
            let more = display_name.take(n);
            assert(display_name =~= more + display_name.skip(n));
            lemma_boundary(more, display_name.skip(n));
            lemma_cut(bytes, 63, encode_utf8(more).len() as int);
            assert(kept =~= display_name.take(kept.len() as int));
            let extra = more.skip(kept.len() as int);
            assert(more =~= kept + extra);
            lemma_encode_concat(kept, extra);
            encode_utf8_first_scalar(extra);
            vstd::utf8::encode_utf8_valid_utf8(extra);
            assert(encode_utf8(extra).len() > 0);
        }
    }
}

/// Whether bytes end with ".local", whatever the case of its letters, and then with `dots` dots.
pub open spec fn ends_locally(bytes: Seq<u8>, dots: nat) -> bool {
    let n = bytes.len() - 6 - dots;
    &&& n >= 0
    &&& bytes[n] == 0x2e
    &&& bytes[n + 1] == 0x6c || bytes[n + 1] == 0x4c
    &&& bytes[n + 2] == 0x6f || bytes[n + 2] == 0x4f
    &&& bytes[n + 3] == 0x63 || bytes[n + 3] == 0x43
    &&& bytes[n + 4] == 0x61 || bytes[n + 4] == 0x41
    &&& bytes[n + 5] == 0x6c || bytes[n + 5] == 0x4c
    &&& dots == 1 ==> bytes[n + 6] == 0x2e
}

proof fn lemma_local_bytes()
    ensures
        ".local".spec_bytes() == seq![0x2eu8, 0x6c, 0x6f, 0x63, 0x61, 0x6c],
        ".local.".spec_bytes() == seq![0x2eu8, 0x6c, 0x6f, 0x63, 0x61, 0x6c, 0x2e],
{
    reveal_strlit(".local");
    reveal_strlit(".local.");
    is_ascii_chars_encode_utf8(".local"@);
    is_ascii_chars_encode_utf8(".local."@);
    assert(encode_utf8(".local"@) =~= seq![0x2eu8, 0x6c, 0x6f, 0x63, 0x61, 0x6c]);
    assert(encode_utf8(".local."@) =~= seq![0x2eu8, 0x6c, 0x6f, 0x63, 0x61, 0x6c, 0x2e]);
}

proof fn lemma_ends_locally(bytes: Seq<u8>)
    ensures
        ends_with(bytes, ".local".spec_bytes()) <==> ends_locally(bytes, 0),
        ends_with(bytes, ".local.".spec_bytes()) <==> ends_locally(bytes, 1),
{
    lemma_local_bytes();
    let short = ".local".spec_bytes();
    let long = ".local.".spec_bytes();
    if bytes.len() >= 6 {
        let tail = bytes.skip(bytes.len() - 6);
        if same_but_case(tail, short) {
            assert(lower(tail[0]) == lower(short[0]) && lower(tail[1]) == lower(short[1]));
            assert(lower(tail[2]) == lower(short[2]) && lower(tail[3]) == lower(short[3]));
            assert(lower(tail[4]) == lower(short[4]) && lower(tail[5]) == lower(short[5]));
        }
        if ends_locally(bytes, 0) {
            assert forall|i: int| 0 <= i < tail.len() implies lower(#[trigger] tail[i]) == lower(
                short[i],
            ) by {
                assert(i == 0 || i == 1 || i == 2 || i == 3 || i == 4 || i == 5);
            }
        }
    }
    if bytes.len() >= 7 {
        let tail = bytes.skip(bytes.len() - 7);
        if same_but_case(tail, long) {
            assert(lower(tail[0]) == lower(long[0]) && lower(tail[1]) == lower(long[1]));
            assert(lower(tail[2]) == lower(long[2]) && lower(tail[3]) == lower(long[3]));
            assert(lower(tail[4]) == lower(long[4]) && lower(tail[5]) == lower(long[5]));
            assert(lower(tail[6]) == lower(long[6]));
        }
        if ends_locally(bytes, 1) {
            assert forall|i: int| 0 <= i < tail.len() implies lower(#[trigger] tail[i]) == lower(
                long[i],
            ) by {
                assert(i == 0 || i == 1 || i == 2 || i == 3 || i == 4 || i == 5 || i == 6);
            }
        }
    }
}

/// A hostname that is registered starts with the hostname. Only what is missing of ".local." is
/// added, and nothing is added to what was registered already.
pub proof fn only_what_is_missing_is_added(hostname: Seq<char>)
    ensures
        hostname.is_prefix_of(local_hostname(hostname)),
        ends_locally(encode_utf8(hostname), 1) ==> local_hostname(hostname) == hostname,
        ends_locally(encode_utf8(hostname), 0) ==> local_hostname(hostname) == hostname.push('.'),
        !ends_locally(encode_utf8(hostname), 0) && !ends_locally(encode_utf8(hostname), 1)
            ==> local_hostname(hostname) == hostname + seq!['.', 'l', 'o', 'c', 'a', 'l', '.'],
        local_hostname(local_hostname(hostname)) == local_hostname(hostname),
{
    reveal_strlit(".");
    reveal_strlit(".local.");
    lemma_ends_locally(encode_utf8(hostname));
    assert("."@ =~= seq!['.']);
    assert(".local."@ =~= seq!['.', 'l', 'o', 'c', 'a', 'l', '.']);
    assert(hostname + seq!['.'] =~= hostname.push('.'));
    registered_hostname_is_local(hostname);
    lemma_ends_locally(encode_utf8(local_hostname(hostname)));
}

// ---- Services that are given by hand ----

/// The fingerprint that is given in 64 hexadecimal digits is expected; without one, 32 zero
/// bytes are. Any other number of digits, and other characters, are refused.
pub proof fn given_fingerprints_are_expected(bytes: Seq<u8>, digits: Seq<char>)
    ensures
        expected_fingerprint(None) matches Ok(expected) && expected.len() == 32 && (forall|i: int|
            0 <= i < 32 ==> #[trigger] expected[i] == 0),
        bytes.len() == 32 ==> expected_fingerprint(Some(hex_text(bytes))) == Ok::<
            Seq<u8>,
            FingerprintError,
        >(bytes),
        bytes.len() != 32 ==> expected_fingerprint(Some(hex_text(bytes))) == Err::<
            Seq<u8>,
            FingerprintError,
        >(FingerprintError::InvalidLength(bytes.len() as usize)),
        !is_hex(digits) ==> expected_fingerprint(Some(digits)) == Err::<
            Seq<u8>,
            FingerprintError,
        >(FingerprintError::InvalidHex),
        is_hex(digits) && digits.len() == 64 ==> expected_fingerprint(Some(digits)) == Ok::<
            Seq<u8>,
            FingerprintError,
        >(hex_bytes(digits)),
{
    hex_round_trip(bytes);
}

} // verus!
