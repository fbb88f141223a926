//! Fingerprints, TXT records, and services that are published and found.
use openscreen::discovery::auth_token::AuthToken;
use openscreen::discovery::browser::{BrowseEvent, BrowserState, DiscoveryEvent};
use openscreen::discovery::direct::direct_service;
use openscreen::discovery::error::DiscoveryError;
use openscreen::discovery::fingerprint::{Fingerprint, FingerprintError};
use openscreen::discovery::mdns::{
    advertise, build_txt_properties, parse_txt_properties, sanitize_instance_name,
    to_local_hostname, ParseError, TxtProperty,
};
use openscreen::discovery::mock::{BackendEvent, MockBackend, MockPublisher};
use openscreen::discovery::publisher::PublisherState;
use openscreen::discovery::resolve::{
    preferred_address, service_info_from_mdns, service_info_from_mdns_resolved, FoundService,
    ResolvedService, ScopedAddress,
};
use openscreen::discovery::service_info::{IpAddress, PublishInfo, ServiceInfo, TxtRecords};
use openscreen::encoding::decimal::to_decimal;

const LOCALHOST: IpAddress = IpAddress::V4([127, 0, 0, 1]);

#[test]
fn test_service_info_equality() {
    let fp1 = Fingerprint::from_bytes([1u8; 32]);
    let fp2 = Fingerprint::from_bytes([2u8; 32]);

    let info1 = ServiceInfo {
        instance_name: "Device 1".to_string(),
        display_name: "Device 1".to_string(),
        ip_address: IpAddress::V4([192, 168, 1, 1]),
        port: 4433,
        fingerprint: fp1,
        metadata_version: 1,
        auth_token: AuthToken::generate(),
        discovered_at: 1,
    };

    let info2 = ServiceInfo {
        instance_name: "Device 1 (2)".to_string(),
        display_name: "Device 1".to_string(),
        ip_address: IpAddress::V4([192, 168, 1, 2]),
        port: 5544,
        fingerprint: fp1,
        metadata_version: 2,
        auth_token: AuthToken::generate(),
        discovered_at: 2,
    };

    let info3 = ServiceInfo {
        instance_name: "Device 1".to_string(),
        display_name: "Device 1".to_string(),
        ip_address: IpAddress::V4([192, 168, 1, 1]),
        port: 4433,
        fingerprint: fp2,
        metadata_version: 1,
        auth_token: AuthToken::generate(),
        discovered_at: 1,
    };

    assert_eq!(info1, info2);
    assert_ne!(info1, info3);
}

#[test]
fn test_txt_records_from_publish_info() {
    let info = PublishInfo {
        display_name: "Test Device".to_string(),
        port: 4433,
        fingerprint: Fingerprint::from_bytes([42u8; 32]),
        metadata_version: 1,
        auth_token: AuthToken::from_string("0123456789abcdef".to_string()),
        hostname: "test.device.local".to_string(),
    };

    let txt = TxtRecords::from_publish_info(&info);
    assert_eq!(txt.mv, 1);
    assert_eq!(txt.at, "0123456789abcdef");
    assert!(!txt.fp.is_empty());
    assert_eq!(txt.fp, "KioqKioqKioqKioqKioqKioqKioqKioqKioqKioqKio=");
}

#[test]
fn test_txt_records_to_strings() {
    let txt = TxtRecords {
        fp: "test_fingerprint".to_string(),
        mv: 1,
        at: "test_token".to_string(),
    };

    let strings = txt.to_strings();
    assert_eq!(strings.len(), 3);
    assert!(strings.contains(&"fp=test_fingerprint".to_string()));
    assert!(strings.contains(&"mv=1".to_string()));
    assert!(strings.contains(&"at=test_token".to_string()));
}

#[test]
fn test_sanitize_instance_name_short() {
    let name = "Short Name";
    assert_eq!(sanitize_instance_name(name), "Short Name");
}

#[test]
fn test_sanitize_instance_name_long() {
    let name = "A".repeat(100);
    let sanitized = sanitize_instance_name(&name);
    assert!(sanitized.len() <= 64);
    assert!(sanitized.ends_with('\0'));
}

#[test]
fn test_sanitize_instance_name_exactly_63() {
    let name = "A".repeat(63);
    let sanitized = sanitize_instance_name(&name);
    assert_eq!(sanitized.len(), 63);
    assert!(!sanitized.ends_with('\0'));
}

#[test]
fn test_build_txt_properties() {
    let txt = TxtRecords {
        fp: "test_fingerprint".to_string(),
        mv: 42,
        at: "test_token".to_string(),
    };

    let props = build_txt_properties(&txt);
    assert_eq!(props.len(), 3);

    assert_eq!(props[0].key(), "fp");
    assert_eq!(props[0].val_str(), "test_fingerprint");

    assert_eq!(props[1].key(), "mv");
    assert_eq!(props[1].val(), Some([42u8].as_slice()));

    assert_eq!(props[2].key(), "at");
    assert_eq!(props[2].val_str(), "test_token");
}

fn create_test_service(name: &str) -> ServiceInfo {
    ServiceInfo {
        instance_name: name.to_string(),
        display_name: name.to_string(),
        ip_address: LOCALHOST,
        port: 4433,
        fingerprint: Fingerprint::from_bytes([1u8; 32]),
        metadata_version: 1,
        auth_token: AuthToken::generate(),
        discovered_at: 100,
    }
}

#[test]
fn test_backend_publish_and_get() {
    let mut backend = MockBackend::new();
    let service = create_test_service("test");

    backend.publish(service.clone());

    let services = backend.get_services();
    assert_eq!(services.len(), 1);
    assert_eq!(services[0].instance_name, "test");
}

#[test]
fn test_backend_unpublish() {
    let mut backend = MockBackend::new();
    let service = create_test_service("test");

    backend.publish(service);
    assert_eq!(backend.service_count(), 1);

    backend.unpublish("test");
    assert_eq!(backend.service_count(), 0);
}

#[test]
fn test_backend_multiple_services() {
    let mut backend = MockBackend::new();

    backend.publish(create_test_service("device1"));
    backend.publish(create_test_service("device2"));
    backend.publish(create_test_service("device3"));

    assert_eq!(backend.service_count(), 3);
}

#[test]
fn test_backend_clear() {
    let mut backend = MockBackend::new();

    backend.publish(create_test_service("device1"));
    backend.publish(create_test_service("device2"));

    backend.clear();
    assert_eq!(backend.service_count(), 0);
}

fn publish_info() -> PublishInfo {
    PublishInfo {
        display_name: "Test Device".to_string(),
        hostname: "test-device._openscreen._tcp.local".to_string(),
        port: 4433,
        fingerprint: Fingerprint::from_bytes([1u8; 32]),
        metadata_version: 1,
        auth_token: AuthToken::generate(),
    }
}

#[test]
fn test_mock_publisher_publish() {
    let mut backend = MockBackend::new();
    let mut publisher = MockPublisher::new();

    publisher.publish(&mut backend, publish_info(), 5).unwrap();

    assert_eq!(backend.service_count(), 1);

    let services = backend.get_services();
    assert_eq!(services[0].display_name, "Test Device");
    assert_eq!(services[0].port, 4433);
}

#[test]
fn test_mock_publisher_unpublish() {
    let mut backend = MockBackend::new();
    let mut publisher = MockPublisher::new();

    publisher.publish(&mut backend, publish_info(), 5).unwrap();
    assert_eq!(backend.service_count(), 1);

    publisher.unpublish(&mut backend).unwrap();
    assert_eq!(backend.service_count(), 0);
}

#[test]
fn test_mock_publisher_update_txt_records() {
    let mut backend = MockBackend::new();
    let mut publisher = MockPublisher::new();

    publisher.publish(&mut backend, publish_info(), 5).unwrap();

    let new_txt = TxtRecords {
        fp: Fingerprint::from_bytes([2u8; 32]).to_base64(),
        mv: 2,
        at: "new_token".to_string(),
    };

    publisher.update_txt_records(&mut backend, new_txt).unwrap();

    let services = backend.get_services();
    assert_eq!(services[0].metadata_version, 2);
    assert_eq!(services[0].fingerprint, Fingerprint::from_bytes([1u8; 32]));
}

#[test]
fn publisher_tells_what_it_does() {
    let mut backend = MockBackend::new();
    let mut publisher = MockPublisher::new();
    assert_eq!(publisher.unpublish(&mut backend).unwrap().len(), 0);

    let events = publisher.publish(&mut backend, publish_info(), 5).unwrap();
    assert_eq!(events.len(), 1);
    match &events[0] {
        BackendEvent::ServicePublished(info) => {
            assert_eq!(info.ip_address, LOCALHOST);
            assert_eq!(info.discovered_at, 5);
        }
        BackendEvent::ServiceUnpublished(_) => panic!("not withdrawn"),
    }

    let txt = TxtRecords { fp: String::new(), mv: 9, at: String::new() };
    let events = publisher.update_txt_records(&mut backend, txt).unwrap();
    assert_eq!(events.len(), 2);
    assert!(matches!(&events[0], BackendEvent::ServiceUnpublished(name) if name == "Test Device"));
    assert!(matches!(&events[1], BackendEvent::ServicePublished(info) if info.metadata_version == 9));

    let events = publisher.unpublish(&mut backend).unwrap();
    assert!(matches!(&events[0], BackendEvent::ServiceUnpublished(name) if name == "Test Device"));
    let txt = TxtRecords { fp: String::new(), mv: 9, at: String::new() };
    assert_eq!(publisher.update_txt_records(&mut backend, txt).unwrap().len(), 0);
}

#[test]
fn backend_replaces_by_name() {
    let mut backend = MockBackend::default();
    backend.publish(create_test_service("a"));
    backend.publish(create_test_service("b"));
    let mut newer = create_test_service("a");
    newer.port = 1;
    backend.publish(newer);
    assert_eq!(backend.service_count(), 2);
    backend.unpublish("none");
    assert_eq!(backend.service_count(), 2);
    let services = backend.get_services();
    let a = services.iter().find(|s| s.instance_name == "a").unwrap();
    assert_eq!(a.port, 1);
}

#[test]
fn long_names_are_cut_and_terminated() {
    let name = "0123456789".repeat(7);
    let sanitized = sanitize_instance_name(&name);
    assert_eq!(sanitized, format!("{}\0", &name[..63]));
}

#[test]
fn fingerprints_as_text() {
    let mut bytes = [0u8; 32];
    bytes[0] = 0xab;
    bytes[31] = 0x0f;
    let fingerprint = Fingerprint::from_bytes(bytes);
    assert_eq!(
        fingerprint.to_hex(),
        "ab0000000000000000000000000000000000000000000000000000000000000f"
    );
    assert_eq!(
        fingerprint.to_base64(),
        "qwAAAAAAAAAAAAAAAAAAAAAAAAAAAAAAAAAAAAAAAA8="
    );
    assert_eq!(Fingerprint::from_hex(&fingerprint.to_hex()), Ok(fingerprint));
    assert_eq!(Fingerprint::from_base64(&fingerprint.to_base64()), Ok(fingerprint));
    assert_eq!(
        Fingerprint::from_hex(&fingerprint.to_hex().to_uppercase()),
        Ok(fingerprint)
    );
}

#[test]
fn what_is_no_fingerprint() {
    assert_eq!(Fingerprint::from_hex("0g"), Err(FingerprintError::InvalidHex));
    assert_eq!(Fingerprint::from_hex("abc"), Err(FingerprintError::InvalidHex));
    assert_eq!(Fingerprint::from_hex("abcd"), Err(FingerprintError::InvalidLength(2)));
    assert_eq!(Fingerprint::from_base64("!"), Err(FingerprintError::InvalidBase64));
    assert_eq!(Fingerprint::from_base64("AAA"), Err(FingerprintError::InvalidBase64));
    assert_eq!(Fingerprint::from_base64("AAB="), Err(FingerprintError::InvalidBase64));
    assert_eq!(Fingerprint::from_base64("AAA="), Err(FingerprintError::InvalidLength(2)));
}

#[test]
fn tokens() {
    let token = AuthToken::generate();
    assert_eq!(token.as_str().len(), 32);
    assert_eq!(&token.as_str()[12..13], "4");
    assert!(matches!(&token.as_str()[16..17], "8" | "9" | "a" | "b"));
    assert_ne!(token.as_str(), AuthToken::generate().as_str());
    assert_eq!(AuthToken::from_string("t".to_string()).as_str(), "t");
}

#[test]
fn numbers_in_digits() {
    assert_eq!(to_decimal(0), "0");
    assert_eq!(to_decimal(1203456789), "1203456789");
    assert_eq!(to_decimal(u64::MAX), "18446744073709551615");
}

#[test]
fn published_records_are_read() {
    let info = PublishInfo {
        display_name: "TV".to_string(),
        port: 4433,
        fingerprint: Fingerprint::from_bytes([7u8; 32]),
        metadata_version: 70000,
        auth_token: AuthToken::from_string("tok\u{e9}n".to_string()),
        hostname: "host.LOCAL".to_string(),
    };
    let advertisement = advertise(&info);
    assert_eq!(advertisement.instance_name, "TV");
    assert_eq!(advertisement.hostname, "host.LOCAL.");
    assert_eq!(advertisement.port, 4433);
    let (fingerprint, version, token) = parse_txt_properties(&advertisement.properties).unwrap();
    assert_eq!(fingerprint, info.fingerprint);
    assert_eq!(version, 70000);
    assert_eq!(token, "tok\u{e9}n");
}

fn property(key: &str, val: Option<&[u8]>) -> TxtProperty {
    TxtProperty { key: key.to_string(), val: val.map(|bytes| bytes.to_vec()) }
}

#[test]
fn records_that_cannot_be_read() {
    let fp = Fingerprint::from_bytes([7u8; 32]).to_base64();
    let fp = fp.as_bytes();
    let at = property("at", Some(b"t"));
    let read = |properties: Vec<TxtProperty>| parse_txt_properties(&properties).unwrap_err();
    assert_eq!(read(vec![]), ParseError::MissingField("fp"));
    assert_eq!(
        read(vec![property("fp", Some(b"x"))]),
        ParseError::InvalidFingerprint(FingerprintError::InvalidBase64)
    );
    assert_eq!(
        read(vec![property("fp", None)]),
        ParseError::InvalidFingerprint(FingerprintError::InvalidLength(0))
    );
    assert_eq!(
        read(vec![property("fp", Some(fp)), at.clone()]),
        ParseError::MissingField("mv")
    );
    assert_eq!(
        read(vec![property("fp", Some(fp)), property("mv", None), at.clone()]),
        ParseError::InvalidMetadataVersion
    );
    assert_eq!(
        read(vec![property("fp", Some(fp)), property("mv", Some(&[0x40])), at.clone()]),
        ParseError::InvalidMetadataVersion
    );
    let too_large = [0xc0, 0, 0, 1, 0, 0, 0, 0];
    assert_eq!(
        read(vec![property("fp", Some(fp)), property("mv", Some(&too_large)), at.clone()]),
        ParseError::InvalidMetadataVersion
    );
    assert_eq!(
        read(vec![property("fp", Some(fp)), property("mv", Some(&[3]))]),
        ParseError::MissingField("at")
    );
    let (_, version, token) = parse_txt_properties(&[
        property("FP", Some(fp)),
        property("mV", Some(&[3, 9])),
        property("mv", Some(&[4])),
        property("At", Some(&[0xff])),
    ])
    .unwrap();
    assert_eq!(version, 3);
    assert_eq!(token, "");
}

#[test]
fn hostnames_end_with_local() {
    assert_eq!(to_local_hostname("tv.local"), "tv.local.");
    assert_eq!(to_local_hostname("tv.Local."), "tv.Local.");
    assert_eq!(to_local_hostname("tv"), "tv.local.");
    assert_eq!(to_local_hostname(""), ".local.");
}

fn v6(first: u8, second: u8) -> IpAddress {
    let mut bytes = [1u8; 16];
    bytes[0] = first;
    bytes[1] = second;
    IpAddress::V6(bytes)
}

#[test]
fn addresses_are_preferred_in_order() {
    let link_local = v6(0xfe, 0x80);
    let global = v6(0x20, 0x01);
    let other = v6(0xfe, 0x81);
    let v4 = IpAddress::V4([10, 0, 0, 1]);
    assert_eq!(preferred_address(&[]), None);
    assert_eq!(preferred_address(&[link_local]), Some(link_local));
    assert_eq!(preferred_address(&[link_local, other, global]), Some(other));
    assert_eq!(preferred_address(&[link_local, global, v4, LOCALHOST]), Some(v4));
}

fn resolved(name: &str) -> ResolvedService {
    let txt = TxtRecords {
        fp: Fingerprint::from_bytes([7u8; 32]).to_base64(),
        mv: 1,
        at: "token".to_string(),
    };
    ResolvedService {
        fullname: name.to_string(),
        addresses: vec![
            ScopedAddress { address: v6(0xfe, 0x80), scope_id: Some(2) },
            ScopedAddress { address: v6(0x20, 0x01), scope_id: None },
        ],
        port: 4433,
        properties: build_txt_properties(&txt),
    }
}

#[test]
fn services_are_made_out() {
    let service = resolved("tv._openscreen._udp.local.");
    let info = service_info_from_mdns_resolved(&service, 77).unwrap();
    assert_eq!(info.instance_name, "tv._openscreen._udp.local.");
    assert_eq!(info.display_name, "tv._openscreen._udp.local.");
    assert_eq!(info.ip_address, v6(0x20, 0x01));
    assert_eq!(info.port, 4433);
    assert_eq!(info.auth_token.as_str(), "token");
    assert_eq!(info.discovered_at, 77);

    let mut without_address = service.clone();
    without_address.addresses.clear();
    assert_eq!(
        service_info_from_mdns_resolved(&without_address, 0).unwrap_err(),
        ParseError::NoAddress
    );
    let found = FoundService {
        fullname: "x".to_string(),
        addresses: vec![LOCALHOST],
        port: 1,
        properties: service.properties,
    };
    assert_eq!(service_info_from_mdns(&found, 0).unwrap().ip_address, LOCALHOST);
    let empty = FoundService { properties: vec![], addresses: vec![], ..found };
    assert_eq!(
        service_info_from_mdns(&empty, 0).unwrap_err(),
        ParseError::MissingField("fp")
    );
}

#[test]
fn browser_follows_the_network() {
    let mut browser = BrowserState::new();
    let told = browser.handle(BrowseEvent::Resolved(resolved("tv")), 1).unwrap();
    assert!(matches!(told, Some(DiscoveryEvent::ServiceDiscovered(_))));
    let mut broken = resolved("broken");
    broken.properties.clear();
    assert!(browser.handle(BrowseEvent::Resolved(broken), 1).is_err());
    assert!(browser.handle(BrowseEvent::Other, 1).unwrap().is_none());
    assert_eq!(browser.discovered_services().len(), 1);
    let told = browser.handle(BrowseEvent::Removed("tv".to_string()), 2).unwrap();
    assert!(
        matches!(told, Some(DiscoveryEvent::ServiceRemoved { instance_name }) if instance_name == "tv")
    );
    assert_eq!(browser.discovered_services().len(), 0);
}

#[test]
fn registered_records_cannot_change() {
    let mut state = PublisherState::new();
    assert!(state.update_txt_records().is_ok());
    assert_eq!(state.registered(), None);
    state.published("tv".to_string());
    assert_eq!(state.registered(), Some("tv"));
    match state.update_txt_records() {
        Err(DiscoveryError::Other(text)) => assert_eq!(
            text,
            "update_txt_records not fully implemented - requires caching PublishInfo"
        ),
        _ => panic!("refused"),
    }
    state.unpublished();
    assert_eq!(state.registered(), None);
}

#[test]
fn services_given_by_hand() {
    let digits = "11".repeat(32);
    let service =
        direct_service("10.0.0.1", IpAddress::V4([10, 0, 0, 1]), 4433, Some(&digits), Some("t"), 3)
            .unwrap();
    assert_eq!(service.fingerprint, Fingerprint::from_bytes([0x11; 32]));
    assert_eq!(service.instance_name, "10.0.0.1");
    assert_eq!(service.metadata_version, 1);
    assert_eq!(service.auth_token.as_str(), "t");
    let service = direct_service("h", LOCALHOST, 1, None, None, 3).unwrap();
    assert_eq!(service.fingerprint, Fingerprint::from_bytes([0; 32]));
    assert_eq!(service.auth_token.as_str(), "");
    assert_eq!(
        direct_service("h", LOCALHOST, 1, Some("aa"), None, 3).unwrap_err(),
        FingerprintError::InvalidLength(1)
    );
}

#[test]
fn long_names_are_cut_between_characters() {
    let name = "é".repeat(32);
    assert_eq!(sanitize_instance_name(&name), format!("{}\0", "é".repeat(31)));
    let name = format!("a{}", "é".repeat(32));
    assert_eq!(sanitize_instance_name(&name), format!("a{}\0", "é".repeat(31)));
    let name = format!("{}😀", "a".repeat(60));
    assert_eq!(sanitize_instance_name(&name), format!("{}\0", "a".repeat(60)));
}
