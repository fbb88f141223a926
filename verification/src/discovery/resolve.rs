//! Services out of what multicast DNS resolved.
use crate::discovery::auth_token::AuthToken;
use crate::discovery::mdns::{parse_txt_properties, txt_at, ParseError, TxtProperty};
use crate::discovery::service_info::{IpAddress, ServiceInfo};
use vstd::prelude::*;

verus! {

/// An address, and the scope that it is valid in.
#[derive(Debug, Clone, Copy)]
pub struct ScopedAddress {
    pub address: IpAddress,
    pub scope_id: Option<u32>,
}

/// A service that was resolved, with scoped addresses.
#[derive(Debug, Clone)]
pub struct ResolvedService {
    pub fullname: String,
    pub addresses: Vec<ScopedAddress>,
    pub port: u16,
    pub properties: Vec<TxtProperty>,
}

/// A service that was found, with plain addresses.
#[derive(Debug, Clone)]
pub struct FoundService {
    pub fullname: String,
    pub addresses: Vec<IpAddress>,
    pub port: u16,
    pub properties: Vec<TxtProperty>,
}

/// Whether an address is of version 6 and can be reached without a scope.
pub open spec fn is_global_v6(address: IpAddress) -> bool {
    address matches IpAddress::V6(bytes) && !(bytes@[0] == 0xfe && bytes@[1] == 0x80)
}

/// Whether the address at `i` is the first one with a property.
pub open spec fn is_first(
    addresses: Seq<IpAddress>,
    i: int,
    has_property: spec_fn(IpAddress) -> bool,
) -> bool {
    &&& 0 <= i < addresses.len()
    &&& has_property(addresses[i])
    &&& forall|j: int| 0 <= j < i ==> !has_property(#[trigger] addresses[j])
}

/// Whether the address at `i` is the one to use: the first of version 4, or else the first
/// of version 6 that needs no scope, or else the first.
pub open spec fn is_preferred(addresses: Seq<IpAddress>, i: int) -> bool {
    let v4 = |address: IpAddress| address is V4;
    let v6 = |address: IpAddress| is_global_v6(address);
    if exists|j: int| 0 <= j < addresses.len() && v4(#[trigger] addresses[j]) {
        is_first(addresses, i, v4)
    } else if exists|j: int| 0 <= j < addresses.len() && v6(#[trigger] addresses[j]) {
        is_first(addresses, i, v6)
    } else {
        i == 0 && addresses.len() > 0
    }
}

fn is_v4(address: &IpAddress) -> (r: bool)
    ensures
        r == (address is V4),
{
    matches!(address, IpAddress::V4(_))
}

fn is_reachable_v6(address: &IpAddress) -> (r: bool)
    ensures
        r == is_global_v6(*address),
{
    match address {
        IpAddress::V4(_) => false,
        IpAddress::V6(bytes) => !(bytes[0] == 0xfe && bytes[1] == 0x80),
    }
}

/// The address to use.
pub fn preferred_address(addresses: &[IpAddress]) -> (r: Option<IpAddress>)
    ensures
        match r {
            Some(address) => exists|i: int|
                is_preferred(addresses@, i) && address == #[trigger] addresses@[i],
            None => addresses@.len() == 0,
        },
{
    let mut i: usize = 0;
    while i < addresses.len()
        invariant
            i <= addresses@.len(),
            forall|j: int| 0 <= j < i ==> !(#[trigger] addresses@[j] is V4),
        decreases addresses.len() - i,
    {
        if is_v4(&addresses[i]) {
            proof {
                assert((|address: IpAddress| address is V4)(addresses@[i as int]));
                assert(is_preferred(addresses@, i as int));
            }
            return Some(addresses[i]);
        }
        i = i + 1;
    }
    let mut k: usize = 0;
    while k < addresses.len()
        invariant
            k <= addresses@.len(),
            forall|j: int| 0 <= j < addresses@.len() ==> !(#[trigger] addresses@[j] is V4),
            forall|j: int| 0 <= j < k ==> !is_global_v6(#[trigger] addresses@[j]),
        decreases addresses.len() - k,
    {
        if is_reachable_v6(&addresses[k]) {
            proof {
                assert((|address: IpAddress| is_global_v6(address))(addresses@[k as int]));
                assert(is_preferred(addresses@, k as int));
            }
            return Some(addresses[k]);
        }
        k = k + 1;
    }
    if addresses.len() == 0 {
        None
    } else {
        proof {
            assert(is_preferred(addresses@, 0));
        }
        Some(addresses[0])
    }
}

/// An address without its scope.
fn scoped_ip_to_ip_addr(host: &ScopedAddress) -> (r: IpAddress)
    ensures
        r == host.address,
{
    host.address
}

/// Whether a service is what was resolved, found at this time.
pub open spec fn is_service(
    info: ServiceInfo,
    fullname: Seq<char>,
    addresses: Seq<IpAddress>,
    port: u16,
    properties: Seq<TxtProperty>,
    now: u64,
) -> bool {
    &&& info.instance_name@ == fullname
    &&& info.display_name@ == fullname
    &&& info.port == port
    &&& info.discovered_at == now
    &&& txt_at(properties) matches Ok(txt)
    &&& info.fingerprint@ == txt.fingerprint
    &&& info.metadata_version == txt.metadata_version
    &&& info.auth_token@ == txt.auth_token
    &&& exists|i: int| is_preferred(addresses, i) && info.ip_address == #[trigger] addresses[i]
}

/// What comes of a service that was resolved: the TXT records are read first.
pub open spec fn is_service_outcome(
    r: Result<ServiceInfo, ParseError>,
    fullname: Seq<char>,
    addresses: Seq<IpAddress>,
    port: u16,
    properties: Seq<TxtProperty>,
    now: u64,
) -> bool {
    match txt_at(properties) {
        Err(e) => r == Err::<ServiceInfo, ParseError>(e),
        Ok(_) => if addresses.len() == 0 {
            r == Err::<ServiceInfo, ParseError>(ParseError::NoAddress)
        } else {
            r matches Ok(info) && is_service(info, fullname, addresses, port, properties, now)
        },
    }
}

/// The service that was found, at the time `now`.
pub fn service_info_from_mdns(found: &FoundService, now: u64) -> (r: Result<ServiceInfo, ParseError>)
    ensures
        is_service_outcome(
            r,
            found.fullname@,
            found.addresses@,
            found.port,
            found.properties@,
            now,
        ),
{
    let (fingerprint, metadata_version, auth_token) = match parse_txt_properties(
        found.properties.as_slice(),
    ) {
        Ok(txt) => txt,
        Err(e) => return Err(e),
    };
    let ip_address: IpAddress = match preferred_address(found.addresses.as_slice()) {
        Some(address) => address,
        None => return Err(ParseError::NoAddress),
    };
    Ok(
        ServiceInfo {
            instance_name: found.fullname.clone(),
            display_name: found.fullname.clone(),
            ip_address,
            port: found.port,
            fingerprint,
            metadata_version,
            auth_token: AuthToken::from_string(auth_token),
            discovered_at: now,
        },
    )
}

/// Addresses without their scopes.
pub open spec fn without_scopes(addresses: Seq<ScopedAddress>) -> Seq<IpAddress> {
    addresses.map_values(|host: ScopedAddress| host.address)
}

/// The service that was resolved, at the time `now`. Its address has no scope.
pub fn service_info_from_mdns_resolved(resolved: &ResolvedService, now: u64) -> (r: Result<
    ServiceInfo,
    ParseError,
>)
    ensures
        is_service_outcome(
            r,
            resolved.fullname@,
            without_scopes(resolved.addresses@),
            resolved.port,
            resolved.properties@,
            now,
        ),
{
    let (fingerprint, metadata_version, auth_token) = match parse_txt_properties(
        resolved.properties.as_slice(),
    ) {
        Ok(txt) => txt,
        Err(e) => return Err(e),
    };
    let mut addresses: Vec<IpAddress> = Vec::new();
    let mut i: usize = 0;
    while i < resolved.addresses.len()
        invariant
            i <= resolved.addresses@.len(),
            addresses@ == without_scopes(resolved.addresses@).take(i as int),
        decreases resolved.addresses.len() - i,
    {
        addresses.push(scoped_ip_to_ip_addr(&resolved.addresses[i]));
        i = i + 1;
        proof {
            assert(addresses@ =~= without_scopes(resolved.addresses@).take(i as int));
        }
    }
    proof {
        assert(addresses@ =~= without_scopes(resolved.addresses@));
    }
    let ip_address: IpAddress = match preferred_address(addresses.as_slice()) {
        Some(address) => address,
        None => return Err(ParseError::NoAddress),
    };
    Ok(
        ServiceInfo {
            instance_name: resolved.fullname.clone(),
            display_name: resolved.fullname.clone(),
            ip_address,
            port: resolved.port,
            fingerprint,
            metadata_version,
            auth_token: AuthToken::from_string(auth_token),
            discovered_at: now,
        },
    )
}

// ---- Laws ----

/// There is exactly one address to use wherever there are any.
pub proof fn preferred_address_is_unique(addresses: Seq<IpAddress>, i: int, j: int)
    requires
        is_preferred(addresses, i),
        is_preferred(addresses, j),
    ensures
        i == j,
        0 <= i < addresses.len(),
{
    let v4 = |address: IpAddress| address is V4;
    let v6 = |address: IpAddress| is_global_v6(address);
    if exists|k: int| 0 <= k < addresses.len() && v4(#[trigger] addresses[k]) {
        assert(v4(addresses[i]) && v4(addresses[j]));
    } else if exists|k: int| 0 <= k < addresses.len() && v6(#[trigger] addresses[k]) {
        assert(v6(addresses[i]) && v6(addresses[j]));
    }
}

} // verus!
