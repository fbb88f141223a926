//! Services that are given by hand instead of found.
use crate::discovery::auth_token::AuthToken;
use crate::discovery::fingerprint::{Fingerprint, FingerprintError};
use crate::discovery::service_info::{IpAddress, ServiceInfo};
use crate::encoding::hex::{hex_bytes, is_hex};
use vstd::prelude::*;

verus! {

/// The fingerprint to expect: without one given, 32 zero bytes.
pub open spec fn expected_fingerprint(digits: Option<Seq<char>>) -> Result<
    Seq<u8>,
    FingerprintError,
> {
    match digits {
        None => Ok(Seq::new(32, |i: int| 0u8)),
        Some(digits) => if !is_hex(digits) {
            Err(FingerprintError::InvalidHex)
        } else if hex_bytes(digits).len() != 32 {
            Err(FingerprintError::InvalidLength(hex_bytes(digits).len() as usize))
        } else {
            Ok(hex_bytes(digits))
        },
    }
}

/// The text of an argument that may be absent.
pub open spec fn text_if_any(text: Option<&str>) -> Option<Seq<char>> {
    match text {
        Some(text) => Some(text@),
        None => None,
    }
}

/// Whether a service is the one at an address that was given by hand.
pub open spec fn is_direct_service(
    info: ServiceInfo,
    host: Seq<char>,
    ip_address: IpAddress,
    port: u16,
    fingerprint: Seq<u8>,
    token: Seq<char>,
    now: u64,
) -> bool {
    &&& info.instance_name@ == host
    &&& info.display_name@ == host
    &&& info.ip_address == ip_address
    &&& info.port == port
    &&& info.fingerprint@ == fingerprint
    &&& info.metadata_version == 1
    &&& info.auth_token@ == token
    &&& info.discovered_at == now
}

/// A service at an address, known from the time `now` on. Its names are the host, its
/// metadata version is 1, the fingerprint is given in hexadecimal digits, and without a
/// token it has the empty one.
pub fn direct_service(
    host: &str,
    ip_address: IpAddress,
    port: u16,
    fingerprint_digits: Option<&str>,
    auth_token: Option<&str>,
    now: u64,
) -> (r: Result<ServiceInfo, FingerprintError>)
    ensures
        match expected_fingerprint(text_if_any(fingerprint_digits)) {
            Err(e) => r == Err::<ServiceInfo, FingerprintError>(e),
            Ok(fingerprint) => {
                &&& r matches Ok(info)
                &&& info.instance_name@ == host@
                &&& info.display_name@ == host@
                &&& info.ip_address == ip_address
                &&& info.port == port
                &&& info.fingerprint@ == fingerprint
                &&& info.metadata_version == 1
                &&& info.auth_token@ == match auth_token {
                    Some(token) => token@,
                    None => Seq::empty(),
                }
                &&& info.discovered_at == now
                &&& is_direct_service(
                    info,
                    host@,
                    ip_address,
                    port,
                    fingerprint,
                    match auth_token {
                        Some(token) => token@,
                        None => Seq::empty(),
                    },
                    now,
                )
            },
        },
{
    let fingerprint = match fingerprint_digits {
        Some(digits) => match Fingerprint::from_hex(digits) {
            Ok(fingerprint) => fingerprint,
            Err(e) => return Err(e),
        },
        None => {
            let bytes: [u8; 32] = [0u8; 32];
            proof {
                assert(bytes@ =~= Seq::new(32, |i: int| 0u8));
            }
            Fingerprint::from_bytes(bytes)
        },
    };
    let auth_token = match auth_token {
        Some(token) => AuthToken::from_string(token.to_owned()),
        None => AuthToken::from_string(String::new()),
    };
    Ok(
        ServiceInfo {
            instance_name: host.to_owned(),
            display_name: host.to_owned(),
            ip_address,
            port,
            fingerprint,
            metadata_version: 1,
            auth_token,
            discovered_at: now,
        },
    )
}

} // verus!
