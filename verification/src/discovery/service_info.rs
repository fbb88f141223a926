//! Services: what is found, what is published, and the TXT records between.
use crate::discovery::auth_token::AuthToken;
use crate::discovery::fingerprint::Fingerprint;
use crate::encoding::base64::base64_text;
use crate::encoding::decimal::{decimal, to_decimal};
use vstd::prelude::*;
use vstd::string::StringExecFns;

verus! {

/// An address of version 4 or 6 of the Internet Protocol.
#[derive(Debug, Clone, Copy, PartialEq, Eq)]
pub enum IpAddress {
    V4([u8; 4]),
    V6([u8; 16]),
}

/// A service that was found.
///
/// Two services are equal if their fingerprints are: names can change when they collide on
/// the network, but the fingerprint is the stable identity of the device.
#[derive(Debug)]
pub struct ServiceInfo {
    /// The instance name.
    pub instance_name: String,
    /// The display name.
    pub display_name: String,
    /// The address.
    pub ip_address: IpAddress,
    /// The port.
    pub port: u16,
    /// The fingerprint of the certificate.
    pub fingerprint: Fingerprint,
    /// The metadata version.
    pub metadata_version: u32,
    /// The token.
    pub auth_token: AuthToken,
    /// When the service was found, in seconds since the epoch.
    pub discovered_at: u64,
}

impl Clone for ServiceInfo {
    fn clone(&self) -> (r: Self)
        ensures
            r == *self,
    {
        ServiceInfo {
            instance_name: self.instance_name.clone(),
            display_name: self.display_name.clone(),
            ip_address: self.ip_address,
            port: self.port,
            fingerprint: self.fingerprint,
            metadata_version: self.metadata_version,
            auth_token: self.auth_token.clone(),
            discovered_at: self.discovered_at,
        }
    }
}

impl PartialEq for ServiceInfo {
    fn eq(&self, other: &Self) -> (r: bool) {
        self.fingerprint == other.fingerprint
    }
}

impl vstd::std_specs::cmp::PartialEqSpecImpl for ServiceInfo {
    open spec fn obeys_eq_spec() -> bool {
        true
    }

    open spec fn eq_spec(&self, other: &Self) -> bool {
        self.fingerprint@ == other.fingerprint@
    }
}

impl Eq for ServiceInfo {

}

/// What is published of a service.
#[derive(Debug, Clone)]
pub struct PublishInfo {
    /// The display name, which becomes the instance name.
    pub display_name: String,
    /// The port.
    pub port: u16,
    /// The fingerprint of the certificate.
    pub fingerprint: Fingerprint,
    /// The metadata version.
    pub metadata_version: u32,
    /// The token.
    pub auth_token: AuthToken,
    /// The hostname of the agent.
    pub hostname: String,
}

/// The TXT records of a service.
#[derive(Debug, Clone)]
pub struct TxtRecords {
    /// The fingerprint in base64.
    pub fp: String,
    /// The metadata version.
    pub mv: u32,
    /// The token.
    pub at: String,
}

impl TxtRecords {
    /// The TXT records of a service that is to be published.
    pub fn from_publish_info(info: &PublishInfo) -> (txt: Self)
        ensures
            txt.fp@ == base64_text(info.fingerprint@),
            txt.mv == info.metadata_version,
            txt.at@ == info.auth_token@,
    {
        TxtRecords {
            fp: info.fingerprint.to_base64(),
            mv: info.metadata_version,
            at: info.auth_token.as_str().to_owned(),
        }
    }

    /// The records as texts of the form key=value.
    pub fn to_strings(&self) -> (r: Vec<String>)
        ensures
            r@.len() == 3,
            r@[0]@ == "fp="@ + self.fp@,
            r@[1]@ == "mv="@ + decimal(self.mv as nat),
            r@[2]@ == "at="@ + self.at@,
    {
        let version = to_decimal(self.mv as u64);
        let mut records: Vec<String> = Vec::new();
        records.push("fp=".to_owned().concat(self.fp.as_str()));
        records.push("mv=".to_owned().concat(version.as_str()));
        records.push("at=".to_owned().concat(self.at.as_str()));
        records
    }
}

} // verus!
