//! Certificates: serial numbers, agent hostnames, fingerprints, and keys with their
//! certificates.
pub mod hostname;
pub mod key;
pub mod laws;
pub mod serial;
pub mod x509;
