//! The Open Screen protocol: message formats, authentication, application state and
//! discovery records.
pub mod application;
pub mod bounded;
pub mod cbor;
pub mod cert;
pub mod common;
pub mod crypto;
pub mod discovery;
pub mod encoding;
pub mod network;
pub mod transport;
