//! Discovery: what devices advertise of themselves, and what others learn from it.
pub mod auth_token;
pub mod browser;
pub mod direct;
pub mod error;
pub mod fingerprint;
pub mod laws;
pub mod mdns;
pub mod mock;
pub mod publisher;
pub mod resolve;
pub mod service_info;
pub mod table;
