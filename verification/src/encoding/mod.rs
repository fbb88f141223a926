//! Bytes and numbers as text.
pub mod base64;
pub mod decimal;
pub mod hex;
pub mod utf8;
