//! Cryptographic operations: what a protocol layer asks for, and who carries it out.
pub mod laws;
pub mod operation;
pub mod primitive;
pub mod provider;
