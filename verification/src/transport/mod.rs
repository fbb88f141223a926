//! What a transport has to do for the network protocol. The transport itself, with its
//! connections and streams, is outside: it hands in what happened and carries out what it is
//! told.
pub mod client;
pub mod fingerprint_verifier;
pub mod laws;
pub mod outputs;
pub mod server;
pub mod session;

