//! Requests for cryptographic operations and their results.
use crate::bounded::BoundedVec;
use vstd::prelude::*;

verus! {

/// Identifies an operation: a result carries the id of its request.
pub type CryptoOpId = u32;

/// The most bytes that an operation gives.
pub const MAX_CRYPTO_OUTPUT: usize = 128;

/// A request for an operation.
#[derive(Debug, Clone, Copy)]
pub struct CryptoRequest<'a> {
    pub op_id: CryptoOpId,
    pub kind: CryptoOpKind<'a>,
}

/// The operation that is asked for.
#[derive(Debug, Clone, Copy)]
pub enum CryptoOpKind<'a> {
    /// A step of the SPAKE2 key exchange.
    Spake2(Spake2Operation<'a>),
    /// A hash.
    Hash(HashOperation<'a>),
    /// A message authentication code.
    Hmac(HmacOperation<'a>),
    /// A key derivation.
    Hkdf(HkdfOperation<'a>),
    /// Anything else.
    Other,
}

/// A step of the SPAKE2 key exchange.
#[derive(Debug, Clone, Copy)]
pub enum Spake2Operation<'a> {
    /// Starts an exchange; the result is the public value to send.
    Start { password_id: Option<&'a [u8]>, password: &'a [u8], is_responder: bool },
    /// Finishes the exchange; the result is the shared secret.
    Finish { state: &'a [u8], peer_public: &'a [u8] },
    /// Finishes the exchange and confirms the key; the result is the shared secret, our
    /// confirmation, the initiator's key and the responder's key.
    FinishWithConfirmation {
        state: &'a [u8],
        peer_public: &'a [u8],
        message_transcript: &'a [u8],
        my_tls_fingerprint: &'a [u8],
        peer_tls_fingerprint: &'a [u8],
        is_responder: bool,
    },
    /// Checks the confirmation of the peer. The context is the transcript and, behind it,
    /// the key of the peer.
    VerifyConfirmation { context: &'a [u8], peer_confirmation: &'a [u8] },
}

/// Hash algorithms.
#[derive(Debug, Clone, Copy, PartialEq, Eq, Structural)]
pub enum HashAlgorithm {
    Sha256,
    Sha512,
}

/// A hash of some data.
#[derive(Debug, Clone, Copy)]
pub struct HashOperation<'a> {
    pub algorithm: HashAlgorithm,
    pub data: &'a [u8],
}

/// A message authentication code of some data under a key.
#[derive(Debug, Clone, Copy)]
pub struct HmacOperation<'a> {
    pub algorithm: HashAlgorithm,
    pub key: &'a [u8],
    pub data: &'a [u8],
}

/// A key of the given length, derived from key material.
#[derive(Debug, Clone, Copy)]
pub struct HkdfOperation<'a> {
    pub algorithm: HashAlgorithm,
    pub ikm: &'a [u8],
    pub salt: Option<&'a [u8]>,
    pub info: &'a [u8],
    pub length: usize,
}

/// What an operation gave.
#[derive(Clone, PartialEq, Eq)]
pub struct CryptoResult {
    pub op_id: CryptoOpId,
    pub data: BoundedVec<u8, MAX_CRYPTO_OUTPUT>,
}

/// Why an operation gave nothing.
#[derive(Debug, Clone, Copy, PartialEq, Eq, Structural)]
pub enum CryptoError {
    /// The provider does not have this operation.
    Unsupported,
    /// The result does not fit.
    BufferTooSmall,
    /// An argument is not acceptable.
    InvalidInput,
    /// The operation failed.
    OperationFailed,
    /// A confirmation is wrong.
    VerificationFailed,
}

/// Carries out cryptographic operations.
pub trait CryptoProvider {
    /// Carries out one operation.
    fn execute(&mut self, request: &CryptoRequest) -> (r: Result<CryptoResult, CryptoError>);
}

} // verus!
