//! What each operation gives.
use crate::crypto::operation::{
    CryptoError, CryptoOpKind, CryptoRequest, CryptoResult, HashAlgorithm, Spake2Operation,
};
use crate::crypto::primitive::{hkdf_sha256, hmac_sha256, sha256, spake2_public, ExchangeSecret};
use crate::crypto::provider::{
    confirmation_context, confirmation_key, confirmation_keys, RustCryptoCryptoProvider,
};
use vstd::prelude::*;
use vstd::string::StringSliceAdditionalSpecFns;

verus! {

/// A hash is the SHA-256 hash of the data, a code the HMAC-SHA256 of the data under the key, and
/// a derived key what HKDF-SHA256 derives from the key material with the salt and the purpose, up
/// to 128 bytes. There is no other algorithm, and no other operation. The result carries the id
/// of the request, and a pending exchange stays pending.
pub proof fn hashes_codes_and_keys(
    before: Option<ExchangeSecret>,
    after: Option<ExchangeSecret>,
    request: CryptoRequest,
    r: Result<CryptoResult, CryptoError>,
)
    requires
        RustCryptoCryptoProvider::is_outcome(before, after, request, r),
        !(request.kind is Spake2),
    ensures
        after == before,
        r matches Ok(result) ==> result.op_id == request.op_id,
        request.kind matches CryptoOpKind::Hash(operation) ==> match operation.algorithm {
            HashAlgorithm::Sha256 => r matches Ok(result) && result.data@ == sha256(
                operation.data@,
            ),
            HashAlgorithm::Sha512 => r == Err::<CryptoResult, CryptoError>(
                CryptoError::Unsupported,
            ),
        },
        request.kind matches CryptoOpKind::Hmac(operation) ==> match operation.algorithm {
            HashAlgorithm::Sha256 => r matches Ok(result) && result.data@ == hmac_sha256(
                operation.key@,
                operation.data@,
            ),
            HashAlgorithm::Sha512 => r == Err::<CryptoResult, CryptoError>(
                CryptoError::Unsupported,
            ),
        },
        request.kind matches CryptoOpKind::Hkdf(operation) ==> match operation.algorithm {
            HashAlgorithm::Sha256 => if operation.length > 128 {
                r == Err::<CryptoResult, CryptoError>(CryptoError::BufferTooSmall)
            } else {
                r matches Ok(result) && result.data@.len() == operation.length && result.data@
                    == hkdf_sha256(
                    match operation.salt {
                        Some(salt) => Some(salt@),
                        None => None,
                    },
                    operation.ikm@,
                    operation.info@,
                    operation.length as nat,
                )
            },
            HashAlgorithm::Sha512 => r == Err::<CryptoResult, CryptoError>(
                CryptoError::Unsupported,
            ),
        },
        request.kind is Other ==> r == Err::<CryptoResult, CryptoError>(CryptoError::Unsupported),
{
}

/// The start of an exchange always succeeds, whatever exchange was pending, and gives the public
/// value. The initiator has the identity that it is given, or `initiator`; the responder is
/// `responder`.
pub proof fn starts_give_public_values(
    before: Option<ExchangeSecret>,
    after: Option<ExchangeSecret>,
    request: CryptoRequest,
    password_id: Option<&[u8]>,
    password: &[u8],
    is_responder: bool,
    r: Result<CryptoResult, CryptoError>,
)
    requires
        RustCryptoCryptoProvider::is_outcome(before, after, request, r),
        request.kind == CryptoOpKind::Spake2(
            Spake2Operation::Start { password_id, password, is_responder },
        ),
    ensures
        r matches Ok(result) && result.op_id == request.op_id && (after matches Some(secret)
            && result.data@ == spake2_public(password@, is_responder, secret.scalar)
            && secret.password == password@ && secret.is_responder == is_responder && secret.id_a
            == match password_id {
            Some(id) => id@,
            None => "initiator".spec_bytes(),
        } && secret.id_b == "responder".spec_bytes()),
{
}

/// The end of an exchange needs one that is pending, and leaves none. It gives the shared secret
/// of 32 bytes, or fails if the peer sent no public value.
pub proof fn finishes_give_secrets(
    before: Option<ExchangeSecret>,
    after: Option<ExchangeSecret>,
    request: CryptoRequest,
    state: &[u8],
    peer_public: &[u8],
    r: Result<CryptoResult, CryptoError>,
)
    requires
        RustCryptoCryptoProvider::is_outcome(before, after, request, r),
        request.kind == CryptoOpKind::Spake2(Spake2Operation::Finish { state, peer_public }),
    ensures
        after is None,
        before is None ==> r == Err::<CryptoResult, CryptoError>(CryptoError::InvalidInput),
        before matches Some(secret) ==> match secret.key(peer_public@) {
            Some(key) => r matches Ok(result) && result.op_id == request.op_id && result.data@
                == key && key.len() == 32,
            None => r == Err::<CryptoResult, CryptoError>(CryptoError::OperationFailed),
        },
{
}

/// The end of an exchange with a confirmation gives the shared secret, the confirmation and both
/// keys. The keys are derived from the secret, the fingerprint of the initiator and that of the
/// responder; the initiator's is the first half. The confirmation is the code of the transcript
/// under the key of this side. Secret and fingerprints may have 128 bytes together.
pub proof fn finishes_give_confirmations(
    before: Option<ExchangeSecret>,
    after: Option<ExchangeSecret>,
    request: CryptoRequest,
    state: &[u8],
    peer_public: &[u8],
    transcript: &[u8],
    mine: &[u8],
    peers: &[u8],
    is_responder: bool,
    key: Seq<u8>,
    r: Result<CryptoResult, CryptoError>,
)
    requires
        RustCryptoCryptoProvider::is_outcome(before, after, request, r),
        request.kind == CryptoOpKind::Spake2(
            Spake2Operation::FinishWithConfirmation {
                state,
                peer_public,
                message_transcript: transcript,
                my_tls_fingerprint: mine,
                peer_tls_fingerprint: peers,
                is_responder,
            },
        ),
    ensures
        after is None,
        before is None ==> r == Err::<CryptoResult, CryptoError>(CryptoError::InvalidInput),
        (before matches Some(secret) && secret.key(peer_public@) is None) ==> r == Err::<
            CryptoResult,
            CryptoError,
        >(CryptoError::OperationFailed),
        (before matches Some(secret) && secret.key(peer_public@) is Some && 32 + mine@.len()
            + peers@.len() > 128) ==> r == Err::<CryptoResult, CryptoError>(
            CryptoError::BufferTooSmall,
        ),
        (before matches Some(secret) && secret.key(peer_public@) == Some(key) && 32 + mine@.len()
            + peers@.len() <= 128) ==> {
            let context = if is_responder {
                key + peers@ + mine@
            } else {
                key + mine@ + peers@
            };
            let keys = hkdf_sha256(None, context, "OpenScreen Confirmation".spec_bytes(), 64);
            let own = if is_responder {
                keys.subrange(32, 64)
            } else {
                keys.subrange(0, 32)
            };
            &&& key.len() == 32 && keys.len() == 64
            &&& r matches Ok(result)
            &&& result.op_id == request.op_id
            &&& result.data@ == key + hmac_sha256(own, transcript@) + keys
        },
{
    if let Some(secret) = before {
        if let Some(key) = secret.key(peer_public@) {
            let context = confirmation_context(key, mine@, peers@, is_responder);
            if context.len() <= 128 {
                let keys = confirmation_keys(context);
                let own = if is_responder {
                    keys.subrange(32, 64)
                } else {
                    keys.subrange(0, 32)
                };
                assert(own =~= confirmation_key(context, is_responder));
            }
        }
    }
}

/// A confirmation of the peer is accepted if and only if it is the code of the transcript under
/// the key of the peer, which makes up the last 32 bytes of the context. Nothing else is given,
/// and a pending exchange stays pending. A shorter context, or a confirmation of another length
/// than 32, is refused.
pub proof fn confirmations_are_checked(
    before: Option<ExchangeSecret>,
    after: Option<ExchangeSecret>,
    request: CryptoRequest,
    context: &[u8],
    peer_confirmation: &[u8],
    transcript: Seq<u8>,
    key: Seq<u8>,
    r: Result<CryptoResult, CryptoError>,
)
    requires
        RustCryptoCryptoProvider::is_outcome(before, after, request, r),
        request.kind == CryptoOpKind::Spake2(
            Spake2Operation::VerifyConfirmation { context, peer_confirmation },
        ),
    ensures
        after == before,
        context@.len() < 32 || peer_confirmation@.len() != 32 ==> r == Err::<
            CryptoResult,
            CryptoError,
        >(CryptoError::InvalidInput),
        context@ == transcript + key && key.len() == 32 && peer_confirmation@.len() == 32 ==> if
            peer_confirmation@ == hmac_sha256(key, transcript) {
            r matches Ok(result) && result.op_id == request.op_id && result.data@.len() == 0
        } else {
            r == Err::<CryptoResult, CryptoError>(CryptoError::VerificationFailed)
        },
{
    if context@ == transcript + key && key.len() == 32 {
        let split = context@.len() - 32;
        assert(context@.subrange(split, context@.len() as int) =~= key);
        assert(context@.subrange(0, split) =~= transcript);
    }
}

} // verus!
