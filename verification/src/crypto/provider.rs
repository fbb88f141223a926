//! The operations, carried out with SPAKE2 over Ed25519 and SHA-256.
use crate::bounded::BoundedVec;
use crate::crypto::operation::{
    CryptoError, CryptoOpId, CryptoOpKind, CryptoProvider, CryptoRequest, CryptoResult,
    HashAlgorithm, HkdfOperation, Spake2Operation, MAX_CRYPTO_OUTPUT,
};
use crate::crypto::primitive::{
    compute_hkdf_sha256, compute_hmac_sha256, compute_sha256, constant_time_eq, hkdf_sha256,
    hmac_sha256, salt_bytes, sha256, ExchangeSecret, KeyExchange,
};
use vstd::prelude::*;
use vstd::string::StringSliceAdditionalSpecFns;

verus! {

/// The length of confirmation keys and of confirmations.
pub const KEY_LEN: usize = 32;

/// The identity of the initiator, unless it is given one.
pub open spec fn initiator_id() -> Seq<u8> {
    "initiator".spec_bytes()
}

/// The identity of the responder.
pub open spec fn responder_id() -> Seq<u8> {
    "responder".spec_bytes()
}

/// What the confirmation keys are derived from: the shared secret, then the fingerprint of
/// the initiator's certificate, then that of the responder's. It binds the exchange to both
/// certificates, and it is the same on both sides.
pub open spec fn confirmation_context(
    shared_secret: Seq<u8>,
    my_fingerprint: Seq<u8>,
    peer_fingerprint: Seq<u8>,
    is_responder: bool,
) -> Seq<u8> {
    if is_responder {
        shared_secret + peer_fingerprint + my_fingerprint
    } else {
        shared_secret + my_fingerprint + peer_fingerprint
    }
}

/// The initiator's confirmation key and, behind it, the responder's.
pub open spec fn confirmation_keys(context: Seq<u8>) -> Seq<u8> {
    hkdf_sha256(None, context, "OpenScreen Confirmation".spec_bytes(), 64)
}

/// The confirmation key of one side.
pub open spec fn confirmation_key(context: Seq<u8>, is_responder: bool) -> Seq<u8> {
    let start: int = if is_responder {
        32
    } else {
        0
    };
    Seq::new(32, |i: int| confirmation_keys(context)[start + i])
}

/// The confirmation of one side: a code of the transcript under its key.
pub open spec fn confirmation(context: Seq<u8>, transcript: Seq<u8>, is_responder: bool) -> Seq<
    u8,
> {
    hmac_sha256(confirmation_key(context, is_responder), transcript)
}

/// Whether the secret that a side derives from `peer_public` is the one that the other side
/// of the exchange derives, where `peer_public` came from there.
pub open spec fn is_agreed(secret: ExchangeSecret, peer_public: Seq<u8>) -> bool {
    forall|other: ExchangeSecret|
        other.is_peer_of(secret) && peer_public == #[trigger] other.public() ==> {
            &&& secret.key(peer_public) is Some
            &&& other.key(secret.public()) == secret.key(peer_public)
        }
}

/// Whether a side may take `peer_confirmation` for the code of the transcript under the
/// key, which both stand in `context`.
pub open spec fn is_confirmed(context: Seq<u8>, peer_confirmation: Seq<u8>) -> bool {
    let split = context.len() - KEY_LEN;
    peer_confirmation == hmac_sha256(
        context.subrange(split, context.len() as int),
        context.subrange(0, split),
    )
}

/// Whether an operation succeeded with this id and these bytes.
pub open spec fn gave(r: Result<CryptoResult, CryptoError>, op_id: CryptoOpId, data: Seq<u8>) -> bool {
    r matches Ok(result) && result.op_id == op_id && result.data@ == data
}

/// Whether an operation failed with this error.
pub open spec fn failed(r: Result<CryptoResult, CryptoError>, error: CryptoError) -> bool {
    r == Err::<CryptoResult, CryptoError>(error)
}

/// The most bytes of a confirmation context.
pub const MAX_CONTEXT_LEN: usize = 128;

/// What comes of finishing an exchange with a shared secret and confirming it.
pub open spec fn is_confirmation_result(
    r: Result<CryptoResult, CryptoError>,
    op_id: CryptoOpId,
    shared_secret: Seq<u8>,
    transcript: Seq<u8>,
    my_fingerprint: Seq<u8>,
    peer_fingerprint: Seq<u8>,
    is_responder: bool,
) -> bool {
    let context = confirmation_context(
        shared_secret,
        my_fingerprint,
        peer_fingerprint,
        is_responder,
    );
    if context.len() > MAX_CONTEXT_LEN || shared_secret.len() > KEY_LEN {
        failed(r, CryptoError::BufferTooSmall)
    } else {
        &&& confirmation(context, transcript, is_responder).len() == KEY_LEN
        &&& confirmation_keys(context).len() == 2 * KEY_LEN
        &&& gave(
            r,
            op_id,
            shared_secret + confirmation(context, transcript, is_responder)
                + confirmation_keys(context),
        )
    }
}

/// The result of an operation, if its bytes fit.
fn result_of(op_id: CryptoOpId, bytes: &[u8]) -> (r: Result<CryptoResult, CryptoError>)
    ensures
        if bytes@.len() <= MAX_CRYPTO_OUTPUT {
            gave(r, op_id, bytes@)
        } else {
            failed(r, CryptoError::BufferTooSmall)
        },
{
    let mut data: BoundedVec<u8, MAX_CRYPTO_OUTPUT> = BoundedVec::new();
    match data.extend_from_slice(bytes) {
        Ok(()) => {
            proof {
                assert(data@ =~= bytes@);
            }
            Ok(CryptoResult { op_id, data })
        },
        Err(()) => Err(CryptoError::BufferTooSmall),
    }
}

/// Whether the other side accepts the confirmation in a result, with the key of this side
/// out of the same result.
pub open spec fn is_accepted(result: Seq<u8>, transcript: Seq<u8>, is_responder: bool) -> bool {
    let key = if is_responder {
        result.subrange(96, 128)
    } else {
        result.subrange(64, 96)
    };
    is_confirmed(transcript + key, result.subrange(32, 64))
}

/// Confirms a shared secret: the result is the shared secret, the confirmation of this
/// side, the initiator's key and the responder's key. The keys are derived from the secret
/// and the fingerprints of both certificates, which have to fit into `MAX_CONTEXT_LEN` bytes.
/// The other side, which derives the same keys, accepts the confirmation.
pub fn confirm(
    op_id: CryptoOpId,
    shared_secret: &[u8],
    message_transcript: &[u8],
    my_tls_fingerprint: &[u8],
    peer_tls_fingerprint: &[u8],
    is_responder: bool,
) -> (r: Result<CryptoResult, CryptoError>)
    ensures
        is_confirmation_result(
            r,
            op_id,
            shared_secret@,
            message_transcript@,
            my_tls_fingerprint@,
            peer_tls_fingerprint@,
            is_responder,
        ),
        match r {
            Ok(result) => shared_secret@.len() == 32 ==> result.data@.len() == 128 && is_accepted(
                result.data@,
                message_transcript@,
                is_responder,
            ),
            Err(_) => true,
        },
{
    let (initiator_fingerprint, responder_fingerprint): (&[u8], &[u8]) = if is_responder {
        (peer_tls_fingerprint, my_tls_fingerprint)
    } else {
        (my_tls_fingerprint, peer_tls_fingerprint)
    };
    let mut context: BoundedVec<u8, MAX_CONTEXT_LEN> = BoundedVec::new();
    if context.extend_from_slice(shared_secret).is_err() {
        return Err(CryptoError::BufferTooSmall);
    }
    if context.extend_from_slice(initiator_fingerprint).is_err() {
        return Err(CryptoError::BufferTooSmall);
    }
    if context.extend_from_slice(responder_fingerprint).is_err() {
        return Err(CryptoError::BufferTooSmall);
    }
    proof {
        assert(context@ =~= confirmation_context(
            shared_secret@,
            my_tls_fingerprint@,
            peer_tls_fingerprint@,
            is_responder,
        ));
    }
    let keys: Vec<u8> = match compute_hkdf_sha256(
        None,
        context.as_slice(),
        "OpenScreen Confirmation".as_bytes(),
        64,
    ) {
        Ok(keys) => keys,
        Err(_) => return Err(CryptoError::OperationFailed),
    };
    let (initiator_key, responder_key) = keys.as_slice().split_at(KEY_LEN);
    let our_key: &[u8] = if is_responder {
        responder_key
    } else {
        initiator_key
    };
    proof {
        assert(our_key@ =~= confirmation_key(context@, is_responder));
    }
    let our_confirmation: [u8; 32] = compute_hmac_sha256(our_key, message_transcript);
    let mut data: BoundedVec<u8, MAX_CRYPTO_OUTPUT> = BoundedVec::new();
    if data.extend_from_slice(shared_secret).is_err() {
        return Err(CryptoError::BufferTooSmall);
    }
    if data.extend_from_slice(our_confirmation.as_slice()).is_err() {
        return Err(CryptoError::BufferTooSmall);
    }
    if data.extend_from_slice(initiator_key).is_err() {
        return Err(CryptoError::BufferTooSmall);
    }
    if data.extend_from_slice(responder_key).is_err() {
        return Err(CryptoError::BufferTooSmall);
    }
    proof {
        assert(data@ =~= shared_secret@ + confirmation(
            context@,
            message_transcript@,
            is_responder,
        ) + confirmation_keys(context@));
        if shared_secret@.len() == 32 {
            confirmation_is_accepted(context@, message_transcript@, is_responder);
            assert(data@.subrange(32, 64) =~= our_confirmation@);
            assert(data@.subrange(64, 96) =~= initiator_key@);
            assert(data@.subrange(96, 128) =~= responder_key@);
        }
    }
    Ok(CryptoResult { op_id, data })
}

/// Checks the confirmation of the peer against the transcript and the key at the end of the
/// context.
pub fn verify_confirmation(op_id: CryptoOpId, context: &[u8], peer_confirmation: &[u8]) -> (r: Result<
    CryptoResult,
    CryptoError,
>)
    ensures
        if context@.len() < KEY_LEN || peer_confirmation@.len() != 32 {
            failed(r, CryptoError::InvalidInput)
        } else if is_confirmed(context@, peer_confirmation@) {
            gave(r, op_id, Seq::empty())
        } else {
            failed(r, CryptoError::VerificationFailed)
        },
{
    if context.len() < KEY_LEN {
        return Err(CryptoError::InvalidInput);
    }
    let (transcript, peer_key) = context.split_at(context.len() - KEY_LEN);
    if peer_confirmation.len() != 32 {
        return Err(CryptoError::InvalidInput);
    }
    let expected: [u8; 32] = compute_hmac_sha256(peer_key, transcript);
    if constant_time_eq(expected.as_slice(), peer_confirmation) {
        Ok(CryptoResult { op_id, data: BoundedVec::new() })
    } else {
        Err(CryptoError::VerificationFailed)
    }
}

/// A provider that keeps the state of one key exchange between its two steps.
pub struct RustCryptoCryptoProvider {
    spake2_state: Option<KeyExchange>,
}

impl RustCryptoCryptoProvider {
    /// The exchange that was started and not yet finished.
    pub closed spec fn exchange(&self) -> Option<ExchangeSecret> {
        match self.spake2_state {
            Some(exchange) => Some(exchange@),
            None => None,
        }
    }

    /// A provider without an exchange.
    pub fn new() -> (p: Self)
        ensures
            p.exchange() is None,
    {
        RustCryptoCryptoProvider { spake2_state: None }
    }

    /// What comes of a step of the key exchange.
    pub open spec fn is_spake2_outcome(
        before: Option<ExchangeSecret>,
        after: Option<ExchangeSecret>,
        op_id: CryptoOpId,
        operation: Spake2Operation,
        r: Result<CryptoResult, CryptoError>,
    ) -> bool {
        match operation {
            Spake2Operation::Start { password_id, password, is_responder } => {
                &&& after matches Some(secret)
                &&& secret.password == password@
                &&& secret.id_a == match password_id {
                    Some(id) => id@,
                    None => initiator_id(),
                }
                &&& secret.id_b == responder_id()
                &&& secret.is_responder == is_responder
                &&& gave(r, op_id, secret.public())
            },
            Spake2Operation::Finish { peer_public, .. } => {
                &&& after is None
                &&& match before {
                    None => failed(r, CryptoError::InvalidInput),
                    Some(secret) => is_agreed(secret, peer_public@) && match secret.key(
                        peer_public@,
                    ) {
                        Some(key) => key.len() == KEY_LEN && gave(r, op_id, key),
                        None => failed(r, CryptoError::OperationFailed),
                    },
                }
            },
            Spake2Operation::FinishWithConfirmation {
                peer_public,
                message_transcript,
                my_tls_fingerprint,
                peer_tls_fingerprint,
                is_responder,
                ..
            } => {
                &&& after is None
                &&& match before {
                    None => failed(r, CryptoError::InvalidInput),
                    Some(secret) => is_agreed(secret, peer_public@) && match secret.key(
                        peer_public@,
                    ) {
                        Some(key) => key.len() == KEY_LEN && is_confirmation_result(
                            r,
                            op_id,
                            key,
                            message_transcript@,
                            my_tls_fingerprint@,
                            peer_tls_fingerprint@,
                            is_responder,
                        ),
                        None => failed(r, CryptoError::OperationFailed),
                    },
                }
            },
            Spake2Operation::VerifyConfirmation { context, peer_confirmation } => {
                &&& after == before
                &&& if context@.len() < KEY_LEN || peer_confirmation@.len() != 32 {
                    failed(r, CryptoError::InvalidInput)
                } else if is_confirmed(context@, peer_confirmation@) {
                    gave(r, op_id, Seq::empty())
                } else {
                    failed(r, CryptoError::VerificationFailed)
                }
            },
        }
    }

    /// What comes of a key derivation.
    pub open spec fn is_hkdf_outcome(
        op_id: CryptoOpId,
        operation: HkdfOperation,
        r: Result<CryptoResult, CryptoError>,
    ) -> bool {
        if operation.algorithm != HashAlgorithm::Sha256 {
            failed(r, CryptoError::Unsupported)
        } else if operation.length > MAX_CRYPTO_OUTPUT {
            failed(r, CryptoError::BufferTooSmall)
        } else {
            let key = hkdf_sha256(
                salt_bytes(operation.salt),
                operation.ikm@,
                operation.info@,
                operation.length as nat,
            );
            key.len() == operation.length && gave(r, op_id, key)
        }
    }

    /// What comes of a request, with the exchange that was pending before it and the one that
    /// is pending after it.
    pub open spec fn is_outcome(
        before: Option<ExchangeSecret>,
        after: Option<ExchangeSecret>,
        request: CryptoRequest,
        r: Result<CryptoResult, CryptoError>,
    ) -> bool {
        &&& match request.kind {
            CryptoOpKind::Spake2(operation) => Self::is_spake2_outcome(
                before,
                after,
                request.op_id,
                operation,
                r,
            ),
            CryptoOpKind::Hash(operation) => if operation.algorithm == HashAlgorithm::Sha256 {
                sha256(operation.data@).len() == 32 && gave(
                    r,
                    request.op_id,
                    sha256(operation.data@),
                )
            } else {
                failed(r, CryptoError::Unsupported)
            },
            CryptoOpKind::Hmac(operation) => if operation.algorithm == HashAlgorithm::Sha256 {
                hmac_sha256(operation.key@, operation.data@).len() == 32 && gave(
                    r,
                    request.op_id,
                    hmac_sha256(operation.key@, operation.data@),
                )
            } else {
                failed(r, CryptoError::Unsupported)
            },
            CryptoOpKind::Hkdf(operation) => Self::is_hkdf_outcome(request.op_id, operation, r),
            CryptoOpKind::Other => failed(r, CryptoError::Unsupported),
        }
        &&& !(request.kind is Spake2) ==> after == before
    }

    /// Carries out a step of the key exchange.
    fn execute_spake2(&mut self, op_id: CryptoOpId, operation: &Spake2Operation) -> (r: Result<
        CryptoResult,
        CryptoError,
    >)
        ensures
            Self::is_spake2_outcome(
                old(self).exchange(),
                final(self).exchange(),
                op_id,
                *operation,
                r,
            ),
    {
        match operation {
            Spake2Operation::Start { password_id, password, is_responder } => {
                let id_a: &[u8] = match password_id {
                    Some(id) => id,
                    None => "initiator".as_bytes(),
                };
                let id_b: &[u8] = "responder".as_bytes();
                let (exchange, outbound) = if *is_responder {
                    KeyExchange::start_responder(password, id_a, id_b)
                } else {
                    KeyExchange::start_initiator(password, id_a, id_b)
                };
                self.spake2_state = Some(exchange);
                result_of(op_id, outbound.as_slice())
            },
            Spake2Operation::Finish { state: _, peer_public } => {
                match self.spake2_state.take() {
                    None => Err(CryptoError::InvalidInput),
                    Some(exchange) => match exchange.finish(peer_public) {
                        Ok(key) => result_of(op_id, key.as_slice()),
                        Err(_) => Err(CryptoError::OperationFailed),
                    },
                }
            },
            Spake2Operation::FinishWithConfirmation {
                state: _,
                peer_public,
                message_transcript,
                my_tls_fingerprint,
                peer_tls_fingerprint,
                is_responder,
            } => {
                match self.spake2_state.take() {
                    None => Err(CryptoError::InvalidInput),
                    Some(exchange) => match exchange.finish(peer_public) {
                        Ok(shared_secret) => confirm(
                            op_id,
                            shared_secret.as_slice(),
                            message_transcript,
                            my_tls_fingerprint,
                            peer_tls_fingerprint,
                            *is_responder,
                        ),
                        Err(_) => Err(CryptoError::OperationFailed),
                    },
                }
            },
            Spake2Operation::VerifyConfirmation { context, peer_confirmation } => {
                verify_confirmation(op_id, context, peer_confirmation)
            },
        }
    }

    /// Carries out a hash.
    fn execute_hash(&mut self, op_id: CryptoOpId, input_data: &[u8], algorithm: HashAlgorithm) -> (r:
        Result<CryptoResult, CryptoError>)
        ensures
            *final(self) == *old(self),
            if algorithm == HashAlgorithm::Sha256 {
                sha256(input_data@).len() == 32 && gave(r, op_id, sha256(input_data@))
            } else {
                failed(r, CryptoError::Unsupported)
            },
    {
        match algorithm {
            HashAlgorithm::Sha256 => result_of(op_id, compute_sha256(input_data).as_slice()),
            _ => Err(CryptoError::Unsupported),
        }
    }

    /// Carries out a message authentication code.
    fn execute_hmac(
        &mut self,
        op_id: CryptoOpId,
        algorithm: HashAlgorithm,
        key: &[u8],
        input_data: &[u8],
    ) -> (r: Result<CryptoResult, CryptoError>)
        ensures
            *final(self) == *old(self),
            if algorithm == HashAlgorithm::Sha256 {
                hmac_sha256(key@, input_data@).len() == 32 && gave(
                    r,
                    op_id,
                    hmac_sha256(key@, input_data@),
                )
            } else {
                failed(r, CryptoError::Unsupported)
            },
    {
        match algorithm {
            HashAlgorithm::Sha256 => result_of(
                op_id,
                compute_hmac_sha256(key, input_data).as_slice(),
            ),
            _ => Err(CryptoError::Unsupported),
        }
    }

    /// Carries out a key derivation.
    fn execute_hkdf(&mut self, op_id: CryptoOpId, operation: &HkdfOperation) -> (r: Result<
        CryptoResult,
        CryptoError,
    >)
        ensures
            *final(self) == *old(self),
            Self::is_hkdf_outcome(op_id, *operation, r),
    {
        match operation.algorithm {
            HashAlgorithm::Sha256 => {
                if operation.length > MAX_CRYPTO_OUTPUT {
                    return Err(CryptoError::BufferTooSmall);
                }
                match compute_hkdf_sha256(
                    operation.salt,
                    operation.ikm,
                    operation.info,
                    operation.length,
                ) {
                    Ok(key) => result_of(op_id, key.as_slice()),
                    Err(_) => Err(CryptoError::OperationFailed),
                }
            },
            _ => Err(CryptoError::Unsupported),
        }
    }
}

impl Default for RustCryptoCryptoProvider {
    fn default() -> (p: Self)
        ensures
            p.exchange() is None,
    {
        RustCryptoCryptoProvider::new()
    }
}

impl CryptoProvider for RustCryptoCryptoProvider {
    fn execute(&mut self, request: &CryptoRequest) -> (r: Result<CryptoResult, CryptoError>)
        ensures
            Self::is_outcome(old(self).exchange(), final(self).exchange(), *request, r),
    {
        match &request.kind {
            CryptoOpKind::Spake2(operation) => self.execute_spake2(request.op_id, operation),
            CryptoOpKind::Hash(operation) => self.execute_hash(
                request.op_id,
                operation.data,
                operation.algorithm,
            ),
            CryptoOpKind::Hmac(operation) => self.execute_hmac(
                request.op_id,
                operation.algorithm,
                operation.key,
                operation.data,
            ),
            CryptoOpKind::Hkdf(operation) => self.execute_hkdf(request.op_id, operation),
            CryptoOpKind::Other => Err(CryptoError::Unsupported),
        }
    }
}

// ---- Laws ----

/// Where both sides derived their keys from the same context and saw the same transcript,
/// the confirmation that one side sends is accepted by the other: what is checked is the
/// transcript with the key of the side that confirms.
pub proof fn confirmation_is_accepted(context: Seq<u8>, transcript: Seq<u8>, is_responder: bool)
    ensures
        is_confirmed(
            transcript + confirmation_key(context, is_responder),
            confirmation(context, transcript, is_responder),
        ),
{
    let key = confirmation_key(context, is_responder);
    let checked = transcript + key;
    let split = checked.len() - KEY_LEN;
    assert(checked.subrange(split, checked.len() as int) =~= key);
    assert(checked.subrange(0, split) =~= transcript);
}

/// Both sides derive their keys from the same context: the fingerprint that one side calls
/// its own is the other's peer.
pub proof fn context_is_shared(
    shared_secret: Seq<u8>,
    initiator_fingerprint: Seq<u8>,
    responder_fingerprint: Seq<u8>,
)
    ensures
        confirmation_context(shared_secret, initiator_fingerprint, responder_fingerprint, false)
            == confirmation_context(
            shared_secret,
            responder_fingerprint,
            initiator_fingerprint,
            true,
        ),
{
}

/// The keys are bound to the certificates: exchanges with another secret or with another
/// certificate on either side derive their keys from another context.
pub proof fn context_binds_certificates(
    secret: Seq<u8>,
    mine: Seq<u8>,
    peers: Seq<u8>,
    other_secret: Seq<u8>,
    other_mine: Seq<u8>,
    other_peers: Seq<u8>,
    is_responder: bool,
)
    requires
        secret.len() == other_secret.len(),
        mine.len() == other_mine.len(),
        peers.len() == other_peers.len(),
        secret != other_secret || mine != other_mine || peers != other_peers,
    ensures
        confirmation_context(secret, mine, peers, is_responder) != confirmation_context(
            other_secret,
            other_mine,
            other_peers,
            is_responder,
        ),
{
    let a = confirmation_context(secret, mine, peers, is_responder);
    let b = confirmation_context(other_secret, other_mine, other_peers, is_responder);
    let n = secret.len() as int;
    let k = if is_responder {
        n + peers.len()
    } else {
        n + mine.len()
    };
    if a == b {
        assert(secret =~= a.subrange(0, n) && other_secret =~= b.subrange(0, n));
        let first = a.subrange(n, k);
        let second = a.subrange(k, a.len() as int);
        if is_responder {
            assert(peers =~= first && other_peers =~= first);
            assert(mine =~= second && other_mine =~= second);
        } else {
            assert(mine =~= first && other_mine =~= first);
            assert(peers =~= second && other_peers =~= second);
        }
    }
}

/// A confirmation that differs from the expected one is refused.
pub proof fn altered_confirmation_is_refused(
    context: Seq<u8>,
    transcript: Seq<u8>,
    is_responder: bool,
    altered: Seq<u8>,
)
    requires
        altered != confirmation(context, transcript, is_responder),
    ensures
        !is_confirmed(transcript + confirmation_key(context, is_responder), altered),
{
    let key = confirmation_key(context, is_responder);
    let checked = transcript + key;
    let split = checked.len() - KEY_LEN;
    assert(checked.subrange(split, checked.len() as int) =~= key);
    assert(checked.subrange(0, split) =~= transcript);
}

/// Two sides that start with the same password, and then finish with the public value of the
/// other side, with the same transcript and with the certificates of both, get the same secret
/// and the same keys. Each confirmation is the code of the transcript under the key of its
/// side, and the other side accepts it.
pub proof fn both_sides_confirm(
    password_id: Option<&[u8]>,
    password: &[u8],
    transcript: &[u8],
    initiator_fingerprint: &[u8],
    responder_fingerprint: &[u8],
    ids: (CryptoOpId, CryptoOpId, CryptoOpId, CryptoOpId),
    initiator: (Option<ExchangeSecret>, Option<ExchangeSecret>, Option<ExchangeSecret>),
    responder: (Option<ExchangeSecret>, Option<ExchangeSecret>, Option<ExchangeSecret>),
    initiator_state: &[u8],
    responder_state: &[u8],
    initiator_public: &[u8],
    responder_public: &[u8],
    started: (Result<CryptoResult, CryptoError>, Result<CryptoResult, CryptoError>),
    finished: (Result<CryptoResult, CryptoError>, Result<CryptoResult, CryptoError>),
)
    requires
        RustCryptoCryptoProvider::is_spake2_outcome(
            initiator.0,
            initiator.1,
            ids.0,
            Spake2Operation::Start { password_id, password, is_responder: false },
            started.0,
        ),
        RustCryptoCryptoProvider::is_spake2_outcome(
            responder.0,
            responder.1,
            ids.1,
            Spake2Operation::Start { password_id, password, is_responder: true },
            started.1,
        ),
        started.0 matches Ok(result) ==> initiator_public@ == result.data@,
        started.1 matches Ok(result) ==> responder_public@ == result.data@,
        RustCryptoCryptoProvider::is_spake2_outcome(
            initiator.1,
            initiator.2,
            ids.2,
            Spake2Operation::FinishWithConfirmation {
                state: initiator_state,
                peer_public: responder_public,
                message_transcript: transcript,
                my_tls_fingerprint: initiator_fingerprint,
                peer_tls_fingerprint: responder_fingerprint,
                is_responder: false,
            },
            finished.0,
        ),
        RustCryptoCryptoProvider::is_spake2_outcome(
            responder.1,
            responder.2,
            ids.3,
            Spake2Operation::FinishWithConfirmation {
                state: responder_state,
                peer_public: initiator_public,
                message_transcript: transcript,
                my_tls_fingerprint: responder_fingerprint,
                peer_tls_fingerprint: initiator_fingerprint,
                is_responder: true,
            },
            finished.1,
        ),
        initiator_fingerprint@.len() == 32,
        responder_fingerprint@.len() == 32,
    ensures
        ({
            &&& finished.0 matches Ok(ours)
            &&& finished.1 matches Ok(theirs)
            &&& ours.data@.len() == 128 && theirs.data@.len() == 128
            &&& ours.data@.subrange(0, 32) == theirs.data@.subrange(0, 32)
            &&& ours.data@.subrange(64, 128) == theirs.data@.subrange(64, 128)
            &&& ours.data@.subrange(32, 64) == hmac_sha256(
                ours.data@.subrange(64, 96),
                transcript@,
            )
            &&& theirs.data@.subrange(32, 64) == hmac_sha256(
                theirs.data@.subrange(96, 128),
                transcript@,
            )
            &&& is_confirmed(
                transcript@ + theirs.data@.subrange(64, 96),
                ours.data@.subrange(32, 64),
            )
            &&& is_confirmed(
                transcript@ + ours.data@.subrange(96, 128),
                theirs.data@.subrange(32, 64),
            )
        }),
{
    let a = initiator.1->Some_0;
    let b = responder.1->Some_0;
    assert(b.is_peer_of(a) && responder_public@ == b.public());
    assert(a.is_peer_of(b) && initiator_public@ == a.public());
    let secret = a.key(b.public())->Some_0;
    assert(b.key(a.public()) == Some(secret));
    context_is_shared(secret, initiator_fingerprint@, responder_fingerprint@);
    let context = confirmation_context(
        secret,
        initiator_fingerprint@,
        responder_fingerprint@,
        false,
    );
    let ours = finished.0->Ok_0.data@;
    let theirs = finished.1->Ok_0.data@;
    let keys = confirmation_keys(context);
    assert(ours.subrange(0, 32) =~= secret && theirs.subrange(0, 32) =~= secret);
    assert(ours.subrange(64, 128) =~= keys && theirs.subrange(64, 128) =~= keys);
    assert(ours.subrange(64, 96) =~= confirmation_key(context, false));
    assert(theirs.subrange(64, 96) =~= confirmation_key(context, false));
    assert(ours.subrange(96, 128) =~= confirmation_key(context, true));
    assert(theirs.subrange(96, 128) =~= confirmation_key(context, true));
    assert(ours.subrange(32, 64) =~= confirmation(context, transcript@, false));
    assert(theirs.subrange(32, 64) =~= confirmation(context, transcript@, true));
    confirmation_is_accepted(context, transcript@, false);
    confirmation_is_accepted(context, transcript@, true);
}

/// Whether a request starts an exchange.
pub open spec fn is_start(request: CryptoRequest) -> bool {
    request.kind matches CryptoOpKind::Spake2(operation) && operation is Start
}

/// Whether a request finishes an exchange, with or without a confirmation.
pub open spec fn is_finish(request: CryptoRequest) -> bool {
    request.kind matches CryptoOpKind::Spake2(operation) && (operation is Finish
        || operation is FinishWithConfirmation)
}

/// Whether these are requests to one provider, in their order, with their results.
/// `pending` is the exchange that is pending before each of them and after the last.
pub open spec fn is_run(
    pending: Seq<Option<ExchangeSecret>>,
    requests: Seq<CryptoRequest>,
    results: Seq<Result<CryptoResult, CryptoError>>,
) -> bool {
    &&& pending.len() == requests.len() + 1
    &&& results.len() == requests.len()
    &&& forall|i: int|
        0 <= i < requests.len() ==> RustCryptoCryptoProvider::is_outcome(
            pending[i],
            pending[i + 1],
            #[trigger] requests[i],
            results[i],
        )
}

proof fn lemma_nothing_pending(
    pending: Seq<Option<ExchangeSecret>>,
    requests: Seq<CryptoRequest>,
    results: Seq<Result<CryptoResult, CryptoError>>,
    i: int,
)
    requires
        is_run(pending, requests, results),
        pending[0] is None || is_finish(requests[0]),
        forall|k: int| 0 <= k < requests.len() ==> !is_start(#[trigger] requests[k]),
        0 <= i <= requests.len(),
        pending[0] is None || i > 0,
    ensures
        pending[i] is None,
    decreases i,
{
    if i > 0 {
        let request = requests[i - 1];
        assert(RustCryptoCryptoProvider::is_outcome(
            pending[i - 1],
            pending[i],
            request,
            results[i - 1],
        ));
        if pending[0] is None || i > 1 {
            lemma_nothing_pending(pending, requests, results, i - 1);
        }
    }
}

/// One start pays for one finish. Where no start came before, or none since the last finish,
/// whether that succeeded or not, a finish is refused, whatever it brings.
pub proof fn finish_needs_start(
    pending: Seq<Option<ExchangeSecret>>,
    requests: Seq<CryptoRequest>,
    results: Seq<Result<CryptoResult, CryptoError>>,
)
    requires
        is_run(pending, requests, results),
        requests.len() > 0,
        pending[0] is None || is_finish(requests[0]) && requests.len() > 1,
        forall|k: int| 0 <= k < requests.len() ==> !is_start(#[trigger] requests[k]),
        is_finish(requests.last()),
    ensures
        failed(results.last(), CryptoError::InvalidInput),
        pending.last() is None,
{
    let last = requests.len() - 1;
    lemma_nothing_pending(pending, requests, results, last);
    assert(RustCryptoCryptoProvider::is_outcome(
        pending[last],
        pending[last + 1],
        requests[last],
        results[last],
    ));
}

} // verus!
