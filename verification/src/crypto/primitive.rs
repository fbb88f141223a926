//! The cryptographic functions that the library takes from other crates.
use hkdf::Hkdf;
use hmac::{Hmac, Mac};
use sha2::{Digest, Sha256};
use spake2::{Ed25519Group, Identity, Password, Spake2};
use subtle::ConstantTimeEq;
use vstd::prelude::*;

verus! {

#[verifier::external_type_specification]
#[verifier::external_body]
pub struct ExSpake2Error(spake2::Error);

#[verifier::external_type_specification]
#[verifier::external_body]
pub struct ExHkdfInvalidLength(hkdf::InvalidLength);

// ---- Hashes and keys ----

/// The SHA-256 hash of `data`.
pub uninterp spec fn sha256(data: Seq<u8>) -> Seq<u8>;

/// The HMAC-SHA256 of `data` under `key`.
pub uninterp spec fn hmac_sha256(key: Seq<u8>, data: Seq<u8>) -> Seq<u8>;

/// The `length` bytes that HKDF-SHA256 derives from the key material.
pub uninterp spec fn hkdf_sha256(
    salt: Option<Seq<u8>>,
    ikm: Seq<u8>,
    info: Seq<u8>,
    length: nat,
) -> Seq<u8>;

/// The most bytes that HKDF-SHA256 gives.
pub const HKDF_SHA256_LIMIT: usize = 8160;

/// `sha2::Sha256::digest`: the hash, of 32 bytes.
#[verifier::external_body]
pub(crate) fn compute_sha256(data: &[u8]) -> (r: [u8; 32])
    ensures
        r@ == sha256(data@),
{
    Sha256::digest(data).into()
}

/// `hmac::Hmac::<Sha256>`: a key of any length is taken, and the code has 32 bytes.
#[verifier::external_body]
pub(crate) fn compute_hmac_sha256(key: &[u8], data: &[u8]) -> (r: [u8; 32])
    ensures
        r@ == hmac_sha256(key@, data@),
{
    let mut mac = Hmac::<Sha256>::new_from_slice(key).expect("HMAC takes keys of any length");
    mac.update(data);
    mac.finalize().into_bytes().into()
}

/// The bytes of an optional salt.
pub open spec fn salt_bytes(salt: Option<&[u8]>) -> Option<Seq<u8>> {
    match salt {
        Some(salt) => Some(salt@),
        None => None,
    }
}

/// `hkdf::Hkdf::<Sha256>`, extract and expand: `length` bytes. Only more than 255 times the
/// 32 bytes of a hash are an error.
#[verifier::external_body]
pub(crate) fn compute_hkdf_sha256(
    salt: Option<&[u8]>,
    ikm: &[u8],
    info: &[u8],
    length: usize,
) -> (r: Result<Vec<u8>, hkdf::InvalidLength>)
    requires
        length <= HKDF_SHA256_LIMIT,
    ensures
        match r {
            Ok(key) => key@ == hkdf_sha256(
                salt_bytes(salt),
                ikm@,
                info@,
                length as nat,
            ) && key@.len() == length,
            Err(_) => false,
        },
{
    let mut key = vec![0u8; length];
    Hkdf::<Sha256>::new(salt, ikm).expand(info, &mut key)?;
    Ok(key)
}

/// `subtle::ConstantTimeEq::ct_eq` on slices: whether they are equal.
#[verifier::external_body]
pub(crate) fn constant_time_eq(a: &[u8], b: &[u8]) -> (r: bool)
    ensures
        r == (a@ == b@),
{
    a.ct_eq(b).into()
}

// ---- SPAKE2 ----

/// What one side of an exchange rests on: the password, the identities of both sides,
/// whether it is side B, the responder, and the scalar that it picked at random.
pub struct ExchangeSecret {
    pub password: Seq<u8>,
    pub id_a: Seq<u8>,
    pub id_b: Seq<u8>,
    pub is_responder: bool,
    pub scalar: Seq<u8>,
}

/// The public value that a side sends.
pub uninterp spec fn spake2_public(
    password: Seq<u8>,
    is_responder: bool,
    scalar: Seq<u8>,
) -> Seq<u8>;

/// The shared key that a side derives from the public value of the other side, if that is
/// one.
pub uninterp spec fn spake2_key(
    password: Seq<u8>,
    id_a: Seq<u8>,
    id_b: Seq<u8>,
    is_responder: bool,
    scalar: Seq<u8>,
    peer_public: Seq<u8>,
) -> Option<Seq<u8>>;

impl ExchangeSecret {
    /// The public value of this side.
    pub open spec fn public(self) -> Seq<u8> {
        spake2_public(self.password, self.is_responder, self.scalar)
    }

    /// The key that this side derives.
    pub open spec fn key(self, peer_public: Seq<u8>) -> Option<Seq<u8>> {
        spake2_key(
            self.password,
            self.id_a,
            self.id_b,
            self.is_responder,
            self.scalar,
            peer_public,
        )
    }

    /// Whether `other` is the other side of the same exchange.
    pub open spec fn is_peer_of(self, other: ExchangeSecret) -> bool {
        &&& self.password == other.password
        &&& self.id_a == other.id_a
        &&& self.id_b == other.id_b
        &&& self.is_responder != other.is_responder
    }
}

/// The state of the `spake2` crate between the two steps of an exchange.
#[verifier::external_body]
pub struct ExchangeState {
    state: Spake2<Ed25519Group>,
}

/// One side of an exchange that was started. `secret` is what its state rests on.
pub struct KeyExchange {
    state: ExchangeState,
    secret: Ghost<ExchangeSecret>,
}

impl View for KeyExchange {
    type V = ExchangeSecret;

    closed spec fn view(&self) -> ExchangeSecret {
        self.secret@
    }
}

impl KeyExchange {
    /// `spake2::Spake2::start_a`: starts side A with a scalar picked at random. The public
    /// value has 33 bytes, the first of which tells the side.
    #[verifier::external_body]
    pub(crate) fn start_initiator(password: &[u8], id_a: &[u8], id_b: &[u8]) -> (r: (
        KeyExchange,
        Vec<u8>,
    ))
        ensures
            r.0@.password == password@ && r.0@.id_a == id_a@ && r.0@.id_b == id_b@,
            !r.0@.is_responder,
            r.1@ == spake2_public(password@, false, r.0@.scalar),
            r.1@.len() == 33 && r.1@[0] == 0x41,
    {
        let (state, public) = Spake2::<Ed25519Group>::start_a(
            &Password::new(password),
            &Identity::new(id_a),
            &Identity::new(id_b),
        );
        (KeyExchange { state: ExchangeState { state }, secret: Ghost(arbitrary()) }, public)
    }

    /// `spake2::Spake2::start_b`: starts side B, likewise.
    #[verifier::external_body]
    pub(crate) fn start_responder(password: &[u8], id_a: &[u8], id_b: &[u8]) -> (r: (
        KeyExchange,
        Vec<u8>,
    ))
        ensures
            r.0@.password == password@ && r.0@.id_a == id_a@ && r.0@.id_b == id_b@,
            r.0@.is_responder,
            r.1@ == spake2_public(password@, true, r.0@.scalar),
            r.1@.len() == 33 && r.1@[0] == 0x42,
    {
        let (state, public) = Spake2::<Ed25519Group>::start_b(
            &Password::new(password),
            &Identity::new(id_a),
            &Identity::new(id_b),
        );
        (KeyExchange { state: ExchangeState { state }, secret: Ghost(arbitrary()) }, public)
    }

    /// `spake2::Spake2::finish`: a key of 32 bytes, from a public value of 33 bytes, or an
    /// error. From the public value that the other side of the same exchange sent, both
    /// sides derive the same key.
    #[verifier::external_body]
    pub(crate) fn finish(self, peer_public: &[u8]) -> (r: Result<Vec<u8>, spake2::Error>)
        ensures
            match r {
                Ok(key) => peer_public@.len() == 33 && key@.len() == 32 && spake2_key(
                    self@.password,
                    self@.id_a,
                    self@.id_b,
                    self@.is_responder,
                    self@.scalar,
                    peer_public@,
                ) == Some(key@),
                Err(_) => spake2_key(
                    self@.password,
                    self@.id_a,
                    self@.id_b,
                    self@.is_responder,
                    self@.scalar,
                    peer_public@,
                ) is None,
            },
            forall|other: ExchangeSecret|
                other.is_peer_of(self@) && peer_public@ == #[trigger] other.public() ==> {
                    &&& r is Ok
                    &&& other.key(self@.public()) == Some(r->Ok_0@)
                },
    {
        self.state.state.finish(peer_public)
    }
}

} // verus!
