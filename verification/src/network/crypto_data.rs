//! What the states of an authentication share.
use crate::bounded::BoundedVec;
use crate::encoding::utf8::text_of;
use crate::network::NetworkError;
use vstd::prelude::*;
use vstd::string::StringSliceAdditionalSpecFns;
use vstd::utf8::valid_utf8;

verus! {

/// The most bytes of a pre-shared key.
pub const MAX_PSK_LEN: usize = 256;

/// The most bytes of a token.
pub const MAX_TOKEN_LEN: usize = 256;

/// The most bytes of a public value.
pub const MAX_PUBLIC_LEN: usize = 64;

/// The most bytes of a handshake message.
pub const MAX_HANDSHAKE_LEN: usize = 1024;

/// The most bytes of a transcript, which is two handshake messages.
pub const MAX_TRANSCRIPT_LEN: usize = 2048;

/// The bytes of a certificate fingerprint.
pub const FINGERPRINT_LEN: usize = 32;

/// The keys and messages of an authentication.
pub struct CryptoData {
    /// The pre-shared key.
    pub psk: BoundedVec<u8, MAX_PSK_LEN>,
    /// The token that we advertise or that the peer advertised; empty if there is none.
    pub auth_token: BoundedVec<u8, MAX_TOKEN_LEN>,
    /// Whether the peer started the exchange.
    pub is_responder: bool,
    /// Our public value; empty before there is one.
    pub spake2_public: BoundedVec<u8, MAX_PUBLIC_LEN>,
    /// The handshake message that we sent.
    pub our_handshake_msg: BoundedVec<u8, MAX_HANDSHAKE_LEN>,
    /// The handshake message that came in.
    pub peer_handshake_msg: BoundedVec<u8, MAX_HANDSHAKE_LEN>,
    /// The public value of the peer.
    pub peer_public_temp: BoundedVec<u8, MAX_PUBLIC_LEN>,
    /// Both handshake messages.
    pub transcript: BoundedVec<u8, MAX_TRANSCRIPT_LEN>,
    /// The fingerprint of our certificate.
    pub my_fingerprint: BoundedVec<u8, FINGERPRINT_LEN>,
    /// The fingerprint of the certificate of the peer.
    pub peer_fingerprint: BoundedVec<u8, FINGERPRINT_LEN>,
}

/// The contents of a [`CryptoData`].
#[verifier::ext_equal]
pub struct CryptoModel {
    pub psk: Seq<u8>,
    pub auth_token: Seq<u8>,
    pub is_responder: bool,
    pub spake2_public: Seq<u8>,
    pub our_handshake_msg: Seq<u8>,
    pub peer_handshake_msg: Seq<u8>,
    pub peer_public_temp: Seq<u8>,
    pub transcript: Seq<u8>,
    pub my_fingerprint: Seq<u8>,
    pub peer_fingerprint: Seq<u8>,
}

impl View for CryptoData {
    type V = CryptoModel;

    open spec fn view(&self) -> CryptoModel {
        CryptoModel {
            psk: self.psk@,
            auth_token: self.auth_token@,
            is_responder: self.is_responder,
            spake2_public: self.spake2_public@,
            our_handshake_msg: self.our_handshake_msg@,
            peer_handshake_msg: self.peer_handshake_msg@,
            peer_public_temp: self.peer_public_temp@,
            transcript: self.transcript@,
            my_fingerprint: self.my_fingerprint@,
            peer_fingerprint: self.peer_fingerprint@,
        }
    }
}

/// Puts `bytes` in place of what `buffer` holds. What does not fit leaves it empty.
pub(crate) fn replace<const N: usize>(buffer: &mut BoundedVec<u8, N>, bytes: &[u8]) -> (r: Result<
    (),
    NetworkError,
>)
    ensures
        if bytes@.len() <= N {
            r is Ok && final(buffer)@ == bytes@
        } else {
            r == Err::<(), NetworkError>(NetworkError::BufferFull) && final(buffer)@ == Seq::<
                u8,
            >::empty()
        },
{
    buffer.clear();
    match buffer.extend_from_slice(bytes) {
        Ok(()) => {
            proof {
                assert(buffer@ =~= bytes@);
            }
            Ok(())
        },
        Err(()) => Err(NetworkError::BufferFull),
    }
}

impl CryptoData {
    /// Nothing is set, and the role is that of the initiator.
    pub fn new() -> (data: Self)
        ensures
            data@ == (CryptoModel {
                psk: Seq::empty(),
                auth_token: Seq::empty(),
                is_responder: false,
                spake2_public: Seq::empty(),
                our_handshake_msg: Seq::empty(),
                peer_handshake_msg: Seq::empty(),
                peer_public_temp: Seq::empty(),
                transcript: Seq::empty(),
                my_fingerprint: Seq::empty(),
                peer_fingerprint: Seq::empty(),
            }),
    {
        CryptoData {
            psk: BoundedVec::new(),
            auth_token: BoundedVec::new(),
            is_responder: false,
            spake2_public: BoundedVec::new(),
            our_handshake_msg: BoundedVec::new(),
            peer_handshake_msg: BoundedVec::new(),
            peer_public_temp: BoundedVec::new(),
            transcript: BoundedVec::new(),
            my_fingerprint: BoundedVec::new(),
            peer_fingerprint: BoundedVec::new(),
        }
    }

    /// Sets the pre-shared key.
    pub fn set_psk(&mut self, psk: &[u8]) -> (r: Result<(), NetworkError>)
        ensures
            if psk@.len() <= MAX_PSK_LEN {
                r is Ok && final(self)@ == (CryptoModel { psk: psk@, ..old(self)@ })
            } else {
                r == Err::<(), NetworkError>(NetworkError::BufferFull) && final(self)@ == (
                CryptoModel { psk: Seq::empty(), ..old(self)@ })
            },
            r is Ok <==> psk@.len() <= 256,
            r is Ok ==> final(self).psk@ == psk@,
    {
        replace(&mut self.psk, psk)
    }

    /// Sets the token.
    pub fn set_auth_token(&mut self, token: &[u8]) -> (r: Result<(), NetworkError>)
        ensures
            if token@.len() <= MAX_TOKEN_LEN {
                r is Ok && final(self)@ == (CryptoModel { auth_token: token@, ..old(self)@ })
            } else {
                r == Err::<(), NetworkError>(NetworkError::BufferFull) && final(self)@ == (
                CryptoModel { auth_token: Seq::empty(), ..old(self)@ })
            },
            r is Ok <==> token@.len() <= 256,
            r is Ok ==> final(self).auth_token@ == token@,
    {
        replace(&mut self.auth_token, token)
    }

    /// Sets the fingerprint of our certificate.
    pub fn set_my_fingerprint(&mut self, fingerprint: &[u8]) -> (r: Result<(), NetworkError>)
        ensures
            if fingerprint@.len() <= FINGERPRINT_LEN {
                r is Ok && final(self)@ == (CryptoModel {
                    my_fingerprint: fingerprint@,
                    ..old(self)@
                })
            } else {
                r == Err::<(), NetworkError>(NetworkError::BufferFull) && final(self)@ == (
                CryptoModel { my_fingerprint: Seq::empty(), ..old(self)@ })
            },
            r is Ok <==> fingerprint@.len() <= 32,
            r is Ok ==> final(self).my_fingerprint@ == fingerprint@,
    {
        replace(&mut self.my_fingerprint, fingerprint)
    }

    /// Sets the fingerprint of the certificate of the peer.
    pub fn set_peer_fingerprint(&mut self, fingerprint: &[u8]) -> (r: Result<(), NetworkError>)
        ensures
            if fingerprint@.len() <= FINGERPRINT_LEN {
                r is Ok && final(self)@ == (CryptoModel {
                    peer_fingerprint: fingerprint@,
                    ..old(self)@
                })
            } else {
                r == Err::<(), NetworkError>(NetworkError::BufferFull) && final(self)@ == (
                CryptoModel { peer_fingerprint: Seq::empty(), ..old(self)@ })
            },
            r is Ok <==> fingerprint@.len() <= 32,
            r is Ok ==> final(self).peer_fingerprint@ == fingerprint@,
    {
        replace(&mut self.peer_fingerprint, fingerprint)
    }

    /// Sets whether the peer starts the exchange.
    pub fn set_role(&mut self, is_responder: bool)
        ensures
            final(self)@ == (CryptoModel { is_responder, ..old(self)@ }),
            final(self).is_responder == is_responder,
    {
        self.is_responder = is_responder;
    }

    /// The token as a text, if it is one.
    pub fn auth_token_str(&self) -> (r: Option<&str>)
        ensures
            match r {
                Some(text) => text.spec_bytes() == self.auth_token@,
                None => !valid_utf8(self.auth_token@),
            },
    {
        text_of(self.auth_token.as_slice())
    }
}

} // verus!
