//! Tokens that a device advertises and that handshakes have to repeat.
use crate::cert::serial::random_uuid;
use crate::encoding::hex::{encode_hex, hex_text};
use vstd::prelude::*;

verus! {

/// A token. Only who saw the advertisement, on the same network, knows it.
#[derive(Debug)]
pub struct AuthToken {
    token: String,
}

impl View for AuthToken {
    type V = Seq<char>;

    closed spec fn view(&self) -> Seq<char> {
        self.token@
    }
}

impl Clone for AuthToken {
    fn clone(&self) -> (r: Self)
        ensures
            r == *self,
    {
        AuthToken { token: self.token.clone() }
    }
}

impl AuthToken {
    /// The token with this text.
    pub fn from_string(token: String) -> (t: Self)
        ensures
            t@ == token@,
    {
        AuthToken { token }
    }

    /// The text of the token.
    pub fn as_str(&self) -> (r: &str)
        ensures
            r@ == self@,
    {
        self.token.as_str()
    }

    /// A random token: the sixteen bytes of a random UUID in hexadecimal digits.
    pub fn generate() -> (t: Self)
        ensures
            exists|bytes: Seq<u8>|
                bytes.len() == 16 && bytes[6] / 16 == 4 && bytes[8] / 64 == 2 && t@
                    == #[trigger] hex_text(bytes),
    {
        let bytes: [u8; 16] = random_uuid();
        let token = encode_hex(bytes.as_slice());
        proof {
            assert(bytes@.len() == 16 && token@ == hex_text(bytes@));
        }
        AuthToken { token }
    }
}

} // verus!
