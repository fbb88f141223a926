//! Fingerprints of certificates: the stable identity of a device.
use crate::cert::x509::{compute_spki_fingerprint, spki_of};
use crate::common::bytes::same_bytes;
use crate::crypto::primitive::sha256;
use crate::encoding::base64::{base64_bytes, base64_round_trip, base64_text, decode_base64, encode_base64};
use crate::encoding::hex::{decode_hex, encode_hex, hex_bytes, hex_text, is_hex};
use vstd::prelude::*;

verus! {

/// A fingerprint: the SHA-256 of the subject public key info of a certificate.
#[derive(Debug, Clone, Copy)]
pub struct Fingerprint {
    bytes: [u8; 32],
}

impl View for Fingerprint {
    type V = Seq<u8>;

    closed spec fn view(&self) -> Seq<u8> {
        self.bytes@
    }
}

/// Why something is no fingerprint.
#[derive(Debug, Clone, Copy, PartialEq, Eq, Structural)]
pub enum FingerprintError {
    /// The text is not base64.
    InvalidBase64,
    /// The text is not hexadecimal.
    InvalidHex,
    /// There are not 32 bytes.
    InvalidLength(usize),
    /// The certificate cannot be read.
    InvalidCertificate,
}

/// The fingerprint with these bytes, if there are 32.
fn from_slice(bytes: &[u8]) -> (r: Result<Fingerprint, FingerprintError>)
    ensures
        if bytes@.len() == 32 {
            r matches Ok(fingerprint) && fingerprint@ == bytes@
        } else {
            r == Err::<Fingerprint, FingerprintError>(
                FingerprintError::InvalidLength(bytes@.len() as usize),
            )
        },
{
    if bytes.len() != 32 {
        return Err(FingerprintError::InvalidLength(bytes.len()));
    }
    let mut array: [u8; 32] = [0u8; 32];
    let mut i: usize = 0;
    while i < 32
        invariant
            i <= 32,
            bytes@.len() == 32,
            forall|k: int| 0 <= k < i ==> #[trigger] array@[k] == bytes@[k],
        decreases 32 - i,
    {
        array[i] = bytes[i];
        i = i + 1;
    }
    proof {
        assert(array@ =~= bytes@);
    }
    Ok(Fingerprint { bytes: array })
}

impl Fingerprint {
    /// The fingerprint with these bytes.
    pub fn from_bytes(bytes: [u8; 32]) -> (f: Self)
        ensures
            f@ == bytes@,
    {
        Fingerprint { bytes }
    }

    /// The bytes.
    pub fn as_bytes(&self) -> (r: &[u8; 32])
        ensures
            r@ == self@,
    {
        &self.bytes
    }

    /// The bytes in base64.
    pub fn to_base64(&self) -> (r: String)
        ensures
            r@ == base64_text(self@),
    {
        encode_base64(self.bytes.as_slice())
    }

    /// The bytes in hexadecimal digits.
    pub fn to_hex(&self) -> (r: String)
        ensures
            r@ == hex_text(self@),
    {
        encode_hex(self.bytes.as_slice())
    }

    /// Reads a fingerprint in base64.
    pub fn from_base64(text: &str) -> (r: Result<Self, FingerprintError>)
        ensures
            match base64_bytes(text@) {
                Some(bytes) => if bytes.len() == 32 {
                    r matches Ok(fingerprint) && fingerprint@ == bytes
                } else {
                    r == Err::<Self, FingerprintError>(
                        FingerprintError::InvalidLength(bytes.len() as usize),
                    )
                },
                None => r == Err::<Self, FingerprintError>(FingerprintError::InvalidBase64),
            },
    {
        match decode_base64(text) {
            Ok(bytes) => {
                proof {
                    base64_round_trip(bytes@);
                }
                from_slice(bytes.as_slice())
            },
            Err(_) => Err(FingerprintError::InvalidBase64),
        }
    }

    /// Reads a fingerprint in hexadecimal digits.
    pub fn from_hex(text: &str) -> (r: Result<Self, FingerprintError>)
        ensures
            if !is_hex(text@) {
                r == Err::<Self, FingerprintError>(FingerprintError::InvalidHex)
            } else if hex_bytes(text@).len() != 32 {
                r == Err::<Self, FingerprintError>(
                    FingerprintError::InvalidLength(hex_bytes(text@).len() as usize),
                )
            } else {
                r matches Ok(fingerprint) && fingerprint@ == hex_bytes(text@)
            },
    {
        match decode_hex(text) {
            Ok(bytes) => from_slice(bytes.as_slice()),
            Err(_) => Err(FingerprintError::InvalidHex),
        }
    }

    /// The fingerprint of a certificate in DER.
    pub fn from_der_cert(cert_der: &[u8]) -> (r: Result<Self, FingerprintError>)
        ensures
            match spki_of(cert_der@) {
                Some(spki) => r matches Ok(fingerprint) && fingerprint@ == sha256(spki),
                None => r == Err::<Self, FingerprintError>(FingerprintError::InvalidCertificate),
            },
    {
        match compute_spki_fingerprint(cert_der) {
            Ok(bytes) => Ok(Fingerprint { bytes }),
            Err(_) => Err(FingerprintError::InvalidCertificate),
        }
    }
}

impl PartialEq for Fingerprint {
    fn eq(&self, other: &Self) -> (r: bool) {
        same_bytes(self.bytes.as_slice(), other.bytes.as_slice())
    }
}

impl vstd::std_specs::cmp::PartialEqSpecImpl for Fingerprint {
    open spec fn obeys_eq_spec() -> bool {
        true
    }

    open spec fn eq_spec(&self, other: &Self) -> bool {
        self@ == other@
    }
}

impl Eq for Fingerprint {

}

} // verus!
