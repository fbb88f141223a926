//! The check of the certificate of a server during the TLS handshake.
use crate::cert::x509::{certificate_fields, compute_spki_fingerprint};
use crate::common::bytes::same_bytes;
use crate::crypto::primitive::sha256;
use crate::encoding::hex::{encode_hex, hex_text};
use vstd::prelude::*;
use vstd::string::StringExecFns;

verus! {

/// Accepts the certificate with one fingerprint, the one that the server advertised.
#[derive(Debug, Clone)]
pub struct FingerprintVerifier {
    expected_fingerprint: [u8; 32],
}

impl View for FingerprintVerifier {
    type V = Seq<u8>;

    closed spec fn view(&self) -> Seq<u8> {
        self.expected_fingerprint@
    }
}

/// What is said of a certificate with another fingerprint.
pub open spec fn mismatch_text(expected: Seq<u8>, actual: Seq<u8>) -> Seq<char> {
    "Certificate fingerprint mismatch: expected "@ + hex_text(expected) + ", got "@ + hex_text(
        actual,
    )
}

/// What is said of a certificate where this fingerprint is expected: nothing, if it has that one.
pub open spec fn complaint(expected: Seq<u8>, cert_der: Seq<u8>) -> Option<Seq<char>> {
    match certificate_fields(cert_der) {
        Ok(fields) => if sha256(fields.spki) == expected {
            None
        } else {
            Some(mismatch_text(expected, sha256(fields.spki)))
        },
        Err(fault) => Some(
            "Fingerprint computation failed: "@ + ("Failed to parse certificate: "@ + fault.shown),
        ),
    }
}

impl FingerprintVerifier {
    /// Accepts the certificate with this fingerprint.
    pub fn new(expected_fingerprint: [u8; 32]) -> (v: Self)
        ensures
            v@ == expected_fingerprint@,
    {
        FingerprintVerifier { expected_fingerprint }
    }

    /// Whether a fingerprint is the expected one; if not, says so.
    pub fn check_fingerprint(&self, actual: &[u8; 32]) -> (r: Result<(), String>)
        ensures
            if actual@ == self@ {
                r is Ok
            } else {
                r matches Err(text) && text@ == mismatch_text(self@, actual@) && text@
                    == "Certificate fingerprint mismatch: expected "@ + hex_text(self@) + ", got "@
                    + hex_text(actual@)
            },
    {
        if same_bytes(actual.as_slice(), self.expected_fingerprint.as_slice()) {
            return Ok(());
        }
        let expected_digits = encode_hex(self.expected_fingerprint.as_slice());
        let actual_digits = encode_hex(actual.as_slice());
        Err(
            "Certificate fingerprint mismatch: expected ".to_owned().concat(
                expected_digits.as_str(),
            ).concat(", got ").concat(actual_digits.as_str()),
        )
    }

    /// Whether a certificate in DER has the expected fingerprint; if not, says so.
    pub fn verify_certificate(&self, cert_der: &[u8]) -> (r: Result<(), String>)
        ensures
            match certificate_fields(cert_der@) {
                Ok(fields) => if sha256(fields.spki) == self@ {
                    r is Ok
                } else {
                    r matches Err(text) && text@ == mismatch_text(self@, sha256(fields.spki))
                },
                Err(fault) => r matches Err(text) && text@ == "Fingerprint computation failed: "@ + (
                "Failed to parse certificate: "@ + fault.shown),
            },
            match complaint(self@, cert_der@) {
                None => r is Ok,
                Some(said) => r matches Err(text) && text@ == said,
            },
    {
        match compute_spki_fingerprint(cert_der) {
            Ok(actual) => self.check_fingerprint(&actual),
            Err(text) => Err("Fingerprint computation failed: ".to_owned().concat(text.as_str())),
        }
    }
}

} // verus!
