//! What serial numbers, hostnames and identities are made of.
use crate::cert::hostname::{hostname_text, sanitized};
use crate::cert::key::{
    identity_in_pem, identity_of, is_key_pair, is_new_identity, pem_contents, public_key_info,
    CertificateError, CertificateKey, Identity,
};
use crate::cert::serial::{normalized, SerialError};
use crate::cert::x509::{certificate_fields, spki_of};
use crate::common::big_endian::{be_bytes, be_value};
use crate::crypto::primitive::sha256;
use crate::encoding::base64::base64_text;
use vstd::prelude::*;

verus! {

// ---- Hostnames ----

/// Each character of a name stands in the hostname where it may, and a hyphen in its place where
/// it may not. Letters and digits of ASCII and the hyphen may.
pub proof fn characters_are_kept_or_replaced(text: Seq<char>, i: int)
    requires
        0 <= i < text.len(),
    ensures
        sanitized(text).len() == text.len(),
        'a' <= text[i] <= 'z' || 'A' <= text[i] <= 'Z' || '0' <= text[i] <= '9' || text[i] == '-'
            ==> sanitized(text)[i] == text[i],
        !('a' <= text[i] <= 'z' || 'A' <= text[i] <= 'Z' || '0' <= text[i] <= '9' || text[i]
            == '-') ==> sanitized(text)[i] == '-',
{
}

/// A hostname is the serial number in base64, a dot, the name, a dot and the domain.
pub proof fn hostnames_are_put_together(serial: Seq<u8>, name: Seq<char>, domain: Seq<char>)
    ensures
        hostname_text(serial, name, domain) == base64_text(serial) + seq!['.'] + sanitized(name)
            + seq!['.'] + sanitized(domain),
{
    reveal_strlit(".");
    assert("."@ =~= seq!['.']);
}

// ---- Serial numbers ----

proof fn lemma_zeros_weigh_nothing(n: nat, bytes: Seq<u8>)
    ensures
        be_value(Seq::new(n, |i: int| 0u8) + bytes) == be_value(bytes),
    decreases bytes.len(), n,
{
    let zeros = Seq::new(n, |i: int| 0u8);
    if bytes.len() > 0 {
        assert((zeros + bytes).drop_last() =~= zeros + bytes.drop_last());
        lemma_zeros_weigh_nothing(n, bytes.drop_last());
    } else if n > 0 {
        let fewer = Seq::new((n - 1) as nat, |i: int| 0u8);
        assert((zeros + bytes).drop_last() =~= fewer + bytes);
        lemma_zeros_weigh_nothing((n - 1) as nat, bytes);
    } else {
        assert(zeros + bytes =~= bytes);
    }
}

/// The serial number of a certificate has 20 bytes and stands for the same integer as the bytes
/// of the certificate. It is there for up to 20 bytes, and for 21 of which the first is zero. For
/// other 21 the first byte is reported, and for more their number.
pub proof fn serials_keep_their_value(bytes: Seq<u8>)
    ensures
        normalized(bytes) is Ok <==> bytes.len() <= 20 || (bytes.len() == 21 && bytes[0] == 0),
        normalized(bytes) matches Ok(serial) ==> serial.len() == 20 && be_value(serial)
            == be_value(bytes),
        bytes.len() == 21 && bytes[0] != 0 ==> normalized(bytes) == Err::<Seq<u8>, SerialError>(
            SerialError::InvalidPrefix(bytes[0]),
        ),
        bytes.len() > 21 ==> normalized(bytes) == Err::<Seq<u8>, SerialError>(
            SerialError::InvalidLength(bytes.len() as usize),
        ),
{
    if bytes.len() <= 20 {
        lemma_zeros_weigh_nothing((20 - bytes.len()) as nat, bytes);
    } else if bytes.len() == 21 && bytes[0] == 0 {
        let rest = bytes.skip(1);
        lemma_zeros_weigh_nothing(1, rest);
        assert(Seq::new(1, |i: int| 0u8) + rest =~= bytes);
    }
}

// ---- Identities ----

/// An identity holds the certificate and the key that it was given. Its fingerprint is the hash
/// of the subject public key info, its serial number that of the certificate, and its hostname
/// is made of that serial number, the name and the domain. Of what is no certificate there is
/// none, nor of one whose serial number is none.
pub proof fn identities_follow_from_certificates(
    cert_der: Seq<u8>,
    key_der: Seq<u8>,
    name: Seq<char>,
    domain: Seq<char>,
)
    ensures
        certificate_fields(cert_der) is Err ==> identity_of(cert_der, key_der, name, domain)
            == Err::<Identity, CertificateError>(CertificateError::InvalidCertificate),
        certificate_fields(cert_der) matches Ok(fields) ==> match normalized(fields.serial) {
            Err(e) => identity_of(cert_der, key_der, name, domain) == Err::<
                Identity,
                CertificateError,
            >(CertificateError::InvalidSerial(e)),
            Ok(serial) => {
                &&& identity_of(cert_der, key_der, name, domain) matches Ok(identity)
                &&& identity.cert_der == cert_der
                &&& identity.key_der == key_der
                &&& identity.fingerprint == sha256(fields.spki)
                &&& identity.serial_number == serial
                &&& identity.hostname == hostname_text(serial, name, domain)
            },
        },
{
}

/// A certificate and a key belong together exactly where the subject public key info of the
/// certificate is the one that belongs to the key.
pub proof fn pairs_share_their_key(cert_der: Seq<u8>, key_der: Seq<u8>)
    ensures
        is_key_pair(cert_der, key_der) <==> (certificate_fields(cert_der) matches Ok(fields)
            && public_key_info(key_der) == Some(fields.spki)),
        spki_of(cert_der) == match certificate_fields(cert_der) {
            Ok(fields) => Some(fields.spki),
            Err(_) => None,
        },
{
}

/// An identity is read from its two files: the private key first, then the certificate. What is
/// wrong with the key is reported before what is wrong with the certificate.
pub proof fn identities_are_read_from_files(
    cert_pem: Seq<char>,
    key_pem: Seq<char>,
    cert: Seq<u8>,
    key: Seq<u8>,
    name: Seq<char>,
    domain: Seq<char>,
)
    ensures
        (pem_contents(key_pem) matches Some(key) ==> public_key_info(key) is None)
            ==> identity_in_pem(cert_pem, key_pem, name, domain) == Err::<
            Identity,
            CertificateError,
        >(CertificateError::InvalidPrivateKey),
        pem_contents(key_pem) == Some(key) && public_key_info(key) is Some && pem_contents(cert_pem)
            is None ==> identity_in_pem(
            cert_pem,
            key_pem,
            name,
            domain,
        ) == Err::<Identity, CertificateError>(CertificateError::InvalidPem),
        pem_contents(key_pem) == Some(key) && public_key_info(key) is Some && pem_contents(cert_pem)
            == Some(cert) ==> identity_in_pem(cert_pem, key_pem, name, domain) == identity_of(
            cert,
            key,
            name,
            domain,
        ),
{
}

/// A new identity has a certificate of its own key, X.509 v3 and self-signed, for its hostname
/// and for nothing else, with its serial number: a random UUID and a counter at zero. Its
/// hostname and its fingerprint are those that follow from the certificate.
pub proof fn new_identities(key: CertificateKey, name: Seq<char>, domain: Seq<char>)
    requires
        is_new_identity(Ok(key), name, domain),
    ensures
        key.hostname@ == hostname_text(key.serial_number@, name, domain),
        key.serial_number@.len() == 20,
        key.serial_number@[6] / 16 == 4,
        key.serial_number@[8] / 64 == 2,
        forall|i: int| 16 <= i < 20 ==> #[trigger] key.serial_number@[i] == 0,
        certificate_fields(key.cert_der@) matches Ok(fields) && public_key_info(key.key_der@)
            == Some(fields.spki) && key.fingerprint@ == sha256(fields.spki) && fields.version == 2
            && fields.issuer == fields.subject && fields.common_name == Some(key.hostname@)
            && fields.signature_algorithm == "1.2.840.10045.4.3.2"@
            && fields.alternative_names == Some(seq!["DNSName("@ + key.hostname@ + ")"@])
            && normalized(fields.serial) == Ok::<Seq<u8>, SerialError>(key.serial_number@),
{
    serials_keep_their_value(certificate_fields(key.cert_der@)->Ok_0.serial);
    reveal_with_fuel(be_bytes, 5);
    let counter = key.serial_number@.skip(16);
    assert(counter =~= seq![0u8, 0u8, 0u8, 0u8]);
    assert forall|i: int| 16 <= i < 20 implies #[trigger] key.serial_number@[i] == 0 by {
        assert(key.serial_number@[i] == counter[i - 16]);
    }
}

} // verus!
