//! Keys with their certificates.
use crate::cert::hostname::{compute_hostname, hostname_text};
use crate::cert::serial::{
    normalized, stripped_zeros_come_back, without_leading_zeros, SerialError, SerialNumber,
};
use crate::cert::x509::{certificate_fields, read_certificate, spki_of, CertificateModel};
use crate::common::big_endian::be_bytes;
use crate::common::bytes::same_bytes;
use crate::crypto::primitive::sha256;
use crate::discovery::fingerprint::Fingerprint;
use crate::encoding::base64::base64_text;
use vstd::prelude::*;

verus! {

#[verifier::external_type_specification]
#[verifier::external_body]
pub struct ExPemError(pem::PemError);

#[verifier::external_type_specification]
#[verifier::external_body]
pub struct ExRcgenError(rcgen::Error);

/// A certificate and its private key, and what follows from them.
#[derive(Debug, Clone)]
pub struct CertificateKey {
    /// The certificate in DER.
    pub cert_der: Vec<u8>,
    /// The private key in PKCS #8 and DER.
    pub key_der: Vec<u8>,
    /// The fingerprint of the certificate.
    pub fingerprint: Fingerprint,
    /// The serial number of the certificate.
    pub serial_number: SerialNumber,
    /// The hostname of the agent.
    pub hostname: String,
}

/// Why there is no certificate.
#[derive(Debug, Clone, PartialEq, Eq)]
pub enum CertificateError {
    /// The certificate could not be made.
    GenerationFailed,
    /// The private key cannot be read.
    InvalidPrivateKey,
    /// The file of the certificate is not PEM.
    InvalidPem,
    /// The certificate cannot be read.
    InvalidCertificate,
    /// The serial number is none of ours.
    InvalidSerial(SerialError),
}

/// What a [`CertificateKey`] holds.
#[verifier::ext_equal]
pub struct Identity {
    pub cert_der: Seq<u8>,
    pub key_der: Seq<u8>,
    pub fingerprint: Seq<u8>,
    pub serial_number: Seq<u8>,
    pub hostname: Seq<char>,
}

impl View for CertificateKey {
    type V = Identity;

    open spec fn view(&self) -> Identity {
        Identity {
            cert_der: self.cert_der@,
            key_der: self.key_der@,
            fingerprint: self.fingerprint@,
            serial_number: self.serial_number@,
            hostname: self.hostname@,
        }
    }
}

// ---- PEM ----

/// The PEM file with this tag and these contents.
pub uninterp spec fn pem_text(tag: Seq<char>, contents: Seq<u8>) -> Seq<char>;

/// The contents of a PEM file, if it is one.
pub uninterp spec fn pem_contents(text: Seq<char>) -> Option<Seq<u8>>;

/// `pem::encode` of a `pem::Pem` without headers. `pem::parse` gives the contents back.
#[verifier::external_body]
fn encode_pem(tag: &str, contents: &[u8]) -> (r: String)
    requires
        tag@.len() > 0,
        forall|i: int| 0 <= i < tag@.len() ==> tag@[i] != '-',
    ensures
        r@ == pem_text(tag@, contents@),
        pem_contents(r@) == Some(contents@),
{
    pem::encode(&pem::Pem::new(tag, contents))
}

/// `pem::parse`: the contents of a PEM file.
#[verifier::external_body]
fn decode_pem(text: &str) -> (r: Result<Vec<u8>, pem::PemError>)
    ensures
        match r {
            Ok(contents) => pem_contents(text@) == Some(contents@),
            Err(_) => pem_contents(text@) is None,
        },
{
    Ok(pem::parse(text)?.into_contents())
}

// ---- Keys and certificates ----

/// The subject public key info, in DER, that belongs to a private key in DER, if `rcgen` can
/// read the key.
pub uninterp spec fn public_key_info(key_der: Seq<u8>) -> Option<Seq<u8>>;

/// Whether these bytes are a private key in DER.
pub open spec fn is_private_key(der: Seq<u8>) -> bool {
    public_key_info(der) is Some
}

/// Whether the certificate is one for the private key.
pub open spec fn is_key_pair(cert_der: Seq<u8>, key_der: Seq<u8>) -> bool {
    spki_of(cert_der) is Some && public_key_info(key_der) == spki_of(cert_der)
}

/// `rcgen::KeyPair::try_from` of a key in DER, and `public_key_der`: the subject public key
/// info that belongs to the key, if it is one.
#[verifier::external_body]
fn read_public_key(key_der: &[u8]) -> (r: Result<Vec<u8>, rcgen::Error>)
    ensures
        match r {
            Ok(info) => public_key_info(key_der@) == Some(info@),
            Err(_) => public_key_info(key_der@) is None,
        },
{
    Ok(rcgen::KeyPair::try_from(key_der)?.public_key_der())
}

/// The private key in a PEM file.
pub open spec fn key_in_pem(text: Seq<char>) -> Option<Seq<u8>> {
    match pem_contents(text) {
        Some(der) => if is_private_key(der) {
            Some(der)
        } else {
            None
        },
        None => None,
    }
}

/// `rcgen::KeyPair::from_pem`, and the key as `serialize_der` gives it: the contents of the
/// file, if they are a private key.
#[verifier::external_body]
fn read_key(text: &str) -> (r: Result<Vec<u8>, rcgen::Error>)
    ensures
        match r {
            Ok(der) => is_private_key(der@) && pem_contents(text@) == Some(der@),
            Err(_) => pem_contents(text@) matches Some(der) ==> !is_private_key(der),
        },
{
    Ok(rcgen::KeyPair::from_pem(text)?.serialize_der())
}

/// How the subject public key info of a key on the curve P-256 starts: the head of a sequence,
/// the object identifiers of elliptic curve keys and of the curve, and the head of a bit
/// string of 65 bytes.
pub open spec fn p256_info_start() -> Seq<u8> {
    seq![
        0x30u8, 0x59, 0x30, 0x13, 0x06, 0x07, 0x2a, 0x86, 0x48, 0xce, 0x3d, 0x02, 0x01, 0x06, 0x08,
        0x2a, 0x86, 0x48, 0xce, 0x3d, 0x03, 0x01, 0x07, 0x03, 0x42, 0x00,
    ]
}

/// Whether a certificate is the one of an agent with this hostname: X.509 v3, self-signed with
/// ECDSA on the curve P-256 and SHA-256, and the hostname is the common name and the only
/// alternative name of the subject.
pub open spec fn is_agent_certificate(fields: CertificateModel, hostname: Seq<char>) -> bool {
    &&& fields.version == 2
    &&& fields.issuer == fields.subject
    &&& p256_info_start().is_prefix_of(fields.spki)
    &&& fields.signature_algorithm == "1.2.840.10045.4.3.2"@
    &&& fields.common_name == Some(hostname)
    &&& fields.alternative_names == Some(seq!["DNSName("@ + hostname + ")"@])
}

/// `rcgen::CertificateParams::self_signed` with a new key pair, on the curve P-256: a
/// certificate and its private key. The public key of the certificate is the one of that key.
/// The certificate is X.509 v3 and signed with ECDSA and SHA-256, it has this serial number,
/// and its issuer is its subject. The subject has this hostname for its common name and for
/// its only alternative name. An equals sign tells the hostname from an IP address, which
/// would be another kind of alternative name.
#[verifier::external_body]
fn self_signed(hostname: &str, serial: &[u8]) -> (r: Result<(Vec<u8>, Vec<u8>), rcgen::Error>)
    requires
        serial@.len() > 0,
        hostname@.contains('='),
    ensures
        match r {
            Ok((cert_der, key_der)) => certificate_fields(cert_der@) matches Ok(fields)
                && public_key_info(key_der@) == Some(fields.spki) && fields.serial
                == without_leading_zeros(serial@) && is_agent_certificate(fields, hostname@),
            Err(_) => true,
        },
{
    let key_pair = rcgen::KeyPair::generate()?;
    let mut params = rcgen::CertificateParams::new(vec![hostname.to_string()])?;
    params.distinguished_name.push(rcgen::DnType::CommonName, hostname);
    params.serial_number = Some(rcgen::SerialNumber::from_slice(serial));
    let certificate = params.self_signed(&key_pair)?;
    Ok((certificate.der().to_vec(), key_pair.serialize_der()))
}

/// What follows from a certificate and a key.
pub open spec fn identity_of(
    cert_der: Seq<u8>,
    key_der: Seq<u8>,
    name: Seq<char>,
    domain: Seq<char>,
) -> Result<Identity, CertificateError> {
    match certificate_fields(cert_der) {
        Err(_) => Err(CertificateError::InvalidCertificate),
        Ok(fields) => match normalized(fields.serial) {
            Err(e) => Err(CertificateError::InvalidSerial(e)),
            Ok(serial) => Ok(
                Identity {
                    cert_der,
                    key_der,
                    fingerprint: sha256(fields.spki),
                    serial_number: serial,
                    hostname: hostname_text(serial, name, domain),
                },
            ),
        },
    }
}

/// What the two PEM files of an identity hold.
pub open spec fn identity_in_pem(
    cert_pem: Seq<char>,
    key_pem: Seq<char>,
    name: Seq<char>,
    domain: Seq<char>,
) -> Result<Identity, CertificateError> {
    match key_in_pem(key_pem) {
        None => Err(CertificateError::InvalidPrivateKey),
        Some(key_der) => match pem_contents(cert_pem) {
            None => Err(CertificateError::InvalidPem),
            Some(cert_der) => identity_of(cert_der, key_der, name, domain),
        },
    }
}

/// Whether this is a new identity: its parts belong together, the certificate is one for the
/// key and for the hostname, and the serial number is a random UUID with the counter zero.
/// Otherwise the generation failed.
pub open spec fn is_new_identity(
    r: Result<CertificateKey, CertificateError>,
    name: Seq<char>,
    domain: Seq<char>,
) -> bool {
    match r {
        Ok(key) => {
            &&& key.is_consistent(name, domain)
            &&& is_key_pair(key.cert_der@, key.key_der@)
            &&& key.serial_number@[6] / 16 == 4
            &&& key.serial_number@[8] / 64 == 2
            &&& key.serial_number@.skip(16) == be_bytes(0, 4)
            &&& certificate_fields(key.cert_der@) matches Ok(fields)
            &&& is_agent_certificate(fields, key.hostname@)
        },
        Err(e) => e == CertificateError::GenerationFailed,
    }
}

impl CertificateKey {
    /// Whether the parts belong together, under this name and in this domain.
    pub open spec fn is_consistent(&self, name: Seq<char>, domain: Seq<char>) -> bool {
        &&& is_private_key(self.key_der@)
        &&& identity_of(self.cert_der@, self.key_der@, name, domain) == Ok::<
            Identity,
            CertificateError,
        >(self@)
    }

    /// What follows from a certificate and a key.
    pub fn from_der(cert_der: Vec<u8>, key_der: Vec<u8>, instance_name: &str, domain: &str) -> (r:
        Result<Self, CertificateError>)
        ensures
            match identity_of(cert_der@, key_der@, instance_name@, domain@) {
                Ok(identity) => r matches Ok(key) && key@ == identity,
                Err(e) => r == Err::<Self, CertificateError>(e),
            },
    {
        let fingerprint = match Fingerprint::from_der_cert(cert_der.as_slice()) {
            Ok(fingerprint) => fingerprint,
            Err(_) => return Err(CertificateError::InvalidCertificate),
        };
        let serial_number = match SerialNumber::from_x509_cert(cert_der.as_slice()) {
            Ok(serial_number) => serial_number,
            Err(e) => return Err(CertificateError::InvalidSerial(e)),
        };
        let hostname = compute_hostname(&serial_number, instance_name, domain);
        Ok(CertificateKey { cert_der, key_der, fingerprint, serial_number, hostname })
    }

    /// A new key and a self-signed certificate for that key, with a new serial number and, as
    /// the common name and as the alternative name, the hostname that follows from it. Whether
    /// there is one rests with the random numbers and with what `rcgen` makes of the hostname.
    pub fn generate(instance_name: &str, domain: &str) -> (r: Result<Self, CertificateError>)
        ensures
            is_new_identity(r, instance_name@, domain@),
    {
        let serial_number = SerialNumber::generate();
        let hostname = compute_hostname(&serial_number, instance_name, domain);
        let serial: [u8; 20] = serial_number.to_bytes();
        proof {
            let label = base64_text(serial@);
            assert(label[27] == '=');
            assert(hostname@[27] == label[27]);
        }
        let (cert_der, key_der) = match self_signed(hostname.as_str(), serial.as_slice()) {
            Ok(made) => made,
            Err(_) => return Err(CertificateError::GenerationFailed),
        };
        proof {
            stripped_zeros_come_back(serial@);
        }
        match Fingerprint::from_der_cert(cert_der.as_slice()) {
            Ok(fingerprint) => Ok(
                CertificateKey { cert_der, key_der, fingerprint, serial_number, hostname },
            ),
            Err(_) => Err(CertificateError::GenerationFailed),
        }
    }

    /// Whether the certificate is one for the private key.
    pub fn is_key_pair(&self) -> (r: bool)
        ensures
            r == is_key_pair(self.cert_der@, self.key_der@),
    {
        let fields = match read_certificate(self.cert_der.as_slice()) {
            Ok(fields) => fields,
            Err(_) => return false,
        };
        match read_public_key(self.key_der.as_slice()) {
            Ok(info) => same_bytes(info.as_slice(), fields.spki.as_slice()),
            Err(_) => false,
        }
    }

    /// Reads the two PEM files of an identity.
    pub fn from_pem(cert_pem: &str, key_pem: &str, instance_name: &str, domain: &str) -> (r: Result<
        Self,
        CertificateError,
    >)
        ensures
            match identity_in_pem(cert_pem@, key_pem@, instance_name@, domain@) {
                Ok(identity) => r matches Ok(key) && key@ == identity,
                Err(e) => r == Err::<Self, CertificateError>(e),
            },
    {
        let key_der = match read_key(key_pem) {
            Ok(key_der) => key_der,
            Err(_) => return Err(CertificateError::InvalidPrivateKey),
        };
        let cert_der = match decode_pem(cert_pem) {
            Ok(cert_der) => cert_der,
            Err(_) => return Err(CertificateError::InvalidPem),
        };
        Self::from_der(cert_der, key_der, instance_name, domain)
    }

    /// The identity in two PEM files, for the certificate and for the key, or a new one if
    /// there are no files. Files that cannot be read are an error.
    pub fn load_or_generate(files: Option<(&str, &str)>, instance_name: &str, domain: &str) -> (r:
        Result<Self, CertificateError>)
        ensures
            match files {
                Some((cert_pem, key_pem)) => match identity_in_pem(
                    cert_pem@,
                    key_pem@,
                    instance_name@,
                    domain@,
                ) {
                    Ok(identity) => r matches Ok(key) && key@ == identity,
                    Err(e) => r == Err::<Self, CertificateError>(e),
                },
                None => is_new_identity(r, instance_name@, domain@),
            },
    {
        match files {
            Some((cert_pem, key_pem)) => Self::from_pem(cert_pem, key_pem, instance_name, domain),
            None => Self::generate(instance_name, domain),
        }
    }

    /// The two PEM files of this identity, for the certificate and for the key. Read again,
    /// they give the same identity.
    pub fn to_pem(&self) -> (r: (String, String))
        ensures
            r.0@ == pem_text("CERTIFICATE"@, self.cert_der@),
            r.1@ == pem_text("PRIVATE KEY"@, self.key_der@),
            forall|name: Seq<char>, domain: Seq<char>| #[trigger]
                self.is_consistent(name, domain) ==> identity_in_pem(r.0@, r.1@, name, domain)
                    == Ok::<Identity, CertificateError>(self@),
    {
        proof {
            reveal_strlit("CERTIFICATE");
            reveal_strlit("PRIVATE KEY");
        }
        let cert_pem = encode_pem("CERTIFICATE", self.cert_der.as_slice());
        let key_pem = encode_pem("PRIVATE KEY", self.key_der.as_slice());
        (cert_pem, key_pem)
    }
}

} // verus!
