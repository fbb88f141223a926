//! What is read of a certificate.
use crate::crypto::primitive::{compute_sha256, sha256};
use vstd::prelude::*;
use vstd::string::StringExecFns;
use x509_parser::certificate::X509Certificate;
use x509_parser::prelude::FromDer;

verus! {

/// The parts of a certificate that identify a device.
pub struct CertificateFields {
    /// The version; 2 stands for X.509 v3.
    pub version: u32,
    /// The serial number, a big-endian integer without leading zeros.
    pub serial: Vec<u8>,
    /// The name of the issuer, in DER.
    pub issuer: Vec<u8>,
    /// The name of the subject, in DER.
    pub subject: Vec<u8>,
    /// The common name of the subject, if it has one.
    pub common_name: Option<String>,
    /// The alternative names of the subject, if there are any: a DNS name reads "DNSName" with
    /// the name in round brackets.
    pub alternative_names: Option<Vec<String>>,
    /// The subject public key info, in DER.
    pub spki: Vec<u8>,
    /// The object identifier of the signature algorithm, in numbers with dots between.
    pub signature_algorithm: String,
}

/// What is read of a certificate.
pub struct CertificateModel {
    pub version: u32,
    pub serial: Seq<u8>,
    pub issuer: Seq<u8>,
    pub subject: Seq<u8>,
    pub common_name: Option<Seq<char>>,
    pub alternative_names: Option<Seq<Seq<char>>>,
    pub spki: Seq<u8>,
    pub signature_algorithm: Seq<char>,
}

impl View for CertificateFields {
    type V = CertificateModel;

    open spec fn view(&self) -> CertificateModel {
        CertificateModel {
            version: self.version,
            serial: self.serial@,
            issuer: self.issuer@,
            subject: self.subject@,
            common_name: match self.common_name {
                Some(name) => Some(name@),
                None => None,
            },
            alternative_names: match self.alternative_names {
                Some(names) => Some(names@.map_values(|name: String| name@)),
                None => None,
            },
            spki: self.spki@,
            signature_algorithm: self.signature_algorithm@,
        }
    }
}

/// Why bytes are no certificate, as the parser words it.
pub struct CertificateFault {
    /// For who reads a message.
    pub shown: String,
    /// For who looks for the cause.
    pub debugged: String,
}

/// The words of the parser.
pub struct FaultModel {
    pub shown: Seq<char>,
    pub debugged: Seq<char>,
}

impl View for CertificateFault {
    type V = FaultModel;

    open spec fn view(&self) -> FaultModel {
        FaultModel { shown: self.shown@, debugged: self.debugged@ }
    }
}

/// What is read of a certificate in DER, or why it is none.
pub uninterp spec fn certificate_fields(der: Seq<u8>) -> Result<CertificateModel, FaultModel>;

/// The subject public key info of a certificate, if it is one.
pub open spec fn spki_of(der: Seq<u8>) -> Option<Seq<u8>> {
    match certificate_fields(der) {
        Ok(fields) => Some(fields.spki),
        Err(_) => None,
    }
}

/// `x509_parser::certificate::X509Certificate::from_der`: the version, the serial number as
/// `BigUint::to_bytes_be` gives it, the raw names, the first common name of the subject, its
/// alternative names as `GeneralName` prints them, the raw subject public key info and the
/// signature algorithm; or the error as it prints.
#[verifier::external_body]
pub(crate) fn read_certificate(der: &[u8]) -> (r: Result<CertificateFields, CertificateFault>)
    ensures
        match r {
            Ok(fields) => certificate_fields(der@) == Ok::<CertificateModel, FaultModel>(fields@),
            Err(fault) => certificate_fields(der@) == Err::<CertificateModel, FaultModel>(fault@),
        },
{
    let (_, x) = X509Certificate::from_der(der)
        .map_err(|e| CertificateFault { shown: e.to_string(), debugged: format!("{e:?}") })?;
    let cn = x.subject.iter_common_name().next().and_then(|name| name.as_str().ok());
    Ok(CertificateFields {
        version: x.version.0,
        serial: x.serial.to_bytes_be(),
        issuer: x.issuer.as_raw().into(),
        subject: x.subject.as_raw().into(),
        common_name: cn.map(str::to_string),
        alternative_names: x.subject_alternative_name().ok().flatten()
            .map(|san| san.value.general_names.iter().map(ToString::to_string).collect()),
        spki: x.subject_pki.raw.into(),
        signature_algorithm: x.signature_algorithm.algorithm.to_id_string(),
    })
}

/// The fingerprint of a certificate in DER: the SHA-256 of its subject public key info. It
/// stays the same when the certificate of a key is renewed. What is no certificate is an
/// error, in words.
pub fn compute_spki_fingerprint(cert_der: &[u8]) -> (r: Result<[u8; 32], String>)
    ensures
        match certificate_fields(cert_der@) {
            Ok(fields) => r matches Ok(fingerprint) && fingerprint@ == sha256(fields.spki),
            Err(fault) => r matches Err(text) && text@ == "Failed to parse certificate: "@
                + fault.shown,
        },
{
    match read_certificate(cert_der) {
        Ok(fields) => Ok(fingerprint_of_spki(fields.spki.as_slice())),
        Err(fault) => Err("Failed to parse certificate: ".to_owned().concat(fault.shown.as_str())),
    }
}

/// The fingerprint of a subject public key info.
pub fn fingerprint_of_spki(spki: &[u8]) -> (r: [u8; 32])
    ensures
        r@ == sha256(spki@),
{
    compute_sha256(spki)
}

} // verus!
