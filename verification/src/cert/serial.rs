//! Serial numbers of certificates.
use crate::cert::x509::{certificate_fields, read_certificate};
use crate::common::big_endian::{be_bytes, lemma_be_bytes_len};
use crate::encoding::base64::{base64_text, encode_base64};
use crate::encoding::decimal::{decimal, to_decimal};
use crate::encoding::hex::{encode_hex, hex_text};
use uuid::Uuid;
use vstd::prelude::*;
use vstd::string::StringExecFns;

verus! {

/// The bytes of a serial number.
pub const SERIAL_LEN: usize = 20;

/// A serial number of 160 bits: a random UUID of 128 bits and a counter of 32 bits.
#[derive(Debug, Clone, Copy, PartialEq, Eq)]
pub struct SerialNumber {
    uuid_base: [u8; 16],
    counter: u32,
}

impl View for SerialNumber {
    type V = Seq<u8>;

    /// The UUID and, behind it, the counter in big-endian order.
    closed spec fn view(&self) -> Seq<u8> {
        self.uuid_base@ + be_bytes(self.counter as nat, 4)
    }
}

/// Why bytes are no serial number.
#[derive(Debug, Clone, PartialEq, Eq)]
pub enum SerialError {
    /// The certificate cannot be read, for this reason.
    InvalidCertificate(String),
    /// There are 21 bytes, and the first one is not zero.
    InvalidPrefix(u8),
    /// There are more than 21 bytes.
    InvalidLength(usize),
}

impl SerialError {
    /// What went wrong, in words.
    pub open spec fn text(self) -> Seq<char> {
        match self {
            SerialError::InvalidCertificate(reason) => "Failed to parse X.509 certificate: "@
                + reason@,
            SerialError::InvalidPrefix(byte) => "Expected 0x00 prefix for 21-byte serial, got: 0x"@
                + hex_text(seq![byte]),
            SerialError::InvalidLength(len) => "Serial number has invalid length: "@ + decimal(
                len as nat,
            ) + " bytes (expected 19-21)"@,
        }
    }

    /// What went wrong, in words.
    pub fn message(&self) -> (r: String)
        ensures
            r@ == self.text(),
            self matches SerialError::InvalidCertificate(reason) ==> r@
                == "Failed to parse X.509 certificate: "@ + reason@,
            self matches SerialError::InvalidPrefix(byte) ==> r@
                == "Expected 0x00 prefix for 21-byte serial, got: 0x"@ + hex_text(seq![*byte]),
            self matches SerialError::InvalidLength(len) ==> r@
                == "Serial number has invalid length: "@ + decimal(*len as nat)
                + " bytes (expected 19-21)"@,
    {
        match self {
            SerialError::InvalidCertificate(reason) => {
                "Failed to parse X.509 certificate: ".to_owned().concat(reason.as_str())
            },
            SerialError::InvalidPrefix(byte) => {
                let bytes: [u8; 1] = [*byte];
                proof {
                    assert(bytes@ =~= seq![*byte]);
                }
                let digits = encode_hex(bytes.as_slice());
                "Expected 0x00 prefix for 21-byte serial, got: 0x".to_owned().concat(
                    digits.as_str(),
                )
            },
            SerialError::InvalidLength(len) => {
                let digits = to_decimal(*len as u64);
                "Serial number has invalid length: ".to_owned().concat(digits.as_str()).concat(
                    " bytes (expected 19-21)",
                )
            },
        }
    }
}

/// `uuid::Uuid::new_v4`: sixteen random bytes but for the version, 4, and the variant.
#[verifier::external_body]
pub(crate) fn random_uuid() -> (r: [u8; 16])
    ensures
        r@[6] / 16 == 4 && r@[8] / 64 == 2,
{
    Uuid::new_v4().into_bytes()
}

/// A big-endian integer without its leading zeros; zero is one zero byte.
pub open spec fn without_leading_zeros(bytes: Seq<u8>) -> Seq<u8>
    decreases bytes.len(),
{
    if bytes.len() > 1 && bytes[0] == 0 {
        without_leading_zeros(bytes.skip(1))
    } else {
        bytes
    }
}

/// A big-endian integer in exactly 20 bytes, if it has that many or fewer, or one more zero
/// in front.
pub open spec fn normalized(bytes: Seq<u8>) -> Result<Seq<u8>, SerialError> {
    if bytes.len() <= 20 {
        Ok(Seq::new((20 - bytes.len()) as nat, |i: int| 0u8) + bytes)
    } else if bytes.len() == 21 {
        if bytes[0] == 0 {
            Ok(bytes.skip(1))
        } else {
            Err(SerialError::InvalidPrefix(bytes[0]))
        }
    } else {
        Err(SerialError::InvalidLength(bytes.len() as usize))
    }
}

/// Brings the bytes of an ASN.1 integer to exactly 20. A positive integer whose first bit is
/// set has a zero byte in front, and leading zeros may be missing.
pub fn normalize_serial_bytes(bytes: &[u8]) -> (r: Result<[u8; 20], SerialError>)
    ensures
        match normalized(bytes@) {
            Ok(serial) => r matches Ok(found) && found@ == serial,
            Err(e) => r == Err::<[u8; 20], SerialError>(e),
        },
{
    let len: usize = bytes.len();
    if len > 21 {
        return Err(SerialError::InvalidLength(len));
    }
    if len == 21 && bytes[0] != 0 {
        return Err(SerialError::InvalidPrefix(bytes[0]));
    }
    let mut result: [u8; 20] = [0u8; 20];
    let mut i: usize = 0;
    while i < len && i < 20
        invariant
            len == bytes@.len(),
            len <= 21,
            i <= len,
            i <= 20,
            forall|k: int| 0 <= k < 20 - i ==> result@[k] == 0,
            forall|k: int| 20 - i <= k < 20 ==> #[trigger] result@[k] == bytes@[k + len - 20],
        decreases len - i,
    {
        result[19 - i] = bytes[len - 1 - i];
        i = i + 1;
    }
    proof {
        assert(result@ =~= normalized(bytes@)->Ok_0);
    }
    Ok(result)
}

/// The four bytes of a counter.
proof fn lemma_counter_bytes(a: u8, b: u8, c: u8, d: u8)
    ensures
        be_bytes((a * 0x100_0000 + b * 0x1_0000 + c * 0x100 + d) as nat, 4) == seq![a, b, c, d],
{
    let three: nat = (a * 0x1_0000 + b * 0x100 + c) as nat;
    let two: nat = (a * 0x100 + b) as nat;
    let four: nat = (a * 0x100_0000 + b * 0x1_0000 + c * 0x100 + d) as nat;
    assert(four / 256 == three && four % 256 == d);
    assert(three / 256 == two && three % 256 == c);
    assert(two / 256 == a as nat && two % 256 == b);
    reveal_with_fuel(be_bytes, 2);
    assert(be_bytes(a as nat, 1) =~= seq![a]);
    assert(be_bytes(two, 2) =~= seq![a, b]);
    assert(be_bytes(three, 3) =~= seq![a, b, c]);
    assert(be_bytes(four, 4) =~= seq![a, b, c, d]);
}

impl SerialNumber {
    /// A new serial number: a random UUID and the counter zero.
    pub fn generate() -> (s: Self)
        ensures
            s@.len() == 20,
            s@[6] / 16 == 4,
            s@[8] / 64 == 2,
            s@.skip(16) == be_bytes(0, 4),
    {
        let s = SerialNumber { uuid_base: random_uuid(), counter: 0 };
        proof {
            lemma_be_bytes_len(0, 4);
            assert(s@.skip(16) =~= be_bytes(0, 4));
        }
        s
    }

    /// The 20 bytes.
    pub fn to_bytes(&self) -> (r: [u8; 20])
        ensures
            r@ == self@,
    {
        let mut bytes: [u8; 20] = [0u8; 20];
        let mut i: usize = 0;
        while i < 16
            invariant
                i <= 16,
                forall|k: int| 0 <= k < i ==> #[trigger] bytes@[k] == self.uuid_base@[k],
            decreases 16 - i,
        {
            bytes[i] = self.uuid_base[i];
            i = i + 1;
        }
        let c: u32 = self.counter;
        bytes[16] = (c >> 24) as u8;
        bytes[17] = ((c >> 16) & 0xff) as u8;
        bytes[18] = ((c >> 8) & 0xff) as u8;
        bytes[19] = (c & 0xff) as u8;
        proof {
            assert(c >> 24 == c / 0x100_0000) by (bit_vector);
            assert((c >> 16) & 0xff == c / 0x1_0000 % 0x100) by (bit_vector);
            assert((c >> 8) & 0xff == c / 0x100 % 0x100) by (bit_vector);
            assert(c & 0xff == c % 0x100) by (bit_vector);
            reveal_with_fuel(be_bytes, 5);
            assert(bytes@ =~= self@);
        }
        bytes
    }

    /// The 20 bytes in base64.
    pub fn to_base64(&self) -> (r: String)
        ensures
            r@ == base64_text(self@),
    {
        encode_base64(self.to_bytes().as_slice())
    }

    /// The serial number with these bytes; every 20 bytes are one.
    pub fn from_bytes(bytes: [u8; 20]) -> (r: Result<Self, SerialError>)
        ensures
            r matches Ok(serial) && serial@ == bytes@,
    {
        let mut uuid_base: [u8; 16] = [0u8; 16];
        let mut i: usize = 0;
        while i < 16
            invariant
                i <= 16,
                forall|k: int| 0 <= k < i ==> #[trigger] uuid_base@[k] == bytes@[k],
            decreases 16 - i,
        {
            uuid_base[i] = bytes[i];
            i = i + 1;
        }
        let counter: u32 = bytes[16] as u32 * 0x100_0000 + bytes[17] as u32 * 0x1_0000
            + bytes[18] as u32 * 0x100 + bytes[19] as u32;
        let serial = SerialNumber { uuid_base, counter };
        proof {
            lemma_counter_bytes(bytes[16], bytes[17], bytes[18], bytes[19]);
            assert(serial@ =~= bytes@);
        }
        Ok(serial)
    }

    /// The serial number of a certificate in DER.
    pub fn from_x509_cert(cert_der: &[u8]) -> (r: Result<Self, SerialError>)
        ensures
            match certificate_fields(cert_der@) {
                Err(fault) => r matches Err(SerialError::InvalidCertificate(reason)) && reason@
                    == fault.debugged,
                Ok(fields) => match normalized(fields.serial) {
                    Ok(bytes) => r matches Ok(serial) && serial@ == bytes,
                    Err(e) => r == Err::<Self, SerialError>(e),
                },
            },
    {
        match read_certificate(cert_der) {
            Err(fault) => Err(SerialError::InvalidCertificate(fault.debugged)),
            Ok(fields) => match normalize_serial_bytes(fields.serial.as_slice()) {
                Ok(bytes) => Self::from_bytes(bytes),
                Err(e) => Err(e),
            },
        }
    }
}

// ---- Laws ----

/// Zeros that were stripped come back.
pub proof fn stripped_zeros_come_back(bytes: Seq<u8>)
    requires
        bytes.len() == 20,
    ensures
        normalized(without_leading_zeros(bytes)) == Ok::<Seq<u8>, SerialError>(bytes),
{
    lemma_stripped(bytes);
    let stripped = without_leading_zeros(bytes);
    assert(Seq::new((20 - stripped.len()) as nat, |i: int| 0u8) + stripped =~= bytes);
}

proof fn lemma_stripped(bytes: Seq<u8>)
    requires
        bytes.len() > 0,
    ensures
        ({
            let stripped = without_leading_zeros(bytes);
            &&& 0 < stripped.len() <= bytes.len()
            &&& stripped == bytes.skip(bytes.len() - stripped.len())
            &&& forall|i: int| 0 <= i < bytes.len() - stripped.len() ==> #[trigger] bytes[i] == 0
        }),
    decreases bytes.len(),
{
    let stripped = without_leading_zeros(bytes);
    if bytes.len() > 1 && bytes[0] == 0 {
        let tail = bytes.skip(1);
        lemma_stripped(tail);
        assert(tail.skip(tail.len() - stripped.len()) =~= bytes.skip(bytes.len() - stripped.len()));
        assert forall|i: int| 0 <= i < bytes.len() - stripped.len() implies #[trigger] bytes[i]
            == 0 by {
            if i > 0 {
                assert(tail[i - 1] == bytes[i]);
            }
        }
    } else {
        assert(bytes.skip(0) =~= bytes);
    }
}

/// A zero byte in front of 20 bytes, which an ASN.1 integer has where the first bit is set,
/// is dropped.
pub proof fn sign_byte_is_dropped(bytes: Seq<u8>)
    requires
        bytes.len() == 20,
    ensures
        normalized(seq![0u8] + bytes) == Ok::<Seq<u8>, SerialError>(bytes),
{
    assert((seq![0u8] + bytes).skip(1) =~= bytes);
}

} // verus!
