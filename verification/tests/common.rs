//! Variable-length integers, type keys and bounded collections.
use openscreen::bounded::{BoundedString, BoundedVec};
use openscreen::common::error::MessageError;
use openscreen::common::quinn_varint::{Codec, UnexpectedEnd, VarInt};
use openscreen::common::type_key::{decode_type_key, encode_type_key};

#[test]
fn test_varint_encode_decode_roundtrip() {
    for value in [0u32, 1, 42, 63, 64, 100, 16383, 16384, 1000000] {
        let varint = VarInt::from_u32(value);
        let mut encoded = Vec::new();
        varint.encode(&mut encoded);

        let mut slice: &[u8] = &encoded;
        let decoded = VarInt::decode(&mut slice).unwrap();
        assert_eq!(
            decoded.into_inner() as u32,
            value,
            "Roundtrip failed for value {value}"
        );
    }
}

#[test]
fn test_varint_encoding_format() {
    let mut buf = Vec::new();
    VarInt::from_u32(0).encode(&mut buf);
    assert_eq!(buf, vec![0x00]);

    buf.clear();
    VarInt::from_u32(42).encode(&mut buf);
    assert_eq!(buf, vec![42]);

    buf.clear();
    VarInt::from_u32(63).encode(&mut buf);
    assert_eq!(buf, vec![0x3F]);

    buf.clear();
    VarInt::from_u32(64).encode(&mut buf);
    assert_eq!(buf, vec![0x40, 0x40]);
}

#[test]
fn varint_widths() {
    let cases: [(u64, usize); 6] = [
        (0x3f, 1),
        (0x40, 2),
        (0x3fff, 2),
        (0x4000, 4),
        (0x3fff_ffff, 4),
        (0x4000_0000, 8),
    ];
    for (value, width) in cases {
        let varint = VarInt::from_u64(value).unwrap();
        let mut encoded = Vec::new();
        varint.encode(&mut encoded);
        assert_eq!(encoded.len(), width);
        assert_eq!(varint.size(), width);
        encoded.push(0xaa);
        let mut rest: &[u8] = &encoded;
        assert_eq!(VarInt::decode(&mut rest).unwrap().into_inner(), value);
        assert_eq!(rest, &[0xaa]);
    }
    assert!(VarInt::from_u64(1 << 62).is_err());
    assert_eq!(VarInt::from(300u16).into_inner(), 300);
}

#[test]
fn varint_needs_all_its_bytes() {
    let mut empty: &[u8] = &[];
    assert_eq!(VarInt::decode(&mut empty), Err(UnexpectedEnd));
    let mut cut: &[u8] = &[0x80, 0x01, 0x02];
    assert_eq!(VarInt::decode(&mut cut), Err(UnexpectedEnd));
    assert_eq!(cut, &[0x01, 0x02]);
    assert_eq!(UnexpectedEnd.message(), "unexpected end of buffer");
}

#[test]
fn type_keys() {
    let mut buf: BoundedVec<u8, 4> = BoundedVec::new();
    encode_type_key(1005, &mut buf).unwrap();
    assert_eq!(buf.as_slice(), &[0x43, 0xed]);
    assert_eq!(decode_type_key(buf.as_slice()), Ok((1005, 2)));
    assert_eq!(decode_type_key(&[]), Err(MessageError::DecodeFailed));
    assert!(decode_type_key(&[0x80, 0x01, 0x00, 0x00]).is_err());
    encode_type_key(1005, &mut buf).unwrap();
    assert_eq!(encode_type_key(1005, &mut buf), Err(MessageError::BufferFull));
    assert_eq!(buf.len(), 4);
}

#[test]
fn bounded_vec_keeps_its_capacity() {
    let mut v: BoundedVec<u8, 3> = BoundedVec::new();
    assert!(v.is_empty());
    v.push(1).unwrap();
    assert_eq!(v.extend_from_slice(&[2, 3, 4]), Err(()));
    assert_eq!(v.as_slice(), &[1]);
    v.extend_from_slice(&[2, 3]).unwrap();
    assert_eq!(v.push(4), Err(4));
    assert_eq!(v.len(), 3);
    let w = v.clone();
    assert!(v == w);
    v.clear();
    assert!(v.is_empty());
    assert!(v != w);
}

#[test]
fn bounded_string_counts_bytes() {
    let mut s: BoundedString<4> = BoundedString::new();
    assert_eq!(s.push_str("h\u{e9}llo"), Err(()));
    assert_eq!(s.as_str(), "");
    s.push_str("h\u{e9}l").unwrap();
    assert_eq!(s.as_str(), "h\u{e9}l");
    assert_eq!(s.push_str("x"), Err(()));
    assert!(s.clone() == s);
}
