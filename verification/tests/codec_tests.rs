//! Codec tests: exact wire bytes, agreement with the reference SCALE
//! implementation, round trips, and every decode error.

use parity_scale_codec::{Compact, Encode};
use subxt::codec::{
    decode_value, encode_value, DecodeError, Prim, PrimDesc, TypeDesc, Value, VariantDesc,
};

fn enc_prim(p: Prim) -> Vec<u8> {
    encode_value(&Value::Prim(p))
}

fn dec_prim(bytes: &Vec<u8>, d: PrimDesc) -> Result<(Value, usize), DecodeError> {
    decode_value(bytes, 0, &TypeDesc::Prim(d))
}

#[test]
fn fixed_width_integers_encode_little_endian() {
    assert_eq!(enc_prim(Prim::U8(0xab)), vec![0xab]);
    assert_eq!(enc_prim(Prim::U16(0x1234)), vec![0x34, 0x12]);
    assert_eq!(enc_prim(Prim::U32(0xdeadbeef)), vec![0xef, 0xbe, 0xad, 0xde]);
    assert_eq!(
        enc_prim(Prim::U64(0x0102030405060708)),
        vec![8, 7, 6, 5, 4, 3, 2, 1]
    );
    // agreement with the reference implementation
    assert_eq!(enc_prim(Prim::U16(0x1234)), 0x1234u16.encode());
    assert_eq!(enc_prim(Prim::U32(0xdeadbeef)), 0xdeadbeefu32.encode());
    assert_eq!(
        enc_prim(Prim::U64(100_000_000_000_000)),
        100_000_000_000_000u64.encode()
    );
}

#[test]
fn compact_encoding_matches_reference() {
    let cases: Vec<u32> = vec![
        0,
        1,
        63,
        64,
        300,
        16383,
        16384,
        0x3fff_ffff,
        0x4000_0000,
        u32::MAX,
    ];
    for v in cases {
        assert_eq!(
            enc_prim(Prim::Compact(v)),
            Compact(v).encode(),
            "compact encoding of {} disagrees with the reference",
            v
        );
    }
}

#[test]
fn compact_round_trip_all_modes() {
    let cases: Vec<u32> = vec![0, 63, 64, 16383, 16384, 0x3fff_ffff, 0x4000_0000, u32::MAX];
    for v in cases {
        let bytes = enc_prim(Prim::Compact(v));
        let n = bytes.len();
        let (value, end) = dec_prim(&bytes, PrimDesc::Compact).unwrap();
        assert_eq!(end, n);
        match value {
            Value::Prim(Prim::Compact(w)) => assert_eq!(w, v),
            other => panic!("decoded the wrong shape: {:?}", other),
        }
    }
}

#[test]
fn bytes_round_trip_with_length_prefix() {
    let data = vec![9u8, 8, 7, 6, 5];
    let bytes = enc_prim(Prim::Bytes(data.clone()));
    // reference: a Vec<u8> encodes as compact length then the bytes
    assert_eq!(bytes, data.encode());
    let (value, end) = dec_prim(&bytes, PrimDesc::Bytes).unwrap();
    assert_eq!(end, bytes.len());
    match value {
        Value::Prim(Prim::Bytes(b)) => assert_eq!(b, data),
        other => panic!("decoded the wrong shape: {:?}", other),
    }
}

#[test]
fn bool_and_fixed_round_trip() {
    for b in [false, true] {
        let bytes = enc_prim(Prim::Bool(b));
        assert_eq!(bytes, vec![if b { 1u8 } else { 0u8 }]);
        let (value, _) = dec_prim(&bytes, PrimDesc::Bool).unwrap();
        assert!(matches!(value, Value::Prim(Prim::Bool(x)) if x == b));
    }
    let arr = vec![1u8, 2, 3, 4];
    let bytes = enc_prim(Prim::Fixed(arr.clone()));
    assert_eq!(bytes, arr, "a fixed-size array carries no prefix");
    let (value, end) = dec_prim(&bytes, PrimDesc::Fixed(4)).unwrap();
    assert_eq!(end, 4);
    assert!(matches!(value, Value::Prim(Prim::Fixed(a)) if a == arr));
}

#[test]
fn composite_round_trip() {
    let v = Value::Composite(vec![Prim::U32(7), Prim::Bool(true), Prim::Bytes(vec![1, 2])]);
    let d = TypeDesc::Composite(vec![PrimDesc::U32, PrimDesc::Bool, PrimDesc::Bytes]);
    let bytes = encode_value(&v);
    assert_eq!(bytes, vec![7, 0, 0, 0, 1, 8, 1, 2]);
    let (w, end) = decode_value(&bytes, 0, &d).unwrap();
    assert_eq!(end, bytes.len());
    match w {
        Value::Composite(ps) => {
            assert!(matches!(ps[0], Prim::U32(7)));
            assert!(matches!(ps[1], Prim::Bool(true)));
            assert!(matches!(&ps[2], Prim::Bytes(b) if *b == vec![1u8, 2]));
        }
        other => panic!("decoded the wrong shape: {:?}", other),
    }
}

#[test]
fn union_round_trip_by_discriminant() {
    let d = TypeDesc::Union(vec![
        VariantDesc { fields: vec![] },
        VariantDesc { fields: vec![PrimDesc::U32] },
    ]);
    let v = Value::Union(1, vec![Prim::U32(99)]);
    let bytes = encode_value(&v);
    assert_eq!(bytes, vec![1, 99, 0, 0, 0]);
    let (w, end) = decode_value(&bytes, 0, &d).unwrap();
    assert_eq!(end, 5);
    match w {
        Value::Union(tag, ps) => {
            assert_eq!(tag, 1);
            assert!(matches!(ps[0], Prim::U32(99)));
        }
        other => panic!("decoded the wrong shape: {:?}", other),
    }
}

#[test]
fn truncated_input_is_rejected() {
    let bytes = vec![1u8, 2, 3];
    assert_eq!(dec_prim(&bytes, PrimDesc::U32).unwrap_err(), DecodeError::Truncated);
    let empty: Vec<u8> = vec![];
    assert_eq!(dec_prim(&empty, PrimDesc::U8).unwrap_err(), DecodeError::Truncated);
    // a bytes field whose prefix promises more than is there
    let short = vec![12u8, 1, 2];
    assert_eq!(dec_prim(&short, PrimDesc::Bytes).unwrap_err(), DecodeError::Truncated);
}

#[test]
fn invalid_bool_is_rejected() {
    let bytes = vec![2u8];
    assert_eq!(dec_prim(&bytes, PrimDesc::Bool).unwrap_err(), DecodeError::InvalidBool);
}

#[test]
fn out_of_range_discriminant_is_rejected() {
    let d = TypeDesc::Union(vec![VariantDesc { fields: vec![] }]);
    let bytes = vec![5u8];
    assert_eq!(
        decode_value(&bytes, 0, &d).unwrap_err(),
        DecodeError::InvalidDiscriminant
    );
}

#[test]
fn too_wide_compact_is_rejected() {
    // low bits 0b11 with a nonzero width field asks for more than four bytes
    let bytes = vec![0x07u8, 0, 0, 0, 0, 0, 0, 0];
    assert_eq!(
        dec_prim(&bytes, PrimDesc::Compact).unwrap_err(),
        DecodeError::CompactTooWide
    );
}

#[test]
fn decode_reports_position_after_value() {
    // decode from the middle of a buffer and leave the rest untouched
    let mut bytes = vec![0xffu8];
    bytes.extend(7u32.encode());
    bytes.extend(vec![0xee, 0xdd]);
    let (value, end) = decode_value(&bytes, 1, &TypeDesc::Prim(PrimDesc::U32)).unwrap();
    assert!(matches!(value, Value::Prim(Prim::U32(7))));
    assert_eq!(end, 5);
    assert_eq!(&bytes[end..], &[0xee, 0xdd]);
}
