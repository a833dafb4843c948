//! Round trips through the composite codec, covering every shape the
//! codec derives: products with zero, one and many fields, and sums
//! with unit, unnamed and named variants.

use overcast_core::serialization::{
    deserialize_product, deserialize_sum, product_max_size, serialize_product, serialize_sum,
    sum_max_size, DecodeError, PrimKind, PrimValue,
};

#[test]
fn test_ser() {
    // == test struct with no fields ==

    let schema: Vec<PrimKind> = vec![];
    let s1: Vec<PrimValue> = vec![];
    let mut buffer = vec![0u8; product_max_size(&schema)];
    serialize_product(&s1, &mut buffer, 0);
    let s2 = deserialize_product(&schema, &buffer).unwrap();
    assert!(s1 == s2);

    // == test structs with unnamed fields ==

    let schema = vec![PrimKind::F32];
    let s1 = vec![PrimValue::F32Bits(3.1415f32.to_bits())];
    let mut buffer = vec![0u8; product_max_size(&schema)];
    serialize_product(&s1, &mut buffer, 0);
    let s2 = deserialize_product(&schema, &buffer).unwrap();
    assert!(s1 == s2);

    let schema = vec![
        PrimKind::U8,
        PrimKind::U16,
        PrimKind::U32,
        PrimKind::U64,
        PrimKind::I8,
        PrimKind::I16,
        PrimKind::I32,
        PrimKind::I64,
        PrimKind::F32,
        PrimKind::F64,
    ];
    let s1 = vec![
        PrimValue::U8(1),
        PrimValue::U16(5),
        PrimValue::U32(354),
        PrimValue::U64(768),
        PrimValue::I8(-3),
        PrimValue::I16(-5480),
        PrimValue::I32(3456),
        PrimValue::I64(-15338),
        PrimValue::F32Bits(3.14f32.to_bits()),
        PrimValue::F64Bits((-764.89f64).to_bits()),
    ];
    let mut buffer = vec![0u8; product_max_size(&schema)];
    serialize_product(&s1, &mut buffer, 0);
    let s2 = deserialize_product(&schema, &buffer).unwrap();
    assert!(s1 == s2);

    // == test structs with named fields ==

    let schema = vec![PrimKind::F32];
    let s1 = vec![PrimValue::F32Bits(0.0234f32.to_bits())];
    let mut buffer = vec![0u8; product_max_size(&schema)];
    serialize_product(&s1, &mut buffer, 0);
    let s2 = deserialize_product(&schema, &buffer).unwrap();
    assert!(s1 == s2);

    let schema = vec![PrimKind::F32, PrimKind::U8, PrimKind::I64, PrimKind::I8];
    let s1 = vec![
        PrimValue::F32Bits(0.0234f32.to_bits()),
        PrimValue::U8(4),
        PrimValue::I64(-34762672),
        PrimValue::I8(-43),
    ];
    let mut buffer = vec![0u8; product_max_size(&schema)];
    serialize_product(&s1, &mut buffer, 0);
    let s2 = deserialize_product(&schema, &buffer).unwrap();
    assert!(s1 == s2);

    // == test empty enum ==

    let variants: Vec<Vec<PrimKind>> = vec![vec![], vec![], vec![]];
    for tag in [0u8, 1u8, 2u8] {
        let s1: Vec<PrimValue> = vec![];
        let mut buffer = vec![0u8; sum_max_size(&variants)];
        serialize_sum(tag, &s1, &mut buffer, 0);
        let (tag2, s2) = deserialize_sum(&variants, &buffer).unwrap();
        assert!(tag == tag2);
        assert!(s1 == s2);
    }

    // == test enum with unnamed fields ==

    let variants = vec![
        vec![PrimKind::U32, PrimKind::F64],
        vec![PrimKind::I8],
        vec![PrimKind::I64, PrimKind::I64, PrimKind::I64],
    ];

    let s1 = vec![
        PrimValue::U32(835473),
        PrimValue::F64Bits(3.14157628f64.to_bits()),
    ];
    let mut buffer = vec![0u8; sum_max_size(&variants)];
    serialize_sum(0, &s1, &mut buffer, 0);
    let (tag2, s2) = deserialize_sum(&variants, &buffer).unwrap();
    assert!(tag2 == 0);
    assert!(s1 == s2);

    let s1 = vec![PrimValue::I8(-128)];
    let mut buffer = vec![0u8; sum_max_size(&variants)];
    serialize_sum(1, &s1, &mut buffer, 0);
    let (tag2, s2) = deserialize_sum(&variants, &buffer).unwrap();
    assert!(tag2 == 1);
    assert!(s1 == s2);

    let s1 = vec![
        PrimValue::I64(-87623729867323),
        PrimValue::I64(618351835193651573),
        PrimValue::I64(-12871271872812),
    ];
    let mut buffer = vec![0u8; sum_max_size(&variants)];
    serialize_sum(2, &s1, &mut buffer, 0);
    let (tag2, s2) = deserialize_sum(&variants, &buffer).unwrap();
    assert!(tag2 == 2);
    assert!(s1 == s2);

    // == test enum with named fields ==

    let variants = vec![
        vec![PrimKind::U32, PrimKind::F64],
        vec![PrimKind::I8],
        vec![PrimKind::I64, PrimKind::I64, PrimKind::I64],
    ];

    let s1 = vec![
        PrimValue::U32(76429862),
        PrimValue::F64Bits(3.17861293f64.to_bits()),
    ];
    let mut buffer = vec![0u8; sum_max_size(&variants)];
    serialize_sum(0, &s1, &mut buffer, 0);
    let (tag2, s2) = deserialize_sum(&variants, &buffer).unwrap();
    assert!(tag2 == 0);
    assert!(s1 == s2);

    let s1 = vec![PrimValue::I8(-73)];
    let mut buffer = vec![0u8; sum_max_size(&variants)];
    serialize_sum(1, &s1, &mut buffer, 0);
    let (tag2, s2) = deserialize_sum(&variants, &buffer).unwrap();
    assert!(tag2 == 1);
    assert!(s1 == s2);

    let s1 = vec![
        PrimValue::I64(-87623729867323),
        PrimValue::I64(618351835193651573),
        PrimValue::I64(-12871271872812),
    ];
    let mut buffer = vec![0u8; sum_max_size(&variants)];
    serialize_sum(2, &s1, &mut buffer, 0);
    let (tag2, s2) = deserialize_sum(&variants, &buffer).unwrap();
    assert!(tag2 == 2);
    assert!(s1 == s2);
}

#[test]
fn product_encodes_exact_bytes() {
    // One exact expected byte string: fields concatenated big-endian,
    // in declaration order, with no padding.
    let s1 = vec![PrimValue::U16(0x0102), PrimValue::U32(0x0A0B0C0D), PrimValue::I8(-1)];
    let mut buffer = vec![0u8; 7];
    let written = serialize_product(&s1, &mut buffer, 0);
    assert_eq!(written, 7);
    assert_eq!(buffer, vec![0x01, 0x02, 0x0A, 0x0B, 0x0C, 0x0D, 0xFF]);
}

#[test]
fn product_encode_writes_exactly_max_size() {
    let schema = vec![PrimKind::U64, PrimKind::I16, PrimKind::F32];
    let s1 = vec![
        PrimValue::U64(1),
        PrimValue::I16(2),
        PrimValue::F32Bits(0),
    ];
    let max = product_max_size(&schema);
    assert_eq!(max, 14);
    let mut buffer = vec![0u8; max];
    let written = serialize_product(&s1, &mut buffer, 0);
    assert_eq!(written, max);
}

#[test]
fn sum_encode_writes_own_variant_size() {
    // The written length is 1 + the encoded variant's own field sum,
    // not the sum type's overall bound.
    let variants = vec![vec![PrimKind::I64, PrimKind::I64], vec![PrimKind::U8]];
    assert_eq!(sum_max_size(&variants), 17);
    let s1 = vec![PrimValue::U8(9)];
    let mut buffer = vec![0u8; 17];
    let written = serialize_sum(1, &s1, &mut buffer, 0);
    assert_eq!(written, 2);
}

#[test]
fn product_decode_rejects_short_source() {
    let schema = vec![PrimKind::U32, PrimKind::U32];
    let short = vec![0u8; 7];
    assert_eq!(
        deserialize_product(&schema, &short),
        Err(DecodeError::SourceTooShort)
    );
}

#[test]
fn sum_decode_rejects_short_source() {
    let variants = vec![vec![PrimKind::U32]];
    let short = vec![0u8; 4];
    assert_eq!(
        deserialize_sum(&variants, &short),
        Err(DecodeError::SourceTooShort)
    );
}

#[test]
fn sum_decode_rejects_unrecognized_tag() {
    let variants = vec![vec![], vec![PrimKind::U8]];
    let bytes = vec![5u8, 0u8];
    assert_eq!(
        deserialize_sum(&variants, &bytes),
        Err(DecodeError::UnrecognizedTag)
    );
}

#[test]
fn empty_sum_type_never_decodes() {
    // An empty sum type has size bound 1, and every possible tag
    // value is unrecognized.
    let variants: Vec<Vec<PrimKind>> = vec![];
    assert_eq!(sum_max_size(&variants), 1);
    assert_eq!(
        deserialize_sum(&variants, &[]),
        Err(DecodeError::SourceTooShort)
    );
    for tag in [0u8, 1, 17, 255] {
        assert_eq!(
            deserialize_sum(&variants, &[tag]),
            Err(DecodeError::UnrecognizedTag)
        );
    }
}

#[test]
fn primitive_extreme_values_round_trip() {
    let schema = vec![
        PrimKind::U8,
        PrimKind::U16,
        PrimKind::U32,
        PrimKind::U64,
        PrimKind::I8,
        PrimKind::I16,
        PrimKind::I32,
        PrimKind::I64,
    ];
    let s1 = vec![
        PrimValue::U8(u8::MAX),
        PrimValue::U16(u16::MAX),
        PrimValue::U32(u32::MAX),
        PrimValue::U64(u64::MAX),
        PrimValue::I8(i8::MIN),
        PrimValue::I16(i16::MIN),
        PrimValue::I32(i32::MIN),
        PrimValue::I64(i64::MIN),
    ];
    let mut buffer = vec![0u8; product_max_size(&schema)];
    serialize_product(&s1, &mut buffer, 0);
    let s2 = deserialize_product(&schema, &buffer).unwrap();
    assert!(s1 == s2);
}
