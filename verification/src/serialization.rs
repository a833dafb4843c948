//! The composite codec: a statically bounded binary encoding derived
//! from a declared field structure.
//!
//! A composite type declares its shape once, as a field list (product
//! type) or as a list of variants, each with its own field list (sum
//! type).  From that declaration the functions here derive the
//! encoder, the decoder and the `MAX` size bound:
//! - product types encode as the concatenation of their fields'
//!   fixed-width big-endian encodings, in declaration order;
//! - sum types encode as one leading tag byte (the zero-based variant
//!   index) followed by the active variant's fields;
//! - the size bound of a product is the sum of its field widths, and
//!   the bound of a sum is 1 plus the largest variant's field sum.
//!
//! Encoding into a buffer smaller than the bound is a caller error and
//! is excluded by precondition; decoding from a source shorter than
//! the bound, or with an undeclared tag, is a recoverable
//! [`DecodeError`], since the source bytes may come from an untrusted
//! peer.

use vstd::prelude::*;

use crate::endian::{
    i16_be_bytes, i16_from_be, i32_be_bytes, i32_from_be, i64_be_bytes, i64_from_be, i8_be_bytes,
    i8_from_be, lemma_i16_be_round_trip, lemma_i32_be_round_trip, lemma_i64_be_round_trip,
    lemma_i8_be_round_trip, lemma_u16_be_round_trip, lemma_u32_be_round_trip,
    lemma_u64_be_round_trip, lemma_u8_be_round_trip, read_i16_be, read_i32_be, read_i64_be,
    read_i8_be, read_u16_be, read_u32_be, read_u64_be, read_u8_be, u16_be_bytes, u16_from_be,
    u32_be_bytes, u32_from_be, u64_be_bytes, u64_from_be, u8_be_bytes, u8_from_be, wrote_bytes,
    write_i16_be, write_i32_be, write_i64_be, write_i8_be, write_u16_be, write_u32_be,
    write_u64_be, write_u8_be,
};

verus! {

/// A recoverable decode failure.
#[derive(Clone, Copy, Debug, PartialEq, Eq, Structural)]
pub enum DecodeError {
    /// The source held fewer bytes than the decoded type's size bound.
    SourceTooShort,
    /// A sum type's leading tag byte named no declared variant.
    UnrecognizedTag,
}

/// The fixed-width scalar field kinds a composite type can declare.
///
/// The four-byte and eight-byte floating point kinds are carried
/// through the codec as raw bit patterns (see [`PrimValue`]), so their
/// wire layout is exactly that of `U32` and `U64`.
#[derive(Clone, Copy, Debug, PartialEq, Eq, Structural)]
pub enum PrimKind {
    U8,
    U16,
    U32,
    U64,
    I8,
    I16,
    I32,
    I64,
    F32,
    F64,
}

/// A scalar field value.
///
/// A floating point field travels as the raw bit pattern of its scalar
/// (`F32Bits`, `F64Bits`); the application converts at the boundary.
/// This keeps the codec itself exact: encoding and decoding move bits,
/// never rounded values.
#[derive(Clone, Copy, Debug, PartialEq, Eq, Structural)]
pub enum PrimValue {
    U8(u8),
    U16(u16),
    U32(u32),
    U64(u64),
    I8(i8),
    I16(i16),
    I32(i32),
    I64(i64),
    F32Bits(u32),
    F64Bits(u64),
}

/// The encoded width in bytes of a field of kind `k`.
pub open spec fn kind_size(k: PrimKind) -> nat {
    match k {
        PrimKind::U8 => 1,
        PrimKind::U16 => 2,
        PrimKind::U32 => 4,
        PrimKind::U64 => 8,
        PrimKind::I8 => 1,
        PrimKind::I16 => 2,
        PrimKind::I32 => 4,
        PrimKind::I64 => 8,
        PrimKind::F32 => 4,
        PrimKind::F64 => 8,
    }
}

/// The kind a value belongs to.
pub open spec fn value_kind(v: PrimValue) -> PrimKind {
    match v {
        PrimValue::U8(_) => PrimKind::U8,
        PrimValue::U16(_) => PrimKind::U16,
        PrimValue::U32(_) => PrimKind::U32,
        PrimValue::U64(_) => PrimKind::U64,
        PrimValue::I8(_) => PrimKind::I8,
        PrimValue::I16(_) => PrimKind::I16,
        PrimValue::I32(_) => PrimKind::I32,
        PrimValue::I64(_) => PrimKind::I64,
        PrimValue::F32Bits(_) => PrimKind::F32,
        PrimValue::F64Bits(_) => PrimKind::F64,
    }
}

/// The big-endian encoding of a single scalar value.
pub open spec fn value_bytes(v: PrimValue) -> Seq<u8> {
    match v {
        PrimValue::U8(x) => u8_be_bytes(x),
        PrimValue::U16(x) => u16_be_bytes(x),
        PrimValue::U32(x) => u32_be_bytes(x),
        PrimValue::U64(x) => u64_be_bytes(x),
        PrimValue::I8(x) => i8_be_bytes(x),
        PrimValue::I16(x) => i16_be_bytes(x),
        PrimValue::I32(x) => i32_be_bytes(x),
        PrimValue::I64(x) => i64_be_bytes(x),
        PrimValue::F32Bits(x) => u32_be_bytes(x),
        PrimValue::F64Bits(x) => u64_be_bytes(x),
    }
}

/// The scalar of kind `k` encoded at the front of `b`.
pub open spec fn read_value(k: PrimKind, b: Seq<u8>) -> PrimValue
    recommends
        b.len() >= kind_size(k),
{
    match k {
        PrimKind::U8 => PrimValue::U8(u8_from_be(b.take(1))),
        PrimKind::U16 => PrimValue::U16(u16_from_be(b.take(2))),
        PrimKind::U32 => PrimValue::U32(u32_from_be(b.take(4))),
        PrimKind::U64 => PrimValue::U64(u64_from_be(b.take(8))),
        PrimKind::I8 => PrimValue::I8(i8_from_be(b.take(1))),
        PrimKind::I16 => PrimValue::I16(i16_from_be(b.take(2))),
        PrimKind::I32 => PrimValue::I32(i32_from_be(b.take(4))),
        PrimKind::I64 => PrimValue::I64(i64_from_be(b.take(8))),
        PrimKind::F32 => PrimValue::F32Bits(u32_from_be(b.take(4))),
        PrimKind::F64 => PrimValue::F64Bits(u64_from_be(b.take(8))),
    }
}

/// A scalar's encoding is exactly as wide as its kind declares.
pub proof fn lemma_value_bytes_len(v: PrimValue)
    ensures
        value_bytes(v).len() == kind_size(value_kind(v)),
{
}

/// Reading back the encoding of a scalar gives the scalar, whatever
/// trailing bytes follow it.
pub proof fn lemma_value_round_trip(v: PrimValue, pad: Seq<u8>)
    ensures
        read_value(value_kind(v), value_bytes(v) + pad) == v,
{
    let b = value_bytes(v) + pad;
    assert(b.take(value_bytes(v).len() as int) =~= value_bytes(v));
    match v {
        PrimValue::U8(x) => lemma_u8_be_round_trip(x),
        PrimValue::U16(x) => lemma_u16_be_round_trip(x),
        PrimValue::U32(x) => lemma_u32_be_round_trip(x),
        PrimValue::U64(x) => lemma_u64_be_round_trip(x),
        PrimValue::I8(x) => lemma_i8_be_round_trip(x),
        PrimValue::I16(x) => lemma_i16_be_round_trip(x),
        PrimValue::I32(x) => lemma_i32_be_round_trip(x),
        PrimValue::I64(x) => lemma_i64_be_round_trip(x),
        PrimValue::F32Bits(x) => lemma_u32_be_round_trip(x),
        PrimValue::F64Bits(x) => lemma_u64_be_round_trip(x),
    }
}

/// The encoded width of a field kind, as a runtime value.
pub fn kind_byte_size(k: PrimKind) -> (r: usize)
    ensures
        r == kind_size(k),
{
    match k {
        PrimKind::U8 => 1,
        PrimKind::U16 => 2,
        PrimKind::U32 => 4,
        PrimKind::U64 => 8,
        PrimKind::I8 => 1,
        PrimKind::I16 => 2,
        PrimKind::I32 => 4,
        PrimKind::I64 => 8,
        PrimKind::F32 => 4,
        PrimKind::F64 => 8,
    }
}

/// Writes one scalar at `offset`.
pub fn write_value(v: PrimValue, into: &mut Vec<u8>, offset: usize)
    requires
        offset + kind_size(value_kind(v)) <= old(into).len(),
    ensures
        wrote_bytes(old(into)@, final(into)@, offset as int, value_bytes(v)),
{
    match v {
        PrimValue::U8(x) => write_u8_be(x, into, offset),
        PrimValue::U16(x) => write_u16_be(x, into, offset),
        PrimValue::U32(x) => write_u32_be(x, into, offset),
        PrimValue::U64(x) => write_u64_be(x, into, offset),
        PrimValue::I8(x) => write_i8_be(x, into, offset),
        PrimValue::I16(x) => write_i16_be(x, into, offset),
        PrimValue::I32(x) => write_i32_be(x, into, offset),
        PrimValue::I64(x) => write_i64_be(x, into, offset),
        PrimValue::F32Bits(x) => write_u32_be(x, into, offset),
        PrimValue::F64Bits(x) => write_u64_be(x, into, offset),
    }
}

/// Reads one scalar of kind `k` from `offset`.
pub fn read_value_at(k: PrimKind, from: &[u8], offset: usize) -> (r: PrimValue)
    requires
        offset + kind_size(k) <= from@.len(),
    ensures
        r == read_value(k, from@.skip(offset as int)),
        value_kind(r) == k,
{
    let ghost rest = from@.skip(offset as int);
    proof {
        assert(rest.take(kind_size(k) as int) =~= from@.subrange(
            offset as int,
            offset + kind_size(k),
        ));
    }
    match k {
        PrimKind::U8 => PrimValue::U8(read_u8_be(from, offset)),
        PrimKind::U16 => PrimValue::U16(read_u16_be(from, offset)),
        PrimKind::U32 => PrimValue::U32(read_u32_be(from, offset)),
        PrimKind::U64 => PrimValue::U64(read_u64_be(from, offset)),
        PrimKind::I8 => PrimValue::I8(read_i8_be(from, offset)),
        PrimKind::I16 => PrimValue::I16(read_i16_be(from, offset)),
        PrimKind::I32 => PrimValue::I32(read_i32_be(from, offset)),
        PrimKind::I64 => PrimValue::I64(read_i64_be(from, offset)),
        PrimKind::F32 => PrimValue::F32Bits(read_u32_be(from, offset)),
        PrimKind::F64 => PrimValue::F64Bits(read_u64_be(from, offset)),
    }
}

// ---------------------------------------------------------------------
// product types: fields concatenated in declaration order
// ---------------------------------------------------------------------

/// The size bound of a product type: the sum of its field widths.
/// Every encoding of a matching value is exactly this long.
pub open spec fn product_size(schema: Seq<PrimKind>) -> nat
    decreases schema.len(),
{
    if schema.len() == 0 {
        0
    } else {
        kind_size(schema[0]) + product_size(schema.skip(1))
    }
}

/// The values `vals` instantiate the field list `schema`: one value
/// per declared field, each of the declared kind.
pub open spec fn values_match(schema: Seq<PrimKind>, vals: Seq<PrimValue>) -> bool {
    &&& vals.len() == schema.len()
    &&& forall|i: int| 0 <= i < vals.len() ==> value_kind(#[trigger] vals[i]) == schema[i]
}

/// The encoding of a product value: each field's encoding, in order.
pub open spec fn product_bytes(vals: Seq<PrimValue>) -> Seq<u8>
    decreases vals.len(),
{
    if vals.len() == 0 {
        Seq::empty()
    } else {
        value_bytes(vals[0]) + product_bytes(vals.skip(1))
    }
}

/// The fields of `schema` read back from the front of `b`, in order.
pub open spec fn read_product(schema: Seq<PrimKind>, b: Seq<u8>) -> Seq<PrimValue>
    decreases schema.len(),
{
    if schema.len() == 0 {
        Seq::empty()
    } else {
        seq![read_value(schema[0], b)] + read_product(
            schema.skip(1),
            b.skip(kind_size(schema[0]) as int),
        )
    }
}

/// What decoding a product type from `b` yields: the fields when `b`
/// reaches the size bound, and a recoverable failure when it does not.
pub open spec fn product_decoded(schema: Seq<PrimKind>, b: Seq<u8>) -> Result<
    Seq<PrimValue>,
    DecodeError,
> {
    if b.len() < product_size(schema) {
        Err(DecodeError::SourceTooShort)
    } else {
        Ok(read_product(schema, b))
    }
}

/// A matching product value encodes to exactly the product's size bound.
pub proof fn lemma_product_bytes_len(schema: Seq<PrimKind>, vals: Seq<PrimValue>)
    requires
        values_match(schema, vals),
    ensures
        product_bytes(vals).len() == product_size(schema),
    decreases vals.len(),
{
    if vals.len() > 0 {
        assert(values_match(schema.skip(1), vals.skip(1)));
        lemma_product_bytes_len(schema.skip(1), vals.skip(1));
    }
}

/// Round trip: reading a product's fields back from its own encoding,
/// whatever trailing bytes follow it, recovers the fields exactly.
pub proof fn lemma_product_round_trip(schema: Seq<PrimKind>, vals: Seq<PrimValue>, pad: Seq<u8>)
    requires
        values_match(schema, vals),
    ensures
        read_product(schema, product_bytes(vals) + pad) == vals,
    decreases vals.len(),
{
    if vals.len() == 0 {
        assert(read_product(schema, product_bytes(vals) + pad) =~= vals);
    } else {
        let head = value_bytes(vals[0]);
        let rest = product_bytes(vals.skip(1)) + pad;
        let b = product_bytes(vals) + pad;
        assert(b =~= head + rest);
        lemma_value_round_trip(vals[0], rest);
        assert(read_value(schema[0], b) == vals[0]) by {
            assert((head + rest).take(head.len() as int) =~= head);
            assert(b.take(head.len() as int) =~= (value_bytes(vals[0]) + rest).take(
                head.len() as int,
            ));
        }
        assert(b.skip(kind_size(schema[0]) as int) =~= rest);
        assert(values_match(schema.skip(1), vals.skip(1)));
        lemma_product_round_trip(schema.skip(1), vals.skip(1), pad);
        assert(read_product(schema, b) =~= vals);
    }
}

/// The fields read from `b` match the schema they were read with.
pub proof fn lemma_read_product_matches(schema: Seq<PrimKind>, b: Seq<u8>)
    ensures
        values_match(schema, read_product(schema, b)),
    decreases schema.len(),
{
    if schema.len() > 0 {
        lemma_read_product_matches(schema.skip(1), b.skip(kind_size(schema[0]) as int));
        assert forall|i: int| 0 <= i < schema.len() implies value_kind(
            #[trigger] read_product(schema, b)[i],
        ) == schema[i] by {
            if i > 0 {
                assert(read_product(schema, b)[i] == read_product(
                    schema.skip(1),
                    b.skip(kind_size(schema[0]) as int),
                )[i - 1]);
            }
        }
    }
}

/// The size bound of a product, as a runtime value.
pub fn product_max_size(schema: &Vec<PrimKind>) -> (r: usize)
    requires
        product_size(schema@) <= usize::MAX,
    ensures
        r == product_size(schema@),
{
    let mut total: usize = 0;
    let mut i: usize = 0;
    proof {
        assert(schema@.skip(0) =~= schema@);
    }
    while i < schema.len()
        invariant
            0 <= i <= schema@.len(),
            product_size(schema@) <= usize::MAX,
            total + product_size(schema@.skip(i as int)) == product_size(schema@),
        decreases schema@.len() - i,
    {
        proof {
            assert(schema@.skip(i as int).len() > 0);
            assert(schema@.skip(i as int)[0] == schema@[i as int]);
            assert(schema@.skip(i as int).skip(1) =~= schema@.skip(i + 1));
        }
        let w = kind_byte_size(schema[i]);
        total = total + w;
        i = i + 1;
    }
    proof {
        assert(schema@.skip(schema@.len() as int) =~= Seq::<PrimKind>::empty());
    }
    total
}

/// Writes a product value's fields at `offset`, in declaration order,
/// and returns the number of bytes written: always exactly the
/// encoding's length, which for a matching value is the product's
/// size bound.
pub fn serialize_product(values: &Vec<PrimValue>, into: &mut Vec<u8>, offset: usize) -> (r: usize)
    requires
        offset + product_bytes(values@).len() <= old(into).len(),
    ensures
        r == product_bytes(values@).len(),
        wrote_bytes(old(into)@, final(into)@, offset as int, product_bytes(values@)),
{
    let mut off: usize = offset;
    let mut i: usize = 0;
    proof {
        assert(values@.skip(0) =~= values@);
        assert(old(into)@.subrange(offset as int, offset as int) + product_bytes(values@)
            =~= product_bytes(values@));
    }
    while i < values.len()
        invariant
            0 <= i <= values@.len(),
            offset <= off <= into.len(),
            into@.len() == old(into)@.len(),
            off - offset + product_bytes(values@.skip(i as int)).len() == product_bytes(
                values@,
            ).len(),
            offset + product_bytes(values@).len() <= old(into)@.len(),
            into@.subrange(offset as int, off as int) + product_bytes(values@.skip(i as int))
                == product_bytes(values@),
            forall|j: int|
                0 <= j < old(into)@.len() && !(offset <= j < off) ==> into@[j] == old(into)@[j],
        decreases values@.len() - i,
    {
        proof {
            assert(values@.skip(i as int).len() > 0);
            assert(values@.skip(i as int)[0] == values@[i as int]);
            assert(values@.skip(i as int).skip(1) =~= values@.skip(i + 1));
            lemma_value_bytes_len(values@[i as int]);
        }
        let ghost pre = into@;
        let v = values[i];
        let w = kind_byte_size(kind_of_value(&v));
        write_value(v, into, off);
        proof {
            let vb = value_bytes(values@[i as int]);
            assert(into@.subrange(offset as int, off + vb.len() as int) =~= pre.subrange(
                offset as int,
                off as int,
            ) + vb);
            assert(pre.subrange(offset as int, off as int) + (vb + product_bytes(
                values@.skip(i + 1),
            )) =~= (pre.subrange(offset as int, off as int) + vb) + product_bytes(
                values@.skip(i + 1),
            ));
        }
        off = off + w;
        i = i + 1;
    }
    proof {
        assert(values@.skip(values@.len() as int) =~= Seq::<PrimValue>::empty());
        assert(into@.subrange(offset as int, off as int) + Seq::<u8>::empty() =~= into@.subrange(
            offset as int,
            off as int,
        ));
        assert(into@.subrange(offset as int, offset + product_bytes(values@).len() as int)
            == product_bytes(values@));
    }
    off - offset
}

/// The kind of a value, as a runtime query.
pub fn kind_of_value(v: &PrimValue) -> (r: PrimKind)
    ensures
        r == value_kind(*v),
{
    match *v {
        PrimValue::U8(_) => PrimKind::U8,
        PrimValue::U16(_) => PrimKind::U16,
        PrimValue::U32(_) => PrimKind::U32,
        PrimValue::U64(_) => PrimKind::U64,
        PrimValue::I8(_) => PrimKind::I8,
        PrimValue::I16(_) => PrimKind::I16,
        PrimValue::I32(_) => PrimKind::I32,
        PrimValue::I64(_) => PrimKind::I64,
        PrimValue::F32Bits(_) => PrimKind::F32,
        PrimValue::F64Bits(_) => PrimKind::F64,
    }
}

/// Reads the fields of `schema` from the front of `from`.
///
/// Succeeds exactly when the source reaches the product's size bound;
/// a shorter source is a recoverable failure, never a panic, since the
/// bytes may come from an untrusted peer.
pub fn deserialize_product(schema: &Vec<PrimKind>, from: &[u8]) -> (r: Result<
    Vec<PrimValue>,
    DecodeError,
>)
    ensures
        match r {
            Ok(vals) => product_decoded(schema@, from@) == Ok::<Seq<PrimValue>, DecodeError>(
                vals@,
            ),
            Err(e) => product_decoded(schema@, from@) == Err::<Seq<PrimValue>, DecodeError>(e),
        },
{
    let mut vals: Vec<PrimValue> = Vec::new();
    let mut off: usize = 0;
    let mut i: usize = 0;
    proof {
        assert(schema@.skip(0) =~= schema@);
        assert(from@.skip(0) =~= from@);
        assert(Seq::<PrimValue>::empty() + read_product(schema@, from@) =~= read_product(
            schema@,
            from@,
        ));
    }
    while i < schema.len()
        invariant
            0 <= i <= schema@.len(),
            0 <= off <= from@.len(),
            off + product_size(schema@.skip(i as int)) == product_size(schema@),
            vals@ + read_product(schema@.skip(i as int), from@.skip(off as int)) == read_product(
                schema@,
                from@,
            ),
            vals@.len() == i,
        decreases schema@.len() - i,
    {
        proof {
            assert(schema@.skip(i as int).len() > 0);
            assert(schema@.skip(i as int)[0] == schema@[i as int]);
            assert(schema@.skip(i as int).skip(1) =~= schema@.skip(i + 1));
        }
        let k = schema[i];
        let w = kind_byte_size(k);
        if from.len() - off < w {
            proof {
                assert(product_size(schema@.skip(i as int)) >= kind_size(schema@[i as int]));
            }
            return Err(DecodeError::SourceTooShort);
        }
        let v = read_value_at(k, from, off);
        proof {
            let tail = schema@.skip(i as int);
            let b = from@.skip(off as int);
            assert(read_product(tail, b) =~= seq![read_value(tail[0], b)] + read_product(
                tail.skip(1),
                b.skip(kind_size(tail[0]) as int),
            ));
            assert(b.skip(kind_size(schema@[i as int]) as int) =~= from@.skip(
                off + kind_size(schema@[i as int]),
            ));
            assert((vals@ + seq![v]) + read_product(schema@.skip(i + 1), from@.skip(off + w))
                =~= vals@ + (seq![v] + read_product(schema@.skip(i + 1), from@.skip(off + w))));
        }
        vals.push(v);
        off = off + w;
        i = i + 1;
    }
    proof {
        assert(schema@.skip(schema@.len() as int) =~= Seq::<PrimKind>::empty());
        assert(vals@ + Seq::<PrimValue>::empty() =~= vals@);
    }
    Ok(vals)
}

// ---------------------------------------------------------------------
// sum types: a leading tag byte selects the variant's field list
// ---------------------------------------------------------------------

/// The larger of two lengths.
pub open spec fn max_nat(a: nat, b: nat) -> nat {
    if a > b {
        a
    } else {
        b
    }
}

/// The field-size sum of the largest variant; 0 when there is no
/// variant at all.
pub open spec fn max_variant_size(variants: Seq<Seq<PrimKind>>) -> nat
    decreases variants.len(),
{
    if variants.len() == 0 {
        0
    } else {
        max_nat(product_size(variants[0]), max_variant_size(variants.skip(1)))
    }
}

/// The size bound of a sum type: the tag byte plus the largest
/// variant.  An empty sum type still has bound 1, and (since every
/// tag is then unrecognized) can never be decoded.
pub open spec fn sum_size_bound(variants: Seq<Seq<PrimKind>>) -> nat {
    1 + max_variant_size(variants)
}

/// The encoding of a sum value: the zero-based variant index as one
/// tag byte, then the variant's fields as a product.
pub open spec fn sum_bytes(tag: u8, vals: Seq<PrimValue>) -> Seq<u8> {
    seq![tag] + product_bytes(vals)
}

/// What decoding a sum type from `b` yields: a short source and an
/// undeclared tag are recoverable failures; otherwise the tag and the
/// selected variant's fields.
pub open spec fn sum_decoded(variants: Seq<Seq<PrimKind>>, b: Seq<u8>) -> Result<
    (u8, Seq<PrimValue>),
    DecodeError,
> {
    if b.len() < sum_size_bound(variants) {
        Err(DecodeError::SourceTooShort)
    } else if b[0] as int >= variants.len() {
        Err(DecodeError::UnrecognizedTag)
    } else {
        Ok((b[0], read_product(variants[b[0] as int], b.skip(1))))
    }
}

/// Every declared variant fits under the sum's size bound.
pub proof fn lemma_variant_size_le_max(variants: Seq<Seq<PrimKind>>, i: int)
    requires
        0 <= i < variants.len(),
    ensures
        product_size(variants[i]) <= max_variant_size(variants),
    decreases variants.len(),
{
    if i > 0 {
        lemma_variant_size_le_max(variants.skip(1), i - 1);
        assert(variants.skip(1)[i - 1] == variants[i]);
    }
}

/// Round trip and tag fidelity: decoding a sum value's own encoding,
/// padded to the size bound with any trailing bytes, recovers the
/// originally encoded variant index and its exact fields.
pub proof fn lemma_sum_round_trip(
    variants: Seq<Seq<PrimKind>>,
    tag: u8,
    vals: Seq<PrimValue>,
    pad: Seq<u8>,
)
    requires
        (tag as int) < variants.len(),
        values_match(variants[tag as int], vals),
        sum_bytes(tag, vals).len() + pad.len() >= sum_size_bound(variants),
    ensures
        sum_decoded(variants, sum_bytes(tag, vals) + pad) == Ok::<(u8, Seq<PrimValue>), DecodeError>(
            (tag, vals),
        ),
{
    let b = sum_bytes(tag, vals) + pad;
    assert(b[0] == tag);
    assert(b.skip(1) =~= product_bytes(vals) + pad);
    lemma_product_round_trip(variants[tag as int], vals, pad);
}

/// An empty sum type has size bound 1, and every source fails to
/// decode: a short one for want of bytes, any other because every
/// possible tag value is unrecognized.
pub proof fn lemma_empty_sum_never_decodes(b: Seq<u8>)
    ensures
        sum_size_bound(Seq::<Seq<PrimKind>>::empty()) == 1,
        sum_decoded(Seq::<Seq<PrimKind>>::empty(), b) is Err,
{
}

/// The per-variant field lists of a declared variant vector.
pub open spec fn variants_view(vs: Seq<Vec<PrimKind>>) -> Seq<Seq<PrimKind>> {
    Seq::new(vs.len(), |i: int| vs[i]@)
}

/// The size bound of a sum, as a runtime value.
pub fn sum_max_size(variants: &Vec<Vec<PrimKind>>) -> (r: usize)
    requires
        sum_size_bound(variants_view(variants@)) <= usize::MAX,
    ensures
        r == sum_size_bound(variants_view(variants@)),
{
    let ghost vv = variants_view(variants@);
    let mut m: usize = 0;
    let mut i: usize = 0;
    proof {
        assert(vv.skip(0) =~= vv);
    }
    while i < variants.len()
        invariant
            0 <= i <= vv.len(),
            vv == variants_view(variants@),
            vv.len() == variants@.len(),
            sum_size_bound(vv) <= usize::MAX,
            max_nat(m as nat, max_variant_size(vv.skip(i as int))) == max_variant_size(vv),
        decreases vv.len() - i,
    {
        proof {
            assert(vv.skip(i as int).len() > 0);
            assert(vv.skip(i as int)[0] == vv[i as int]);
            assert(vv.skip(i as int).skip(1) =~= vv.skip(i + 1));
            lemma_variant_size_le_max(vv, i as int);
            assert(vv[i as int] == variants@[i as int]@);
        }
        let w = product_max_size(&variants[i]);
        if w > m {
            m = w;
        }
        i = i + 1;
    }
    proof {
        assert(vv.skip(vv.len() as int) =~= Seq::<Seq<PrimKind>>::empty());
    }
    1 + m
}

/// Writes a sum value — tag byte, then the variant's fields — at
/// `offset`, and returns the number of bytes written: always exactly
/// 1 plus the written variant's own field-size sum, which may be less
/// than the sum's size bound.
pub fn serialize_sum(tag: u8, values: &Vec<PrimValue>, into: &mut Vec<u8>, offset: usize) -> (r:
    usize)
    requires
        offset + 1 + product_bytes(values@).len() <= old(into).len(),
    ensures
        r == 1 + product_bytes(values@).len(),
        wrote_bytes(old(into)@, final(into)@, offset as int, sum_bytes(tag, values@)),
{
    write_u8_be(tag, into, offset);
    let ghost mid = into@;
    let n = serialize_product(values, into, offset + 1);
    proof {
        let pb = product_bytes(values@);
        assert(into@.subrange(offset as int, offset + 1 + pb.len() as int) =~= seq![tag] + pb);
    }
    1 + n
}

/// Decodes a sum value from the front of `from`.
///
/// Succeeds exactly when the source reaches the sum's size bound and
/// the tag byte names a declared variant; a shorter source or an
/// undeclared tag is a recoverable failure, never a panic, since the
/// bytes may come from an untrusted peer.
pub fn deserialize_sum(variants: &Vec<Vec<PrimKind>>, from: &[u8]) -> (r: Result<
    (u8, Vec<PrimValue>),
    DecodeError,
>)
    requires
        sum_size_bound(variants_view(variants@)) <= usize::MAX,
    ensures
        match r {
            Ok((tag, vals)) => sum_decoded(variants_view(variants@), from@) == Ok::<
                (u8, Seq<PrimValue>),
                DecodeError,
            >((tag, vals@)),
            Err(e) => sum_decoded(variants_view(variants@), from@) == Err::<
                (u8, Seq<PrimValue>),
                DecodeError,
            >(e),
        },
{
    let ghost vv = variants_view(variants@);
    let bound = sum_max_size(variants);
    if from.len() < bound {
        return Err(DecodeError::SourceTooShort);
    }
    let tag = from[0];
    if (tag as usize) >= variants.len() {
        return Err(DecodeError::UnrecognizedTag);
    }
    proof {
        lemma_variant_size_le_max(vv, tag as int);
        assert(vv[tag as int] == variants@[tag as int]@);
    }
    let rest = vstd::slice::slice_subrange(from, 1, from.len());
    proof {
        assert(rest@ =~= from@.skip(1));
    }
    match deserialize_product(&variants[tag as usize], rest) {
        Ok(vals) => Ok((tag, vals)),
        Err(e) => {
            proof {
                assert(false);
            }
            Err(e)
        },
    }
}

// ---------------------------------------------------------------------
// the codec capability, as a trait
// ---------------------------------------------------------------------

/// A type with a statically bounded binary encoding.
///
/// `wire_bytes` is the type's exact encoding and `decoded` its exact
/// decoding; `max_bin_size_spec` bounds every possible encoding.  Each
/// implementation proves, through `lemma_round_trip`, that decoding is
/// a left inverse of encoding on any source that starts with the
/// encoding and reaches the bound.
///
/// Writing into a buffer smaller than the bound is a caller error and
/// excluded by precondition; decoding from an arbitrary source returns
/// a recoverable [`DecodeError`] rather than panicking.
pub trait Serializable: Sized {
    /// The upper bound on this type's encoded size, known without an
    /// instance.
    spec fn max_bin_size_spec() -> nat;

    /// The exact binary encoding of this value.
    spec fn wire_bytes(&self) -> Seq<u8>;

    /// The exact result of decoding from the front of `b`.
    spec fn decoded(b: Seq<u8>) -> Result<Self, DecodeError>;

    /// The size bound, as a runtime value.
    fn max_bin_size() -> (r: usize)
        ensures
            r == Self::max_bin_size_spec(),
    ;

    /// Writes the value's encoding at `offset` and returns the number
    /// of bytes written.  The destination must reach the size bound;
    /// all bytes outside the written range are untouched.
    fn serialize(&self, into: &mut Vec<u8>, offset: usize) -> (r: usize)
        requires
            offset + Self::max_bin_size_spec() <= old(into).len(),
        ensures
            r == self.wire_bytes().len(),
            r <= Self::max_bin_size_spec(),
            wrote_bytes(old(into)@, final(into)@, offset as int, self.wire_bytes()),
    ;

    /// Decodes a value from the front of `from`.
    fn deserialize(from: &[u8]) -> (r: Result<Self, DecodeError>)
        ensures
            r == Self::decoded(from@),
    ;

    /// Decoding is a left inverse of encoding: any source that starts
    /// with this value's encoding and reaches the size bound decodes
    /// back to the value.
    proof fn lemma_round_trip(&self, pad: Seq<u8>)
        requires
            self.wire_bytes().len() + pad.len() >= Self::max_bin_size_spec(),
        ensures
            Self::decoded(self.wire_bytes() + pad) == Ok::<Self, DecodeError>(*self),
    ;
}

impl Serializable for u8 {
    open spec fn max_bin_size_spec() -> nat {
        1
    }

    open spec fn wire_bytes(&self) -> Seq<u8> {
        u8_be_bytes(*self)
    }

    open spec fn decoded(b: Seq<u8>) -> Result<u8, DecodeError> {
        if b.len() < 1 {
            Err(DecodeError::SourceTooShort)
        } else {
            Ok(u8_from_be(b.take(1)))
        }
    }

    fn max_bin_size() -> usize {
        1
    }

    fn serialize(&self, into: &mut Vec<u8>, offset: usize) -> usize {
        write_u8_be(*self, into, offset);
        1
    }

    fn deserialize(from: &[u8]) -> Result<u8, DecodeError> {
        if from.len() < 1 {
            Err(DecodeError::SourceTooShort)
        } else {
            let x = read_u8_be(from, 0);
            proof {
                assert(from@.subrange(0, 1) =~= from@.take(1));
            }
            Ok(x)
        }
    }

    proof fn lemma_round_trip(&self, pad: Seq<u8>) {
        assert((u8_be_bytes(*self) + pad).take(1) =~= u8_be_bytes(*self));
    }
}

impl Serializable for u16 {
    open spec fn max_bin_size_spec() -> nat {
        2
    }

    open spec fn wire_bytes(&self) -> Seq<u8> {
        u16_be_bytes(*self)
    }

    open spec fn decoded(b: Seq<u8>) -> Result<u16, DecodeError> {
        if b.len() < 2 {
            Err(DecodeError::SourceTooShort)
        } else {
            Ok(u16_from_be(b.take(2)))
        }
    }

    fn max_bin_size() -> usize {
        2
    }

    fn serialize(&self, into: &mut Vec<u8>, offset: usize) -> usize {
        write_u16_be(*self, into, offset);
        2
    }

    fn deserialize(from: &[u8]) -> Result<u16, DecodeError> {
        if from.len() < 2 {
            Err(DecodeError::SourceTooShort)
        } else {
            let x = read_u16_be(from, 0);
            proof {
                assert(from@.subrange(0, 2) =~= from@.take(2));
            }
            Ok(x)
        }
    }

    proof fn lemma_round_trip(&self, pad: Seq<u8>) {
        lemma_u16_be_round_trip(*self);
        assert((u16_be_bytes(*self) + pad).take(2) =~= u16_be_bytes(*self));
    }
}

impl Serializable for u32 {
    open spec fn max_bin_size_spec() -> nat {
        4
    }

    open spec fn wire_bytes(&self) -> Seq<u8> {
        u32_be_bytes(*self)
    }

    open spec fn decoded(b: Seq<u8>) -> Result<u32, DecodeError> {
        if b.len() < 4 {
            Err(DecodeError::SourceTooShort)
        } else {
            Ok(u32_from_be(b.take(4)))
        }
    }

    fn max_bin_size() -> usize {
        4
    }

    fn serialize(&self, into: &mut Vec<u8>, offset: usize) -> usize {
        write_u32_be(*self, into, offset);
        4
    }

    fn deserialize(from: &[u8]) -> Result<u32, DecodeError> {
        if from.len() < 4 {
            Err(DecodeError::SourceTooShort)
        } else {
            let x = read_u32_be(from, 0);
            proof {
                assert(from@.subrange(0, 4) =~= from@.take(4));
            }
            Ok(x)
        }
    }

    proof fn lemma_round_trip(&self, pad: Seq<u8>) {
        lemma_u32_be_round_trip(*self);
        assert((u32_be_bytes(*self) + pad).take(4) =~= u32_be_bytes(*self));
    }
}

impl Serializable for u64 {
    open spec fn max_bin_size_spec() -> nat {
        8
    }

    open spec fn wire_bytes(&self) -> Seq<u8> {
        u64_be_bytes(*self)
    }

    open spec fn decoded(b: Seq<u8>) -> Result<u64, DecodeError> {
        if b.len() < 8 {
            Err(DecodeError::SourceTooShort)
        } else {
            Ok(u64_from_be(b.take(8)))
        }
    }

    fn max_bin_size() -> usize {
        8
    }

    fn serialize(&self, into: &mut Vec<u8>, offset: usize) -> usize {
        write_u64_be(*self, into, offset);
        8
    }

    fn deserialize(from: &[u8]) -> Result<u64, DecodeError> {
        if from.len() < 8 {
            Err(DecodeError::SourceTooShort)
        } else {
            let x = read_u64_be(from, 0);
            proof {
                assert(from@.subrange(0, 8) =~= from@.take(8));
            }
            Ok(x)
        }
    }

    proof fn lemma_round_trip(&self, pad: Seq<u8>) {
        lemma_u64_be_round_trip(*self);
        assert((u64_be_bytes(*self) + pad).take(8) =~= u64_be_bytes(*self));
    }
}

impl Serializable for i8 {
    open spec fn max_bin_size_spec() -> nat {
        1
    }

    open spec fn wire_bytes(&self) -> Seq<u8> {
        i8_be_bytes(*self)
    }

    open spec fn decoded(b: Seq<u8>) -> Result<i8, DecodeError> {
        if b.len() < 1 {
            Err(DecodeError::SourceTooShort)
        } else {
            Ok(i8_from_be(b.take(1)))
        }
    }

    fn max_bin_size() -> usize {
        1
    }

    fn serialize(&self, into: &mut Vec<u8>, offset: usize) -> usize {
        write_i8_be(*self, into, offset);
        1
    }

    fn deserialize(from: &[u8]) -> Result<i8, DecodeError> {
        if from.len() < 1 {
            Err(DecodeError::SourceTooShort)
        } else {
            let x = read_i8_be(from, 0);
            proof {
                assert(from@.subrange(0, 1) =~= from@.take(1));
            }
            Ok(x)
        }
    }

    proof fn lemma_round_trip(&self, pad: Seq<u8>) {
        lemma_i8_be_round_trip(*self);
        assert((i8_be_bytes(*self) + pad).take(1) =~= i8_be_bytes(*self));
    }
}

impl Serializable for i16 {
    open spec fn max_bin_size_spec() -> nat {
        2
    }

    open spec fn wire_bytes(&self) -> Seq<u8> {
        i16_be_bytes(*self)
    }

    open spec fn decoded(b: Seq<u8>) -> Result<i16, DecodeError> {
        if b.len() < 2 {
            Err(DecodeError::SourceTooShort)
        } else {
            Ok(i16_from_be(b.take(2)))
        }
    }

    fn max_bin_size() -> usize {
        2
    }

    fn serialize(&self, into: &mut Vec<u8>, offset: usize) -> usize {
        write_i16_be(*self, into, offset);
        2
    }

    fn deserialize(from: &[u8]) -> Result<i16, DecodeError> {
        if from.len() < 2 {
            Err(DecodeError::SourceTooShort)
        } else {
            let x = read_i16_be(from, 0);
            proof {
                assert(from@.subrange(0, 2) =~= from@.take(2));
            }
            Ok(x)
        }
    }

    proof fn lemma_round_trip(&self, pad: Seq<u8>) {
        lemma_i16_be_round_trip(*self);
        assert((i16_be_bytes(*self) + pad).take(2) =~= i16_be_bytes(*self));
    }
}

impl Serializable for i32 {
    open spec fn max_bin_size_spec() -> nat {
        4
    }

    open spec fn wire_bytes(&self) -> Seq<u8> {
        i32_be_bytes(*self)
    }

    open spec fn decoded(b: Seq<u8>) -> Result<i32, DecodeError> {
        if b.len() < 4 {
            Err(DecodeError::SourceTooShort)
        } else {
            Ok(i32_from_be(b.take(4)))
        }
    }

    fn max_bin_size() -> usize {
        4
    }

    fn serialize(&self, into: &mut Vec<u8>, offset: usize) -> usize {
        write_i32_be(*self, into, offset);
        4
    }

    fn deserialize(from: &[u8]) -> Result<i32, DecodeError> {
        if from.len() < 4 {
            Err(DecodeError::SourceTooShort)
        } else {
            let x = read_i32_be(from, 0);
            proof {
                assert(from@.subrange(0, 4) =~= from@.take(4));
            }
            Ok(x)
        }
    }

    proof fn lemma_round_trip(&self, pad: Seq<u8>) {
        lemma_i32_be_round_trip(*self);
        assert((i32_be_bytes(*self) + pad).take(4) =~= i32_be_bytes(*self));
    }
}

impl Serializable for i64 {
    open spec fn max_bin_size_spec() -> nat {
        8
    }

    open spec fn wire_bytes(&self) -> Seq<u8> {
        i64_be_bytes(*self)
    }

    open spec fn decoded(b: Seq<u8>) -> Result<i64, DecodeError> {
        if b.len() < 8 {
            Err(DecodeError::SourceTooShort)
        } else {
            Ok(i64_from_be(b.take(8)))
        }
    }

    fn max_bin_size() -> usize {
        8
    }

    fn serialize(&self, into: &mut Vec<u8>, offset: usize) -> usize {
        write_i64_be(*self, into, offset);
        8
    }

    fn deserialize(from: &[u8]) -> Result<i64, DecodeError> {
        if from.len() < 8 {
            Err(DecodeError::SourceTooShort)
        } else {
            let x = read_i64_be(from, 0);
            proof {
                assert(from@.subrange(0, 8) =~= from@.take(8));
            }
            Ok(x)
        }
    }

    proof fn lemma_round_trip(&self, pad: Seq<u8>) {
        lemma_i64_be_round_trip(*self);
        assert((i64_be_bytes(*self) + pad).take(8) =~= i64_be_bytes(*self));
    }
}

} // verus!
