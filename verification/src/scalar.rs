//! NumPy scalars: decoding from and encoding to the fields of their
//! msgpack-numpy map (`nd` false, `type`, `data`).
use vstd::prelude::*;
use vstd::string::StringSliceAdditionalSpecFns;
use crate::dtype::{
    DType, ElemType, dtype_elem, lemma_type_str_roundtrip, spec_dtype_elem, spec_elem_type,
    spec_type_bytes, spec_width,
};
use crate::error::{DecodeError, EncodeError, FieldName, field_name, spec_field_name};
use crate::le::{
    LeElem, le2_value, le4_value, le8_value, lemma_i16_from_le, lemma_i16_to_le, lemma_i32_from_le,
    lemma_i32_to_le, lemma_i64_from_le, lemma_i64_to_le, lemma_i8_from_le, lemma_i8_to_le,
    lemma_u16_from_le, lemma_u16_to_le, lemma_u32_from_le, lemma_u32_to_le, lemma_u64_from_le,
    lemma_u64_to_le,
};

verus! {

/// A NumPy scalar. Floating-point values are held by their IEEE-754 bit
/// patterns (`F16` by the bits of a half-precision number).
#[derive(Clone, Copy, Debug, PartialEq, Eq, Structural)]
pub enum Scalar {
    Bool(bool),
    U8(u8),
    I8(i8),
    U16(u16),
    I16(i16),
    F16(u16),
    U32(u32),
    I32(i32),
    F32(u32),
    U64(u64),
    I64(i64),
    F64(u64),
    /// A scalar of a dtype that this crate does not decode.
    Unsupported,
}

/// The `nd` flag under which scalars are written and that they must carry.
pub const SCALAR_ND: bool = false;

/// The fields of a scalar's map as they were read; a field that did not occur
/// is `None`, and a field that occurred twice holds its last value.
#[derive(Debug)]
pub struct ScalarFields {
    pub nd: Option<bool>,
    pub dtype: Option<DType>,
    pub data: Option<Vec<u8>>,
}

/// The fields of a scalar's map as they are written.
#[derive(Debug)]
pub struct EncodedScalar {
    pub nd: bool,
    pub dtype: &'static str,
    pub data: Vec<u8>,
}

/// The element type of a scalar; `None` for `Unsupported`.
pub open spec fn spec_scalar_type(s: Scalar) -> Option<ElemType> {
    match s {
        Scalar::Bool(_) => Some(ElemType::Bool),
        Scalar::U8(_) => Some(ElemType::U8),
        Scalar::I8(_) => Some(ElemType::I8),
        Scalar::U16(_) => Some(ElemType::U16),
        Scalar::I16(_) => Some(ElemType::I16),
        Scalar::F16(_) => Some(ElemType::F16),
        Scalar::U32(_) => Some(ElemType::U32),
        Scalar::I32(_) => Some(ElemType::I32),
        Scalar::F32(_) => Some(ElemType::F32),
        Scalar::U64(_) => Some(ElemType::U64),
        Scalar::I64(_) => Some(ElemType::I64),
        Scalar::F64(_) => Some(ElemType::F64),
        Scalar::Unsupported => None,
    }
}

/// The data bytes of a scalar: its little-endian bytes, and `1` or `0` for a
/// boolean.
pub open spec fn spec_scalar_data(s: Scalar) -> Seq<u8> {
    match s {
        Scalar::Bool(b) => seq![if b { 1u8 } else { 0u8 }],
        Scalar::U8(v) => seq![v],
        Scalar::I8(v) => <i8 as LeElem>::spec_to_le(v),
        Scalar::U16(v) => <u16 as LeElem>::spec_to_le(v),
        Scalar::I16(v) => <i16 as LeElem>::spec_to_le(v),
        Scalar::F16(v) => <u16 as LeElem>::spec_to_le(v),
        Scalar::U32(v) => <u32 as LeElem>::spec_to_le(v),
        Scalar::I32(v) => <i32 as LeElem>::spec_to_le(v),
        Scalar::F32(v) => <u32 as LeElem>::spec_to_le(v),
        Scalar::U64(v) => <u64 as LeElem>::spec_to_le(v),
        Scalar::I64(v) => <i64 as LeElem>::spec_to_le(v),
        Scalar::F64(v) => <u64 as LeElem>::spec_to_le(v),
        Scalar::Unsupported => seq![],
    }
}

/// The scalar of element type `k` that one element's worth of bytes `d`
/// stands for; a boolean is true when its byte is nonzero.
pub open spec fn spec_scalar_from(k: ElemType, d: Seq<u8>) -> Scalar {
    match k {
        ElemType::Bool => Scalar::Bool(d[0] != 0),
        ElemType::U8 => Scalar::U8(d[0]),
        ElemType::I8 => Scalar::I8(<i8 as LeElem>::spec_from_le(d)),
        ElemType::U16 => Scalar::U16(<u16 as LeElem>::spec_from_le(d)),
        ElemType::I16 => Scalar::I16(<i16 as LeElem>::spec_from_le(d)),
        ElemType::F16 => Scalar::F16(<u16 as LeElem>::spec_from_le(d)),
        ElemType::U32 => Scalar::U32(<u32 as LeElem>::spec_from_le(d)),
        ElemType::I32 => Scalar::I32(<i32 as LeElem>::spec_from_le(d)),
        ElemType::F32 => Scalar::F32(<u32 as LeElem>::spec_from_le(d)),
        ElemType::U64 => Scalar::U64(<u64 as LeElem>::spec_from_le(d)),
        ElemType::I64 => Scalar::I64(<i64 as LeElem>::spec_from_le(d)),
        ElemType::F64 => Scalar::F64(<u64 as LeElem>::spec_from_le(d)),
    }
}

/// Decoding of a scalar's fields, given the `nd` flag, the element type that
/// the dtype names (`Some(None)` for a dtype that is present but unsupported)
/// and the data bytes. Missing fields are reported in the order `nd`, `type`,
/// `data`; then `nd` must be false; an unsupported dtype gives `Unsupported`
/// whatever the data; otherwise the data must be exactly one element.
pub open spec fn spec_decode_scalar(
    nd: Option<bool>,
    elem: Option<Option<ElemType>>,
    data: Option<Seq<u8>>,
) -> Result<Scalar, DecodeError> {
    match (nd, elem, data) {
        (None, _, _) => Err(DecodeError::MissingField(FieldName::Nd)),
        (Some(_), None, _) => Err(DecodeError::MissingField(FieldName::Type)),
        (Some(_), Some(_), None) => Err(DecodeError::MissingField(FieldName::Data)),
        (Some(nd), Some(elem), Some(d)) => if nd {
            Err(DecodeError::NdMismatch(false))
        } else {
            match elem {
                None => Ok(Scalar::Unsupported),
                Some(k) => if d.len() != spec_width(k) {
                    Err(DecodeError::InvalidScalarData(k))
                } else {
                    Ok(spec_scalar_from(k, d))
                },
            }
        },
    }
}

/// Decoding of the fields of a scalar's map as they were read.
pub open spec fn spec_decode_scalar_fields(f: ScalarFields) -> Result<Scalar, DecodeError> {
    spec_decode_scalar(
        f.nd,
        match f.dtype {
            Some(d) => Some(spec_dtype_elem(d)),
            None => None,
        },
        match f.data {
            Some(v) => Some(v@),
            None => None,
        },
    )
}

/// The scalar of element type `k` that the bytes `d`, one element long, stand for.
pub fn scalar_from_bytes(k: ElemType, d: &[u8]) -> (r: Scalar)
    requires
        d@.len() == spec_width(k),
    ensures
        r == spec_scalar_from(k, d@),
{
    match k {
        ElemType::Bool => Scalar::Bool(d[0] != 0),
        ElemType::U8 => Scalar::U8(d[0]),
        ElemType::I8 => Scalar::I8(<i8 as LeElem>::read_le(d)),
        ElemType::U16 => Scalar::U16(<u16 as LeElem>::read_le(d)),
        ElemType::I16 => Scalar::I16(<i16 as LeElem>::read_le(d)),
        ElemType::F16 => Scalar::F16(<u16 as LeElem>::read_le(d)),
        ElemType::U32 => Scalar::U32(<u32 as LeElem>::read_le(d)),
        ElemType::I32 => Scalar::I32(<i32 as LeElem>::read_le(d)),
        ElemType::F32 => Scalar::F32(<u32 as LeElem>::read_le(d)),
        ElemType::U64 => Scalar::U64(<u64 as LeElem>::read_le(d)),
        ElemType::I64 => Scalar::I64(<i64 as LeElem>::read_le(d)),
        ElemType::F64 => Scalar::F64(<u64 as LeElem>::read_le(d)),
    }
}

/// Whether a map key belongs to a scalar's map (`nd`, `type` or `data`); the
/// field it names, or `None` for any other key, which a scalar's map must not hold.
pub fn scalar_field(key: &str) -> (r: Option<FieldName>)
    ensures
        r == (match spec_field_name(key.spec_bytes()) {
            Some(FieldName::Kind) | Some(FieldName::Shape) => None,
            other => other,
        }),
{
    match field_name(key) {
        Some(FieldName::Kind) | Some(FieldName::Shape) => None,
        other => other,
    }
}

impl ScalarFields {
    /// No field read yet.
    pub fn new() -> (r: Self)
        ensures
            r.nd is None,
            r.dtype is None,
            r.data is None,
    {
        ScalarFields { nd: None, dtype: None, data: None }
    }
}

impl Scalar {
    /// The element type of this scalar; `None` for `Unsupported`.
    pub fn elem_type(&self) -> (r: Option<ElemType>)
        ensures
            r == spec_scalar_type(*self),
    {
        match self {
            Scalar::Bool(_) => Some(ElemType::Bool),
            Scalar::U8(_) => Some(ElemType::U8),
            Scalar::I8(_) => Some(ElemType::I8),
            Scalar::U16(_) => Some(ElemType::U16),
            Scalar::I16(_) => Some(ElemType::I16),
            Scalar::F16(_) => Some(ElemType::F16),
            Scalar::U32(_) => Some(ElemType::U32),
            Scalar::I32(_) => Some(ElemType::I32),
            Scalar::F32(_) => Some(ElemType::F32),
            Scalar::U64(_) => Some(ElemType::U64),
            Scalar::I64(_) => Some(ElemType::I64),
            Scalar::F64(_) => Some(ElemType::F64),
            Scalar::Unsupported => None,
        }
    }

    /// The scalar that the fields of a map describe, or why they describe none.
    pub fn from_fields(fields: ScalarFields) -> (r: Result<Scalar, DecodeError>)
        ensures
            r == spec_decode_scalar_fields(fields),
    {
        let nd = match fields.nd {
            Some(b) => b,
            None => return Err(DecodeError::MissingField(FieldName::Nd)),
        };
        let dtype = match fields.dtype {
            Some(d) => d,
            None => return Err(DecodeError::MissingField(FieldName::Type)),
        };
        let data = match fields.data {
            Some(d) => d,
            None => return Err(DecodeError::MissingField(FieldName::Data)),
        };
        if nd != SCALAR_ND {
            return Err(DecodeError::NdMismatch(SCALAR_ND));
        }
        match dtype_elem(&dtype) {
            None => Ok(Scalar::Unsupported),
            Some(k) => {
                if data.len() != k.width() {
                    Err(DecodeError::InvalidScalarData(k))
                } else {
                    Ok(scalar_from_bytes(k, data.as_slice()))
                }
            },
        }
    }

    /// The fields under which this scalar is written: `nd` false, the type
    /// string of its element type and its data bytes. An `Unsupported`
    /// scalar cannot be written.
    pub fn to_fields(&self) -> (r: Result<EncodedScalar, EncodeError>)
        ensures
            match spec_scalar_type(*self) {
                None => r == Err::<EncodedScalar, EncodeError>(EncodeError::UnsupportedDtype),
                Some(k) => r matches Ok(e) && !e.nd && e.dtype.spec_bytes() == spec_type_bytes(k)
                    && e.data@ == spec_scalar_data(*self),
            },
    {
        let k = match self.elem_type() {
            Some(k) => k,
            None => return Err(EncodeError::UnsupportedDtype),
        };
        let mut data: Vec<u8> = Vec::new();
        match self {
            Scalar::Bool(b) => data.push(if *b { 1u8 } else { 0u8 }),
            Scalar::U8(v) => data.push(*v),
            Scalar::I8(v) => <i8 as LeElem>::push_le(*v, &mut data),
            Scalar::U16(v) => <u16 as LeElem>::push_le(*v, &mut data),
            Scalar::I16(v) => <i16 as LeElem>::push_le(*v, &mut data),
            Scalar::F16(v) => <u16 as LeElem>::push_le(*v, &mut data),
            Scalar::U32(v) => <u32 as LeElem>::push_le(*v, &mut data),
            Scalar::I32(v) => <i32 as LeElem>::push_le(*v, &mut data),
            Scalar::F32(v) => <u32 as LeElem>::push_le(*v, &mut data),
            Scalar::U64(v) => <u64 as LeElem>::push_le(*v, &mut data),
            Scalar::I64(v) => <i64 as LeElem>::push_le(*v, &mut data),
            Scalar::F64(v) => <u64 as LeElem>::push_le(*v, &mut data),
            Scalar::Unsupported => {},
        }
        assert(data@ =~= spec_scalar_data(*self));
        Ok(EncodedScalar { nd: SCALAR_ND, dtype: k.type_str(), data })
    }
}

/// Writing a supported scalar and reading the written fields back gives the
/// same scalar.
pub proof fn lemma_scalar_roundtrip(s: Scalar)
    requires
        s != Scalar::Unsupported,
    ensures
        spec_scalar_type(s) matches Some(k) && spec_decode_scalar(
            Some(false),
            Some(spec_elem_type(spec_type_bytes(k))),
            Some(spec_scalar_data(s)),
        ) == Ok::<Scalar, DecodeError>(s),
{
    let k = spec_scalar_type(s).unwrap();
    lemma_type_str_roundtrip(k);
    match s {
        Scalar::I8(v) => <i8 as LeElem>::lemma_to_le(v),
        Scalar::U16(v) => <u16 as LeElem>::lemma_to_le(v),
        Scalar::I16(v) => <i16 as LeElem>::lemma_to_le(v),
        Scalar::F16(v) => <u16 as LeElem>::lemma_to_le(v),
        Scalar::U32(v) => <u32 as LeElem>::lemma_to_le(v),
        Scalar::I32(v) => <i32 as LeElem>::lemma_to_le(v),
        Scalar::F32(v) => <u32 as LeElem>::lemma_to_le(v),
        Scalar::U64(v) => <u64 as LeElem>::lemma_to_le(v),
        Scalar::I64(v) => <i64 as LeElem>::lemma_to_le(v),
        Scalar::F64(v) => <u64 as LeElem>::lemma_to_le(v),
        _ => {},
    }
}

/// Reading a supported scalar from `nd` false, a type string and one
/// element's worth of data, then writing it, gives back the same type
/// string and the same data, except that a boolean's nonzero byte is
/// written back as `1`.
pub proof fn lemma_scalar_rewrite(k: ElemType, d: Seq<u8>)
    requires
        d.len() == spec_width(k),
    ensures
        spec_decode_scalar(Some(false), Some(Some(k)), Some(d)) matches Ok(s) && spec_scalar_type(s)
            == Some(k) && spec_scalar_data(s) == (if k == ElemType::Bool {
            seq![if d[0] != 0 { 1u8 } else { 0u8 }]
        } else {
            d
        }),
{
    match k {
        ElemType::U8 => {
            assert(seq![d[0]] =~= d);
        },
        ElemType::I8 => <i8 as LeElem>::lemma_from_le(d),
        ElemType::U16 | ElemType::F16 => <u16 as LeElem>::lemma_from_le(d),
        ElemType::I16 => <i16 as LeElem>::lemma_from_le(d),
        ElemType::U32 | ElemType::F32 => <u32 as LeElem>::lemma_from_le(d),
        ElemType::I32 => <i32 as LeElem>::lemma_from_le(d),
        ElemType::U64 | ElemType::F64 => <u64 as LeElem>::lemma_from_le(d),
        ElemType::I64 => <i64 as LeElem>::lemma_from_le(d),
        ElemType::Bool => {},
    }
}

/// A scalar read from `nd` false, a supported type and one element's worth of
/// data is of that type: a boolean is true when its byte is nonzero, a byte
/// is itself, and wider numbers (floating-point ones by their bits) are read
/// with the first byte least significant, signed ones in two's complement.
pub proof fn lemma_scalar_decode_le(k: ElemType, d: Seq<u8>)
    requires
        d.len() == spec_width(k),
    ensures
        spec_decode_scalar(Some(false), Some(Some(k)), Some(d)) matches Ok(s) && spec_scalar_type(s)
            == Some(k) && match s {
            Scalar::Bool(b) => b == (d[0] != 0),
            Scalar::U8(v) => v == d[0],
            Scalar::I8(v) => v as int == d[0] - (if d[0] >= 0x80 { 0x100int } else { 0 }),
            Scalar::U16(v) => v as int == le2_value(d),
            Scalar::I16(v) => v as int == le2_value(d) - (if d[1] >= 0x80 { 0x1_0000int } else { 0 }),
            Scalar::F16(v) => v as int == le2_value(d),
            Scalar::U32(v) => v as int == le4_value(d),
            Scalar::I32(v) => v as int == le4_value(d) - (if d[3] >= 0x80 {
                0x1_0000_0000int
            } else {
                0
            }),
            Scalar::F32(v) => v as int == le4_value(d),
            Scalar::U64(v) => v as int == le8_value(d),
            Scalar::I64(v) => v as int == le8_value(d) - (if d[7] >= 0x80 {
                0x1_0000_0000_0000_0000int
            } else {
                0
            }),
            Scalar::F64(v) => v as int == le8_value(d),
            Scalar::Unsupported => false,
        },
{
    match k {
        ElemType::I8 => lemma_i8_from_le(d),
        ElemType::U16 | ElemType::F16 => lemma_u16_from_le(d),
        ElemType::I16 => lemma_i16_from_le(d),
        ElemType::U32 | ElemType::F32 => lemma_u32_from_le(d),
        ElemType::I32 => lemma_i32_from_le(d),
        ElemType::U64 | ElemType::F64 => lemma_u64_from_le(d),
        ElemType::I64 => lemma_i64_from_le(d),
        _ => {},
    }
}

/// The data written for a supported scalar is one element long: `1` or `0`
/// for a boolean, the byte itself, and for wider numbers (floating-point
/// ones by their bits) the bytes that stand for the number with the first
/// byte least significant, signed ones in two's complement.
pub proof fn lemma_scalar_data_le(s: Scalar)
    ensures
        spec_scalar_type(s) matches Some(k) ==> spec_scalar_data(s).len() == spec_width(k),
        match s {
            Scalar::Bool(b) => spec_scalar_data(s) == seq![if b { 1u8 } else { 0u8 }],
            Scalar::U8(v) => spec_scalar_data(s) == seq![v],
            Scalar::I8(v) => spec_scalar_data(s)[0] as int == (if v < 0 { v + 0x100 } else { v as int }),
            Scalar::U16(v) => le2_value(spec_scalar_data(s)) == v as int,
            Scalar::I16(v) => le2_value(spec_scalar_data(s)) == (if v < 0 {
                v + 0x1_0000
            } else {
                v as int
            }),
            Scalar::F16(v) => le2_value(spec_scalar_data(s)) == v as int,
            Scalar::U32(v) => le4_value(spec_scalar_data(s)) == v as int,
            Scalar::I32(v) => le4_value(spec_scalar_data(s)) == (if v < 0 {
                v + 0x1_0000_0000
            } else {
                v as int
            }),
            Scalar::F32(v) => le4_value(spec_scalar_data(s)) == v as int,
            Scalar::U64(v) => le8_value(spec_scalar_data(s)) == v as int,
            Scalar::I64(v) => le8_value(spec_scalar_data(s)) == (if v < 0 {
                v + 0x1_0000_0000_0000_0000
            } else {
                v as int
            }),
            Scalar::F64(v) => le8_value(spec_scalar_data(s)) == v as int,
            Scalar::Unsupported => spec_scalar_type(s) is None,
        },
{
    match s {
        Scalar::I8(v) => lemma_i8_to_le(v),
        Scalar::U16(v) => lemma_u16_to_le(v),
        Scalar::I16(v) => lemma_i16_to_le(v),
        Scalar::F16(v) => lemma_u16_to_le(v),
        Scalar::U32(v) => lemma_u32_to_le(v),
        Scalar::I32(v) => lemma_i32_to_le(v),
        Scalar::F32(v) => lemma_u32_to_le(v),
        Scalar::U64(v) => lemma_u64_to_le(v),
        Scalar::I64(v) => lemma_i64_to_le(v),
        Scalar::F64(v) => lemma_u64_to_le(v),
        _ => {},
    }
}

} // verus!
