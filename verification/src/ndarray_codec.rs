//! Owned NumPy arrays: decoding from and encoding to the fields of their
//! msgpack-numpy map (`nd` true, `type`, `kind`, `shape`, `data`).
use vstd::prelude::*;
use vstd::slice::slice_to_vec;
use vstd::string::StringSliceAdditionalSpecFns;
use crate::array::{ArrayModel, DenseArray, ShapeError, check_owned, model_wf, spec_check_owned};
use crate::casts::reuse_bytes_as_i8;
use crate::dtype::{
    DType, ElemType, dtype_elem, lemma_type_str_roundtrip, spec_dtype_elem, spec_elem_type,
    spec_type_bytes, spec_width,
};
use crate::error::{ArrayError, DecodeError, EncodeError, FieldName};
use crate::scalar::{Scalar, spec_scalar_data, spec_scalar_from};
use crate::le::{
    LeElem, decode_all, bytes_to_vec, encode_all, encode_slice, lemma_decode_encode, lemma_encode_chunk,
    lemma_encode_decode, lemma_encode_len,
    spec_i8_of_byte,
};

verus! {

/// An owned n-dimensional NumPy array of one of the supported element types.
/// Floating-point arrays hold the IEEE-754 bit patterns of their elements.
#[derive(Debug, PartialEq)]
pub enum NDArray {
    Bool(DenseArray<bool>),
    U8(DenseArray<u8>),
    I8(DenseArray<i8>),
    U16(DenseArray<u16>),
    I16(DenseArray<i16>),
    F16(DenseArray<u16>),
    U32(DenseArray<u32>),
    I32(DenseArray<i32>),
    F32(DenseArray<u32>),
    U64(DenseArray<u64>),
    I64(DenseArray<i64>),
    F64(DenseArray<u64>),
    /// An array of a dtype that this crate does not decode.
    Unsupported,
}

/// The mathematical content of an `NDArray`.
#[verifier::ext_equal]
pub enum NDArrayModel {
    Bool(ArrayModel<bool>),
    U8(ArrayModel<u8>),
    I8(ArrayModel<i8>),
    U16(ArrayModel<u16>),
    I16(ArrayModel<i16>),
    F16(ArrayModel<u16>),
    U32(ArrayModel<u32>),
    I32(ArrayModel<i32>),
    F32(ArrayModel<u32>),
    U64(ArrayModel<u64>),
    I64(ArrayModel<i64>),
    F64(ArrayModel<u64>),
    Unsupported,
}

impl View for NDArray {
    type V = NDArrayModel;

    open spec fn view(&self) -> NDArrayModel {
        match self {
            NDArray::Bool(a) => NDArrayModel::Bool(a@),
            NDArray::U8(a) => NDArrayModel::U8(a@),
            NDArray::I8(a) => NDArrayModel::I8(a@),
            NDArray::U16(a) => NDArrayModel::U16(a@),
            NDArray::I16(a) => NDArrayModel::I16(a@),
            NDArray::F16(a) => NDArrayModel::F16(a@),
            NDArray::U32(a) => NDArrayModel::U32(a@),
            NDArray::I32(a) => NDArrayModel::I32(a@),
            NDArray::F32(a) => NDArrayModel::F32(a@),
            NDArray::U64(a) => NDArrayModel::U64(a@),
            NDArray::I64(a) => NDArrayModel::I64(a@),
            NDArray::F64(a) => NDArrayModel::F64(a@),
            NDArray::Unsupported => NDArrayModel::Unsupported,
        }
    }
}

/// The fields of an array's map as they were read; a field that did not occur
/// is `None`, and a field that occurred twice holds its last value.
#[derive(Debug)]
pub struct ArrayFields {
    pub nd: Option<bool>,
    pub dtype: Option<DType>,
    pub kind: Option<Vec<u8>>,
    pub shape: Option<Vec<usize>>,
    pub data: Option<Vec<u8>>,
}

/// The fields of an array's map as they are written.
#[derive(Debug)]
pub struct EncodedArray {
    pub nd: bool,
    pub dtype: &'static str,
    pub kind: Vec<u8>,
    pub shape: Vec<usize>,
    pub data: Vec<u8>,
}

/// The `nd` flag under which arrays are written and that they must carry.
pub const ARRAY_ND: bool = true;

/// The elements of an array in logical order, borrowed from where they are
/// stored. Floating-point elements are given by their bit patterns.
pub enum ElemsRef<'a> {
    Bool(&'a [bool]),
    U8(&'a [u8]),
    I8(&'a [i8]),
    U16(&'a [u16]),
    I16(&'a [i16]),
    F16(&'a [u16]),
    U32(&'a [u32]),
    I32(&'a [i32]),
    F32(&'a [u32]),
    U64(&'a [u64]),
    I64(&'a [i64]),
    F64(&'a [u64]),
}

impl<'a> ElemsRef<'a> {
    /// The number of elements.
    pub open spec fn spec_len(&self) -> nat {
        match self {
            ElemsRef::Bool(s) => s@.len(),
            ElemsRef::U8(s) => s@.len(),
            ElemsRef::I8(s) => s@.len(),
            ElemsRef::U16(s) => s@.len(),
            ElemsRef::I16(s) => s@.len(),
            ElemsRef::F16(s) => s@.len(),
            ElemsRef::U32(s) => s@.len(),
            ElemsRef::I32(s) => s@.len(),
            ElemsRef::F32(s) => s@.len(),
            ElemsRef::U64(s) => s@.len(),
            ElemsRef::I64(s) => s@.len(),
            ElemsRef::F64(s) => s@.len(),
        }
    }

    /// The element at index `i`, as a scalar of its type.
    pub open spec fn spec_elem(&self, i: int) -> Scalar {
        match self {
            ElemsRef::Bool(s) => Scalar::Bool(s@[i]),
            ElemsRef::U8(s) => Scalar::U8(s@[i]),
            ElemsRef::I8(s) => Scalar::I8(s@[i]),
            ElemsRef::U16(s) => Scalar::U16(s@[i]),
            ElemsRef::I16(s) => Scalar::I16(s@[i]),
            ElemsRef::F16(s) => Scalar::F16(s@[i]),
            ElemsRef::U32(s) => Scalar::U32(s@[i]),
            ElemsRef::I32(s) => Scalar::I32(s@[i]),
            ElemsRef::F32(s) => Scalar::F32(s@[i]),
            ElemsRef::U64(s) => Scalar::U64(s@[i]),
            ElemsRef::I64(s) => Scalar::I64(s@[i]),
            ElemsRef::F64(s) => Scalar::F64(s@[i]),
        }
    }

    /// The array that these elements form with the given shape.
    pub open spec fn spec_model(&self, shape: Seq<usize>) -> NDArrayModel {
        match self {
            ElemsRef::Bool(s) => NDArrayModel::Bool(ArrayModel { shape, elems: s@ }),
            ElemsRef::U8(s) => NDArrayModel::U8(ArrayModel { shape, elems: s@ }),
            ElemsRef::I8(s) => NDArrayModel::I8(ArrayModel { shape, elems: s@ }),
            ElemsRef::U16(s) => NDArrayModel::U16(ArrayModel { shape, elems: s@ }),
            ElemsRef::I16(s) => NDArrayModel::I16(ArrayModel { shape, elems: s@ }),
            ElemsRef::F16(s) => NDArrayModel::F16(ArrayModel { shape, elems: s@ }),
            ElemsRef::U32(s) => NDArrayModel::U32(ArrayModel { shape, elems: s@ }),
            ElemsRef::I32(s) => NDArrayModel::I32(ArrayModel { shape, elems: s@ }),
            ElemsRef::F32(s) => NDArrayModel::F32(ArrayModel { shape, elems: s@ }),
            ElemsRef::U64(s) => NDArrayModel::U64(ArrayModel { shape, elems: s@ }),
            ElemsRef::I64(s) => NDArrayModel::I64(ArrayModel { shape, elems: s@ }),
            ElemsRef::F64(s) => NDArrayModel::F64(ArrayModel { shape, elems: s@ }),
        }
    }
}

/// The fields under which borrowed elements with the given shape are
/// written, exactly as `NDArray::to_fields` writes the array they form,
/// without first copying them into an array; the shape must name exactly the
/// elements.
pub fn encode_elements(shape: &[usize], elems: ElemsRef<'_>) -> (r: Result<EncodedArray, ShapeError>)
    ensures
        match spec_check_owned(shape@, elems.spec_len()) {
            Err(e) => r matches Err(e2) && e2 == e,
            Ok(_) => spec_encode_array(elems.spec_model(shape@)) matches Some((k, sh, data)) && (
            r matches Ok(e) && e.nd == ARRAY_ND && e.dtype.spec_bytes() == spec_type_bytes(k)
                && e.kind@.len() == 0 && e.shape@ == sh && e.data@ == data),
        },
        r matches Ok(e) ==> e.shape@ == shape@,
{
    let (k, len) = match &elems {
        ElemsRef::Bool(s) => (ElemType::Bool, s.len()),
        ElemsRef::U8(s) => (ElemType::U8, s.len()),
        ElemsRef::I8(s) => (ElemType::I8, s.len()),
        ElemsRef::U16(s) => (ElemType::U16, s.len()),
        ElemsRef::I16(s) => (ElemType::I16, s.len()),
        ElemsRef::F16(s) => (ElemType::F16, s.len()),
        ElemsRef::U32(s) => (ElemType::U32, s.len()),
        ElemsRef::I32(s) => (ElemType::I32, s.len()),
        ElemsRef::F32(s) => (ElemType::F32, s.len()),
        ElemsRef::U64(s) => (ElemType::U64, s.len()),
        ElemsRef::I64(s) => (ElemType::I64, s.len()),
        ElemsRef::F64(s) => (ElemType::F64, s.len()),
    };
    check_owned(shape, len)?;
    let data = match elems {
        ElemsRef::Bool(s) => bytes_of_bools(s),
        ElemsRef::U8(s) => slice_to_vec(s),
        ElemsRef::I8(s) => encode_slice(s),
        ElemsRef::U16(s) => encode_slice(s),
        ElemsRef::I16(s) => encode_slice(s),
        ElemsRef::F16(s) => encode_slice(s),
        ElemsRef::U32(s) => encode_slice(s),
        ElemsRef::I32(s) => encode_slice(s),
        ElemsRef::F32(s) => encode_slice(s),
        ElemsRef::U64(s) => encode_slice(s),
        ElemsRef::I64(s) => encode_slice(s),
        ElemsRef::F64(s) => encode_slice(s),
    };
    Ok(EncodedArray { nd: ARRAY_ND, dtype: k.type_str(), kind: Vec::new(), shape: slice_to_vec(shape), data })
}

/// The booleans that bytes stand for: nonzero is true.
pub open spec fn spec_bools_of_bytes(d: Seq<u8>) -> Seq<bool> {
    d.map_values(|b: u8| b != 0)
}

/// The bytes of booleans: `1` for true, `0` for false.
pub open spec fn spec_bytes_of_bools(v: Seq<bool>) -> Seq<u8> {
    v.map_values(|b: bool| if b { 1u8 } else { 0u8 })
}

/// The array of elements of type `T` (element type `k`) that little-endian
/// bytes and a shape stand for: the data must be a whole number of elements,
/// and the elements must fill the shape exactly.
pub open spec fn spec_array_from_bytes<T: LeElem>(k: ElemType, shape: Seq<usize>, d: Seq<u8>) -> Result<
    ArrayModel<T>,
    ArrayError,
> {
    if d.len() % T::spec_width() != 0 {
        Err(ArrayError::InvalidDataLength(k))
    } else {
        match spec_check_owned(shape, d.len() / T::spec_width()) {
            Err(e) => Err(ArrayError::Shape(e)),
            Ok(_) => Ok(ArrayModel { shape, elems: decode_all::<T>(d) }),
        }
    }
}

/// Lifts the result of decoding one element type into an array result.
pub open spec fn spec_lift<T>(r: Result<ArrayModel<T>, ArrayError>, f: spec_fn(ArrayModel<T>) -> NDArrayModel) -> Result<
    NDArrayModel,
    DecodeError,
> {
    match r {
        Ok(m) => Ok(f(m)),
        Err(e) => Err(DecodeError::Array(e)),
    }
}

/// The array of element type `k` that a shape and data bytes stand for.
/// Booleans and unsigned bytes are taken byte by byte and must fill the shape
/// exactly; the other types go through `spec_array_from_bytes`.
pub open spec fn spec_array_of(k: ElemType, shape: Seq<usize>, d: Seq<u8>) -> Result<NDArrayModel, DecodeError> {
    match k {
        ElemType::Bool => match spec_check_owned(shape, d.len()) {
            Err(e) => Err(DecodeError::Shape(e)),
            Ok(_) => Ok(NDArrayModel::Bool(ArrayModel { shape, elems: spec_bools_of_bytes(d) })),
        },
        ElemType::U8 => match spec_check_owned(shape, d.len()) {
            Err(e) => Err(DecodeError::Shape(e)),
            Ok(_) => Ok(NDArrayModel::U8(ArrayModel { shape, elems: d })),
        },
        ElemType::I8 => spec_lift(spec_array_from_bytes::<i8>(k, shape, d), |m| NDArrayModel::I8(m)),
        ElemType::U16 => spec_lift(spec_array_from_bytes::<u16>(k, shape, d), |m| NDArrayModel::U16(m)),
        ElemType::I16 => spec_lift(spec_array_from_bytes::<i16>(k, shape, d), |m| NDArrayModel::I16(m)),
        ElemType::F16 => spec_lift(spec_array_from_bytes::<u16>(k, shape, d), |m| NDArrayModel::F16(m)),
        ElemType::U32 => spec_lift(spec_array_from_bytes::<u32>(k, shape, d), |m| NDArrayModel::U32(m)),
        ElemType::I32 => spec_lift(spec_array_from_bytes::<i32>(k, shape, d), |m| NDArrayModel::I32(m)),
        ElemType::F32 => spec_lift(spec_array_from_bytes::<u32>(k, shape, d), |m| NDArrayModel::F32(m)),
        ElemType::U64 => spec_lift(spec_array_from_bytes::<u64>(k, shape, d), |m| NDArrayModel::U64(m)),
        ElemType::I64 => spec_lift(spec_array_from_bytes::<i64>(k, shape, d), |m| NDArrayModel::I64(m)),
        ElemType::F64 => spec_lift(spec_array_from_bytes::<u64>(k, shape, d), |m| NDArrayModel::F64(m)),
    }
}

/// Decoding of an array's fields, given the `nd` flag, the element type that
/// the dtype names (`Some(None)` for a dtype that is present but
/// unsupported), whether `kind` is present, the shape and the data, where
/// `of` turns a supported element type, a shape and data into the result.
/// Missing fields are reported in the order `nd`, `type`, `kind`, `shape`,
/// `data`; then `nd` must be true; an unsupported dtype gives `Unsupported`
/// whatever the shape and data.
pub open spec fn spec_decode_with(
    nd: Option<bool>,
    elem: Option<Option<ElemType>>,
    has_kind: bool,
    shape: Option<Seq<usize>>,
    data: Option<Seq<u8>>,
    of: spec_fn(ElemType, Seq<usize>, Seq<u8>) -> Result<NDArrayModel, DecodeError>,
) -> Result<NDArrayModel, DecodeError> {
    if nd is None {
        Err(DecodeError::MissingField(FieldName::Nd))
    } else if elem is None {
        Err(DecodeError::MissingField(FieldName::Type))
    } else if !has_kind {
        Err(DecodeError::MissingField(FieldName::Kind))
    } else if shape is None {
        Err(DecodeError::MissingField(FieldName::Shape))
    } else if data is None {
        Err(DecodeError::MissingField(FieldName::Data))
    } else if !nd.unwrap() {
        Err(DecodeError::NdMismatch(true))
    } else {
        match elem.unwrap() {
            None => Ok(NDArrayModel::Unsupported),
            Some(k) => of(k, shape.unwrap(), data.unwrap()),
        }
    }
}

/// Decoding of an owned array's fields (see `spec_decode_with`), each
/// supported element type going through `spec_array_of`.
pub open spec fn spec_decode_array(
    nd: Option<bool>,
    elem: Option<Option<ElemType>>,
    has_kind: bool,
    shape: Option<Seq<usize>>,
    data: Option<Seq<u8>>,
) -> Result<NDArrayModel, DecodeError> {
    spec_decode_with(nd, elem, has_kind, shape, data, |k, s, d| spec_array_of(k, s, d))
}

/// Decoding of the fields of an array's map as they were read.
pub open spec fn spec_decode_array_fields(f: ArrayFields) -> Result<NDArrayModel, DecodeError> {
    spec_decode_array(
        f.nd,
        match f.dtype {
            Some(d) => Some(spec_dtype_elem(d)),
            None => None,
        },
        f.kind is Some,
        match f.shape {
            Some(s) => Some(s@),
            None => None,
        },
        match f.data {
            Some(v) => Some(v@),
            None => None,
        },
    )
}

/// The element type, shape and data bytes under which an array is written;
/// `None` for `Unsupported`.
pub open spec fn spec_encode_array(m: NDArrayModel) -> Option<(ElemType, Seq<usize>, Seq<u8>)> {
    match m {
        NDArrayModel::Bool(a) => Some((ElemType::Bool, a.shape, spec_bytes_of_bools(a.elems))),
        NDArrayModel::U8(a) => Some((ElemType::U8, a.shape, a.elems)),
        NDArrayModel::I8(a) => Some((ElemType::I8, a.shape, encode_all(a.elems))),
        NDArrayModel::U16(a) => Some((ElemType::U16, a.shape, encode_all(a.elems))),
        NDArrayModel::I16(a) => Some((ElemType::I16, a.shape, encode_all(a.elems))),
        NDArrayModel::F16(a) => Some((ElemType::F16, a.shape, encode_all(a.elems))),
        NDArrayModel::U32(a) => Some((ElemType::U32, a.shape, encode_all(a.elems))),
        NDArrayModel::I32(a) => Some((ElemType::I32, a.shape, encode_all(a.elems))),
        NDArrayModel::F32(a) => Some((ElemType::F32, a.shape, encode_all(a.elems))),
        NDArrayModel::U64(a) => Some((ElemType::U64, a.shape, encode_all(a.elems))),
        NDArrayModel::I64(a) => Some((ElemType::I64, a.shape, encode_all(a.elems))),
        NDArrayModel::F64(a) => Some((ElemType::F64, a.shape, encode_all(a.elems))),
        NDArrayModel::Unsupported => None,
    }
}

/// The element type of an array; `None` for `Unsupported`.
pub open spec fn spec_model_type(m: NDArrayModel) -> Option<ElemType> {
    match m {
        NDArrayModel::Bool(a) => Some(ElemType::Bool),
        NDArrayModel::U8(a) => Some(ElemType::U8),
        NDArrayModel::I8(a) => Some(ElemType::I8),
        NDArrayModel::U16(a) => Some(ElemType::U16),
        NDArrayModel::I16(a) => Some(ElemType::I16),
        NDArrayModel::F16(a) => Some(ElemType::F16),
        NDArrayModel::U32(a) => Some(ElemType::U32),
        NDArrayModel::I32(a) => Some(ElemType::I32),
        NDArrayModel::F32(a) => Some(ElemType::F32),
        NDArrayModel::U64(a) => Some(ElemType::U64),
        NDArrayModel::I64(a) => Some(ElemType::I64),
        NDArrayModel::F64(a) => Some(ElemType::F64),
        NDArrayModel::Unsupported => None,
    }
}

/// The shape of an array; empty for `Unsupported`.
pub open spec fn spec_model_shape(m: NDArrayModel) -> Seq<usize> {
    match m {
        NDArrayModel::Bool(a) => a.shape,
        NDArrayModel::U8(a) => a.shape,
        NDArrayModel::I8(a) => a.shape,
        NDArrayModel::U16(a) => a.shape,
        NDArrayModel::I16(a) => a.shape,
        NDArrayModel::F16(a) => a.shape,
        NDArrayModel::U32(a) => a.shape,
        NDArrayModel::I32(a) => a.shape,
        NDArrayModel::F32(a) => a.shape,
        NDArrayModel::U64(a) => a.shape,
        NDArrayModel::I64(a) => a.shape,
        NDArrayModel::F64(a) => a.shape,
        NDArrayModel::Unsupported => seq![],
    }
}

/// The number of elements of an array; zero for `Unsupported`.
pub open spec fn spec_model_len(m: NDArrayModel) -> nat {
    match m {
        NDArrayModel::Bool(a) => a.elems.len(),
        NDArrayModel::U8(a) => a.elems.len(),
        NDArrayModel::I8(a) => a.elems.len(),
        NDArrayModel::U16(a) => a.elems.len(),
        NDArrayModel::I16(a) => a.elems.len(),
        NDArrayModel::F16(a) => a.elems.len(),
        NDArrayModel::U32(a) => a.elems.len(),
        NDArrayModel::I32(a) => a.elems.len(),
        NDArrayModel::F32(a) => a.elems.len(),
        NDArrayModel::U64(a) => a.elems.len(),
        NDArrayModel::I64(a) => a.elems.len(),
        NDArrayModel::F64(a) => a.elems.len(),
        NDArrayModel::Unsupported => 0,
    }
}

/// The element at index `i` of an array, as a scalar of the array's type.
pub open spec fn spec_elem_scalar(m: NDArrayModel, i: int) -> Scalar {
    match m {
        NDArrayModel::Bool(a) => Scalar::Bool(a.elems[i]),
        NDArrayModel::U8(a) => Scalar::U8(a.elems[i]),
        NDArrayModel::I8(a) => Scalar::I8(a.elems[i]),
        NDArrayModel::U16(a) => Scalar::U16(a.elems[i]),
        NDArrayModel::I16(a) => Scalar::I16(a.elems[i]),
        NDArrayModel::F16(a) => Scalar::F16(a.elems[i]),
        NDArrayModel::U32(a) => Scalar::U32(a.elems[i]),
        NDArrayModel::I32(a) => Scalar::I32(a.elems[i]),
        NDArrayModel::F32(a) => Scalar::F32(a.elems[i]),
        NDArrayModel::U64(a) => Scalar::U64(a.elems[i]),
        NDArrayModel::I64(a) => Scalar::I64(a.elems[i]),
        NDArrayModel::F64(a) => Scalar::F64(a.elems[i]),
        NDArrayModel::Unsupported => Scalar::Unsupported,
    }
}

/// Whether every array that a model holds is well formed.
pub open spec fn spec_ndarray_wf(m: NDArrayModel) -> bool {
    match m {
        NDArrayModel::Bool(a) => model_wf(a),
        NDArrayModel::U8(a) => model_wf(a),
        NDArrayModel::I8(a) => model_wf(a),
        NDArrayModel::U16(a) => model_wf(a),
        NDArrayModel::I16(a) => model_wf(a),
        NDArrayModel::F16(a) => model_wf(a),
        NDArrayModel::U32(a) => model_wf(a),
        NDArrayModel::I32(a) => model_wf(a),
        NDArrayModel::F32(a) => model_wf(a),
        NDArrayModel::U64(a) => model_wf(a),
        NDArrayModel::I64(a) => model_wf(a),
        NDArrayModel::F64(a) => model_wf(a),
        NDArrayModel::Unsupported => true,
    }
}

/// The booleans that bytes stand for: nonzero is true.
pub fn bools_of_bytes(d: &[u8]) -> (r: Vec<bool>)
    ensures
        r@ == spec_bools_of_bytes(d@),
{
    let mut out: Vec<bool> = Vec::with_capacity(d.len());
    let mut i: usize = 0;
    while i < d.len()
        invariant
            0 <= i <= d@.len(),
            out@.len() == i,
            forall|j: int| 0 <= j < i ==> out@[j] == (d@[j] != 0),
        decreases d@.len() - i,
    {
        out.push(d[i] != 0);
        i = i + 1;
    }
    assert(out@ =~= spec_bools_of_bytes(d@));
    out
}

/// The bytes of booleans: `1` for true, `0` for false.
pub fn bytes_of_bools(v: &[bool]) -> (r: Vec<u8>)
    ensures
        r@ == spec_bytes_of_bools(v@),
{
    let mut out: Vec<u8> = Vec::with_capacity(v.len());
    let mut i: usize = 0;
    while i < v.len()
        invariant
            0 <= i <= v@.len(),
            out@.len() == i,
            forall|j: int| 0 <= j < i ==> out@[j] == (if v@[j] { 1u8 } else { 0u8 }),
        decreases v@.len() - i,
    {
        out.push(if v[i] { 1u8 } else { 0u8 });
        i = i + 1;
    }
    assert(out@ =~= spec_bytes_of_bools(v@));
    out
}

/// The array of element type `k` over little-endian `data` with the given
/// shape: `InvalidDataLength` when the data is not a whole number of
/// elements, else the shape error of the decoded elements, if any.
pub fn create_ndarray_from_bytes<T: LeElem>(k: ElemType, data: &[u8], shape: Vec<usize>) -> (r: Result<
    DenseArray<T>,
    ArrayError,
>)
    ensures
        match spec_array_from_bytes::<T>(k, shape@, data@) {
            Ok(m) => r matches Ok(a) && a@ == m,
            Err(e) => r matches Err(e2) && e2 == e,
        },
{
    let values = match bytes_to_vec::<T>(data) {
        Some(v) => v,
        None => return Err(ArrayError::InvalidDataLength(k)),
    };
    proof {
        T::lemma_width();
    }
    match DenseArray::from_shape_vec(shape, values) {
        Ok(a) => Ok(a),
        Err(e) => Err(ArrayError::Shape(e)),
    }
}

/// The signed-byte array over `data` with the given shape. The byte buffer's
/// allocation is handed over to the elements when `bytemuck` can do so,
/// which it always can; otherwise the bytes are copied.
pub fn create_i8_ndarray_from_bytes(data: Vec<u8>, shape: Vec<usize>) -> (r: Result<
    DenseArray<i8>,
    ArrayError,
>)
    ensures
        match spec_array_from_bytes::<i8>(ElemType::I8, shape@, data@) {
            Ok(m) => r matches Ok(a) && a@ == m,
            Err(e) => r matches Err(e2) && e2 == e,
        },
{
    let ghost bytes = data@;
    proof {
        assert(decode_all::<i8>(bytes) =~= bytes.map_values(|b: u8| spec_i8_of_byte(b))) by {
            assert forall|i: int| 0 <= i < bytes.len() implies #[trigger] decode_all::<i8>(bytes)[i]
                == spec_i8_of_byte(bytes[i]) by {
                assert(bytes.subrange(i * 1, i * 1 + 1)[0] == bytes[i]);
            }
        }
    }
    let values = match reuse_bytes_as_i8(data) {
        Ok(v) => v,
        Err(d) => match bytes_to_vec::<i8>(d.as_slice()) {
            Some(v) => v,
            None => return Err(ArrayError::InvalidDataLength(ElemType::I8)),
        },
    };
    match DenseArray::from_shape_vec(shape, values) {
        Ok(a) => Ok(a),
        Err(e) => Err(ArrayError::Shape(e)),
    }
}

impl ArrayFields {
    /// No field read yet.
    pub fn new() -> (r: Self)
        ensures
            r.nd is None,
            r.dtype is None,
            r.kind is None,
            r.shape is None,
            r.data is None,
    {
        ArrayFields { nd: None, dtype: None, kind: None, shape: None, data: None }
    }
}

impl NDArray {
    /// The element type of this array; `None` for `Unsupported`.
    pub fn elem_type(&self) -> (r: Option<ElemType>)
        ensures
            r == (match spec_encode_array(self@) {
                Some(e) => Some(e.0),
                None => None,
            }),
    {
        match self {
            NDArray::Bool(_) => Some(ElemType::Bool),
            NDArray::U8(_) => Some(ElemType::U8),
            NDArray::I8(_) => Some(ElemType::I8),
            NDArray::U16(_) => Some(ElemType::U16),
            NDArray::I16(_) => Some(ElemType::I16),
            NDArray::F16(_) => Some(ElemType::F16),
            NDArray::U32(_) => Some(ElemType::U32),
            NDArray::I32(_) => Some(ElemType::I32),
            NDArray::F32(_) => Some(ElemType::F32),
            NDArray::U64(_) => Some(ElemType::U64),
            NDArray::I64(_) => Some(ElemType::I64),
            NDArray::F64(_) => Some(ElemType::F64),
            NDArray::Unsupported => None,
        }
    }

    /// The array that the fields of a map describe, or why they describe none.
    pub fn from_fields(fields: ArrayFields) -> (r: Result<NDArray, DecodeError>)
        ensures
            match spec_decode_array_fields(fields) {
                Ok(m) => r matches Ok(a) && a@ == m,
                Err(e) => r matches Err(e2) && e2 == e,
            },
            r matches Ok(a) ==> a@ == NDArrayModel::Unsupported || (fields.shape matches Some(s)
                && spec_model_shape(a@) == s@),
    {
        proof {
            lemma_array_fields_decode(fields);
        }
        let nd = match fields.nd {
            Some(b) => b,
            None => return Err(DecodeError::MissingField(FieldName::Nd)),
        };
        let dtype = match fields.dtype {
            Some(d) => d,
            None => return Err(DecodeError::MissingField(FieldName::Type)),
        };
        if fields.kind.is_none() {
            return Err(DecodeError::MissingField(FieldName::Kind));
        }
        let shape = match fields.shape {
            Some(s) => s,
            None => return Err(DecodeError::MissingField(FieldName::Shape)),
        };
        let data = match fields.data {
            Some(d) => d,
            None => return Err(DecodeError::MissingField(FieldName::Data)),
        };
        if nd != ARRAY_ND {
            return Err(DecodeError::NdMismatch(ARRAY_ND));
        }
        let k = match dtype_elem(&dtype) {
            Some(k) => k,
            None => return Ok(NDArray::Unsupported),
        };
        match k {
            ElemType::Bool => {
                let values = bools_of_bytes(data.as_slice());
                match DenseArray::from_shape_vec(shape, values) {
                    Ok(a) => Ok(NDArray::Bool(a)),
                    Err(e) => Err(DecodeError::Shape(e)),
                }
            },
            ElemType::U8 => match DenseArray::from_shape_vec(shape, data) {
                Ok(a) => Ok(NDArray::U8(a)),
                Err(e) => Err(DecodeError::Shape(e)),
            },
            ElemType::I8 => match create_i8_ndarray_from_bytes(data, shape) {
                Ok(a) => Ok(NDArray::I8(a)),
                Err(e) => Err(DecodeError::Array(e)),
            },
            ElemType::U16 => match create_ndarray_from_bytes::<u16>(k, data.as_slice(), shape) {
                Ok(a) => Ok(NDArray::U16(a)),
                Err(e) => Err(DecodeError::Array(e)),
            },
            ElemType::I16 => match create_ndarray_from_bytes::<i16>(k, data.as_slice(), shape) {
                Ok(a) => Ok(NDArray::I16(a)),
                Err(e) => Err(DecodeError::Array(e)),
            },
            ElemType::F16 => match create_ndarray_from_bytes::<u16>(k, data.as_slice(), shape) {
                Ok(a) => Ok(NDArray::F16(a)),
                Err(e) => Err(DecodeError::Array(e)),
            },
            ElemType::U32 => match create_ndarray_from_bytes::<u32>(k, data.as_slice(), shape) {
                Ok(a) => Ok(NDArray::U32(a)),
                Err(e) => Err(DecodeError::Array(e)),
            },
            ElemType::I32 => match create_ndarray_from_bytes::<i32>(k, data.as_slice(), shape) {
                Ok(a) => Ok(NDArray::I32(a)),
                Err(e) => Err(DecodeError::Array(e)),
            },
            ElemType::F32 => match create_ndarray_from_bytes::<u32>(k, data.as_slice(), shape) {
                Ok(a) => Ok(NDArray::F32(a)),
                Err(e) => Err(DecodeError::Array(e)),
            },
            ElemType::U64 => match create_ndarray_from_bytes::<u64>(k, data.as_slice(), shape) {
                Ok(a) => Ok(NDArray::U64(a)),
                Err(e) => Err(DecodeError::Array(e)),
            },
            ElemType::I64 => match create_ndarray_from_bytes::<i64>(k, data.as_slice(), shape) {
                Ok(a) => Ok(NDArray::I64(a)),
                Err(e) => Err(DecodeError::Array(e)),
            },
            ElemType::F64 => match create_ndarray_from_bytes::<u64>(k, data.as_slice(), shape) {
                Ok(a) => Ok(NDArray::F64(a)),
                Err(e) => Err(DecodeError::Array(e)),
            },
        }
    }

    /// The fields under which this array is written: `nd` true, the type
    /// string of its element type, an empty `kind`, its shape and its
    /// elements' bytes in logical order. An `Unsupported` array cannot be
    /// written.
    pub fn to_fields(&self) -> (r: Result<EncodedArray, EncodeError>)
        ensures
            match spec_encode_array(self@) {
                None => r matches Err(e) && e == EncodeError::UnsupportedDtype,
                Some((k, shape, data)) => r matches Ok(e) && e.nd && e.dtype.spec_bytes()
                    == spec_type_bytes(k) && e.kind@.len() == 0 && e.shape@ == shape && e.data@
                    == data,
            },
            r matches Ok(e) ==> e.shape@ == spec_model_shape(self@),
    {
        let k = match self.elem_type() {
            Some(k) => k,
            None => return Err(EncodeError::UnsupportedDtype),
        };
        let (shape, data) = match self {
            NDArray::Bool(a) => (slice_to_vec(a.shape()), bytes_of_bools(a.data())),
            NDArray::U8(a) => (slice_to_vec(a.shape()), slice_to_vec(a.data())),
            NDArray::I8(a) => (slice_to_vec(a.shape()), encode_slice(a.data())),
            NDArray::U16(a) => (slice_to_vec(a.shape()), encode_slice(a.data())),
            NDArray::I16(a) => (slice_to_vec(a.shape()), encode_slice(a.data())),
            NDArray::F16(a) => (slice_to_vec(a.shape()), encode_slice(a.data())),
            NDArray::U32(a) => (slice_to_vec(a.shape()), encode_slice(a.data())),
            NDArray::I32(a) => (slice_to_vec(a.shape()), encode_slice(a.data())),
            NDArray::F32(a) => (slice_to_vec(a.shape()), encode_slice(a.data())),
            NDArray::U64(a) => (slice_to_vec(a.shape()), encode_slice(a.data())),
            NDArray::I64(a) => (slice_to_vec(a.shape()), encode_slice(a.data())),
            NDArray::F64(a) => (slice_to_vec(a.shape()), encode_slice(a.data())),
            NDArray::Unsupported => (Vec::new(), Vec::new()),
        };
        Ok(EncodedArray { nd: ARRAY_ND, dtype: k.type_str(), kind: Vec::new(), shape, data })
    }
}

proof fn lemma_typed_roundtrip<T: LeElem>(k: ElemType, m: ArrayModel<T>)
    requires
        model_wf(m),
    ensures
        spec_array_from_bytes::<T>(k, m.shape, encode_all(m.elems)) == Ok::<
            ArrayModel<T>,
            ArrayError,
        >(m),
{
    let w = T::spec_width() as int;
    T::lemma_width();
    lemma_encode_len(m.elems);
    lemma_decode_encode(m.elems);
    let n = m.elems.len() as int;
    vstd::arithmetic::div_mod::lemma_div_multiples_vanish(n, w);
    vstd::arithmetic::div_mod::lemma_mod_multiples_basic(n, w);
    assert(n * w == w * n) by (nonlinear_arith);
}

/// Writing a supported, well-formed array and reading the written fields
/// back gives the same array.
pub proof fn lemma_array_roundtrip(m: NDArrayModel)
    requires
        m != NDArrayModel::Unsupported,
        spec_ndarray_wf(m),
    ensures
        spec_encode_array(m) matches Some((k, shape, data)) && spec_decode_array(
            Some(true),
            Some(spec_elem_type(spec_type_bytes(k))),
            true,
            Some(shape),
            Some(data),
        ) == Ok::<NDArrayModel, DecodeError>(m),
{
    let (k, shape, data) = spec_encode_array(m).unwrap();
    lemma_type_str_roundtrip(k);
    match m {
        NDArrayModel::Bool(a) => {
            assert(spec_bools_of_bytes(spec_bytes_of_bools(a.elems)) =~= a.elems);
        },
        NDArrayModel::U8(a) => {},
        NDArrayModel::I8(a) => lemma_typed_roundtrip::<i8>(k, a),
        NDArrayModel::U16(a) => lemma_typed_roundtrip::<u16>(k, a),
        NDArrayModel::I16(a) => lemma_typed_roundtrip::<i16>(k, a),
        NDArrayModel::F16(a) => lemma_typed_roundtrip::<u16>(k, a),
        NDArrayModel::U32(a) => lemma_typed_roundtrip::<u32>(k, a),
        NDArrayModel::I32(a) => lemma_typed_roundtrip::<i32>(k, a),
        NDArrayModel::F32(a) => lemma_typed_roundtrip::<u32>(k, a),
        NDArrayModel::U64(a) => lemma_typed_roundtrip::<u64>(k, a),
        NDArrayModel::I64(a) => lemma_typed_roundtrip::<i64>(k, a),
        NDArrayModel::F64(a) => lemma_typed_roundtrip::<u64>(k, a),
        NDArrayModel::Unsupported => {},
    }
}

proof fn lemma_typed_rewrite<T: LeElem>(k: ElemType, shape: Seq<usize>, d: Seq<u8>)
    requires
        spec_array_from_bytes::<T>(k, shape, d) is Ok,
    ensures
        spec_array_from_bytes::<T>(k, shape, d) matches Ok(m) && m.shape == shape && encode_all(
            m.elems,
        ) == d,
{
    lemma_encode_decode::<T>(d);
}

/// Reading a supported array from its fields and writing it again gives back
/// its type string, its shape and its data bytes, except that a boolean's
/// nonzero bytes are written back as `1`.
pub proof fn lemma_array_rewrite(k: ElemType, shape: Seq<usize>, d: Seq<u8>)
    requires
        spec_array_of(k, shape, d) is Ok,
    ensures
        spec_array_of(k, shape, d) matches Ok(m) && spec_encode_array(m) == Some(
            (k, shape, if k == ElemType::Bool {
                spec_bytes_of_bools(spec_bools_of_bytes(d))
            } else {
                d
            }),
        ),
{
    match k {
        ElemType::Bool => {},
        ElemType::U8 => {},
        ElemType::I8 => lemma_typed_rewrite::<i8>(k, shape, d),
        ElemType::U16 | ElemType::F16 => lemma_typed_rewrite::<u16>(k, shape, d),
        ElemType::I16 => lemma_typed_rewrite::<i16>(k, shape, d),
        ElemType::U32 | ElemType::F32 => lemma_typed_rewrite::<u32>(k, shape, d),
        ElemType::I32 => lemma_typed_rewrite::<i32>(k, shape, d),
        ElemType::U64 | ElemType::F64 => lemma_typed_rewrite::<u64>(k, shape, d),
        ElemType::I64 => lemma_typed_rewrite::<i64>(k, shape, d),
    }
}

proof fn lemma_typed_decode_elems<T: LeElem>(k: ElemType, shape: Seq<usize>, d: Seq<u8>)
    requires
        spec_array_from_bytes::<T>(k, shape, d) is Ok,
    ensures
        spec_array_from_bytes::<T>(k, shape, d) matches Ok(a) && a.shape == shape && a.elems.len()
            * T::spec_width() == d.len() && forall|i: int|
            0 <= i < a.elems.len() ==> #[trigger] a.elems[i] == T::spec_from_le(
                d.subrange(i * T::spec_width(), i * T::spec_width() + T::spec_width()),
            ),
{
    T::lemma_width();
    let w = T::spec_width() as int;
    vstd::arithmetic::div_mod::lemma_fundamental_div_mod(d.len() as int, w);
    assert((d.len() as int / w) * w == w * (d.len() as int / w)) by (nonlinear_arith);
}

/// An array decoded from a supported element type, a shape and data bytes
/// has that type and exactly that shape, holds one element per element's
/// worth of data, and its element at index `i` is the scalar that the
/// `i`-th element's worth of bytes stands for.
pub proof fn lemma_array_decode_elems(k: ElemType, shape: Seq<usize>, d: Seq<u8>)
    requires
        spec_array_of(k, shape, d) is Ok,
    ensures
        spec_array_of(k, shape, d) matches Ok(m) && spec_model_type(m) == Some(k) && spec_model_shape(m)
            == shape && spec_model_len(m) * spec_width(k) == d.len() && forall|i: int|
            0 <= i < spec_model_len(m) ==> #[trigger] spec_elem_scalar(m, i) == spec_scalar_from(
                k,
                d.subrange(i * spec_width(k), i * spec_width(k) + spec_width(k)),
            ),
{
    match k {
        ElemType::Bool | ElemType::U8 => {
            assert forall|i: int| 0 <= i < d.len() implies #[trigger] d.subrange(i * 1, i * 1 + 1)[0]
                == d[i] by {}
        },
        ElemType::I8 => lemma_typed_decode_elems::<i8>(k, shape, d),
        ElemType::U16 => lemma_typed_decode_elems::<u16>(k, shape, d),
        ElemType::I16 => lemma_typed_decode_elems::<i16>(k, shape, d),
        ElemType::F16 => lemma_typed_decode_elems::<u16>(k, shape, d),
        ElemType::U32 => lemma_typed_decode_elems::<u32>(k, shape, d),
        ElemType::I32 => lemma_typed_decode_elems::<i32>(k, shape, d),
        ElemType::F32 => lemma_typed_decode_elems::<u32>(k, shape, d),
        ElemType::U64 => lemma_typed_decode_elems::<u64>(k, shape, d),
        ElemType::I64 => lemma_typed_decode_elems::<i64>(k, shape, d),
        ElemType::F64 => lemma_typed_decode_elems::<u64>(k, shape, d),
    }
}

proof fn lemma_typed_encode_elems<T: LeElem>(v: Seq<T>)
    ensures
        encode_all(v).len() == v.len() * T::spec_width(),
        forall|i: int|
            0 <= i < v.len() ==> encode_all(v).subrange(
                i * T::spec_width(),
                i * T::spec_width() + T::spec_width(),
            ) == T::spec_to_le(#[trigger] v[i]),
{
    lemma_encode_len(v);
    assert forall|i: int| 0 <= i < v.len() implies encode_all(v).subrange(
        i * T::spec_width(),
        i * T::spec_width() + T::spec_width(),
    ) == T::spec_to_le(#[trigger] v[i]) by {
        lemma_encode_chunk(v, i);
    }
}

proof fn lemma_bool_encode_elems(v: Seq<bool>)
    ensures
        spec_bytes_of_bools(v).len() == v.len() * 1,
        forall|i: int|
            0 <= i < v.len() ==> spec_bytes_of_bools(v).subrange(i * 1, i * 1 + 1) == seq![
                if #[trigger] v[i] {
                    1u8
                } else {
                    0u8
                },
            ],
{
    assert forall|i: int| 0 <= i < v.len() implies spec_bytes_of_bools(v).subrange(i * 1, i * 1 + 1)
        == seq![if #[trigger] v[i] { 1u8 } else { 0u8 }] by {
        assert(spec_bytes_of_bools(v).subrange(i * 1, i * 1 + 1) =~= seq![if v[i] { 1u8 } else { 0u8 }]);
    }
}

/// The fields written for a supported array carry its type and its shape
/// unchanged, and its elements one after another in logical order, each
/// written as the data of the scalar of that element.
pub proof fn lemma_array_encode_elems(m: NDArrayModel)
    requires
        m != NDArrayModel::Unsupported,
    ensures
        spec_encode_array(m) matches Some((k, sh, d)) && Some(k) == spec_model_type(m) && sh
            == spec_model_shape(m) && d.len() == spec_model_len(m) * spec_width(k) && forall|i: int|
            0 <= i < spec_model_len(m) ==> d.subrange(i * spec_width(k), i * spec_width(k) + spec_width(k))
                == spec_scalar_data(#[trigger] spec_elem_scalar(m, i)),
{
    match m {
        NDArrayModel::Bool(a) => lemma_bool_encode_elems(a.elems),
        NDArrayModel::U8(a) => {
            assert forall|i: int| 0 <= i < a.elems.len() implies a.elems.subrange(i * 1, i * 1 + 1)
                =~= seq![#[trigger] a.elems[i]] by {}
            assert(a.elems.len() * 1 == a.elems.len());
        },
        NDArrayModel::I8(a) => lemma_typed_encode_elems::<i8>(a.elems),
        NDArrayModel::U16(a) => lemma_typed_encode_elems::<u16>(a.elems),
        NDArrayModel::I16(a) => lemma_typed_encode_elems::<i16>(a.elems),
        NDArrayModel::F16(a) => lemma_typed_encode_elems::<u16>(a.elems),
        NDArrayModel::U32(a) => lemma_typed_encode_elems::<u32>(a.elems),
        NDArrayModel::I32(a) => lemma_typed_encode_elems::<i32>(a.elems),
        NDArrayModel::F32(a) => lemma_typed_encode_elems::<u32>(a.elems),
        NDArrayModel::U64(a) => lemma_typed_encode_elems::<u64>(a.elems),
        NDArrayModel::I64(a) => lemma_typed_encode_elems::<i64>(a.elems),
        NDArrayModel::F64(a) => lemma_typed_encode_elems::<u64>(a.elems),
        NDArrayModel::Unsupported => {},
    }
}

/// Decoding an array map of a supported type gives an array of the type
/// that the `type` field names, with exactly the shape of the `shape` field
/// (the same lengths in the same order), holding one element per element's
/// worth of the `data` field, its element at index `i` the scalar that the
/// `i`-th element's worth of bytes stands for.
pub proof fn lemma_array_fields_decode(f: ArrayFields)
    ensures
        spec_decode_array_fields(f) matches Ok(m) ==> m == NDArrayModel::Unsupported || (
        f.shape matches Some(s) && f.data matches Some(d) && f.dtype matches Some(t)
            && spec_model_type(m) matches Some(k) && spec_dtype_elem(t) == Some(k)
            && spec_model_shape(m) == s@ && spec_model_len(m) * spec_width(k) == d@.len()
            && forall|i: int|
            0 <= i < spec_model_len(m) ==> #[trigger] spec_elem_scalar(m, i) == spec_scalar_from(
                k,
                d@.subrange(i * spec_width(k), i * spec_width(k) + spec_width(k)),
            )),
{
    if let Ok(m) = spec_decode_array_fields(f) {
        if m != NDArrayModel::Unsupported {
            let k = spec_dtype_elem(f.dtype.unwrap()).unwrap();
            lemma_array_decode_elems(k, f.shape.unwrap()@, f.data.unwrap()@);
        }
    }
}

/// Borrowed elements taken with a shape form an array of exactly that
/// shape, holding those elements in the same order.
pub proof fn lemma_elems_model(elems: ElemsRef<'_>, shape: Seq<usize>)
    ensures
        spec_model_shape(elems.spec_model(shape)) == shape,
        spec_model_len(elems.spec_model(shape)) == elems.spec_len(),
        forall|i: int|
            0 <= i < elems.spec_len() ==> #[trigger] spec_elem_scalar(elems.spec_model(shape), i)
                == elems.spec_elem(i),
{
}

} // verus!
