//! NumPy arrays that borrow their elements from the decoded bytes when they
//! can: decoding from and encoding to the fields of their msgpack-numpy map.
use vstd::prelude::*;
use vstd::slice::slice_to_vec;
use vstd::string::StringSliceAdditionalSpecFns;
use crate::array::{
    ArrayModel, ShapeError, check_owned, model_wf, shape_fits, shape_size, spec_check_owned,
};
use crate::dtype::{DType, ElemType, dtype_elem, spec_dtype_elem, spec_type_bytes, spec_width};
use crate::error::{ArrayError, DecodeError, EncodeError, FieldName};
use crate::dtype::lemma_type_str_roundtrip;
use crate::le::{
    LeElem, decode_all, decode_all_swapped, bytes_to_vec, encode_all, encode_slice, lemma_decode_encode, lemma_encode_len,
};
use crate::ndarray_codec::{
    ARRAY_ND,    EncodedArray, NDArrayModel, bools_of_bytes, bytes_of_bools, spec_array_from_bytes, spec_array_of,
    lemma_array_roundtrip, spec_decode_with, spec_encode_array, spec_lift, spec_ndarray_wf, ArrayFields,
    spec_decode_array_fields, spec_model_shape,
};

verus! {

/// Elements that are either borrowed or owned.
#[derive(Debug)]
pub enum CowSlice<'a, T> {
    Borrowed(&'a [T]),
    Owned(Vec<T>),
}

impl<'a, T> View for CowSlice<'a, T> {
    type V = Seq<T>;

    open spec fn view(&self) -> Seq<T> {
        match self {
            CowSlice::Borrowed(s) => s@,
            CowSlice::Owned(v) => v@,
        }
    }
}

/// An n-dimensional array in logical (row-major) order whose elements are
/// either borrowed from a buffer or owned.
#[derive(Debug)]
pub struct CowDenseArray<'a, T> {
    shape: Vec<usize>,
    data: CowSlice<'a, T>,
}

impl<'a, T> View for CowDenseArray<'a, T> {
    type V = ArrayModel<T>;

    open spec fn view(&self) -> ArrayModel<T> {
        ArrayModel { shape: self.spec_shape(), elems: self.spec_elems() }
    }
}

impl<'a, T> CowDenseArray<'a, T> {
    /// The shape of the array.
    pub closed spec fn spec_shape(&self) -> Seq<usize> {
        self.shape@
    }

    /// The elements of the array in logical order.
    pub closed spec fn spec_elems(&self) -> Seq<T> {
        self.data@
    }

    /// Whether the elements are borrowed.
    pub closed spec fn spec_is_borrowed(&self) -> bool {
        self.data is Borrowed
    }

    #[verifier::type_invariant]
    closed spec fn wf(self) -> bool {
        &&& shape_fits(self.shape@)
        &&& shape_size(self.shape@) == self.data@.len()
    }

    /// The owned array of the given shape over `data`; the errors are those
    /// of an owned buffer that does not fit the shape.
    pub fn from_shape_vec(shape: Vec<usize>, data: Vec<T>) -> (r: Result<Self, ShapeError>)
        ensures
            match spec_check_owned(shape@, data@.len()) {
                Ok(_) => r matches Ok(a) && a@.shape == shape@ && a@.elems == data@
                    && !a.spec_is_borrowed(),
                Err(e) => r matches Err(e2) && e2 == e,
            },
    {
        check_owned(shape.as_slice(), data.len())?;
        Ok(CowDenseArray { shape, data: CowSlice::Owned(data) })
    }

    /// The array of the given shape that views `data` in place; the errors
    /// are those of a buffer that does not fit the shape, as for an owned
    /// array.
    pub fn from_shape_slice(shape: Vec<usize>, data: &'a [T]) -> (r: Result<Self, ShapeError>)
        ensures
            match spec_check_owned(shape@, data@.len()) {
                Ok(_) => r matches Ok(a) && a@.shape == shape@ && a@.elems == data@
                    && a.spec_is_borrowed(),
                Err(e) => r matches Err(e2) && e2 == e,
            },
    {
        check_owned(shape.as_slice(), data.len())?;
        Ok(CowDenseArray { shape, data: CowSlice::Borrowed(data) })
    }

    /// The shape and the elements, taken apart.
    pub fn into_parts(self) -> (r: (Vec<usize>, CowSlice<'a, T>))
        ensures
            r.0@ == self@.shape,
            r.1@ == self@.elems,
            r.1 is Borrowed <==> self.spec_is_borrowed(),
            shape_fits(r.0@),
            shape_size(r.0@) == r.1@.len(),
    {
        proof {
            use_type_invariant(&self);
        }
        (self.shape, self.data)
    }

    /// Whether the elements are borrowed.
    pub fn is_view(&self) -> (r: bool)
        ensures
            r == self.spec_is_borrowed(),
    {
        match &self.data {
            CowSlice::Borrowed(_) => true,
            CowSlice::Owned(_) => false,
        }
    }

    /// The shape of the array.
    pub fn shape(&self) -> (s: &[usize])
        ensures
            s@ == self@.shape,
            model_wf(self@),
    {
        proof {
            use_type_invariant(self);
        }
        self.shape.as_slice()
    }

    /// The elements of the array in logical order.
    pub fn data(&self) -> (d: &[T])
        ensures
            d@ == self@.elems,
            model_wf(self@),
    {
        proof {
            use_type_invariant(self);
        }
        match &self.data {
            CowSlice::Borrowed(s) => *s,
            CowSlice::Owned(v) => v.as_slice(),
        }
    }
}

/// An n-dimensional NumPy array of one of the supported element types that
/// borrows its elements from the decoded bytes when it can. Floating-point
/// arrays hold the IEEE-754 bit patterns of their elements.
#[derive(Debug)]
pub enum CowNDArray<'a> {
    Bool(CowDenseArray<'a, bool>),
    U8(CowDenseArray<'a, u8>),
    I8(CowDenseArray<'a, i8>),
    U16(CowDenseArray<'a, u16>),
    I16(CowDenseArray<'a, i16>),
    F16(CowDenseArray<'a, u16>),
    U32(CowDenseArray<'a, u32>),
    I32(CowDenseArray<'a, i32>),
    F32(CowDenseArray<'a, u32>),
    U64(CowDenseArray<'a, u64>),
    I64(CowDenseArray<'a, i64>),
    F64(CowDenseArray<'a, u64>),
    /// An array of a dtype that this crate does not decode.
    Unsupported,
}

impl<'a> View for CowNDArray<'a> {
    type V = NDArrayModel;

    open spec fn view(&self) -> NDArrayModel {
        match self {
            CowNDArray::Bool(a) => NDArrayModel::Bool(a@),
            CowNDArray::U8(a) => NDArrayModel::U8(a@),
            CowNDArray::I8(a) => NDArrayModel::I8(a@),
            CowNDArray::U16(a) => NDArrayModel::U16(a@),
            CowNDArray::I16(a) => NDArrayModel::I16(a@),
            CowNDArray::F16(a) => NDArrayModel::F16(a@),
            CowNDArray::U32(a) => NDArrayModel::U32(a@),
            CowNDArray::I32(a) => NDArrayModel::I32(a@),
            CowNDArray::F32(a) => NDArrayModel::F32(a@),
            CowNDArray::U64(a) => NDArrayModel::U64(a@),
            CowNDArray::I64(a) => NDArrayModel::I64(a@),
            CowNDArray::F64(a) => NDArrayModel::F64(a@),
            CowNDArray::Unsupported => NDArrayModel::Unsupported,
        }
    }
}

impl<'a> CowNDArray<'a> {
    /// Whether the array's elements are borrowed from the decoded bytes.
    pub open spec fn spec_is_borrowed(&self) -> bool {
        match self {
            CowNDArray::Bool(a) => a.spec_is_borrowed(),
            CowNDArray::U8(a) => a.spec_is_borrowed(),
            CowNDArray::I8(a) => a.spec_is_borrowed(),
            CowNDArray::U16(a) => a.spec_is_borrowed(),
            CowNDArray::I16(a) => a.spec_is_borrowed(),
            CowNDArray::F16(a) => a.spec_is_borrowed(),
            CowNDArray::U32(a) => a.spec_is_borrowed(),
            CowNDArray::I32(a) => a.spec_is_borrowed(),
            CowNDArray::F32(a) => a.spec_is_borrowed(),
            CowNDArray::U64(a) => a.spec_is_borrowed(),
            CowNDArray::I64(a) => a.spec_is_borrowed(),
            CowNDArray::F64(a) => a.spec_is_borrowed(),
            CowNDArray::Unsupported => false,
        }
    }
}

/// The fields of a borrowing array's map as they were read; `kind` and
/// `data` borrow from the input.
#[derive(Debug)]
pub struct CowArrayFields<'a> {
    pub nd: Option<bool>,
    pub dtype: Option<DType>,
    pub kind: Option<&'a [u8]>,
    pub shape: Option<Vec<usize>>,
    pub data: Option<&'a [u8]>,
}

/// The elements that bytes hold, each read in little-endian order, or, when
/// `swapped`, each read in reverse (big-endian) order.
pub open spec fn spec_decode_in_order<T: LeElem>(d: Seq<u8>, swapped: bool) -> Seq<T> {
    if swapped {
        decode_all_swapped::<T>(d)
    } else {
        decode_all::<T>(d)
    }
}

/// The array with the given shape that views the elements the bytes hold,
/// each element read from its own bytes in little-endian order (in reverse
/// order when `swapped`): the data must be a whole number of elements, and
/// the shape must name exactly that many, as for an owned array.
pub open spec fn spec_view_array_from_bytes<T: LeElem>(
    k: ElemType,
    shape: Seq<usize>,
    d: Seq<u8>,
    swapped: bool,
) -> Result<ArrayModel<T>, ArrayError> {
    if d.len() % T::spec_width() != 0 {
        Err(ArrayError::InvalidDataLength(k))
    } else {
        match spec_check_owned(shape, d.len() / T::spec_width()) {
            Err(e) => Err(ArrayError::Shape(e)),
            Ok(_) => Ok(
                ArrayModel {
                    shape,
                    elems: spec_decode_in_order::<T>(d, swapped),
                },
            ),
        }
    }
}

/// The array of element type `k` when its elements are borrowed from the
/// data, read in little-endian order (in reverse order when `swapped`):
/// booleans are never borrowed (they are converted), unsigned bytes are
/// always viewed in place, the other types go through
/// `spec_view_array_from_bytes`.
pub open spec fn spec_cow_view_of(k: ElemType, shape: Seq<usize>, d: Seq<u8>, swapped: bool) -> Result<
    NDArrayModel,
    DecodeError,
> {
    match k {
        ElemType::Bool => spec_array_of(k, shape, d),
        ElemType::U8 => match spec_check_owned(shape, d.len()) {
            Err(e) => Err(DecodeError::Shape(e)),
            Ok(_) => Ok(NDArrayModel::U8(ArrayModel { shape, elems: d })),
        },
        ElemType::I8 => spec_lift(spec_view_array_from_bytes::<i8>(k, shape, d, swapped), |m| NDArrayModel::I8(m)),
        ElemType::U16 => spec_lift(spec_view_array_from_bytes::<u16>(k, shape, d, swapped), |m| NDArrayModel::U16(m)),
        ElemType::I16 => spec_lift(spec_view_array_from_bytes::<i16>(k, shape, d, swapped), |m| NDArrayModel::I16(m)),
        ElemType::F16 => spec_lift(spec_view_array_from_bytes::<u16>(k, shape, d, swapped), |m| NDArrayModel::F16(m)),
        ElemType::U32 => spec_lift(spec_view_array_from_bytes::<u32>(k, shape, d, swapped), |m| NDArrayModel::U32(m)),
        ElemType::I32 => spec_lift(spec_view_array_from_bytes::<i32>(k, shape, d, swapped), |m| NDArrayModel::I32(m)),
        ElemType::F32 => spec_lift(spec_view_array_from_bytes::<u32>(k, shape, d, swapped), |m| NDArrayModel::F32(m)),
        ElemType::U64 => spec_lift(spec_view_array_from_bytes::<u64>(k, shape, d, swapped), |m| NDArrayModel::U64(m)),
        ElemType::I64 => spec_lift(spec_view_array_from_bytes::<i64>(k, shape, d, swapped), |m| NDArrayModel::I64(m)),
        ElemType::F64 => spec_lift(spec_view_array_from_bytes::<u64>(k, shape, d, swapped), |m| NDArrayModel::F64(m)),
    }
}

/// The elements that `data` holds, borrowed from it when they can be viewed
/// in place (one-byte types always; wider types when the address is
/// aligned) and decoded little-endian into an owned buffer otherwise; `None`
/// when the length is not a whole number of elements. Borrowed elements are
/// each read from their own bytes, all in little-endian order or all in
/// reverse order, as the machine stores numbers.
pub fn bytes_to_cow<'a, T: LeElem>(data: &'a [u8]) -> (r: Option<CowSlice<'a, T>>)
    ensures
        r is None <==> data@.len() % T::spec_width() != 0,
        r matches Some(c) ==> c@.len() * T::spec_width() == data@.len(),
        r matches Some(CowSlice::Owned(v)) ==> v@ == decode_all::<T>(data@),
        r matches Some(CowSlice::Borrowed(s)) ==> (s@ == decode_all::<T>(data@) || s@
            == decode_all_swapped::<T>(data@)),
        T::spec_width() == 1 ==> (r matches Some(CowSlice::Borrowed(s)) && s@ == decode_all::<T>(data@)),
{
    proof {
        T::lemma_width();
    }
    if data.len() % T::width() != 0 {
        return None;
    }
    match T::try_borrow(data) {
        Some(s) => {
            proof {
                let w = T::spec_width() as int;
                vstd::arithmetic::div_mod::lemma_div_multiples_vanish(s@.len() as int, w);
                assert(w * (s@.len() as int) == (s@.len() as int) * w) by (nonlinear_arith);
                assert(decode_all::<T>(data@).len() == s@.len());
                if T::spec_width() == 1 {
                    assert(s@ =~= decode_all::<T>(data@));
                } else if forall|i: int|
                    0 <= i < s@.len() ==> #[trigger] s@[i] == T::spec_from_le(
                        data@.subrange(i * w, i * w + w),
                    ) {
                    assert(s@ =~= decode_all::<T>(data@));
                } else {
                    assert(s@ =~= decode_all_swapped::<T>(data@));
                }
            }
            Some(CowSlice::Borrowed(s))
        },
        None => match bytes_to_vec::<T>(data) {
            Some(v) => {
                proof {
                    let w = T::spec_width() as int;
                    let len = data@.len() as int;
                    vstd::arithmetic::div_mod::lemma_fundamental_div_mod(len, w);
                    assert((len / w) * w == w * (len / w)) by (nonlinear_arith);
                }
                Some(CowSlice::Owned(v))
            },
            None => None,
        },
    }
}

/// The array of element type `T` over `data` with the given shape,
/// borrowing the elements from `data` when they can be viewed in place
/// (one-byte types always; wider types when the address is aligned) and
/// decoding them little-endian into an owned buffer otherwise. Whether it
/// fails, and with which error, is exactly as for the owned decoding; a
/// borrowed array holds each element read from its own bytes in the
/// machine's order, which on a little-endian machine is the owned array.
pub fn create_cowndarray_from_bytes<'a, T: LeElem>(
    k: ElemType,
    data: &'a [u8],
    shape: Vec<usize>,
) -> (r: Result<CowDenseArray<'a, T>, ArrayError>)
    ensures
        spec_array_from_bytes::<T>(k, shape@, data@) matches Err(e) ==> (r matches Err(e2) && e2
            == e),
        r matches Ok(a) ==> if a.spec_is_borrowed() {
            spec_view_array_from_bytes::<T>(k, shape@, data@, false) == Ok::<
                ArrayModel<T>,
                ArrayError,
            >(a@) || spec_view_array_from_bytes::<T>(k, shape@, data@, true) == Ok::<
                ArrayModel<T>,
                ArrayError,
            >(a@)
        } else {
            spec_array_from_bytes::<T>(k, shape@, data@) == Ok::<ArrayModel<T>, ArrayError>(a@)
        },
        spec_array_from_bytes::<T>(k, shape@, data@) is Ok ==> r is Ok,
        T::spec_width() == 1 ==> match spec_view_array_from_bytes::<T>(k, shape@, data@, false) {
            Ok(m) => r matches Ok(a) && a@ == m && a.spec_is_borrowed(),
            Err(e) => r matches Err(e2) && e2 == e,
        },
{
    proof {
        T::lemma_width();
    }
    let ghost n = data@.len() as int / (T::spec_width() as int);
    match bytes_to_cow::<T>(data) {
        None => Err(ArrayError::InvalidDataLength(k)),
        Some(CowSlice::Borrowed(s)) => {
            proof {
                let w = T::spec_width() as int;
                vstd::arithmetic::div_mod::lemma_div_multiples_vanish(s@.len() as int, w);
                assert(w * (s@.len() as int) == (s@.len() as int) * w) by (nonlinear_arith);
                assert(s@.len() == n);
            }
            match CowDenseArray::from_shape_slice(shape, s) {
                Ok(a) => Ok(a),
                Err(e) => Err(ArrayError::Shape(e)),
            }
        },
        Some(CowSlice::Owned(values)) => match CowDenseArray::from_shape_vec(shape, values) {
            Ok(a) => Ok(a),
            Err(e) => Err(ArrayError::Shape(e)),
        },
    }
}

/// The `nd`, element type, `kind`-present, shape and data of a borrowing
/// array's fields, decoded with `of` (see `spec_decode_with`).
pub open spec fn spec_decode_cow_fields(
    f: CowArrayFields,
    of: spec_fn(ElemType, Seq<usize>, Seq<u8>) -> Result<NDArrayModel, DecodeError>,
) -> Result<NDArrayModel, DecodeError> {
    spec_decode_with(
        f.nd,
        spec_cow_fields_elem(f),
        f.kind is Some,
        match f.shape {
            Some(s) => Some(s@),
            None => None,
        },
        match f.data {
            Some(d) => Some(d@),
            None => None,
        },
        of,
    )
}

/// The element type that the fields' dtype names (`Some(None)` for a dtype
/// that is present but unsupported).
pub open spec fn spec_cow_fields_elem(f: CowArrayFields) -> Option<Option<ElemType>> {
    match f.dtype {
        Some(d) => Some(spec_dtype_elem(d)),
        None => None,
    }
}

/// The outcome of decoding when every element buffer is owned.
pub open spec fn spec_decode_cow_owned(f: CowArrayFields) -> Result<NDArrayModel, DecodeError> {
    spec_decode_cow_fields(f, |k, s, d| spec_array_of(k, s, d))
}

/// The outcome of decoding when every element buffer that can be borrowed
/// is, its elements read in little-endian order (in reverse order when
/// `swapped`).
pub open spec fn spec_decode_cow_borrowed(f: CowArrayFields, swapped: bool) -> Result<
    NDArrayModel,
    DecodeError,
> {
    spec_decode_cow_fields(f, |k, s, d| spec_cow_view_of(k, s, d, swapped))
}

impl<'a> CowArrayFields<'a> {
    /// No field read yet.
    pub fn new() -> (r: Self)
        ensures
            r.nd is None,
            r.dtype is None,
            r.kind is None,
            r.shape is None,
            r.data is None,
    {
        CowArrayFields { nd: None, dtype: None, kind: None, shape: None, data: None }
    }
}

impl<'a> CowNDArray<'a> {
    /// Whether the array's elements are borrowed from the decoded bytes.
    pub fn is_view(&self) -> (r: bool)
        ensures
            r == self.spec_is_borrowed(),
    {
        match self {
            CowNDArray::Bool(a) => a.is_view(),
            CowNDArray::U8(a) => a.is_view(),
            CowNDArray::I8(a) => a.is_view(),
            CowNDArray::U16(a) => a.is_view(),
            CowNDArray::I16(a) => a.is_view(),
            CowNDArray::F16(a) => a.is_view(),
            CowNDArray::U32(a) => a.is_view(),
            CowNDArray::I32(a) => a.is_view(),
            CowNDArray::F32(a) => a.is_view(),
            CowNDArray::U64(a) => a.is_view(),
            CowNDArray::I64(a) => a.is_view(),
            CowNDArray::F64(a) => a.is_view(),
            CowNDArray::Unsupported => false,
        }
    }

    /// The element type of this array; `None` for `Unsupported`.
    pub fn elem_type(&self) -> (r: Option<ElemType>)
        ensures
            r == (match spec_encode_array(self@) {
                Some(e) => Some(e.0),
                None => None,
            }),
    {
        match self {
            CowNDArray::Bool(_) => Some(ElemType::Bool),
            CowNDArray::U8(_) => Some(ElemType::U8),
            CowNDArray::I8(_) => Some(ElemType::I8),
            CowNDArray::U16(_) => Some(ElemType::U16),
            CowNDArray::I16(_) => Some(ElemType::I16),
            CowNDArray::F16(_) => Some(ElemType::F16),
            CowNDArray::U32(_) => Some(ElemType::U32),
            CowNDArray::I32(_) => Some(ElemType::I32),
            CowNDArray::F32(_) => Some(ElemType::F32),
            CowNDArray::U64(_) => Some(ElemType::U64),
            CowNDArray::I64(_) => Some(ElemType::I64),
            CowNDArray::F64(_) => Some(ElemType::F64),
            CowNDArray::Unsupported => None,
        }
    }

    /// The array that the fields of a map describe, or why they describe none.
    /// Booleans are converted into an owned buffer; unsigned and signed bytes
    /// are viewed in place; wider elements are viewed in place when `bytemuck`
    /// finds the bytes aligned and decoded into an owned buffer otherwise.
    /// Whether it fails, and with which error, is exactly as for the owned
    /// decoding (`NDArray::from_fields`); a borrowed array holds each element
    /// read from its own bytes in the machine's order, which on a
    /// little-endian machine is the owned array.
    pub fn from_fields(fields: CowArrayFields<'a>) -> (r: Result<CowNDArray<'a>, DecodeError>)
        ensures
            spec_decode_cow_owned(fields) matches Err(e) ==> (r matches Err(e2) && e2 == e),
            r matches Ok(a) ==> if a.spec_is_borrowed() {
                spec_decode_cow_borrowed(fields, false) == Ok::<NDArrayModel, DecodeError>(a@)
                    || spec_decode_cow_borrowed(fields, true) == Ok::<NDArrayModel, DecodeError>(a@)
            } else {
                spec_decode_cow_owned(fields) == Ok::<NDArrayModel, DecodeError>(a@)
            },
            spec_decode_cow_owned(fields) is Ok ==> r is Ok,
            spec_cow_fields_elem(fields) == Some(Some(ElemType::U8)) || spec_cow_fields_elem(fields)
                == Some(Some(ElemType::I8)) ==> match spec_decode_cow_borrowed(fields, false) {
                Ok(m) => r matches Ok(a) && a@ == m && a.spec_is_borrowed(),
                Err(e) => r matches Err(e2) && e2 == e,
            },
            spec_cow_fields_elem(fields) == Some(Some(ElemType::Bool)) ==> match spec_decode_cow_owned(
                fields,
            ) {
                Ok(m) => r matches Ok(a) && a@ == m && !a.spec_is_borrowed(),
                Err(e) => r matches Err(e2) && e2 == e,
            },
            r matches Ok(a) ==> a@ == NDArrayModel::Unsupported || (fields.shape matches Some(s)
                && spec_model_shape(a@) == s@),
    {
        proof {
            lemma_cow_fields_shape(fields, false);
            lemma_cow_fields_shape(fields, true);
        }
        let nd = match fields.nd {
            Some(b) => b,
            None => return Err(DecodeError::MissingField(FieldName::Nd)),
        };
        let dtype = match fields.dtype {
            Some(d) => d,
            None => return Err(DecodeError::MissingField(FieldName::Type)),
        };
        if fields.kind.is_none() {
            return Err(DecodeError::MissingField(FieldName::Kind));
        }
        let shape = match fields.shape {
            Some(s) => s,
            None => return Err(DecodeError::MissingField(FieldName::Shape)),
        };
        let data = match fields.data {
            Some(d) => d,
            None => return Err(DecodeError::MissingField(FieldName::Data)),
        };
        if nd != ARRAY_ND {
            return Err(DecodeError::NdMismatch(ARRAY_ND));
        }
        let k = match dtype_elem(&dtype) {
            Some(k) => k,
            None => return Ok(CowNDArray::Unsupported),
        };
        match k {
            ElemType::Bool => {
                let values = bools_of_bytes(data);
                match CowDenseArray::from_shape_vec(shape, values) {
                    Ok(a) => Ok(CowNDArray::Bool(a)),
                    Err(e) => Err(DecodeError::Shape(e)),
                }
            },
            ElemType::U8 => match CowDenseArray::from_shape_slice(shape, data) {
                Ok(a) => Ok(CowNDArray::U8(a)),
                Err(e) => Err(DecodeError::Shape(e)),
            },
            ElemType::I8 => match create_cowndarray_from_bytes::<i8>(k, data, shape) {
                Ok(a) => Ok(CowNDArray::I8(a)),
                Err(e) => Err(DecodeError::Array(e)),
            },
            ElemType::U16 => match create_cowndarray_from_bytes::<u16>(k, data, shape) {
                Ok(a) => Ok(CowNDArray::U16(a)),
                Err(e) => Err(DecodeError::Array(e)),
            },
            ElemType::I16 => match create_cowndarray_from_bytes::<i16>(k, data, shape) {
                Ok(a) => Ok(CowNDArray::I16(a)),
                Err(e) => Err(DecodeError::Array(e)),
            },
            ElemType::F16 => match create_cowndarray_from_bytes::<u16>(k, data, shape) {
                Ok(a) => Ok(CowNDArray::F16(a)),
                Err(e) => Err(DecodeError::Array(e)),
            },
            ElemType::U32 => match create_cowndarray_from_bytes::<u32>(k, data, shape) {
                Ok(a) => Ok(CowNDArray::U32(a)),
                Err(e) => Err(DecodeError::Array(e)),
            },
            ElemType::I32 => match create_cowndarray_from_bytes::<i32>(k, data, shape) {
                Ok(a) => Ok(CowNDArray::I32(a)),
                Err(e) => Err(DecodeError::Array(e)),
            },
            ElemType::F32 => match create_cowndarray_from_bytes::<u32>(k, data, shape) {
                Ok(a) => Ok(CowNDArray::F32(a)),
                Err(e) => Err(DecodeError::Array(e)),
            },
            ElemType::U64 => match create_cowndarray_from_bytes::<u64>(k, data, shape) {
                Ok(a) => Ok(CowNDArray::U64(a)),
                Err(e) => Err(DecodeError::Array(e)),
            },
            ElemType::I64 => match create_cowndarray_from_bytes::<i64>(k, data, shape) {
                Ok(a) => Ok(CowNDArray::I64(a)),
                Err(e) => Err(DecodeError::Array(e)),
            },
            ElemType::F64 => match create_cowndarray_from_bytes::<u64>(k, data, shape) {
                Ok(a) => Ok(CowNDArray::F64(a)),
                Err(e) => Err(DecodeError::Array(e)),
            },
        }
    }

    /// The fields under which this array is written, as for an owned array:
    /// `nd` true, the type string, an empty `kind`, the shape and the
    /// elements' bytes in logical order. An `Unsupported` array cannot be
    /// written.
    pub fn to_fields(&self) -> (r: Result<EncodedArray, EncodeError>)
        ensures
            match spec_encode_array(self@) {
                None => r matches Err(e) && e == EncodeError::UnsupportedDtype,
                Some((k, shape, data)) => r matches Ok(e) && e.nd && e.dtype.spec_bytes()
                    == spec_type_bytes(k) && e.kind@.len() == 0 && e.shape@ == shape && e.data@
                    == data,
            },
            r matches Ok(e) ==> e.shape@ == spec_model_shape(self@),
    {
        let k = match self.elem_type() {
            Some(k) => k,
            None => return Err(EncodeError::UnsupportedDtype),
        };
        let (shape, data) = match self {
            CowNDArray::Bool(a) => (slice_to_vec(a.shape()), bytes_of_bools(a.data())),
            CowNDArray::U8(a) => (slice_to_vec(a.shape()), slice_to_vec(a.data())),
            CowNDArray::I8(a) => (slice_to_vec(a.shape()), encode_slice(a.data())),
            CowNDArray::U16(a) => (slice_to_vec(a.shape()), encode_slice(a.data())),
            CowNDArray::I16(a) => (slice_to_vec(a.shape()), encode_slice(a.data())),
            CowNDArray::F16(a) => (slice_to_vec(a.shape()), encode_slice(a.data())),
            CowNDArray::U32(a) => (slice_to_vec(a.shape()), encode_slice(a.data())),
            CowNDArray::I32(a) => (slice_to_vec(a.shape()), encode_slice(a.data())),
            CowNDArray::F32(a) => (slice_to_vec(a.shape()), encode_slice(a.data())),
            CowNDArray::U64(a) => (slice_to_vec(a.shape()), encode_slice(a.data())),
            CowNDArray::I64(a) => (slice_to_vec(a.shape()), encode_slice(a.data())),
            CowNDArray::F64(a) => (slice_to_vec(a.shape()), encode_slice(a.data())),
            CowNDArray::Unsupported => (Vec::new(), Vec::new()),
        };
        Ok(EncodedArray { nd: ARRAY_ND, dtype: k.type_str(), kind: Vec::new(), shape, data })
    }
}

proof fn lemma_typed_view_roundtrip<T: LeElem>(k: ElemType, m: ArrayModel<T>)
    requires
        model_wf(m),
    ensures
        spec_view_array_from_bytes::<T>(k, m.shape, encode_all(m.elems), false) == Ok::<
            ArrayModel<T>,
            ArrayError,
        >(m),
{
    let w = T::spec_width() as int;
    T::lemma_width();
    lemma_encode_len(m.elems);
    lemma_decode_encode(m.elems);
    let n = m.elems.len() as int;
    vstd::arithmetic::div_mod::lemma_div_multiples_vanish(n, w);
    vstd::arithmetic::div_mod::lemma_mod_multiples_basic(n, w);
    assert(n * w == w * n) by (nonlinear_arith);
    assert(m.elems.take(n) =~= m.elems);
}

/// Writing a supported, well-formed array and reading the written fields
/// back gives the same array whether its elements end up borrowed or owned.
pub proof fn lemma_cow_roundtrip(m: NDArrayModel)
    requires
        m != NDArrayModel::Unsupported,
        spec_ndarray_wf(m),
    ensures
        spec_encode_array(m) matches Some((k, shape, data)) && spec_cow_view_of(k, shape, data, false)
            == Ok::<NDArrayModel, DecodeError>(m) && spec_array_of(k, shape, data) == Ok::<
            NDArrayModel,
            DecodeError,
        >(m),
{
    let (k, shape, data) = spec_encode_array(m).unwrap();
    lemma_array_roundtrip(m);
    lemma_type_str_roundtrip(k);
    match m {
        NDArrayModel::U8(a) => {
            assert(a.elems.take(a.elems.len() as int) =~= a.elems);
        },
        NDArrayModel::I8(a) => lemma_typed_view_roundtrip::<i8>(k, a),
        NDArrayModel::U16(a) => lemma_typed_view_roundtrip::<u16>(k, a),
        NDArrayModel::I16(a) => lemma_typed_view_roundtrip::<i16>(k, a),
        NDArrayModel::F16(a) => lemma_typed_view_roundtrip::<u16>(k, a),
        NDArrayModel::U32(a) => lemma_typed_view_roundtrip::<u32>(k, a),
        NDArrayModel::I32(a) => lemma_typed_view_roundtrip::<i32>(k, a),
        NDArrayModel::F32(a) => lemma_typed_view_roundtrip::<u32>(k, a),
        NDArrayModel::U64(a) => lemma_typed_view_roundtrip::<u64>(k, a),
        NDArrayModel::I64(a) => lemma_typed_view_roundtrip::<i64>(k, a),
        NDArrayModel::F64(a) => lemma_typed_view_roundtrip::<u64>(k, a),
        _ => {},
    }
}


proof fn lemma_typed_view_is_owned<T: LeElem>(k: ElemType, shape: Seq<usize>, d: Seq<u8>)
    requires
        spec_array_from_bytes::<T>(k, shape, d) is Ok,
    ensures
        spec_view_array_from_bytes::<T>(k, shape, d, false) == spec_array_from_bytes::<T>(k, shape, d),
{
    T::lemma_width();
    let m = decode_all::<T>(d);
    assert(m.take(m.len() as int) =~= m);
}

/// Whenever the data would decode into an owned array, a borrowed array read
/// in little-endian order is that same array: on a little-endian machine
/// borrowing and copying give the same result.
pub proof fn lemma_borrowed_is_owned(k: ElemType, shape: Seq<usize>, d: Seq<u8>)
    requires
        spec_array_of(k, shape, d) is Ok,
    ensures
        spec_cow_view_of(k, shape, d, false) == spec_array_of(k, shape, d),
{
    match k {
        ElemType::Bool => {},
        ElemType::U8 => {
            assert(d.take(d.len() as int) =~= d);
        },
        ElemType::I8 => lemma_typed_view_is_owned::<i8>(k, shape, d),
        ElemType::U16 | ElemType::F16 => lemma_typed_view_is_owned::<u16>(k, shape, d),
        ElemType::I16 => lemma_typed_view_is_owned::<i16>(k, shape, d),
        ElemType::U32 | ElemType::F32 => lemma_typed_view_is_owned::<u32>(k, shape, d),
        ElemType::I32 => lemma_typed_view_is_owned::<i32>(k, shape, d),
        ElemType::U64 | ElemType::F64 => lemma_typed_view_is_owned::<u64>(k, shape, d),
        ElemType::I64 => lemma_typed_view_is_owned::<i64>(k, shape, d),
    }
}

proof fn lemma_cow_view_shape(k: ElemType, shape: Seq<usize>, d: Seq<u8>, swapped: bool)
    ensures
        spec_cow_view_of(k, shape, d, swapped) matches Ok(m) ==> spec_model_shape(m) == shape,
        spec_array_of(k, shape, d) matches Ok(m) ==> spec_model_shape(m) == shape,
{
}

proof fn lemma_cow_fields_shape(f: CowArrayFields, swapped: bool)
    ensures
        spec_decode_cow_borrowed(f, swapped) matches Ok(m) ==> m == NDArrayModel::Unsupported || (
        f.shape matches Some(s) && spec_model_shape(m) == s@),
        spec_decode_cow_owned(f) matches Ok(m) ==> m == NDArrayModel::Unsupported || (
        f.shape matches Some(s) && spec_model_shape(m) == s@),
{
    if f.shape is Some && f.data is Some && f.dtype is Some {
        if let Some(k) = spec_dtype_elem(f.dtype.unwrap()) {
            lemma_cow_view_shape(k, f.shape.unwrap()@, f.data.unwrap()@, swapped);
        }
    }
}

/// A borrowing array decoded from a map's fields is decoded as an owned
/// array would be from the same fields: the same outcome, the same error or
/// the same array, of the same type and shape with the same elements. Read
/// in little-endian order, a borrowed array is that same array too.
pub proof fn lemma_cow_decode_is_owned(f: CowArrayFields, g: ArrayFields)
    requires
        g.nd == f.nd,
        g.dtype == f.dtype,
        (g.kind is Some) == (f.kind is Some),
        (match g.shape {
            Some(s) => Some(s@),
            None => None,
        }) == (match f.shape {
            Some(s) => Some(s@),
            None => None,
        }),
        (match g.data {
            Some(d) => Some(d@),
            None => None,
        }) == (match f.data {
            Some(d) => Some(d@),
            None => None,
        }),
    ensures
        spec_decode_cow_owned(f) == spec_decode_array_fields(g),
        spec_decode_array_fields(g) is Ok ==> spec_decode_cow_borrowed(f, false)
            == spec_decode_array_fields(g),
{
    if f.nd is Some && f.dtype is Some && f.kind is Some && f.shape is Some && f.data is Some {
        if let Some(k) = spec_dtype_elem(f.dtype.unwrap()) {
            let s = f.shape.unwrap()@;
            let d = f.data.unwrap()@;
            if spec_array_of(k, s, d) is Ok {
                lemma_borrowed_is_owned(k, s, d);
            }
        }
    }
}

} // verus!
