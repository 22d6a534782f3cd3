use msgpack_numpy::array::{check_owned, shape_size_checked, DenseArray, ShapeError};
use msgpack_numpy::cow_codec::{bytes_to_cow, CowArrayFields, CowNDArray, CowSlice};
use msgpack_numpy::dtype::{dtype_elem, parse_type_str, DType, ElemType};
use msgpack_numpy::error::{field_name, ArrayError, DecodeError, EncodeError, FieldName};
use msgpack_numpy::le::{bytes_to_vec, encode_slice, LeElem};
use msgpack_numpy::ndarray_codec::{
    bools_of_bytes, bytes_of_bools, encode_elements, ArrayFields, ElemsRef, NDArray, ARRAY_ND,
};
use msgpack_numpy::scalar::{scalar_field, Scalar, ScalarFields};

const ALL_TYPES: [ElemType; 12] = [
    ElemType::Bool,
    ElemType::U8,
    ElemType::I8,
    ElemType::U16,
    ElemType::I16,
    ElemType::F16,
    ElemType::U32,
    ElemType::I32,
    ElemType::F32,
    ElemType::U64,
    ElemType::I64,
    ElemType::F64,
];

fn scalar_fields(nd: Option<bool>, dtype: Option<&str>, data: Option<Vec<u8>>) -> ScalarFields {
    ScalarFields { nd, dtype: dtype.map(|s| DType::Str(s.to_string())), data }
}

fn array_fields(dtype: &str, shape: Vec<usize>, data: Vec<u8>) -> ArrayFields {
    ArrayFields {
        nd: Some(true),
        dtype: Some(DType::Str(dtype.to_string())),
        kind: Some(vec![]),
        shape: Some(shape),
        data: Some(data),
    }
}

#[test]
fn type_strings_round_trip() {
    for k in ALL_TYPES {
        assert_eq!(parse_type_str(k.type_str()), Some(k));
        assert_eq!(k.type_str().len(), 3);
    }
    assert_eq!(ElemType::U32.type_str(), "<u4");
    assert_eq!(ElemType::Bool.type_str(), "|b1");
    assert_eq!(ElemType::F16.width(), 2);
    assert_eq!(ElemType::I64.width(), 8);
}

#[test]
fn unsupported_type_strings() {
    assert_eq!(parse_type_str(">u4"), None);
    assert_eq!(parse_type_str("<c8"), None);
    assert_eq!(parse_type_str("<U3"), None);
    assert_eq!(parse_type_str(""), None);
    assert_eq!(parse_type_str("<u44"), None);
    assert_eq!(dtype_elem(&DType::Structured(vec![("a".to_string(), "<u4".to_string())])), None);
    assert_eq!(dtype_elem(&DType::Str("<i2".to_string())), Some(ElemType::I16));
}

#[test]
fn field_keys() {
    assert_eq!(field_name("nd"), Some(FieldName::Nd));
    assert_eq!(field_name("type"), Some(FieldName::Type));
    assert_eq!(field_name("kind"), Some(FieldName::Kind));
    assert_eq!(field_name("shape"), Some(FieldName::Shape));
    assert_eq!(field_name("data"), Some(FieldName::Data));
    assert_eq!(field_name("dat"), None);
    assert_eq!(field_name("extra"), None);
    assert_eq!(scalar_field("kind"), None);
    assert_eq!(scalar_field("shape"), None);
    assert_eq!(scalar_field("data"), Some(FieldName::Data));
    for f in [FieldName::Nd, FieldName::Type, FieldName::Kind, FieldName::Shape, FieldName::Data] {
        assert_eq!(field_name(f.key()), Some(f));
    }
}

#[test]
fn scalar_values_are_little_endian() {
    let r = Scalar::from_fields(scalar_fields(Some(false), Some("<u2"), Some(vec![1, 2])));
    assert_eq!(r, Ok(Scalar::U16(0x0201)));
    let r = Scalar::from_fields(scalar_fields(Some(false), Some("<i2"), Some(vec![0xff, 0xff])));
    assert_eq!(r, Ok(Scalar::I16(-1)));
    let r = Scalar::from_fields(scalar_fields(Some(false), Some("|i1"), Some(vec![0x80])));
    assert_eq!(r, Ok(Scalar::I8(-128)));
    let r = Scalar::from_fields(scalar_fields(Some(false), Some("<u8"), Some(vec![1, 0, 0, 0, 0, 0, 0, 0x80])));
    assert_eq!(r, Ok(Scalar::U64(0x8000_0000_0000_0001)));
    let r = Scalar::from_fields(scalar_fields(Some(false), Some("<f4"), Some(1.5f32.to_le_bytes().to_vec())));
    assert_eq!(r, Ok(Scalar::F32(1.5f32.to_bits())));
    let e = Scalar::I32(-2).to_fields().unwrap();
    assert_eq!(e.data, vec![0xfe, 0xff, 0xff, 0xff]);
    assert_eq!(e.dtype, "<i4");
    assert!(!e.nd);
}

#[test]
fn scalar_booleans() {
    let r = Scalar::from_fields(scalar_fields(Some(false), Some("|b1"), Some(vec![7])));
    assert_eq!(r, Ok(Scalar::Bool(true)));
    let r = Scalar::from_fields(scalar_fields(Some(false), Some("|b1"), Some(vec![0])));
    assert_eq!(r, Ok(Scalar::Bool(false)));
    assert_eq!(Scalar::Bool(true).to_fields().unwrap().data, vec![1]);
    assert_eq!(Scalar::Bool(false).to_fields().unwrap().data, vec![0]);
}

#[test]
fn scalar_errors() {
    assert_eq!(
        Scalar::from_fields(scalar_fields(None, None, None)),
        Err(DecodeError::MissingField(FieldName::Nd))
    );
    assert_eq!(
        Scalar::from_fields(scalar_fields(Some(false), None, Some(vec![1]))),
        Err(DecodeError::MissingField(FieldName::Type))
    );
    assert_eq!(
        Scalar::from_fields(scalar_fields(Some(false), Some("|u1"), None)),
        Err(DecodeError::MissingField(FieldName::Data))
    );
    assert_eq!(
        Scalar::from_fields(scalar_fields(Some(true), Some("|u1"), Some(vec![1]))),
        Err(DecodeError::NdMismatch(false))
    );
    assert_eq!(
        Scalar::from_fields(scalar_fields(Some(false), Some("<u4"), Some(vec![1, 2, 3]))),
        Err(DecodeError::InvalidScalarData(ElemType::U32))
    );
    assert_eq!(
        Scalar::from_fields(scalar_fields(Some(false), Some("<c8"), Some(vec![1, 2, 3]))),
        Ok(Scalar::Unsupported)
    );
    assert!(matches!(Scalar::Unsupported.to_fields(), Err(EncodeError::UnsupportedDtype)));
}

#[test]
fn array_errors() {
    let missing_kind = ArrayFields { kind: None, ..array_fields("|u1", vec![1], vec![1]) };
    assert_eq!(NDArray::from_fields(missing_kind), Err(DecodeError::MissingField(FieldName::Kind)));
    let missing_shape = ArrayFields { shape: None, data: None, ..array_fields("|u1", vec![1], vec![1]) };
    assert_eq!(NDArray::from_fields(missing_shape), Err(DecodeError::MissingField(FieldName::Shape)));
    let scalar_nd = ArrayFields { nd: Some(false), ..array_fields("|u1", vec![1], vec![1]) };
    assert_eq!(NDArray::from_fields(scalar_nd), Err(DecodeError::NdMismatch(true)));
    assert_eq!(
        NDArray::from_fields(array_fields("|u1", vec![2, 2], vec![1, 2, 3])),
        Err(DecodeError::Shape(ShapeError::OutOfBounds))
    );
    assert_eq!(
        NDArray::from_fields(array_fields("|b1", vec![2], vec![1, 2, 3])),
        Err(DecodeError::Shape(ShapeError::IncompatibleShape))
    );
    assert_eq!(
        NDArray::from_fields(array_fields("<u2", vec![2], vec![1, 2, 3])),
        Err(DecodeError::Array(ArrayError::InvalidDataLength(ElemType::U16)))
    );
    assert_eq!(
        NDArray::from_fields(array_fields("<u2", vec![1], vec![1, 2, 3, 4])),
        Err(DecodeError::Array(ArrayError::Shape(ShapeError::IncompatibleShape)))
    );
    assert_eq!(
        NDArray::from_fields(array_fields("<u2", vec![usize::MAX, 2], vec![])),
        Err(DecodeError::Array(ArrayError::Shape(ShapeError::Overflow)))
    );
    assert_eq!(
        NDArray::from_fields(array_fields("<c16", vec![usize::MAX, 2], vec![1])),
        Ok(NDArray::Unsupported)
    );
    let structured = ArrayFields {
        dtype: Some(DType::Structured(vec![("x".to_string(), "<f4".to_string())])),
        ..array_fields("|u1", vec![1], vec![1])
    };
    assert_eq!(NDArray::from_fields(structured), Ok(NDArray::Unsupported));
    assert!(matches!(NDArray::Unsupported.to_fields(), Err(EncodeError::UnsupportedDtype)));
}

#[test]
fn array_values_and_layout() {
    let r = NDArray::from_fields(array_fields("<u4", vec![2, 1], vec![1, 0, 0, 0, 4, 3, 2, 1])).unwrap();
    let expected = DenseArray::from_shape_vec(vec![2, 1], vec![1u32, 0x0102_0304]).unwrap();
    assert_eq!(r, NDArray::U32(expected));
    let e = r.to_fields().unwrap();
    assert!(e.nd);
    assert_eq!(e.dtype, "<u4");
    assert!(e.kind.is_empty());
    assert_eq!(e.shape, vec![2, 1]);
    assert_eq!(e.data, vec![1, 0, 0, 0, 4, 3, 2, 1]);

    let b = NDArray::from_fields(array_fields("|b1", vec![3], vec![0, 2, 1])).unwrap();
    assert_eq!(b, NDArray::Bool(DenseArray::from_shape_vec(vec![3], vec![false, true, true]).unwrap()));
    assert_eq!(b.to_fields().unwrap().data, vec![0, 1, 1]);

    let empty = NDArray::from_fields(array_fields("<i8", vec![0, 5], vec![])).unwrap();
    assert_eq!(empty, NDArray::I64(DenseArray::from_shape_vec(vec![0, 5], vec![]).unwrap()));
    let zero_dim = NDArray::from_fields(array_fields("|i1", vec![], vec![0xff])).unwrap();
    assert_eq!(zero_dim, NDArray::I8(DenseArray::from_shape_vec(vec![], vec![-1]).unwrap()));
}

#[test]
fn shape_checks() {
    assert_eq!(shape_size_checked(&[2, 3, 4]), Ok(24));
    assert_eq!(shape_size_checked(&[]), Ok(1));
    assert_eq!(shape_size_checked(&[5, 0, 7]), Ok(0));
    assert_eq!(shape_size_checked(&[usize::MAX, 0]), Err(ShapeError::Overflow));
    assert_eq!(shape_size_checked(&[1usize << 62, 2]), Err(ShapeError::Overflow));
    assert_eq!(shape_size_checked(&[1usize << 61, 2]), Ok(1usize << 62));
    assert_eq!(check_owned(&[2, 2], 4), Ok(()));
    assert_eq!(check_owned(&[2, 2], 5), Err(ShapeError::IncompatibleShape));
    assert_eq!(check_owned(&[2, 2], 3), Err(ShapeError::OutOfBounds));
    assert_eq!(DenseArray::from_shape_vec(vec![3], vec![1u8, 2]), Err(ShapeError::OutOfBounds));
}

#[test]
fn buffers_round_trip() {
    let values = vec![1u16, 0xfffe, 0x1234];
    let bytes = encode_slice(&values);
    assert_eq!(bytes, vec![1, 0, 0xfe, 0xff, 0x34, 0x12]);
    assert_eq!(bytes_to_vec::<u16>(&bytes), Some(values));
    assert_eq!(bytes_to_vec::<u16>(&bytes[..5]), None);
    let signed = vec![-1i64, i64::MIN, 7];
    assert_eq!(bytes_to_vec::<i64>(&encode_slice(&signed)), Some(signed));
    let mut out = Vec::new();
    <i32 as LeElem>::push_le(-2, &mut out);
    assert_eq!(out, vec![0xfe, 0xff, 0xff, 0xff]);
    assert_eq!(<u32 as LeElem>::read_le(&[4, 3, 2, 1]), 0x0102_0304);
    assert_eq!(bools_of_bytes(&[0, 1, 9]), vec![false, true, true]);
    assert_eq!(bytes_of_bools(&[false, true]), vec![0, 1]);
}

#[test]
fn cow_views_and_copies() {
    let data = [1u8, 2, 3];
    let kind: [u8; 0] = [];
    let fields = CowArrayFields {
        nd: Some(true),
        dtype: Some(DType::Str("|u1".to_string())),
        kind: Some(&kind),
        shape: Some(vec![2]),
        data: Some(&data),
    };
    assert_eq!(
        CowNDArray::from_fields(fields).err(),
        Some(DecodeError::Shape(ShapeError::IncompatibleShape))
    );
    let fields = CowArrayFields {
        nd: Some(true),
        dtype: Some(DType::Str("|u1".to_string())),
        kind: Some(&kind),
        shape: Some(vec![3]),
        data: Some(&data),
    };
    let a = CowNDArray::from_fields(fields).unwrap();
    assert!(a.is_view());
    match &a {
        CowNDArray::U8(v) => {
            assert_eq!(v.data(), &[1, 2, 3]);
            assert_eq!(v.data().as_ptr(), data.as_ptr());
        }
        _ => panic!("expected an unsigned-byte array"),
    }

    let fields = CowArrayFields {
        nd: Some(true),
        dtype: Some(DType::Str("|b1".to_string())),
        kind: Some(&kind),
        shape: Some(vec![3]),
        data: Some(&data),
    };
    let b = CowNDArray::from_fields(fields).unwrap();
    assert!(!b.is_view());

    let fields = CowArrayFields {
        nd: Some(true),
        dtype: Some(DType::Str("|b1".to_string())),
        kind: Some(&kind),
        shape: Some(vec![2]),
        data: Some(&data),
    };
    assert_eq!(
        CowNDArray::from_fields(fields).err(),
        Some(DecodeError::Shape(ShapeError::IncompatibleShape))
    );

    let backing = [0x0403_0201_u32, 0x0807_0605];
    let bytes: &[u8] = bytemuck::cast_slice(&backing);
    match bytes_to_cow::<u32>(&bytes[1..5]) {
        Some(CowSlice::Owned(v)) => assert_eq!(v, vec![0x0504_0302]),
        _ => panic!("misaligned bytes are copied"),
    }
    match bytes_to_cow::<u32>(bytes) {
        Some(CowSlice::Borrowed(s)) => assert_eq!(s, &backing),
        _ => panic!("aligned bytes are borrowed"),
    }
    assert!(bytes_to_cow::<u32>(&bytes[..3]).is_none());
    match bytes_to_cow::<i8>(&[255u8, 1]) {
        Some(CowSlice::Borrowed(s)) => assert_eq!(s, &[-1i8, 1]),
        _ => panic!("signed bytes are always borrowed"),
    }
}

fn ndarray_kind(e: &ndarray::ShapeError) -> ShapeError {
    match e.kind() {
        ndarray::ErrorKind::IncompatibleShape => ShapeError::IncompatibleShape,
        ndarray::ErrorKind::OutOfBounds => ShapeError::OutOfBounds,
        ndarray::ErrorKind::Overflow => ShapeError::Overflow,
        other => panic!("unexpected shape error kind {:?}", other),
    }
}

#[test]
fn shape_rules_agree_with_ndarray() {
    let shapes: Vec<Vec<usize>> = vec![
        vec![],
        vec![0],
        vec![3],
        vec![2, 3],
        vec![3, 0, 4],
        vec![1, 1, 1, 1],
        vec![usize::MAX, 2],
        vec![usize::MAX, 0],
        vec![1usize << 62, 2],
        vec![1usize << 62, 0, 2],
    ];
    for shape in &shapes {
        for len in 0..8usize {
            let owned = ndarray::ArrayD::from_shape_vec(ndarray::IxDyn(shape), vec![0u8; len])
                .map(|_| ())
                .map_err(|e| ndarray_kind(&e));
            assert_eq!(check_owned(shape, len), owned, "owned {:?} {}", shape, len);
        }
    }
}

#[test]
fn scalar_read_then_write_keeps_the_bytes() {
    let cases: Vec<(&str, Vec<u8>)> = vec![
        ("|u1", vec![200]),
        ("|i1", vec![0x80]),
        ("<u2", vec![1, 2]),
        ("<i2", vec![0xfe, 0xff]),
        ("<f2", vec![0x00, 0x3c]),
        ("<u4", vec![1, 2, 3, 4]),
        ("<i4", vec![0xff, 0xff, 0xff, 0x7f]),
        ("<f4", vec![0, 0, 0x80, 0x3f]),
        ("<u8", vec![1, 2, 3, 4, 5, 6, 7, 8]),
        ("<i8", vec![0, 0, 0, 0, 0, 0, 0, 0x80]),
        ("<f8", vec![0, 0, 0, 0, 0, 0, 0xf0, 0x3f]),
    ];
    for (t, data) in cases {
        let s = Scalar::from_fields(scalar_fields(Some(false), Some(t), Some(data.clone()))).unwrap();
        let e = s.to_fields().unwrap();
        assert_eq!(e.dtype, t);
        assert_eq!(e.data, data);
    }
    let s = Scalar::from_fields(scalar_fields(Some(false), Some("<f4"), Some(vec![0, 0, 0x80, 0x3f]))).unwrap();
    assert_eq!(s, Scalar::F32(1.0f32.to_bits()));
}

#[test]
fn borrowed_elements_are_written_like_arrays() {
    let values = [1u32, 0x0102_0304, 7, 8];
    let e = encode_elements(&[2, 2], ElemsRef::U32(&values)).unwrap();
    let a = NDArray::U32(DenseArray::from_shape_vec(vec![2, 2], values.to_vec()).unwrap());
    let f = a.to_fields().unwrap();
    assert_eq!(e.nd, ARRAY_ND);
    assert_eq!((e.dtype, e.kind, e.shape, e.data), (f.dtype, f.kind, f.shape, f.data));
    assert_eq!(encode_elements(&[3], ElemsRef::Bool(&[true, false])).err(), Some(ShapeError::OutOfBounds));
    assert_eq!(encode_elements(&[1], ElemsRef::I8(&[1, 2])).err(), Some(ShapeError::IncompatibleShape));
    let e = encode_elements(&[2], ElemsRef::Bool(&[true, false])).unwrap();
    assert_eq!(e.data, vec![1, 0]);
}

#[test]
fn borrowed_wide_elements_come_from_their_own_bytes() {
    let backing = [0x0102_0304_u32, 0x0506_0708, 0x090a_0b0c];
    let bytes: &[u8] = bytemuck::cast_slice(&backing);
    let kind: [u8; 0] = [];
    let fields = CowArrayFields {
        nd: Some(true),
        dtype: Some(DType::Str("<u4".to_string())),
        kind: Some(&kind),
        shape: Some(vec![3]),
        data: Some(bytes),
    };
    match CowNDArray::from_fields(fields).unwrap() {
        CowNDArray::U32(a) => {
            assert!(a.is_view());
            assert_eq!(a.data(), &[0x0102_0304, 0x0506_0708, 0x090a_0b0c]);
        }
        _ => panic!("expected an unsigned 32-bit array"),
    }
}

#[test]
fn borrowing_rejects_what_owning_rejects() {
    let backing = [1u32, 2, 3];
    let bytes: &[u8] = bytemuck::cast_slice(&backing);
    let kind: [u8; 0] = [];
    for (t, data) in [("|u1", bytes), ("|i1", bytes), ("<u4", bytes), ("<u4", &bytes[1..9])] {
        for shape in [vec![1usize], vec![2], vec![100], vec![usize::MAX, 3]] {
            let cow = CowNDArray::from_fields(CowArrayFields {
                nd: Some(true),
                dtype: Some(DType::Str(t.to_string())),
                kind: Some(&kind),
                shape: Some(shape.clone()),
                data: Some(data),
            });
            let owned = NDArray::from_fields(array_fields(t, shape.clone(), data.to_vec()));
            assert_eq!(cow.as_ref().err(), owned.as_ref().err(), "{} {:?}", t, shape);
            assert_eq!(cow.is_ok(), owned.is_ok());
        }
    }
}
