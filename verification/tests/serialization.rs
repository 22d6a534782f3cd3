use msgpack_numpy::array::DenseArray;
use msgpack_numpy::cow_codec::{create_cowndarray_from_bytes, CowArrayFields, CowNDArray};
use msgpack_numpy::dtype::{DType, ElemType};
use msgpack_numpy::error::ArrayError;
use msgpack_numpy::ndarray_codec::{
    create_ndarray_from_bytes, create_i8_ndarray_from_bytes, ArrayFields, EncodedArray, NDArray,
};
use msgpack_numpy::scalar::{Scalar, ScalarFields};

fn write_then_read_scalar(s: &Scalar) -> Scalar {
    let e = s.to_fields().unwrap();
    let fields = ScalarFields {
        nd: Some(e.nd),
        dtype: Some(DType::Str(e.dtype.to_string())),
        data: Some(e.data),
    };
    Scalar::from_fields(fields).unwrap()
}

fn array_fields(e: EncodedArray) -> ArrayFields {
    ArrayFields {
        nd: Some(e.nd),
        dtype: Some(DType::Str(e.dtype.to_string())),
        kind: Some(e.kind),
        shape: Some(e.shape),
        data: Some(e.data),
    }
}

fn write_then_read_array(a: &NDArray) -> NDArray {
    NDArray::from_fields(array_fields(a.to_fields().unwrap())).unwrap()
}

fn dense<T>(shape: Vec<usize>, data: Vec<T>) -> DenseArray<T> {
    DenseArray::from_shape_vec(shape, data).unwrap()
}

fn vector<T>(data: Vec<T>) -> DenseArray<T> {
    let n = data.len();
    dense(vec![n], data)
}

fn f16_bits(values: &[f32]) -> Vec<u16> {
    values.iter().map(|v| half::f16::from_f32(*v).to_bits()).collect()
}

#[test]
fn test_scalar_serialization() {
    let cases = vec![
        Scalar::Bool(true),
        Scalar::U8(255),
        Scalar::I8(-128),
        Scalar::U16(65535),
        Scalar::I16(-32768),
        Scalar::F16(half::f16::from_f32(1.0).to_bits()),
        Scalar::U32(4294967295),
        Scalar::I32(-2147483648),
        Scalar::F32(1.0f32.to_bits()),
        Scalar::U64(18446744073709551615),
        Scalar::I64(-9223372036854775808),
        Scalar::F64(1.0f64.to_bits()),
    ];

    for scalar in cases {
        let deserialized = write_then_read_scalar(&scalar);
        assert_eq!(deserialized, scalar);
    }
}

#[test]
fn test_ndarray_serialization() {
    let cases = vec![
        NDArray::Bool(vector(vec![true, false])),
        NDArray::U8(vector(vec![1, 2, 3])),
        NDArray::I8(vector(vec![-1, 0, 1])),
        NDArray::U16(vector(vec![1, 2, 3])),
        NDArray::I16(vector(vec![-1, 0, 1])),
        NDArray::F16(vector(f16_bits(&[1.0, 2.0]))),
        NDArray::U32(vector(vec![1, 2, 3])),
        NDArray::I32(vector(vec![-1, 0, 1])),
        NDArray::F32(vector(vec![1.0f32.to_bits(), 2.0f32.to_bits(), 3.0f32.to_bits()])),
        NDArray::U64(vector(vec![1, 2])),
        NDArray::I64(vector(vec![-1, 0, 1])),
        NDArray::F64(vector(vec![1.0f64.to_bits(), 2.0f64.to_bits()])),
    ];

    for ndarray in cases {
        let deserialized = write_then_read_array(&ndarray);
        assert_eq!(deserialized, ndarray);
    }
}

fn logical_order(a: &ndarray::ArrayD<i32>) -> NDArray {
    NDArray::I32(dense(a.shape().to_vec(), a.iter().cloned().collect()))
}

#[test]
fn test_non_standard_layout_serialization() {
    let transposed = ndarray::arr2(&[[1_i32, 2, 3], [4, 5, 6]]).reversed_axes().into_dyn();
    assert!(!transposed.is_standard_layout());

    let mut reversed = ndarray::Array::from_vec(vec![1_i32, 2, 3, 4]).into_dyn();
    reversed.invert_axis(ndarray::Axis(0));
    assert!(!reversed.is_standard_layout());

    for expected in [transposed, reversed] {
        let deserialized = write_then_read_array(&logical_order(&expected));
        assert_eq!(deserialized, logical_order(&expected));
        assert_eq!(deserialized, NDArray::I32(dense(expected.shape().to_vec(), expected.iter().cloned().collect())));
    }
}

#[test]
fn test_i8_deserialization_reuses_byte_allocation() {
    let bytes = vec![0_u8, 127, 128, 255];
    let bytes_ptr = bytes.as_ptr();
    let array = create_i8_ndarray_from_bytes(bytes, vec![4]).unwrap();

    assert_eq!(array.data().as_ptr().cast::<u8>(), bytes_ptr);
    assert_eq!(array.data(), &[0, 127, -128, -1]);
}

#[test]
fn test_malformed_byte_lengths_are_rejected() {
    assert!(matches!(
        create_ndarray_from_bytes::<u32>(ElemType::U32, &[0; 3], vec![1]),
        Err(ArrayError::InvalidDataLength(_))
    ));
    assert!(matches!(
        create_cowndarray_from_bytes::<u32>(ElemType::U32, &[0; 3], vec![1]),
        Err(ArrayError::InvalidDataLength(_))
    ));
}

#[test]
fn test_cow_deserialization_borrows_aligned_data_and_copies_misaligned_data() {
    let aligned_values = [1_u32, 2];
    let aligned_bytes: &[u8] = bytemuck::cast_slice(&aligned_values);
    let borrowed = create_cowndarray_from_bytes::<u32>(ElemType::U32, aligned_bytes, vec![2]).unwrap();

    assert!(borrowed.is_view());
    assert_eq!(borrowed.data().as_ptr(), aligned_values.as_ptr());

    let backing = [0x0403_0201_u32, 0x0807_0605, 0x0c0b_0a09];
    let backing_bytes: &[u8] = bytemuck::cast_slice(&backing);
    let misaligned_bytes = &backing_bytes[1..9];
    let copied = create_cowndarray_from_bytes::<u32>(ElemType::U32, misaligned_bytes, vec![2]).unwrap();

    assert!(!copied.is_view());
    assert_ne!(copied.data().as_ptr().cast::<u8>(), misaligned_bytes.as_ptr());
    assert_eq!(copied.data(), &[0x0504_0302, 0x0908_0706]);
}

fn cow_round_trip(a: &NDArray) -> (NDArray, bool) {
    let e = a.to_fields().unwrap();
    let kind = e.kind.clone();
    let data = e.data.clone();
    let fields = CowArrayFields {
        nd: Some(e.nd),
        dtype: Some(DType::Str(e.dtype.to_string())),
        kind: Some(kind.as_slice()),
        shape: Some(e.shape.clone()),
        data: Some(data.as_slice()),
    };
    let cow = CowNDArray::from_fields(fields).unwrap();
    let borrowed = cow.is_view();
    let again = cow.to_fields().unwrap();
    (NDArray::from_fields(array_fields(again)).unwrap(), borrowed)
}

#[test]
fn test_cowndarray_serialization() {
    let cases = vec![
        NDArray::Bool(vector(vec![true, false])),
        NDArray::U8(vector(vec![1, 2, 3])),
        NDArray::I8(vector(vec![-1, 0, 1])),
        NDArray::U16(vector(vec![1, 2, 3])),
        NDArray::I16(vector(vec![-1, 0, 1])),
        NDArray::F16(vector(f16_bits(&[1.0, 2.0]))),
        NDArray::U32(vector(vec![1, 2, 3])),
        NDArray::I32(vector(vec![-1, 0, 1])),
        NDArray::F32(vector(vec![1.0f32.to_bits(), 2.0f32.to_bits(), 3.0f32.to_bits()])),
        NDArray::U64(vector(vec![1, 2])),
        NDArray::I64(vector(vec![-1, 0, 1])),
        NDArray::F64(vector(vec![1.0f64.to_bits(), 2.0f64.to_bits()])),
    ];

    for ndarray in cases {
        let (deserialized, _) = cow_round_trip(&ndarray);
        match (&deserialized, &ndarray) {
            (NDArray::F16(a), NDArray::F16(b)) => {
                assert_eq!(a.shape(), b.shape());
                for (x, y) in a.data().iter().zip(b.data().iter()) {
                    let (x, y) = (half::f16::from_bits(*x).to_f32(), half::f16::from_bits(*y).to_f32());
                    assert!(x == y || (x.is_nan() && y.is_nan()));
                }
            }
            (NDArray::F32(a), NDArray::F32(b)) => {
                assert_eq!(a.shape(), b.shape());
                for (x, y) in a.data().iter().zip(b.data().iter()) {
                    let (x, y) = (f32::from_bits(*x), f32::from_bits(*y));
                    assert!(x == y || (x.is_nan() && y.is_nan()));
                }
            }
            (NDArray::F64(a), NDArray::F64(b)) => {
                assert_eq!(a.shape(), b.shape());
                for (x, y) in a.data().iter().zip(b.data().iter()) {
                    let (x, y) = (f64::from_bits(*x), f64::from_bits(*y));
                    assert!(x == y || (x.is_nan() && y.is_nan()));
                }
            }
            _ => assert_eq!(deserialized, ndarray),
        }
    }
}

