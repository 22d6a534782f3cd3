//! Verified encoding and decoding of NumPy scalars and n-dimensional arrays
//! in the msgpack-numpy layout.

pub mod dtype;
pub mod le;
pub mod array;
mod casts;
pub mod error;
pub mod scalar;
pub mod ndarray_codec;
pub mod cow_codec;

pub use cow_codec::CowNDArray;
pub use ndarray_codec::NDArray;
pub use scalar::Scalar;
