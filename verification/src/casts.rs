//! Zero-copy reinterpretation of byte buffers, done by `bytemuck`.
use vstd::prelude::*;
use crate::le::{
    spec_i16_of_le, spec_i32_of_le, spec_i64_of_le, spec_i8_of_byte, spec_u16_of_le, spec_u32_of_le,
    spec_u64_of_le,
};

verus! {

/// Calls `bytemuck::allocation::try_cast_vec::<u8, i8>`, which hands the
/// allocation of a byte vector over to a vector of signed bytes without
/// copying. Its source returns `Ok` whenever the two element types have the
/// same alignment and size, which `u8` and `i8` always do; the cast keeps
/// every byte's bits, so each element is that byte read in two's complement.
/// The `Err` arm hands the input back unchanged, as the source does.
#[verifier::external_body]
pub(crate) fn reuse_bytes_as_i8(data: Vec<u8>) -> (r: Result<Vec<i8>, Vec<u8>>)
    ensures
        r is Ok,
        r matches Ok(v) ==> v@ == data@.map_values(|b: u8| spec_i8_of_byte(b)),
        r matches Err(d) ==> d@ == data@,
{
    match bytemuck::allocation::try_cast_vec::<u8, i8>(data) {
        Ok(v) => Ok(v),
        Err((_, d)) => Err(d),
    }
}

/// Calls `bytemuck::try_cast_slice::<u8, i8>`, which views a byte slice as
/// a slice of signed bytes without copying. Its source always succeeds for
/// this pair (same size, and `i8` is never more aligned than `u8`) and keeps
/// every byte's bits, so element `i` is byte `i` read in two's complement.
#[verifier::external_body]
pub(crate) fn try_cast_bytes_i8<'a>(data: &'a [u8]) -> (r: Option<&'a [i8]>)
    ensures
        r is Some,
        r matches Some(s) ==> s@ == data@.map_values(|b: u8| spec_i8_of_byte(b)),
{
    bytemuck::try_cast_slice::<u8, i8>(data).ok()
}

/// Calls `bytemuck::try_cast_slice::<u8, u16>`, which views a byte slice as a
/// slice of `u16` without copying. Its source succeeds only when the slice's
/// address is aligned for `u16` and its length is a whole number of 2-byte
/// elements, and then returns `len / 2` elements, element `i` being the bits
/// of bytes `2 * i .. 2 * i + 2` read as a `u16`. Whether it succeeds
/// depends on the address. A Rust target is either little- or big-endian, so
/// every element is its bytes read in little-endian order, or every element
/// is its bytes read in reverse (big-endian) order; which one depends on the
/// machine and is left open.
#[verifier::external_body]
pub(crate) fn try_cast_bytes_u16<'a>(data: &'a [u8]) -> (r: Option<&'a [u16]>)
    ensures
        r matches Some(s) ==> s@.len() * 2 == data@.len(),
        r matches Some(s) ==> ((forall|i: int|
            0 <= i < s@.len() ==> #[trigger] s@[i] == spec_u16_of_le(data@.subrange(2 * i, 2 * i + 2)))
            || (forall|i: int|
            0 <= i < s@.len() ==> #[trigger] s@[i] == spec_u16_of_le(
                data@.subrange(2 * i, 2 * i + 2).reverse(),
            ))),
{
    bytemuck::try_cast_slice::<u8, u16>(data).ok()
}

/// Calls `bytemuck::try_cast_slice::<u8, i16>`, which views a byte slice as a
/// slice of `i16` without copying. Its source succeeds only when the slice's
/// address is aligned for `i16` and its length is a whole number of 2-byte
/// elements, and then returns `len / 2` elements, element `i` being the bits
/// of bytes `2 * i .. 2 * i + 2` read as an `i16`. Whether it succeeds
/// depends on the address. A Rust target is either little- or big-endian, so
/// every element is its bytes read in little-endian order, or every element
/// is its bytes read in reverse (big-endian) order; which one depends on the
/// machine and is left open.
#[verifier::external_body]
pub(crate) fn try_cast_bytes_i16<'a>(data: &'a [u8]) -> (r: Option<&'a [i16]>)
    ensures
        r matches Some(s) ==> s@.len() * 2 == data@.len(),
        r matches Some(s) ==> ((forall|i: int|
            0 <= i < s@.len() ==> #[trigger] s@[i] == spec_i16_of_le(data@.subrange(2 * i, 2 * i + 2)))
            || (forall|i: int|
            0 <= i < s@.len() ==> #[trigger] s@[i] == spec_i16_of_le(
                data@.subrange(2 * i, 2 * i + 2).reverse(),
            ))),
{
    bytemuck::try_cast_slice::<u8, i16>(data).ok()
}

/// Calls `bytemuck::try_cast_slice::<u8, u32>`, which views a byte slice as a
/// slice of `u32` without copying. Its source succeeds only when the slice's
/// address is aligned for `u32` and its length is a whole number of 4-byte
/// elements, and then returns `len / 4` elements, element `i` being the bits
/// of bytes `4 * i .. 4 * i + 4` read as a `u32`. Whether it succeeds
/// depends on the address. A Rust target is either little- or big-endian, so
/// every element is its bytes read in little-endian order, or every element
/// is its bytes read in reverse (big-endian) order; which one depends on the
/// machine and is left open.
#[verifier::external_body]
pub(crate) fn try_cast_bytes_u32<'a>(data: &'a [u8]) -> (r: Option<&'a [u32]>)
    ensures
        r matches Some(s) ==> s@.len() * 4 == data@.len(),
        r matches Some(s) ==> ((forall|i: int|
            0 <= i < s@.len() ==> #[trigger] s@[i] == spec_u32_of_le(data@.subrange(4 * i, 4 * i + 4)))
            || (forall|i: int|
            0 <= i < s@.len() ==> #[trigger] s@[i] == spec_u32_of_le(
                data@.subrange(4 * i, 4 * i + 4).reverse(),
            ))),
{
    bytemuck::try_cast_slice::<u8, u32>(data).ok()
}

/// Calls `bytemuck::try_cast_slice::<u8, i32>`, which views a byte slice as a
/// slice of `i32` without copying. Its source succeeds only when the slice's
/// address is aligned for `i32` and its length is a whole number of 4-byte
/// elements, and then returns `len / 4` elements, element `i` being the bits
/// of bytes `4 * i .. 4 * i + 4` read as an `i32`. Whether it succeeds
/// depends on the address. A Rust target is either little- or big-endian, so
/// every element is its bytes read in little-endian order, or every element
/// is its bytes read in reverse (big-endian) order; which one depends on the
/// machine and is left open.
#[verifier::external_body]
pub(crate) fn try_cast_bytes_i32<'a>(data: &'a [u8]) -> (r: Option<&'a [i32]>)
    ensures
        r matches Some(s) ==> s@.len() * 4 == data@.len(),
        r matches Some(s) ==> ((forall|i: int|
            0 <= i < s@.len() ==> #[trigger] s@[i] == spec_i32_of_le(data@.subrange(4 * i, 4 * i + 4)))
            || (forall|i: int|
            0 <= i < s@.len() ==> #[trigger] s@[i] == spec_i32_of_le(
                data@.subrange(4 * i, 4 * i + 4).reverse(),
            ))),
{
    bytemuck::try_cast_slice::<u8, i32>(data).ok()
}

/// Calls `bytemuck::try_cast_slice::<u8, u64>`, which views a byte slice as a
/// slice of `u64` without copying. Its source succeeds only when the slice's
/// address is aligned for `u64` and its length is a whole number of 8-byte
/// elements, and then returns `len / 8` elements, element `i` being the bits
/// of bytes `8 * i .. 8 * i + 8` read as a `u64`. Whether it succeeds
/// depends on the address. A Rust target is either little- or big-endian, so
/// every element is its bytes read in little-endian order, or every element
/// is its bytes read in reverse (big-endian) order; which one depends on the
/// machine and is left open.
#[verifier::external_body]
pub(crate) fn try_cast_bytes_u64<'a>(data: &'a [u8]) -> (r: Option<&'a [u64]>)
    ensures
        r matches Some(s) ==> s@.len() * 8 == data@.len(),
        r matches Some(s) ==> ((forall|i: int|
            0 <= i < s@.len() ==> #[trigger] s@[i] == spec_u64_of_le(data@.subrange(8 * i, 8 * i + 8)))
            || (forall|i: int|
            0 <= i < s@.len() ==> #[trigger] s@[i] == spec_u64_of_le(
                data@.subrange(8 * i, 8 * i + 8).reverse(),
            ))),
{
    bytemuck::try_cast_slice::<u8, u64>(data).ok()
}

/// Calls `bytemuck::try_cast_slice::<u8, i64>`, which views a byte slice as a
/// slice of `i64` without copying. Its source succeeds only when the slice's
/// address is aligned for `i64` and its length is a whole number of 8-byte
/// elements, and then returns `len / 8` elements, element `i` being the bits
/// of bytes `8 * i .. 8 * i + 8` read as an `i64`. Whether it succeeds
/// depends on the address. A Rust target is either little- or big-endian, so
/// every element is its bytes read in little-endian order, or every element
/// is its bytes read in reverse (big-endian) order; which one depends on the
/// machine and is left open.
#[verifier::external_body]
pub(crate) fn try_cast_bytes_i64<'a>(data: &'a [u8]) -> (r: Option<&'a [i64]>)
    ensures
        r matches Some(s) ==> s@.len() * 8 == data@.len(),
        r matches Some(s) ==> ((forall|i: int|
            0 <= i < s@.len() ==> #[trigger] s@[i] == spec_i64_of_le(data@.subrange(8 * i, 8 * i + 8)))
            || (forall|i: int|
            0 <= i < s@.len() ==> #[trigger] s@[i] == spec_i64_of_le(
                data@.subrange(8 * i, 8 * i + 8).reverse(),
            ))),
{
    bytemuck::try_cast_slice::<u8, i64>(data).ok()
}

} // verus!
