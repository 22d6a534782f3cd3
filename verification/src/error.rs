//! Field names of the msgpack-numpy map layout, and the errors of decoding
//! and encoding.
use vstd::prelude::*;
use vstd::string::StringSliceAdditionalSpecFns;
use crate::dtype::ElemType;
use crate::array::ShapeError;

verus! {

/// ASCII `n`.
pub const BYTE_N: u8 = 110;
/// ASCII `d`.
pub const BYTE_D: u8 = 100;
/// ASCII `t`.
pub const BYTE_T: u8 = 116;
/// ASCII `y`.
pub const BYTE_Y: u8 = 121;
/// ASCII `p`.
pub const BYTE_P: u8 = 112;
/// ASCII `e`.
pub const BYTE_E: u8 = 101;
/// ASCII `k`.
pub const BYTE_K: u8 = 107;
/// ASCII `i`.
pub const BYTE_LOWER_I: u8 = 105;
/// ASCII `s`.
pub const BYTE_S: u8 = 115;
/// ASCII `h`.
pub const BYTE_H: u8 = 104;
/// ASCII `a`.
pub const BYTE_A: u8 = 97;

/// A key of the map that msgpack-numpy writes for a scalar or an array.
#[derive(Clone, Copy, Debug, PartialEq, Eq, Structural)]
pub enum FieldName {
    /// `"nd"`: whether the value is an array (`true`) or a scalar (`false`).
    Nd,
    /// `"type"`: the NumPy dtype.
    Type,
    /// `"kind"`: the dtype's kind (written empty, read and ignored).
    Kind,
    /// `"shape"`: the array's shape.
    Shape,
    /// `"data"`: the raw element bytes.
    Data,
}

/// The bytes of a field's key.
pub open spec fn spec_key_bytes(f: FieldName) -> Seq<u8> {
    match f {
        FieldName::Nd => seq![BYTE_N, BYTE_D],
        FieldName::Type => seq![BYTE_T, BYTE_Y, BYTE_P, BYTE_E],
        FieldName::Kind => seq![BYTE_K, BYTE_LOWER_I, BYTE_N, BYTE_D],
        FieldName::Shape => seq![BYTE_S, BYTE_H, BYTE_A, BYTE_P, BYTE_E],
        FieldName::Data => seq![BYTE_D, BYTE_A, BYTE_T, BYTE_A],
    }
}

/// The field whose key has the given bytes, if any.
pub open spec fn spec_field_name(b: Seq<u8>) -> Option<FieldName> {
    if b == spec_key_bytes(FieldName::Nd) {
        Some(FieldName::Nd)
    } else if b == spec_key_bytes(FieldName::Type) {
        Some(FieldName::Type)
    } else if b == spec_key_bytes(FieldName::Kind) {
        Some(FieldName::Kind)
    } else if b == spec_key_bytes(FieldName::Shape) {
        Some(FieldName::Shape)
    } else if b == spec_key_bytes(FieldName::Data) {
        Some(FieldName::Data)
    } else {
        None
    }
}

/// The field that a map key names, if it is one of the five keys of the
/// layout.
pub fn field_name(key: &str) -> (r: Option<FieldName>)
    ensures
        r == spec_field_name(key.spec_bytes()),
{
    let b = key.as_bytes();
    let n = b.len();
    if n == 2 {
        assert(b@ =~= seq![b[0], b[1]]);
        if b[0] == BYTE_N && b[1] == BYTE_D {
            return Some(FieldName::Nd);
        }
    } else if n == 4 {
        assert(b@ =~= seq![b[0], b[1], b[2], b[3]]);
        if b[0] == BYTE_T && b[1] == BYTE_Y && b[2] == BYTE_P && b[3] == BYTE_E {
            return Some(FieldName::Type);
        }
        if b[0] == BYTE_K && b[1] == BYTE_LOWER_I && b[2] == BYTE_N && b[3] == BYTE_D {
            return Some(FieldName::Kind);
        }
        if b[0] == BYTE_D && b[1] == BYTE_A && b[2] == BYTE_T && b[3] == BYTE_A {
            return Some(FieldName::Data);
        }
    } else if n == 5 {
        assert(b@ =~= seq![b[0], b[1], b[2], b[3], b[4]]);
        if b[0] == BYTE_S && b[1] == BYTE_H && b[2] == BYTE_A && b[3] == BYTE_P && b[4] == BYTE_E {
            return Some(FieldName::Shape);
        }
    }
    None
}

impl FieldName {
    /// The key under which this field is written.
    pub fn key(&self) -> (s: &'static str)
        ensures
            s.spec_bytes() == spec_key_bytes(*self),
    {
        match self {
            FieldName::Nd => {
                proof {
                    reveal_strlit("nd");
                    vstd::utf8::is_ascii_chars_encode_utf8("nd"@);
                    assert("nd".spec_bytes() =~= spec_key_bytes(*self));
                }
                "nd"
            },
            FieldName::Type => {
                proof {
                    reveal_strlit("type");
                    vstd::utf8::is_ascii_chars_encode_utf8("type"@);
                    assert("type".spec_bytes() =~= spec_key_bytes(*self));
                }
                "type"
            },
            FieldName::Kind => {
                proof {
                    reveal_strlit("kind");
                    vstd::utf8::is_ascii_chars_encode_utf8("kind"@);
                    assert("kind".spec_bytes() =~= spec_key_bytes(*self));
                }
                "kind"
            },
            FieldName::Shape => {
                proof {
                    reveal_strlit("shape");
                    vstd::utf8::is_ascii_chars_encode_utf8("shape"@);
                    assert("shape".spec_bytes() =~= spec_key_bytes(*self));
                }
                "shape"
            },
            FieldName::Data => {
                proof {
                    reveal_strlit("data");
                    vstd::utf8::is_ascii_chars_encode_utf8("data"@);
                    assert("data".spec_bytes() =~= spec_key_bytes(*self));
                }
                "data"
            },
        }
    }
}

/// Why raw element bytes do not form an array.
#[derive(Clone, Copy, Debug, PartialEq, Eq, Structural)]
pub enum ArrayError {
    /// The data's length is not a whole number of elements of this type.
    InvalidDataLength(ElemType),
    /// The decoded elements do not fit the shape.
    Shape(ShapeError),
}

/// Why a map read from msgpack is not a NumPy scalar or array.
#[derive(Clone, Copy, Debug, PartialEq, Eq, Structural)]
pub enum DecodeError {
    /// A required key is absent.
    MissingField(FieldName),
    /// The `nd` flag is not the expected one (`false` for scalars, `true` for arrays).
    NdMismatch(bool),
    /// A scalar's data is not exactly one element of its type.
    InvalidScalarData(ElemType),
    /// An array's data of a multi-byte or signed-byte type does not form the array.
    Array(ArrayError),
    /// A boolean or unsigned-byte array's data does not fit its shape.
    Shape(ShapeError),
}

/// Why a value cannot be written in the msgpack-numpy layout.
#[derive(Clone, Copy, Debug, PartialEq, Eq, Structural)]
pub enum EncodeError {
    /// The value holds an unsupported dtype.
    UnsupportedDtype,
}

} // verus!
