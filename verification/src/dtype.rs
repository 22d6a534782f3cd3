//! NumPy element types and their type strings.
use vstd::prelude::*;
use vstd::string::StringSliceAdditionalSpecFns;

verus! {

/// ASCII `|`, the byte-order mark of byte-sized types.
pub const BYTE_PIPE: u8 = 124;
/// ASCII `<`, the little-endian byte-order mark.
pub const BYTE_LT: u8 = 60;
/// ASCII `b`, the kind code of booleans.
pub const BYTE_B: u8 = 98;
/// ASCII `u`, the kind code of unsigned integers.
pub const BYTE_U: u8 = 117;
/// ASCII `i`, the kind code of signed integers.
pub const BYTE_I: u8 = 105;
/// ASCII `f`, the kind code of floating-point numbers.
pub const BYTE_F: u8 = 102;
/// ASCII `1`.
pub const BYTE_1: u8 = 49;
/// ASCII `2`.
pub const BYTE_2: u8 = 50;
/// ASCII `4`.
pub const BYTE_4: u8 = 52;
/// ASCII `8`.
pub const BYTE_8: u8 = 56;

/// The primitive NumPy element types that this crate decodes and encodes.
///
/// Floating-point types are carried by their IEEE-754 bit patterns elsewhere
/// in the crate; here they are only element types with a width.
#[derive(Clone, Copy, Debug, PartialEq, Eq, Structural)]
pub enum ElemType {
    Bool,
    U8,
    I8,
    U16,
    I16,
    F16,
    U32,
    I32,
    F32,
    U64,
    I64,
    F64,
}

/// A NumPy dtype as msgpack-numpy writes it: a type string such as `"<u4"`,
/// or a structured dtype given as a list of `(name, type)` pairs.
#[derive(Debug)]
pub enum DType {
    Str(String),
    Structured(Vec<(String, String)>),
}

/// The bytes of the NumPy type string of an element type.
pub open spec fn spec_type_bytes(k: ElemType) -> Seq<u8> {
    match k {
        ElemType::Bool => seq![BYTE_PIPE, BYTE_B, BYTE_1],
        ElemType::U8 => seq![BYTE_PIPE, BYTE_U, BYTE_1],
        ElemType::I8 => seq![BYTE_PIPE, BYTE_I, BYTE_1],
        ElemType::U16 => seq![BYTE_LT, BYTE_U, BYTE_2],
        ElemType::I16 => seq![BYTE_LT, BYTE_I, BYTE_2],
        ElemType::F16 => seq![BYTE_LT, BYTE_F, BYTE_2],
        ElemType::U32 => seq![BYTE_LT, BYTE_U, BYTE_4],
        ElemType::I32 => seq![BYTE_LT, BYTE_I, BYTE_4],
        ElemType::F32 => seq![BYTE_LT, BYTE_F, BYTE_4],
        ElemType::U64 => seq![BYTE_LT, BYTE_U, BYTE_8],
        ElemType::I64 => seq![BYTE_LT, BYTE_I, BYTE_8],
        ElemType::F64 => seq![BYTE_LT, BYTE_F, BYTE_8],
    }
}

/// The element type whose type string has the given bytes, if any.
pub open spec fn spec_elem_type(b: Seq<u8>) -> Option<ElemType> {
    if b == spec_type_bytes(ElemType::Bool) {
        Some(ElemType::Bool)
    } else if b == spec_type_bytes(ElemType::U8) {
        Some(ElemType::U8)
    } else if b == spec_type_bytes(ElemType::I8) {
        Some(ElemType::I8)
    } else if b == spec_type_bytes(ElemType::U16) {
        Some(ElemType::U16)
    } else if b == spec_type_bytes(ElemType::I16) {
        Some(ElemType::I16)
    } else if b == spec_type_bytes(ElemType::F16) {
        Some(ElemType::F16)
    } else if b == spec_type_bytes(ElemType::U32) {
        Some(ElemType::U32)
    } else if b == spec_type_bytes(ElemType::I32) {
        Some(ElemType::I32)
    } else if b == spec_type_bytes(ElemType::F32) {
        Some(ElemType::F32)
    } else if b == spec_type_bytes(ElemType::U64) {
        Some(ElemType::U64)
    } else if b == spec_type_bytes(ElemType::I64) {
        Some(ElemType::I64)
    } else if b == spec_type_bytes(ElemType::F64) {
        Some(ElemType::F64)
    } else {
        None
    }
}

/// The size in bytes of one element.
pub open spec fn spec_width(k: ElemType) -> nat {
    match k {
        ElemType::Bool | ElemType::U8 | ElemType::I8 => 1,
        ElemType::U16 | ElemType::I16 | ElemType::F16 => 2,
        ElemType::U32 | ElemType::I32 | ElemType::F32 => 4,
        ElemType::U64 | ElemType::I64 | ElemType::F64 => 8,
    }
}

/// The element type that a dtype names, if it is a supported type string.
pub open spec fn spec_dtype_elem(d: DType) -> Option<ElemType> {
    match d {
        DType::Str(s) => spec_elem_type(vstd::utf8::encode_utf8(s@)),
        DType::Structured(_) => None,
    }
}

impl ElemType {
    /// The size in bytes of one element of this type.
    pub fn width(&self) -> (w: usize)
        ensures
            w == spec_width(*self),
    {
        match self {
            ElemType::Bool | ElemType::U8 | ElemType::I8 => 1,
            ElemType::U16 | ElemType::I16 | ElemType::F16 => 2,
            ElemType::U32 | ElemType::I32 | ElemType::F32 => 4,
            ElemType::U64 | ElemType::I64 | ElemType::F64 => 8,
        }
    }

    /// The NumPy type string of this element type, such as `"<u4"` for `U32`.
    pub fn type_str(&self) -> (s: &'static str)
        ensures
            s.spec_bytes() == spec_type_bytes(*self),
    {
        match self {
            ElemType::Bool => {
                proof {
                    reveal_strlit("|b1");
                    vstd::utf8::is_ascii_chars_encode_utf8("|b1"@);
                    assert("|b1".spec_bytes() =~= spec_type_bytes(*self));
                }
                "|b1"
            },
            ElemType::U8 => {
                proof {
                    reveal_strlit("|u1");
                    vstd::utf8::is_ascii_chars_encode_utf8("|u1"@);
                    assert("|u1".spec_bytes() =~= spec_type_bytes(*self));
                }
                "|u1"
            },
            ElemType::I8 => {
                proof {
                    reveal_strlit("|i1");
                    vstd::utf8::is_ascii_chars_encode_utf8("|i1"@);
                    assert("|i1".spec_bytes() =~= spec_type_bytes(*self));
                }
                "|i1"
            },
            ElemType::U16 => {
                proof {
                    reveal_strlit("<u2");
                    vstd::utf8::is_ascii_chars_encode_utf8("<u2"@);
                    assert("<u2".spec_bytes() =~= spec_type_bytes(*self));
                }
                "<u2"
            },
            ElemType::I16 => {
                proof {
                    reveal_strlit("<i2");
                    vstd::utf8::is_ascii_chars_encode_utf8("<i2"@);
                    assert("<i2".spec_bytes() =~= spec_type_bytes(*self));
                }
                "<i2"
            },
            ElemType::F16 => {
                proof {
                    reveal_strlit("<f2");
                    vstd::utf8::is_ascii_chars_encode_utf8("<f2"@);
                    assert("<f2".spec_bytes() =~= spec_type_bytes(*self));
                }
                "<f2"
            },
            ElemType::U32 => {
                proof {
                    reveal_strlit("<u4");
                    vstd::utf8::is_ascii_chars_encode_utf8("<u4"@);
                    assert("<u4".spec_bytes() =~= spec_type_bytes(*self));
                }
                "<u4"
            },
            ElemType::I32 => {
                proof {
                    reveal_strlit("<i4");
                    vstd::utf8::is_ascii_chars_encode_utf8("<i4"@);
                    assert("<i4".spec_bytes() =~= spec_type_bytes(*self));
                }
                "<i4"
            },
            ElemType::F32 => {
                proof {
                    reveal_strlit("<f4");
                    vstd::utf8::is_ascii_chars_encode_utf8("<f4"@);
                    assert("<f4".spec_bytes() =~= spec_type_bytes(*self));
                }
                "<f4"
            },
            ElemType::U64 => {
                proof {
                    reveal_strlit("<u8");
                    vstd::utf8::is_ascii_chars_encode_utf8("<u8"@);
                    assert("<u8".spec_bytes() =~= spec_type_bytes(*self));
                }
                "<u8"
            },
            ElemType::I64 => {
                proof {
                    reveal_strlit("<i8");
                    vstd::utf8::is_ascii_chars_encode_utf8("<i8"@);
                    assert("<i8".spec_bytes() =~= spec_type_bytes(*self));
                }
                "<i8"
            },
            ElemType::F64 => {
                proof {
                    reveal_strlit("<f8");
                    vstd::utf8::is_ascii_chars_encode_utf8("<f8"@);
                    assert("<f8".spec_bytes() =~= spec_type_bytes(*self));
                }
                "<f8"
            },
        }
    }
}

/// The element type named by a NumPy type string; `None` for every string that
/// is not one of the twelve supported little-endian or byte-sized type strings.
pub fn parse_type_str(s: &str) -> (r: Option<ElemType>)
    ensures
        r == spec_elem_type(s.spec_bytes()),
{
    let b = s.as_bytes();
    if b.len() != 3 {
        return None;
    }
    let c0 = b[0];
    let c1 = b[1];
    let c2 = b[2];
    assert(b@ =~= seq![c0, c1, c2]);
    if c0 == BYTE_PIPE {
        if c1 == BYTE_B && c2 == BYTE_1 {
            Some(ElemType::Bool)
        } else if c1 == BYTE_U && c2 == BYTE_1 {
            Some(ElemType::U8)
        } else if c1 == BYTE_I && c2 == BYTE_1 {
            Some(ElemType::I8)
        } else {
            None
        }
    } else if c0 == BYTE_LT {
        if c1 == BYTE_U {
            if c2 == BYTE_2 {
                Some(ElemType::U16)
            } else if c2 == BYTE_4 {
                Some(ElemType::U32)
            } else if c2 == BYTE_8 {
                Some(ElemType::U64)
            } else {
                None
            }
        } else if c1 == BYTE_I {
            if c2 == BYTE_2 {
                Some(ElemType::I16)
            } else if c2 == BYTE_4 {
                Some(ElemType::I32)
            } else if c2 == BYTE_8 {
                Some(ElemType::I64)
            } else {
                None
            }
        } else if c1 == BYTE_F {
            if c2 == BYTE_2 {
                Some(ElemType::F16)
            } else if c2 == BYTE_4 {
                Some(ElemType::F32)
            } else if c2 == BYTE_8 {
                Some(ElemType::F64)
            } else {
                None
            }
        } else {
            None
        }
    } else {
        None
    }
}

/// The element type that a dtype names; `None` for a structured dtype and for
/// every unsupported type string.
pub fn dtype_elem(d: &DType) -> (r: Option<ElemType>)
    ensures
        r == spec_dtype_elem(*d),
{
    match d {
        DType::Str(s) => parse_type_str(s.as_str()),
        DType::Structured(_) => None,
    }
}

/// Every element type's type string is read back as that element type.
pub proof fn lemma_type_str_roundtrip(k: ElemType)
    ensures
        spec_elem_type(spec_type_bytes(k)) == Some(k),
        spec_type_bytes(k).len() == 3,
{
    reveal_with_fuel(spec_elem_type, 1);
}

} // verus!
