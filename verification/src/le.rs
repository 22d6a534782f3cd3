//! Little-endian encoding of fixed-width integer elements, one element and
//! whole buffers of them.
use vstd::prelude::*;
use crate::casts::{
    try_cast_bytes_i16, try_cast_bytes_i32, try_cast_bytes_i64, try_cast_bytes_i8, try_cast_bytes_u16,
    try_cast_bytes_u32, try_cast_bytes_u64,
};

verus! {

/// An element type that is stored as a fixed number of little-endian bytes.
pub trait LeElem: Sized + Copy {
    /// The number of bytes of one element.
    spec fn spec_width() -> nat;

    /// The element that `spec_width()` little-endian bytes stand for.
    spec fn spec_from_le(bytes: Seq<u8>) -> Self;

    /// The little-endian bytes of an element.
    spec fn spec_to_le(v: Self) -> Seq<u8>;

    /// An element takes between one and eight bytes.
    proof fn lemma_width()
        ensures
            1 <= Self::spec_width() <= 8,
    ;

    /// An element's bytes are `spec_width()` long and read back as the element.
    proof fn lemma_to_le(v: Self)
        ensures
            Self::spec_to_le(v).len() == Self::spec_width(),
            Self::spec_from_le(Self::spec_to_le(v)) == v,
    ;

    /// The element that `spec_width()` bytes stand for is written back as those bytes.
    proof fn lemma_from_le(b: Seq<u8>)
        requires
            b.len() == Self::spec_width(),
        ensures
            Self::spec_to_le(Self::spec_from_le(b)) == b,
    ;

    /// The number of bytes of one element.
    fn width() -> (w: usize)
        ensures
            w == Self::spec_width(),
    ;

    /// The element that `spec_width()` little-endian bytes stand for.
    fn read_le(bytes: &[u8]) -> (v: Self)
        requires
            bytes@.len() == Self::spec_width(),
        ensures
            v == Self::spec_from_le(bytes@),
    ;

    /// Appends the little-endian bytes of an element.
    fn push_le(v: Self, out: &mut Vec<u8>)
        ensures
            final(out)@ == old(out)@ + Self::spec_to_le(v),
    ;

    /// Views `data` as elements in place, without copying, when that can be
    /// done (one-byte types always; wider types when the address is aligned).
    /// A view holds one element per `spec_width()` bytes, each the element
    /// that its own bytes stand for, read either all in little-endian order
    /// or all in reverse order, as the machine stores numbers.
    fn try_borrow<'a>(data: &'a [u8]) -> (r: Option<&'a [Self]>)
        ensures
            r matches Some(s) ==> s@.len() * Self::spec_width() == data@.len(),
            r matches Some(s) ==> ((forall|i: int|
                0 <= i < s@.len() ==> #[trigger] s@[i] == Self::spec_from_le(
                    data@.subrange(i * Self::spec_width(), i * Self::spec_width() + Self::spec_width()),
                )) || (forall|i: int|
                0 <= i < s@.len() ==> #[trigger] s@[i] == Self::spec_from_le(
                    data@.subrange(
                        i * Self::spec_width(),
                        i * Self::spec_width() + Self::spec_width(),
                    ).reverse(),
                ))),
            Self::spec_width() == 1 ==> r is Some,
            Self::spec_width() == 1 ==> (r matches Some(s) ==> forall|i: int|
                0 <= i < s@.len() ==> #[trigger] s@[i] == Self::spec_from_le(data@.subrange(i, i + 1))),
    ;
}

/// The byte `b` read as a two's-complement signed byte.
pub open spec fn spec_i8_of_byte(b: u8) -> i8 {
    if b < 128 {
        b as i8
    } else {
        (b - 256) as i8
    }
}

/// The two's-complement byte of a signed byte.
pub open spec fn spec_byte_of_i8(v: i8) -> u8 {
    if v >= 0 {
        v as u8
    } else {
        (v + 256) as u8
    }
}

impl LeElem for u8 {
    open spec fn spec_width() -> nat {
        1
    }

    open spec fn spec_from_le(bytes: Seq<u8>) -> u8 {
        bytes[0]
    }

    open spec fn spec_to_le(v: u8) -> Seq<u8> {
        seq![v]
    }

    proof fn lemma_width() {
    }

    proof fn lemma_to_le(v: u8) {
    }

    proof fn lemma_from_le(b: Seq<u8>) {
        assert(seq![b[0]] =~= b);
    }

    fn width() -> usize {
        1
    }

    fn read_le(bytes: &[u8]) -> u8 {
        bytes[0]
    }

    fn push_le(v: u8, out: &mut Vec<u8>) {
        out.push(v);
    }

    fn try_borrow<'a>(data: &'a [u8]) -> Option<&'a [u8]> {
        assert forall|i: int| 0 <= i < data@.len() implies data@.subrange(i * 1, i * 1 + 1)[0]
            == data@[i] && data@.subrange(i, i + 1)[0] == data@[i] by {}
        Some(data)
    }
}

impl LeElem for i8 {
    open spec fn spec_width() -> nat {
        1
    }

    open spec fn spec_from_le(bytes: Seq<u8>) -> i8 {
        spec_i8_of_byte(bytes[0])
    }

    open spec fn spec_to_le(v: i8) -> Seq<u8> {
        seq![spec_byte_of_i8(v)]
    }

    proof fn lemma_width() {
    }

    proof fn lemma_to_le(v: i8) {
    }

    proof fn lemma_from_le(b: Seq<u8>) {
        assert(seq![b[0]] =~= b);
    }

    fn width() -> usize {
        1
    }

    fn read_le(bytes: &[u8]) -> i8 {
        let b = bytes[0];
        if b < 128 {
            b as i8
        } else {
            (b as i16 - 256) as i8
        }
    }

    fn push_le(v: i8, out: &mut Vec<u8>) {
        if v >= 0 {
            out.push(v as u8);
        } else {
            out.push((v as i16 + 256) as u8);
        }
    }

    fn try_borrow<'a>(data: &'a [u8]) -> Option<&'a [i8]> {
        let r = try_cast_bytes_i8(data);
        assert forall|i: int| 0 <= i < data@.len() implies data@.subrange(i * 1, i * 1 + 1)[0]
            == data@[i] && data@.subrange(i, i + 1)[0] == data@[i] by {}
        r
    }
}

/// `256` to the power `k`: the number of values that `k` bytes can hold.
pub open spec fn pow256(k: nat) -> nat
    decreases k,
{
    if k == 0 {
        1
    } else {
        256 * pow256((k - 1) as nat)
    }
}

/// The number that bytes stand for in little-endian order: the first byte
/// is the least significant.
pub open spec fn le_value(s: Seq<u8>) -> nat
    decreases s.len(),
{
    if s.len() == 0 {
        0
    } else {
        s[0] as nat + 256 * le_value(s.drop_first())
    }
}

/// The `k` little-endian bytes of `n` (taken modulo `256^k`).
pub open spec fn le_bytes(n: nat, k: nat) -> Seq<u8>
    decreases k,
{
    if k == 0 {
        seq![]
    } else {
        seq![(n % 256) as u8] + le_bytes(n / 256, (k - 1) as nat)
    }
}

proof fn lemma_pow256_values()
    ensures
        pow256(1) == 0x100,
        pow256(2) == 0x1_0000,
        pow256(4) == 0x1_0000_0000,
        pow256(8) == 0x1_0000_0000_0000_0000,
{
    reveal_with_fuel(pow256, 9);
}

proof fn lemma_le_bytes_len(n: nat, k: nat)
    ensures
        le_bytes(n, k).len() == k,
    decreases k,
{
    if k > 0 {
        lemma_le_bytes_len(n / 256, (k - 1) as nat);
    }
}

proof fn lemma_le_value_bound(s: Seq<u8>)
    ensures
        le_value(s) < pow256(s.len()),
    decreases s.len(),
{
    if s.len() > 0 {
        lemma_le_value_bound(s.drop_first());
    }
}

/// Reading back the `k` little-endian bytes of a number below `256^k` gives
/// the number.
pub proof fn lemma_le_value_of_bytes(n: nat, k: nat)
    requires
        n < pow256(k),
    ensures
        le_value(le_bytes(n, k)) == n,
    decreases k,
{
    if k > 0 {
        let q = n / 256;
        vstd::arithmetic::div_mod::lemma_fundamental_div_mod(n as int, 256);
        lemma_le_value_of_bytes(q, (k - 1) as nat);
        lemma_le_bytes_len(q, (k - 1) as nat);
        assert(le_bytes(n, k).drop_first() =~= le_bytes(q, (k - 1) as nat));
    }
}

/// Writing the number that some bytes stand for, in as many bytes, gives the
/// bytes back.
pub proof fn lemma_le_bytes_of_value(s: Seq<u8>)
    ensures
        le_bytes(le_value(s), s.len()) == s,
    decreases s.len(),
{
    if s.len() > 0 {
        let t = s.drop_first();
        lemma_le_bytes_of_value(t);
        let n = le_value(s);
        vstd::arithmetic::div_mod::lemma_fundamental_div_mod_converse(
            n as int,
            256,
            le_value(t) as int,
            s[0] as int,
        );
        assert(le_bytes(n, s.len()) =~= s);
    }
}

/// The number that at most eight little-endian bytes stand for.
pub fn read_le_u64(b: &[u8]) -> (r: u64)
    requires
        b@.len() <= 8,
    ensures
        r == le_value(b@),
{
    proof {
        lemma_pow256_values();
    }
    let k = b.len();
    let mut v: u64 = 0;
    let mut i: usize = k;
    while i > 0
        invariant
            k == b@.len(),
            k <= 8,
            0 <= i <= k,
            v == le_value(b@.subrange(i as int, k as int)),
            v < pow256((k - i) as nat),
            pow256(8) == 0x1_0000_0000_0000_0000,
        decreases i,
    {
        proof {
            lemma_pow256_mono((k - i + 1) as nat, 8);
            assert(b@.subrange(i - 1, k as int).drop_first() =~= b@.subrange(i as int, k as int));
        }
        i = i - 1;
        v = v * 256 + b[i] as u64;
    }
    assert(b@.subrange(0, k as int) =~= b@);
    v
}

proof fn lemma_pow256_mono(j: nat, k: nat)
    requires
        j <= k,
    ensures
        pow256(j) <= pow256(k),
    decreases k,
{
    if j < k {
        lemma_pow256_mono(j, (k - 1) as nat);
    }
}

/// Appends the `k` little-endian bytes of `v`, which is below `256^k`.
pub fn push_le_u64(v: u64, k: usize, out: &mut Vec<u8>)
    requires
        k <= 8,
        v < pow256(k as nat),
    ensures
        final(out)@ == old(out)@ + le_bytes(v as nat, k as nat),
{
    let mut cur: u64 = v;
    let mut j: usize = 0;
    while j < k
        invariant
            0 <= j <= k,
            out@ + le_bytes(cur as nat, (k - j) as nat) == old(out)@ + le_bytes(v as nat, k as nat),
        decreases k - j,
    {
        let ghost before = out@;
        out.push((cur % 256) as u8);
        assert(before + le_bytes(cur as nat, (k - j) as nat) =~= out@ + le_bytes(
            (cur / 256) as nat,
            (k - j - 1) as nat,
        ));
        cur = cur / 256;
        j = j + 1;
    }
    assert(le_bytes(cur as nat, 0) =~= Seq::<u8>::empty());
    assert(out@ =~= out@ + le_bytes(cur as nat, 0));
}

/// The `u16` that two little-endian bytes stand for.
pub open spec fn spec_u16_of_le(bytes: Seq<u8>) -> u16 {
    le_value(bytes) as u16
}

/// The `u32` that four little-endian bytes stand for.
pub open spec fn spec_u32_of_le(bytes: Seq<u8>) -> u32 {
    le_value(bytes) as u32
}

/// The `u64` that eight little-endian bytes stand for.
pub open spec fn spec_u64_of_le(bytes: Seq<u8>) -> u64 {
    le_value(bytes) as u64
}

/// The `i16` that two little-endian bytes stand for (two's complement).
pub open spec fn spec_i16_of_le(bytes: Seq<u8>) -> i16 {
    let u = le_value(bytes);
    if u < 0x8000 {
        u as i16
    } else {
        (u - 0x1_0000) as i16
    }
}

/// The `i32` that four little-endian bytes stand for (two's complement).
pub open spec fn spec_i32_of_le(bytes: Seq<u8>) -> i32 {
    let u = le_value(bytes);
    if u < 0x8000_0000 {
        u as i32
    } else {
        (u - 0x1_0000_0000) as i32
    }
}

/// The `i64` that eight little-endian bytes stand for (two's complement).
pub open spec fn spec_i64_of_le(bytes: Seq<u8>) -> i64 {
    let u = le_value(bytes);
    if u < 0x8000_0000_0000_0000 {
        u as i64
    } else {
        (u - 0x1_0000_0000_0000_0000) as i64
    }
}

impl LeElem for u16 {
    open spec fn spec_width() -> nat {
        2
    }

    open spec fn spec_from_le(bytes: Seq<u8>) -> u16 {
        spec_u16_of_le(bytes)
    }

    open spec fn spec_to_le(v: u16) -> Seq<u8> {
        le_bytes(v as nat, 2)
    }

    proof fn lemma_width() {
    }

    proof fn lemma_to_le(v: u16) {
        lemma_pow256_values();
        lemma_le_bytes_len(v as nat, 2);
        lemma_le_value_of_bytes(v as nat, 2);
    }

    proof fn lemma_from_le(b: Seq<u8>) {
        lemma_pow256_values();
        lemma_le_value_bound(b);
        lemma_le_bytes_of_value(b);
    }

    fn width() -> usize {
        2
    }

    fn read_le(bytes: &[u8]) -> u16 {
        proof {
            lemma_pow256_values();
            lemma_le_value_bound(bytes@);
        }
        read_le_u64(bytes) as u16
    }

    fn push_le(v: u16, out: &mut Vec<u8>) {
        proof {
            lemma_pow256_values();
        }
        push_le_u64(v as u64, 2, out);
    }

    fn try_borrow<'a>(data: &'a [u8]) -> Option<&'a [u16]> {
        try_cast_bytes_u16(data)
    }
}

impl LeElem for u32 {
    open spec fn spec_width() -> nat {
        4
    }

    open spec fn spec_from_le(bytes: Seq<u8>) -> u32 {
        spec_u32_of_le(bytes)
    }

    open spec fn spec_to_le(v: u32) -> Seq<u8> {
        le_bytes(v as nat, 4)
    }

    proof fn lemma_width() {
    }

    proof fn lemma_to_le(v: u32) {
        lemma_pow256_values();
        lemma_le_bytes_len(v as nat, 4);
        lemma_le_value_of_bytes(v as nat, 4);
    }

    proof fn lemma_from_le(b: Seq<u8>) {
        lemma_pow256_values();
        lemma_le_value_bound(b);
        lemma_le_bytes_of_value(b);
    }

    fn width() -> usize {
        4
    }

    fn read_le(bytes: &[u8]) -> u32 {
        proof {
            lemma_pow256_values();
            lemma_le_value_bound(bytes@);
        }
        read_le_u64(bytes) as u32
    }

    fn push_le(v: u32, out: &mut Vec<u8>) {
        proof {
            lemma_pow256_values();
        }
        push_le_u64(v as u64, 4, out);
    }

    fn try_borrow<'a>(data: &'a [u8]) -> Option<&'a [u32]> {
        try_cast_bytes_u32(data)
    }
}

impl LeElem for u64 {
    open spec fn spec_width() -> nat {
        8
    }

    open spec fn spec_from_le(bytes: Seq<u8>) -> u64 {
        spec_u64_of_le(bytes)
    }

    open spec fn spec_to_le(v: u64) -> Seq<u8> {
        le_bytes(v as nat, 8)
    }

    proof fn lemma_width() {
    }

    proof fn lemma_to_le(v: u64) {
        lemma_pow256_values();
        lemma_le_bytes_len(v as nat, 8);
        lemma_le_value_of_bytes(v as nat, 8);
    }

    proof fn lemma_from_le(b: Seq<u8>) {
        lemma_pow256_values();
        lemma_le_value_bound(b);
        lemma_le_bytes_of_value(b);
    }

    fn width() -> usize {
        8
    }

    fn read_le(bytes: &[u8]) -> u64 {
        read_le_u64(bytes)
    }

    fn push_le(v: u64, out: &mut Vec<u8>) {
        proof {
            lemma_pow256_values();
        }
        push_le_u64(v, 8, out);
    }

    fn try_borrow<'a>(data: &'a [u8]) -> Option<&'a [u64]> {
        try_cast_bytes_u64(data)
    }
}

impl LeElem for i16 {
    open spec fn spec_width() -> nat {
        2
    }

    open spec fn spec_from_le(bytes: Seq<u8>) -> i16 {
        spec_i16_of_le(bytes)
    }

    open spec fn spec_to_le(v: i16) -> Seq<u8> {
        le_bytes((if v >= 0 { v as int } else { v + 0x1_0000 }) as nat, 2)
    }

    proof fn lemma_width() {
    }

    proof fn lemma_to_le(v: i16) {
        lemma_pow256_values();
        let u = (if v >= 0 { v as int } else { v + 0x1_0000 }) as nat;
        lemma_le_bytes_len(u, 2);
        lemma_le_value_of_bytes(u, 2);
    }

    proof fn lemma_from_le(b: Seq<u8>) {
        lemma_pow256_values();
        lemma_le_value_bound(b);
        lemma_le_bytes_of_value(b);
    }

    fn width() -> usize {
        2
    }

    fn read_le(bytes: &[u8]) -> i16 {
        proof {
            lemma_pow256_values();
            lemma_le_value_bound(bytes@);
        }
        let u = read_le_u64(bytes);
        if u < 0x8000 {
            u as i16
        } else {
            (u as i32 - 0x1_0000) as i16
        }
    }

    fn push_le(v: i16, out: &mut Vec<u8>) {
        proof {
            lemma_pow256_values();
        }
        let u: u64 = if v >= 0 {
            v as u64
        } else {
            (v as i32 + 0x1_0000) as u64
        };
        push_le_u64(u, 2, out);
    }

    fn try_borrow<'a>(data: &'a [u8]) -> Option<&'a [i16]> {
        try_cast_bytes_i16(data)
    }
}

impl LeElem for i32 {
    open spec fn spec_width() -> nat {
        4
    }

    open spec fn spec_from_le(bytes: Seq<u8>) -> i32 {
        spec_i32_of_le(bytes)
    }

    open spec fn spec_to_le(v: i32) -> Seq<u8> {
        le_bytes((if v >= 0 { v as int } else { v + 0x1_0000_0000 }) as nat, 4)
    }

    proof fn lemma_width() {
    }

    proof fn lemma_to_le(v: i32) {
        lemma_pow256_values();
        let u = (if v >= 0 { v as int } else { v + 0x1_0000_0000 }) as nat;
        lemma_le_bytes_len(u, 4);
        lemma_le_value_of_bytes(u, 4);
    }

    proof fn lemma_from_le(b: Seq<u8>) {
        lemma_pow256_values();
        lemma_le_value_bound(b);
        lemma_le_bytes_of_value(b);
    }

    fn width() -> usize {
        4
    }

    fn read_le(bytes: &[u8]) -> i32 {
        proof {
            lemma_pow256_values();
            lemma_le_value_bound(bytes@);
        }
        let u = read_le_u64(bytes);
        if u < 0x8000_0000 {
            u as i32
        } else {
            (u as i64 - 0x1_0000_0000) as i32
        }
    }

    fn push_le(v: i32, out: &mut Vec<u8>) {
        proof {
            lemma_pow256_values();
        }
        let u: u64 = if v >= 0 {
            v as u64
        } else {
            (v as i64 + 0x1_0000_0000) as u64
        };
        push_le_u64(u, 4, out);
    }

    fn try_borrow<'a>(data: &'a [u8]) -> Option<&'a [i32]> {
        try_cast_bytes_i32(data)
    }
}

impl LeElem for i64 {
    open spec fn spec_width() -> nat {
        8
    }

    open spec fn spec_from_le(bytes: Seq<u8>) -> i64 {
        spec_i64_of_le(bytes)
    }

    open spec fn spec_to_le(v: i64) -> Seq<u8> {
        le_bytes((if v >= 0 { v as int } else { v + 0x1_0000_0000_0000_0000 }) as nat, 8)
    }

    proof fn lemma_width() {
    }

    proof fn lemma_to_le(v: i64) {
        lemma_pow256_values();
        let u = (if v >= 0 { v as int } else { v + 0x1_0000_0000_0000_0000 }) as nat;
        lemma_le_bytes_len(u, 8);
        lemma_le_value_of_bytes(u, 8);
    }

    proof fn lemma_from_le(b: Seq<u8>) {
        lemma_pow256_values();
        lemma_le_value_bound(b);
        lemma_le_bytes_of_value(b);
    }

    fn width() -> usize {
        8
    }

    fn read_le(bytes: &[u8]) -> i64 {
        proof {
            lemma_pow256_values();
            lemma_le_value_bound(bytes@);
        }
        let u = read_le_u64(bytes);
        if u < 0x8000_0000_0000_0000 {
            u as i64
        } else {
            ((u - 0x8000_0000_0000_0000) as i64) + i64::MIN
        }
    }

    fn push_le(v: i64, out: &mut Vec<u8>) {
        proof {
            lemma_pow256_values();
        }
        let u: u64 = if v >= 0 {
            v as u64
        } else {
            ((v - i64::MIN) as u64) + 0x8000_0000_0000_0000
        };
        push_le_u64(u, 8, out);
    }

    fn try_borrow<'a>(data: &'a [u8]) -> Option<&'a [i64]> {
        try_cast_bytes_i64(data)
    }
}

/// The elements that a byte buffer holds, one per `spec_width()` bytes; bytes
/// that do not fill a whole element at the end are not read.
pub open spec fn decode_all<T: LeElem>(b: Seq<u8>) -> Seq<T> {
    Seq::new(
        b.len() / T::spec_width(),
        |i: int| T::spec_from_le(b.subrange(i * T::spec_width(), i * T::spec_width() + T::spec_width())),
    )
}

/// The elements that a byte buffer holds when each element's bytes are read
/// in reverse (big-endian) order; bytes that do not fill a whole element at
/// the end are not read.
pub open spec fn decode_all_swapped<T: LeElem>(b: Seq<u8>) -> Seq<T> {
    Seq::new(
        b.len() / T::spec_width(),
        |i: int|
            T::spec_from_le(
                b.subrange(i * T::spec_width(), i * T::spec_width() + T::spec_width()).reverse(),
            ),
    )
}

/// The bytes of a sequence of elements, each in little-endian order, one after
/// the other.
pub open spec fn encode_all<T: LeElem>(v: Seq<T>) -> Seq<u8>
    decreases v.len(),
{
    if v.len() == 0 {
        seq![]
    } else {
        encode_all(v.drop_last()) + T::spec_to_le(v.last())
    }
}

proof fn lemma_mul_succ(i: int, w: int)
    ensures
        (i + 1) * w == i * w + w,
{
    assert((i + 1) * w == i * w + w) by (nonlinear_arith);
}

proof fn lemma_mul_mono(i: int, j: int, w: int)
    requires
        0 <= i <= j,
        0 <= w,
    ensures
        i * w <= j * w,
{
    assert(i * w <= j * w) by (nonlinear_arith)
        requires
            0 <= i <= j,
            0 <= w,
    ;
}

proof fn lemma_div_exact(n: int, w: int)
    requires
        0 <= n,
        0 < w,
    ensures
        (n * w) / w == n,
        (n * w) % w == 0,
{
    vstd::arithmetic::div_mod::lemma_div_multiples_vanish(n, w);
    vstd::arithmetic::div_mod::lemma_mod_multiples_basic(n, w);
    assert(n * w == w * n) by (nonlinear_arith);
}

/// `encode_all` takes `spec_width()` bytes per element.
pub proof fn lemma_encode_len<T: LeElem>(v: Seq<T>)
    ensures
        encode_all(v).len() == v.len() * T::spec_width(),
    decreases v.len(),
{
    T::lemma_width();
    if v.len() > 0 {
        lemma_encode_len(v.drop_last());
        T::lemma_to_le(v.last());
        lemma_mul_succ(v.len() - 1, T::spec_width() as int);
    }
}

/// Element `i` of a sequence occupies bytes `[i * w, i * w + w)` of its encoding.
pub proof fn lemma_encode_chunk<T: LeElem>(v: Seq<T>, i: int)
    requires
        0 <= i < v.len(),
    ensures
        encode_all(v).subrange(i * T::spec_width(), i * T::spec_width() + T::spec_width())
            == T::spec_to_le(v[i]),
    decreases v.len(),
{
    let w = T::spec_width() as int;
    T::lemma_width();
    let prefix = encode_all(v.drop_last());
    lemma_encode_len(v.drop_last());
    T::lemma_to_le(v.last());
    if i == v.len() - 1 {
        assert(encode_all(v).subrange(i * w, i * w + w) =~= T::spec_to_le(v[i]));
    } else {
        lemma_encode_chunk(v.drop_last(), i);
        lemma_mul_succ(i, w);
        lemma_mul_mono(i + 1, v.len() - 1, w);
        assert(encode_all(v).subrange(i * w, i * w + w) =~= prefix.subrange(i * w, i * w + w));
    }
}

/// Decoding the encoding of a sequence gives the sequence back.
pub proof fn lemma_decode_encode<T: LeElem>(v: Seq<T>)
    ensures
        decode_all::<T>(encode_all(v)) == v,
{
    let w = T::spec_width() as int;
    T::lemma_width();
    lemma_encode_len(v);
    lemma_div_exact(v.len() as int, w);
    let d = decode_all::<T>(encode_all(v));
    assert forall|i: int| 0 <= i < v.len() implies d[i] == v[i] by {
        lemma_encode_chunk(v, i);
        T::lemma_to_le(v[i]);
    }
    assert(d =~= v);
}

/// Encoding the elements of a buffer whose length is a whole number of
/// elements gives the buffer back.
pub proof fn lemma_encode_decode<T: LeElem>(b: Seq<u8>)
    requires
        b.len() % T::spec_width() == 0,
    ensures
        encode_all(decode_all::<T>(b)) == b,
    decreases b.len(),
{
    let w = T::spec_width() as int;
    T::lemma_width();
    let len = b.len() as int;
    let n = len / w;
    vstd::arithmetic::div_mod::lemma_fundamental_div_mod(len, w);
    assert(len == n * w) by (nonlinear_arith)
        requires
            len == w * n + len % w,
            len % w == 0,
    ;
    if n == 0 {
        assert(b =~= Seq::<u8>::empty());
        assert(decode_all::<T>(b) =~= Seq::<T>::empty());
    } else {
        let m = n - 1;
        let b0 = b.subrange(0, m * w);
        lemma_mul_succ(m, w);
        lemma_div_exact(m, w);
        lemma_div_exact(n, w);
        lemma_encode_decode::<T>(b0);
        let d = decode_all::<T>(b);
        let d0 = decode_all::<T>(b0);
        assert forall|i: int| 0 <= i < m implies d0[i] == d[i] by {
            lemma_mul_succ(i, w);
            lemma_mul_mono(i + 1, m, w);
            assert(b0.subrange(i * w, i * w + w) =~= b.subrange(i * w, i * w + w));
        }
        assert(d.drop_last() =~= d0);
        T::lemma_from_le(b.subrange(m * w, m * w + w));
        assert(encode_all(d) == encode_all(d0) + T::spec_to_le(d.last()));
        assert(b =~= b0 + b.subrange(m * w, m * w + w));
    }
}

/// The elements that `data` holds, or `None` when its length is not a whole
/// number of elements.
pub fn bytes_to_vec<T: LeElem>(data: &[u8]) -> (r: Option<Vec<T>>)
    ensures
        r is None <==> data@.len() % T::spec_width() != 0,
        r matches Some(v) ==> v@ == decode_all::<T>(data@),
{
    let w = T::width();
    proof {
        T::lemma_width();
    }
    if data.len() % w != 0 {
        return None;
    }
    let len = data.len();
    let n = len / w;
    let ghost spec = decode_all::<T>(data@);
    let mut out: Vec<T> = Vec::with_capacity(n);
    let mut pos: usize = 0;
    let mut i: usize = 0;
    proof {
        let len = data@.len() as int;
        vstd::arithmetic::div_mod::lemma_fundamental_div_mod(len, w as int);
        assert(len == n * w) by (nonlinear_arith)
            requires
                len == (w as int) * (n as int) + len % (w as int),
                len % (w as int) == 0,
                n == len / (w as int),
        ;
    }
    while i < n
        invariant
            w == T::spec_width(),
            1 <= w <= 8,
            len == data@.len(),
            n == data@.len() as int / (w as int),
            data@.len() == n * w,
            spec == decode_all::<T>(data@),
            0 <= i <= n,
            pos == i * w,
            out@ =~= spec.take(i as int),
        decreases n - i,
    {
        proof {
            lemma_mul_succ(i as int, w as int);
            lemma_mul_mono(i as int + 1, n as int, w as int);
            assert(pos + w <= data@.len());
        }
        let chunk = vstd::slice::slice_subrange(data, pos, pos + w);
        let v = T::read_le(chunk);
        out.push(v);
        pos = pos + w;
        i = i + 1;
    }
    Some(out)
}

/// The little-endian bytes of `values`, element after element.
pub fn encode_slice<T: LeElem>(values: &[T]) -> (r: Vec<u8>)
    ensures
        r@ == encode_all(values@),
{
    let mut out: Vec<u8> = Vec::new();
    let mut i: usize = 0;
    while i < values.len()
        invariant
            0 <= i <= values@.len(),
            out@ == encode_all(values@.take(i as int)),
        decreases values@.len() - i,
    {
        T::push_le(values[i], &mut out);
        i = i + 1;
        assert(values@.take(i as int).drop_last() =~= values@.take(i - 1));
    }
    assert(values@.take(values@.len() as int) =~= values@);
    out
}


/// The number that two bytes stand for, the first byte least significant.
pub open spec fn le2_value(b: Seq<u8>) -> int {
    b[0] + 0x100 * b[1]
}

/// The number that four bytes stand for, the first byte least significant.
pub open spec fn le4_value(b: Seq<u8>) -> int {
    b[0] + 0x100 * b[1] + 0x1_0000 * b[2] + 0x100_0000 * b[3]
}

/// The number that eight bytes stand for, the first byte least significant.
pub open spec fn le8_value(b: Seq<u8>) -> int {
    b[0] + 0x100 * b[1] + 0x1_0000 * b[2] + 0x100_0000 * b[3] + 0x1_0000_0000 * b[4]
        + 0x100_0000_0000 * b[5] + 0x1_0000_0000_0000 * b[6] + 0x100_0000_0000_0000 * b[7]
}

proof fn lemma_le_value_2(b: Seq<u8>)
    requires
        b.len() == 2,
    ensures
        le_value(b) == le2_value(b),
{
    let b1 = b.drop_first();
    let b2 = b1.drop_first();
    assert(le_value(b2) == 0);
    assert(le_value(b1) == b1[0] + 256 * le_value(b2));
    assert(b1[0] == b[1]);
}

proof fn lemma_le_value_4(b: Seq<u8>)
    requires
        b.len() == 4,
    ensures
        le_value(b) == le4_value(b),
{
    let b1 = b.drop_first();
    let b2 = b1.drop_first();
    let b3 = b2.drop_first();
    let b4 = b3.drop_first();
    assert(le_value(b4) == 0);
    assert(le_value(b3) == b3[0] + 256 * le_value(b4));
    assert(le_value(b2) == b2[0] + 256 * le_value(b3));
    assert(le_value(b1) == b1[0] + 256 * le_value(b2));
    assert(b1[0] == b[1] && b2[0] == b[2] && b3[0] == b[3]);
}

proof fn lemma_le_value_8(b: Seq<u8>)
    requires
        b.len() == 8,
    ensures
        le_value(b) == le8_value(b),
{
    let b1 = b.drop_first();
    let b2 = b1.drop_first();
    let b3 = b2.drop_first();
    let b4 = b3.drop_first();
    let b5 = b4.drop_first();
    let b6 = b5.drop_first();
    let b7 = b6.drop_first();
    let b8 = b7.drop_first();
    assert(le_value(b8) == 0);
    assert(le_value(b7) == b7[0] + 256 * le_value(b8));
    assert(le_value(b6) == b6[0] + 256 * le_value(b7));
    assert(le_value(b5) == b5[0] + 256 * le_value(b6));
    assert(le_value(b4) == b4[0] + 256 * le_value(b5));
    assert(le_value(b3) == b3[0] + 256 * le_value(b4));
    assert(le_value(b2) == b2[0] + 256 * le_value(b3));
    assert(le_value(b1) == b1[0] + 256 * le_value(b2));
    assert(b1[0] == b[1] && b2[0] == b[2] && b3[0] == b[3] && b4[0] == b[4]);
    assert(b5[0] == b[5] && b6[0] == b[6] && b7[0] == b[7]);
}

/// A byte read as an `i8` is its two's-complement value.
pub proof fn lemma_i8_from_le(b: Seq<u8>)
    requires
        b.len() == 1,
    ensures
        <i8 as LeElem>::spec_from_le(b) as int == b[0] - (if b[0] >= 0x80 { 0x100int } else { 0 }),
{
}

/// An `i8` is written as the one byte of its two's-complement value.
pub proof fn lemma_i8_to_le(v: i8)
    ensures
        <i8 as LeElem>::spec_to_le(v).len() == 1,
        <i8 as LeElem>::spec_to_le(v)[0] as int == (if v < 0 { v + 0x100 } else { v as int }),
{
}

/// Two bytes read as a `u16` are the number they stand for, first byte least
/// significant.
pub proof fn lemma_u16_from_le(b: Seq<u8>)
    requires
        b.len() == 2,
    ensures
        <u16 as LeElem>::spec_from_le(b) as int == le2_value(b),
{
    lemma_le_value_2(b);
}

/// A `u16` is written as the two bytes that stand for it, first byte least
/// significant.
pub proof fn lemma_u16_to_le(v: u16)
    ensures
        <u16 as LeElem>::spec_to_le(v).len() == 2,
        le2_value(<u16 as LeElem>::spec_to_le(v)) == v as int,
{
    <u16 as LeElem>::lemma_to_le(v);
    lemma_u16_from_le(<u16 as LeElem>::spec_to_le(v));
}

/// Two bytes read as an `i16` are their two's-complement value, first byte
/// least significant.
pub proof fn lemma_i16_from_le(b: Seq<u8>)
    requires
        b.len() == 2,
    ensures
        <i16 as LeElem>::spec_from_le(b) as int == le2_value(b) - (if b[1] >= 0x80 {
            0x1_0000int
        } else {
            0
        }),
{
    lemma_le_value_2(b);
}

/// An `i16` is written as the two bytes of its two's-complement value, first
/// byte least significant.
pub proof fn lemma_i16_to_le(v: i16)
    ensures
        <i16 as LeElem>::spec_to_le(v).len() == 2,
        le2_value(<i16 as LeElem>::spec_to_le(v)) == (if v < 0 { v + 0x1_0000 } else { v as int }),
{
    <i16 as LeElem>::lemma_to_le(v);
    lemma_i16_from_le(<i16 as LeElem>::spec_to_le(v));
}

/// Four bytes read as a `u32` are the number they stand for, first byte least
/// significant.
pub proof fn lemma_u32_from_le(b: Seq<u8>)
    requires
        b.len() == 4,
    ensures
        <u32 as LeElem>::spec_from_le(b) as int == le4_value(b),
{
    lemma_le_value_4(b);
}

/// A `u32` is written as the four bytes that stand for it, first byte least
/// significant.
pub proof fn lemma_u32_to_le(v: u32)
    ensures
        <u32 as LeElem>::spec_to_le(v).len() == 4,
        le4_value(<u32 as LeElem>::spec_to_le(v)) == v as int,
{
    <u32 as LeElem>::lemma_to_le(v);
    lemma_u32_from_le(<u32 as LeElem>::spec_to_le(v));
}

/// Four bytes read as an `i32` are their two's-complement value, first byte
/// least significant.
pub proof fn lemma_i32_from_le(b: Seq<u8>)
    requires
        b.len() == 4,
    ensures
        <i32 as LeElem>::spec_from_le(b) as int == le4_value(b) - (if b[3] >= 0x80 {
            0x1_0000_0000int
        } else {
            0
        }),
{
    lemma_le_value_4(b);
}

/// An `i32` is written as the four bytes of its two's-complement value, first
/// byte least significant.
pub proof fn lemma_i32_to_le(v: i32)
    ensures
        <i32 as LeElem>::spec_to_le(v).len() == 4,
        le4_value(<i32 as LeElem>::spec_to_le(v)) == (if v < 0 {
            v + 0x1_0000_0000
        } else {
            v as int
        }),
{
    <i32 as LeElem>::lemma_to_le(v);
    lemma_i32_from_le(<i32 as LeElem>::spec_to_le(v));
}

/// Eight bytes read as a `u64` are the number they stand for, first byte
/// least significant.
pub proof fn lemma_u64_from_le(b: Seq<u8>)
    requires
        b.len() == 8,
    ensures
        <u64 as LeElem>::spec_from_le(b) as int == le8_value(b),
{
    lemma_le_value_8(b);
}

/// A `u64` is written as the eight bytes that stand for it, first byte least
/// significant.
pub proof fn lemma_u64_to_le(v: u64)
    ensures
        <u64 as LeElem>::spec_to_le(v).len() == 8,
        le8_value(<u64 as LeElem>::spec_to_le(v)) == v as int,
{
    <u64 as LeElem>::lemma_to_le(v);
    lemma_u64_from_le(<u64 as LeElem>::spec_to_le(v));
}

/// Eight bytes read as an `i64` are their two's-complement value, first byte
/// least significant.
pub proof fn lemma_i64_from_le(b: Seq<u8>)
    requires
        b.len() == 8,
    ensures
        <i64 as LeElem>::spec_from_le(b) as int == le8_value(b) - (if b[7] >= 0x80 {
            0x1_0000_0000_0000_0000int
        } else {
            0
        }),
{
    lemma_le_value_8(b);
}

/// An `i64` is written as the eight bytes of its two's-complement value, first
/// byte least significant.
pub proof fn lemma_i64_to_le(v: i64)
    ensures
        <i64 as LeElem>::spec_to_le(v).len() == 8,
        le8_value(<i64 as LeElem>::spec_to_le(v)) == (if v < 0 {
            v + 0x1_0000_0000_0000_0000
        } else {
            v as int
        }),
{
    <i64 as LeElem>::lemma_to_le(v);
    lemma_i64_from_le(<i64 as LeElem>::spec_to_le(v));
}

} // verus!
