//! Dense n-dimensional arrays in logical (row-major) order, and the shape
//! rules under which a buffer of elements forms an array.
use vstd::prelude::*;

verus! {

/// Why a shape does not fit a buffer of elements.
#[derive(Clone, Copy, Debug, PartialEq, Eq, Structural)]
pub enum ShapeError {
    /// The shape's element count differs from the buffer's length.
    IncompatibleShape,
    /// The shape has more elements than the buffer holds.
    OutOfBounds,
    /// The product of the shape's nonzero axis lengths exceeds `isize::MAX`.
    Overflow,
}

/// The number of elements of an array with this shape: the product of the
/// axis lengths (1 for a zero-dimensional array).
pub open spec fn shape_size(s: Seq<usize>) -> nat
    decreases s.len(),
{
    if s.len() == 0 {
        1
    } else {
        shape_size(s.drop_last()) * (s.last() as nat)
    }
}

/// The product of the nonzero axis lengths of a shape.
pub open spec fn nonzero_size(s: Seq<usize>) -> nat
    decreases s.len(),
{
    if s.len() == 0 {
        1
    } else {
        nonzero_size(s.drop_last()) * (if s.last() == 0 { 1 } else { s.last() as nat })
    }
}

/// A shape is usable when the product of its nonzero axis lengths fits in `isize`.
pub open spec fn shape_fits(s: Seq<usize>) -> bool {
    nonzero_size(s) <= isize::MAX
}

/// Whether `len` elements, owned, form an array of shape `s`: the shape must
/// fit, and name exactly `len` elements.
pub open spec fn spec_check_owned(s: Seq<usize>, len: nat) -> Result<(), ShapeError> {
    if !shape_fits(s) {
        Err(ShapeError::Overflow)
    } else if shape_size(s) > len {
        Err(ShapeError::OutOfBounds)
    } else if shape_size(s) != len {
        Err(ShapeError::IncompatibleShape)
    } else {
        Ok(())
    }
}

proof fn lemma_nonzero_size_mono(s: Seq<usize>, i: int)
    requires
        0 <= i <= s.len(),
    ensures
        nonzero_size(s.take(i)) <= nonzero_size(s),
        1 <= nonzero_size(s),
    decreases s.len(),
{
    if s.len() > 0 {
        if i == s.len() {
            assert(s.take(i) =~= s);
        } else {
            lemma_nonzero_size_mono(s.drop_last(), i);
            assert(s.drop_last().take(i) =~= s.take(i));
        }
        lemma_nonzero_size_mono(s.drop_last(), 0);
        let a = nonzero_size(s.drop_last());
        let f: nat = if s.last() == 0 { 1 } else { s.last() as nat };
        assert(a <= a * f && 1 <= a * f) by (nonlinear_arith)
            requires
                1 <= a,
                1 <= f,
        ;
    }
}

proof fn lemma_size_le_nonzero_size(s: Seq<usize>)
    ensures
        shape_size(s) <= nonzero_size(s),
        (forall|k: int| 0 <= k < s.len() ==> s[k] != 0) ==> shape_size(s) == nonzero_size(s),
        (exists|k: int| 0 <= k < s.len() && s[k] == 0) ==> shape_size(s) == 0,
    decreases s.len(),
{
    if s.len() > 0 {
        let t = s.drop_last();
        lemma_size_le_nonzero_size(t);
        let a = shape_size(t);
        let b = nonzero_size(t);
        let d = s.last() as nat;
        if d == 0 {
        } else {
            assert(a * d <= b * d) by (nonlinear_arith)
                requires
                    a <= b,
            ;
        }
        if exists|k: int| 0 <= k < s.len() && s[k] == 0 {
            let k = choose|k: int| 0 <= k < s.len() && s[k] == 0;
            if k < s.len() - 1 {
                assert(t[k] == 0);
                assert(exists|k2: int| 0 <= k2 < t.len() && t[k2] == 0);
                assert(a * d == 0) by (nonlinear_arith)
                    requires
                        a == 0,
                ;
            } else {
                assert(a * d == 0) by (nonlinear_arith)
                    requires
                        d == 0,
                ;
            }
        }
        assert((forall|k: int| 0 <= k < s.len() ==> s[k] != 0) ==> (forall|k: int|
            0 <= k < t.len() ==> t[k] != 0));
    }
}

/// The element count of a shape, after the check that the product of its
/// nonzero axis lengths fits in `isize`.
pub fn shape_size_checked(shape: &[usize]) -> (r: Result<usize, ShapeError>)
    ensures
        r matches Ok(n) ==> shape_fits(shape@) && n == shape_size(shape@),
        r is Err ==> !shape_fits(shape@) && r == Err::<usize, ShapeError>(ShapeError::Overflow),
        shape_fits(shape@) ==> r is Ok,
{
    let mut acc: usize = 1;
    let mut has_zero = false;
    let mut i: usize = 0;
    while i < shape.len()
        invariant
            0 <= i <= shape@.len(),
            acc == nonzero_size(shape@.take(i as int)),
            has_zero <==> exists|k: int| 0 <= k < i && shape@[k] == 0,
        decreases shape@.len() - i,
    {
        let d = shape[i];
        let ghost prev = shape@.take(i as int);
        assert(shape@.take(i + 1).drop_last() =~= prev);
        if d == 0 {
            has_zero = true;
        } else {
            match acc.checked_mul(d) {
                Some(p) => {
                    acc = p;
                },
                None => {
                    proof {
                        lemma_nonzero_size_mono(shape@, i + 1);
                    }
                    return Err(ShapeError::Overflow);
                },
            }
        }
        i = i + 1;
    }
    assert(shape@.take(shape@.len() as int) =~= shape@);
    if acc > isize::MAX as usize {
        return Err(ShapeError::Overflow);
    }
    proof {
        lemma_size_le_nonzero_size(shape@);
    }
    if has_zero {
        Ok(0)
    } else {
        Ok(acc)
    }
}

/// Checks that `len` owned elements form an array of shape `shape`.
pub fn check_owned(shape: &[usize], len: usize) -> (r: Result<(), ShapeError>)
    ensures
        r == spec_check_owned(shape@, len as nat),
{
    let n = shape_size_checked(shape)?;
    if n > len {
        Err(ShapeError::OutOfBounds)
    } else if n != len {
        Err(ShapeError::IncompatibleShape)
    } else {
        Ok(())
    }
}

/// The model of a well-formed array: its shape fits and names exactly its elements.
pub open spec fn model_wf<T>(m: ArrayModel<T>) -> bool {
    &&& shape_fits(m.shape)
    &&& shape_size(m.shape) == m.elems.len()
}

/// The mathematical content of an array: its shape and its elements in
/// logical (row-major) order.
#[verifier::ext_equal]
pub struct ArrayModel<T> {
    pub shape: Seq<usize>,
    pub elems: Seq<T>,
}

/// An owned n-dimensional array whose elements are stored in logical
/// (row-major) order.
#[derive(Debug, PartialEq)]
pub struct DenseArray<T> {
    shape: Vec<usize>,
    data: Vec<T>,
}

impl<T> View for DenseArray<T> {
    type V = ArrayModel<T>;

    open spec fn view(&self) -> ArrayModel<T> {
        ArrayModel { shape: self.spec_shape(), elems: self.spec_elems() }
    }
}

impl<T> DenseArray<T> {
    /// The shape of the array.
    pub closed spec fn spec_shape(&self) -> Seq<usize> {
        self.shape@
    }

    /// The elements of the array in logical order.
    pub closed spec fn spec_elems(&self) -> Seq<T> {
        self.data@
    }

    #[verifier::type_invariant]
    closed spec fn wf(self) -> bool {
        &&& shape_fits(self.shape@)
        &&& shape_size(self.shape@) == self.data@.len()
    }

    /// The array of the given shape over `data` in logical order; the errors
    /// are those of an owned buffer that does not fit the shape.
    pub fn from_shape_vec(shape: Vec<usize>, data: Vec<T>) -> (r: Result<Self, ShapeError>)
        ensures
            match spec_check_owned(shape@, data@.len()) {
                Ok(_) => r matches Ok(a) && a@.shape == shape@ && a@.elems == data@,
                Err(e) => r matches Err(e2) && e2 == e,
            },
    {
        check_owned(shape.as_slice(), data.len())?;
        Ok(DenseArray { shape, data })
    }

    /// The shape of the array.
    pub fn shape(&self) -> (s: &[usize])
        ensures
            s@ == self@.shape,
            model_wf(self@),
    {
        proof {
            use_type_invariant(self);
        }
        self.shape.as_slice()
    }

    /// The elements of the array in logical order.
    pub fn data(&self) -> (d: &[T])
        ensures
            d@ == self@.elems,
            model_wf(self@),
    {
        proof {
            use_type_invariant(self);
        }
        self.data.as_slice()
    }

    /// The shape and the elements, taken apart.
    pub fn into_parts(self) -> (r: (Vec<usize>, Vec<T>))
        ensures
            r.0@ == self@.shape,
            r.1@ == self@.elems,
            shape_fits(r.0@),
            shape_size(r.0@) == r.1@.len(),
    {
        proof {
            use_type_invariant(&self);
        }
        (self.shape, self.data)
    }
}

} // verus!
