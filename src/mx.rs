//! The host environment's array descriptor, held as plain values: its
//! dimensions, element class, complexity and storage kind.
use vstd::prelude::*;

verus! {

/// Class id of double-precision arrays.
pub const DOUBLE_CLASS: u32 = 6;

/// Number of elements of an array with dimensions `dims`.
pub open spec fn element_count(dims: Seq<usize>) -> nat
    decreases dims.len(),
{
    if dims.len() == 0 {
        1
    } else {
        element_count(dims.drop_last()) * (dims.last() as nat)
    }
}

/// Descriptor of a host array. Its element count always fits in `usize`.
#[allow(non_camel_case_types)]
#[derive(Debug)]
pub struct mxArray_tag {
    dims: Vec<usize>,
    count: usize,
    class_id: u32,
    complex: bool,
    sparse: bool,
}

#[allow(non_camel_case_types)]
pub type mxArray = mxArray_tag;

proof fn lemma_zero_dimension(dims: Seq<usize>, z: int)
    requires
        0 <= z < dims.len(),
        dims[z] == 0,
    ensures
        element_count(dims) == 0,
    decreases dims.len(),
{
    let rest = element_count(dims.drop_last());
    if z < dims.len() - 1 {
        lemma_zero_dimension(dims.drop_last(), z);
        assert(rest * (dims.last() as nat) == 0) by (nonlinear_arith)
            requires
                rest == 0,
        ;
    } else {
        assert(rest * (dims.last() as nat) == 0) by (nonlinear_arith)
            requires
                dims.last() == 0,
        ;
    }
}

proof fn lemma_prefix_count_bounded(dims: Seq<usize>, i: int)
    requires
        0 <= i <= dims.len(),
        forall|k: int| 0 <= k < dims.len() ==> dims[k] >= 1,
    ensures
        element_count(dims.take(i)) <= element_count(dims),
    decreases dims.len(),
{
    if i < dims.len() {
        let rest = dims.drop_last();
        lemma_prefix_count_bounded(rest, i);
        assert(rest.take(i) =~= dims.take(i));
        assert(element_count(rest) <= element_count(rest) * (dims.last() as nat)) by (nonlinear_arith)
            requires
                dims.last() >= 1,
        ;
    } else {
        assert(dims.take(i) =~= dims);
    }
}

impl mxArray {
    #[verifier::type_invariant]
    spec fn count_fits(self) -> bool {
        self.count == element_count(self.dims@)
    }

    pub closed spec fn dims(self) -> Seq<usize> {
        self.dims@
    }

    pub closed spec fn class_id(self) -> u32 {
        self.class_id
    }

    pub closed spec fn complex(self) -> bool {
        self.complex
    }

    pub closed spec fn sparse(self) -> bool {
        self.sparse
    }

    /// A descriptor with the given dimensions and kind; `None` when the
    /// number of elements does not fit in `usize`.
    pub fn new(dims: Vec<usize>, class_id: u32, complex: bool, sparse: bool) -> (r: Option<
        mxArray_tag,
    >)
        ensures
            r is None <==> element_count(dims@) > usize::MAX,
            r matches Some(a) ==> {
                &&& a.dims() == dims@
                &&& a.class_id() == class_id
                &&& a.complex() == complex
                &&& a.sparse() == sparse
            },
    {
        let mut z: usize = 0;
        while z < dims.len()
            invariant
                z <= dims@.len(),
                forall|k: int| 0 <= k < z ==> dims@[k] >= 1,
            decreases dims@.len() - z,
        {
            if dims[z] == 0 {
                proof {
                    lemma_zero_dimension(dims@, z as int);
                }
                return Some(mxArray_tag { dims, count: 0, class_id, complex, sparse });
            }
            z = z + 1;
        }
        let mut count: usize = 1;
        let mut i: usize = 0;
        while i < dims.len()
            invariant
                i <= dims@.len(),
                forall|k: int| 0 <= k < dims@.len() ==> dims@[k] >= 1,
                count == element_count(dims@.take(i as int)),
            decreases dims@.len() - i,
        {
            assert(dims@.take(i + 1).drop_last() =~= dims@.take(i as int));
            match count.checked_mul(dims[i]) {
                Some(c) => {
                    count = c;
                },
                None => {
                    proof {
                        lemma_prefix_count_bounded(dims@, i + 1);
                    }
                    return None;
                },
            }
            i = i + 1;
        }
        assert(dims@.take(i as int) =~= dims@);
        Some(mxArray_tag { dims, count, class_id, complex, sparse })
    }

    /// The sizes of the array's dimensions.
    pub fn dimensions(&self) -> (r: &[usize])
        ensures
            r@ == self.dims(),
    {
        self.dims.as_slice()
    }

    /// The number of elements: the product of the dimensions.
    pub fn numel(&self) -> (r: usize)
        ensures
            r == element_count(self.dims()),
    {
        proof {
            use_type_invariant(self);
        }
        self.count
    }

    /// The array holds complex numbers.
    pub fn is_complex(&self) -> (r: bool)
        ensures
            r == self.complex(),
    {
        self.complex
    }

    /// The array holds double-precision numbers.
    pub fn is_double(&self) -> (r: bool)
        ensures
            r == (self.class_id() == DOUBLE_CLASS),
    {
        self.class_id == DOUBLE_CLASS
    }

    /// The array is stored as a sparse matrix.
    pub fn is_sparse(&self) -> (r: bool)
        ensures
            r == self.sparse(),
    {
        self.sparse
    }

    /// The array has no elements.
    pub fn is_empty(&self) -> (r: bool)
        ensures
            r == (element_count(self.dims()) == 0),
    {
        self.numel() == 0
    }

    /// The array holds exactly one element.
    pub fn is_scalar(&self) -> (r: bool)
        ensures
            r == (element_count(self.dims()) == 1),
    {
        self.numel() == 1
    }
}

} // verus!
