//! Tensor shapes and element types, with the element counts and byte sizes
//! that the numina array library computes for them.

use vstd::prelude::*;

verus! {

/// The product of a sequence of dimension sizes.
pub open spec fn product(dims: Seq<usize>) -> nat
    decreases dims.len(),
{
    if dims.len() == 0 {
        1
    } else {
        product(dims.drop_last()) * (dims.last() as nat)
    }
}

/// The shape of a transposed two-dimensional tensor: its dimensions
/// exchanged.
pub open spec fn transposed(dims: Seq<usize>) -> Seq<usize> {
    seq![dims[1], dims[0]]
}

/// Transposing twice gives back the shape.
pub proof fn lemma_transpose_involution(dims: Seq<usize>)
    requires
        dims.len() == 2,
    ensures
        transposed(transposed(dims)) == dims,
{
    assert(transposed(transposed(dims)) =~= dims);
}

/// The product of two dimension sizes is their product.
pub proof fn lemma_product_of_pair(dims: Seq<usize>)
    requires
        dims.len() == 2,
    ensures
        product(dims) == dims[0] * dims[1],
{
    let first = dims.drop_last();
    assert(first.drop_last().len() == 0);
    assert(product(first.drop_last()) == 1);
    assert(first.last() == dims[0]);
    assert(product(first) == 1 * (dims[0] as nat));
    assert(dims.last() == dims[1]);
    assert(product(dims) == product(first) * (dims[1] as nat));
}

/// A tensor shape: a non-empty list of strictly positive dimension sizes.
#[derive(Debug, PartialEq, Eq)]
pub struct Shape {
    dims: Vec<usize>,
}

/// A list of dimension sizes that makes a valid shape.
pub open spec fn valid_dims(dims: Seq<usize>) -> bool {
    dims.len() > 0 && forall|i: int| 0 <= i < dims.len() ==> dims[i] > 0
}

impl View for Shape {
    type V = Seq<usize>;

    closed spec fn view(&self) -> Seq<usize> {
        self.dims@
    }
}

impl Shape {
    #[verifier::type_invariant]
    spec fn well_formed(self) -> bool {
        valid_dims(self.dims@)
    }

    /// The number of elements of a tensor of this shape.
    pub open spec fn num_elements(self) -> nat {
        product(self@)
    }

    /// Builds a shape from its dimension sizes, which must be non-empty and
    /// strictly positive.
    pub fn from(dims: Vec<usize>) -> (s: Shape)
        requires
            valid_dims(dims@),
        ensures
            s@ == dims@,
    {
        Shape { dims }
    }

    /// Every shape has a non-empty list of positive dimensions.
    pub fn check_valid(&self)
        ensures
            valid_dims(self@),
    {
        proof {
            use_type_invariant(self);
        }
    }

    /// The number of dimensions.
    pub fn ndim(&self) -> (n: usize)
        ensures
            n == self@.len(),
    {
        self.dims.len()
    }

    /// The size of dimension `index`.
    pub fn dim(&self, index: usize) -> (d: usize)
        requires
            index < self@.len(),
        ensures
            d == self@[index as int],
    {
        self.dims[index]
    }

    /// The dimension sizes.
    pub fn dims(&self) -> (d: &Vec<usize>)
        ensures
            d@ == self@,
    {
        &self.dims
    }

    /// The shape of two dimensions with the dimensions of a two-dimensional
    /// shape exchanged.
    pub fn swapped_pair(&self) -> (s: Shape)
        requires
            self@.len() == 2,
        ensures
            s@ == transposed(self@),
    {
        proof {
            use_type_invariant(self);
        }
        let mut dims: Vec<usize> = Vec::new();
        dims.push(self.dims[1]);
        dims.push(self.dims[0]);
        assert(dims@ =~= transposed(self@));
        Shape { dims }
    }

    /// The byte size of a tensor of this shape is at least its number of
    /// elements.
    pub proof fn lemma_product_le_bytes(&self, dtype: DType)
        ensures
            self.num_elements() <= self.num_elements() * dtype.size_bytes(),
    {
        let n = self.num_elements();
        let b = dtype.size_bytes();
        assert(n <= n * b) by (nonlinear_arith)
            requires
                b >= 1,
        ;
    }

    /// The number of elements; the product must fit in a `usize`.
    pub fn len(&self) -> (n: usize)
        requires
            self.num_elements() <= usize::MAX,
        ensures
            n == self.num_elements(),
    {
        proof {
            use_type_invariant(self);
        }
        numina_shape_len(&self.dims)
    }
}

impl Clone for Shape {
    fn clone(&self) -> (s: Self)
        ensures
            s@ == self@,
    {
        proof {
            use_type_invariant(self);
        }
        Shape { dims: self.dims.clone() }
    }
}

/// `numina::Shape::from(dims).len()`: numina builds a shape from a non-empty
/// list of positive sizes and returns the product of the sizes, which is
/// stated here for lists whose product fits in a `usize`.
#[verifier::external_body]
fn numina_shape_len(dims: &Vec<usize>) -> (n: usize)
    requires
        valid_dims(dims@),
        product(dims@) <= usize::MAX,
    ensures
        n == product(dims@),
{
    numina::Shape::from(dims.clone()).len()
}

/// Element types of tensors.
#[derive(Debug, Clone, Copy, PartialEq, Eq, Structural)]
pub enum DType {
    F16,
    F32,
    F64,
    BF16,
    BF8,
    F8E4M3FN,
    F8E5M2,
    Complex32,
    Complex64,
    Complex128,
    I8,
    I16,
    I32,
    I64,
    U8,
    U16,
    U32,
    U64,
    Bool,
    QI4,
    QU8,
}

impl DType {
    /// Bytes that one element of this type takes in memory (a 4-bit value
    /// takes a whole byte).
    pub open spec fn size_bytes(self) -> nat {
        match self {
            DType::F16 => 2,
            DType::F32 => 4,
            DType::F64 => 8,
            DType::BF16 => 2,
            DType::BF8 => 1,
            DType::F8E4M3FN => 1,
            DType::F8E5M2 => 1,
            DType::Complex32 => 4,
            DType::Complex64 => 8,
            DType::Complex128 => 16,
            DType::I8 => 1,
            DType::I16 => 2,
            DType::I32 => 4,
            DType::I64 => 8,
            DType::U8 => 1,
            DType::U16 => 2,
            DType::U32 => 4,
            DType::U64 => 8,
            DType::Bool => 1,
            DType::QI4 => 1,
            DType::QU8 => 1,
        }
    }

    /// The integer, boolean and 8-bit quantized element types take as many
    /// bytes as the Rust types that hold them.
    pub proof fn lemma_integer_widths()
        ensures
            DType::I8.size_bytes() == vstd::layout::size_of::<i8>(),
            DType::I16.size_bytes() == vstd::layout::size_of::<i16>(),
            DType::I32.size_bytes() == vstd::layout::size_of::<i32>(),
            DType::I64.size_bytes() == vstd::layout::size_of::<i64>(),
            DType::U8.size_bytes() == vstd::layout::size_of::<u8>(),
            DType::U16.size_bytes() == vstd::layout::size_of::<u16>(),
            DType::U32.size_bytes() == vstd::layout::size_of::<u32>(),
            DType::U64.size_bytes() == vstd::layout::size_of::<u64>(),
            DType::Bool.size_bytes() == vstd::layout::size_of::<bool>(),
            DType::QU8.size_bytes() == vstd::layout::size_of::<u8>(),
    {
        broadcast use vstd::layout::layout_of_primitives;
    }

    /// The floating-point element types are as wide as the integers of the
    /// same bit count (16-bit halves, 32-bit singles, 64-bit doubles, 8-bit
    /// minifloats), and a complex number is two components of the float of
    /// half its width.
    pub proof fn lemma_float_widths()
        ensures
            DType::F16.size_bytes() == DType::I16.size_bytes(),
            DType::BF16.size_bytes() == DType::I16.size_bytes(),
            DType::F32.size_bytes() == DType::I32.size_bytes(),
            DType::F64.size_bytes() == DType::I64.size_bytes(),
            DType::BF8.size_bytes() == DType::I8.size_bytes(),
            DType::F8E4M3FN.size_bytes() == DType::I8.size_bytes(),
            DType::F8E5M2.size_bytes() == DType::I8.size_bytes(),
            DType::Complex32.size_bytes() == 2 * DType::F16.size_bytes(),
            DType::Complex64.size_bytes() == 2 * DType::F32.size_bytes(),
            DType::Complex128.size_bytes() == 2 * DType::F64.size_bytes(),
            DType::QI4.size_bytes() == 1,
    {
    }

    /// Bytes per element.
    pub fn dtype_size_bytes(&self) -> (n: usize)
        ensures
            n == self.size_bytes(),
    {
        match self {
            DType::F16 => 2,
            DType::F32 => 4,
            DType::F64 => 8,
            DType::BF16 => 2,
            DType::BF8 => 1,
            DType::F8E4M3FN => 1,
            DType::F8E5M2 => 1,
            DType::Complex32 => 4,
            DType::Complex64 => 8,
            DType::Complex128 => 16,
            DType::I8 => 1,
            DType::I16 => 2,
            DType::I32 => 4,
            DType::I64 => 8,
            DType::U8 => 1,
            DType::U16 => 2,
            DType::U32 => 4,
            DType::U64 => 8,
            DType::Bool => 1,
            DType::QI4 => 1,
            DType::QU8 => 1,
        }
    }
}

} // verus!
