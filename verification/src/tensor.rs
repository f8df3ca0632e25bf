use crate::shape::{dims_positive, dims_product};
use vstd::prelude::*;

verus! {

/// An N-axis integer container: an ordered sequence of positive per-axis
/// extents and a flat buffer holding the elements in row-major order.
#[derive(Clone, Debug, PartialEq)]
pub struct NdArrayTensor {
    pub shape: Vec<usize>,
    pub data: Vec<i64>,
}

/// The plain import/export form of a tensor: a flat value buffer together
/// with the shape it fills in row-major order.
#[derive(Clone, Debug, PartialEq)]
pub struct TensorData {
    pub value: Vec<i64>,
    pub shape: Vec<usize>,
}

impl NdArrayTensor {
    /// Well-formedness: every extent is positive and the buffer holds exactly
    /// one element per cell of the shape.
    pub open spec fn wf(self) -> bool {
        &&& dims_positive(self.shape@)
        &&& dims_product(self.shape@) == self.data@.len()
    }

    /// The number of axes.
    pub open spec fn rank(self) -> int {
        self.shape@.len() as int
    }

    /// The collapsed batch size: the product of all extents but the last two.
    pub open spec fn batch_size(self) -> int {
        dims_product(self.shape@.take(self.rank() - 2))
    }

    /// The row count of the per-batch matrices: the second-to-last extent.
    pub open spec fn rows(self) -> int {
        self.shape@[self.rank() - 2] as int
    }

    /// The column count of the per-batch matrices: the last extent.
    pub open spec fn cols(self) -> int {
        self.shape@[self.rank() - 1] as int
    }

    /// Builds a tensor from its plain form without copying the buffer.
    pub fn from_data(data: TensorData) -> (t: NdArrayTensor)
        requires
            dims_positive(data.shape@),
            dims_product(data.shape@) == data.value@.len(),
        ensures
            t.wf(),
            t.shape@ == data.shape@,
            t.data@ == data.value@,
    {
        NdArrayTensor { shape: data.shape, data: data.value }
    }

    /// Returns a copy of the per-axis extents.
    pub fn shape(&self) -> (s: Vec<usize>)
        ensures
            s@ == self.shape@,
    {
        let mut s: Vec<usize> = Vec::new();
        let mut i: usize = 0;
        while i < self.shape.len()
            invariant
                i <= self.shape@.len(),
                s@ == self.shape@.take(i as int),
            decreases self.shape@.len() - i,
        {
            s.push(self.shape[i]);
            assert(s@ =~= self.shape@.take(i + 1));
            i = i + 1;
        }
        assert(s@ =~= self.shape@);
        s
    }

    /// Releases the tensor back into its plain form without copying.
    pub fn into_data(self) -> (d: TensorData)
        ensures
            d.value@ == self.data@,
            d.shape@ == self.shape@,
    {
        TensorData { value: self.data, shape: self.shape }
    }
}

} // verus!
