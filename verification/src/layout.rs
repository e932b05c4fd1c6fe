//! How the elements of a tensor lie in its storage.

use vstd::prelude::*;

verus! {

/// The extent of each dimension, how far apart its neighbours lie in the
/// storage, and where in the storage the first element lies.
#[derive(Debug)]
pub struct Layout {
    pub dims: Vec<usize>,
    pub stride: Vec<usize>,
    pub start_offset: usize,
}

impl Layout {
    /// Every dimension has an extent and a stride.
    pub open spec fn wf(&self) -> bool {
        self.dims@.len() == self.stride@.len()
    }

    /// The number of dimensions.
    pub open spec fn rank(&self) -> nat {
        self.stride@.len()
    }

    /// The distance between neighbouring rows of the innermost matrices.
    pub open spec fn row_stride(&self) -> nat {
        self.stride@[self.rank() - 2] as nat
    }

    /// The distance between neighbouring columns of the innermost matrices.
    pub open spec fn col_stride(&self) -> nat {
        self.stride@[self.rank() - 1] as nat
    }

    /// A layout of these extents and strides, from `start_offset` on.
    pub fn new(dims: Vec<usize>, stride: Vec<usize>, start_offset: usize) -> (layout: Self)
        requires
            dims@.len() == stride@.len(),
        ensures
            layout.wf(),
            layout.dims == dims,
            layout.stride == stride,
            layout.start_offset == start_offset,
    {
        Layout { dims, stride, start_offset }
    }
}

} // verus!
