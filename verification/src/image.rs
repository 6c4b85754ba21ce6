//! A fixed-shape, row-major pixel buffer whose dimensions are part of the
//! type: `D` cells in all, `W` per row.
//!
//! The resizable, heap-backed buffer the sampler uses lives in
//! [`crate::images`]; this one serves renders whose shape is known at
//! compile time.

use vstd::array::ArrayAdditionalExecFns;
use vstd::prelude::*;

use crate::color::Color;

verus! {

/// A dense, row-major buffer of exactly `D` color values, `W` per row.
pub struct Image<T: Color, const D: usize, const W: usize> {
    pub data: [T; D],
}

impl<T: Color, const D: usize, const W: usize> Image<T, D, W> {
    /// The flat index of pixel `px`.
    pub open spec fn cell_index(px: (usize, usize)) -> int {
        px.1 as int * W as int + px.0 as int
    }

    /// Creates a new, blank image.
    pub fn new() -> (im: Image<T, D, W>)
        ensures
            forall|i: int| 0 <= i < D ==> im.data@[i] == T::empty_spec(),
    {
        Image { data: [T::empty(); D] }
    }

    /// Gets the value of a pixel at a given `(x, y)` pixel position.
    pub fn get(&self, px: (usize, usize)) -> (c: T)
        requires
            0 < W,
            px.0 < W,
            Self::cell_index(px) < D,
        ensures
            c == self.data@[Self::cell_index(px)],
    {
        self.data[px.1 * W + px.0]
    }

    /// Overwrites the value of a pixel at a given `(x, y)` pixel position.
    pub fn set(&mut self, px: (usize, usize), col: T)
        requires
            0 < W,
            px.0 < W,
            Self::cell_index(px) < D,
        ensures
            final(self).data@ == old(self).data@.update(Self::cell_index(px), col),
    {
        self.data.set(px.1 * W + px.0, col);
    }
}

} // verus!
