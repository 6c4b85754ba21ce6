//! A dense, row-major pixel buffer of color values.
//!
//! The cell for pixel `(x, y)` is `data[y * width + x]`. The buffer keeps the
//! invariant that `width` is positive and `size` is a multiple of `width`;
//! the height is the implied `size / width`.

use vstd::pervasive::VecAdditionalExecFns;
use vstd::prelude::*;

use crate::color::Color;

verus! {

/// Row-major pixel coordinates `(x, y)` and flat indices `y * width + x`
/// pick out the same cells, in both directions: the flat index of an
/// in-range coordinate pair is in range and decodes back to exactly that
/// pair. Together with `lemma_index_coords` this makes the row-major
/// enumeration a bijection onto the coordinate rectangle.
pub proof fn lemma_pixel_order_bijection(size: int, width: int, x: int, y: int)
    requires
        0 < width,
        size % width == 0,
        0 <= x < width,
        0 <= y < size / width,
    ensures
        0 <= y * width + x < size,
        (y * width + x) % width == x,
        (y * width + x) / width == y,
{
    let h = size / width;
    vstd::arithmetic::div_mod::lemma_fundamental_div_mod(size, width);
    assert(size == width * h);
    assert(0 <= y * width + x && y * width + x < size) by (nonlinear_arith)
        requires
            0 <= x < width,
            0 <= y < h,
            size == width * h,
    ;
    vstd::arithmetic::div_mod::lemma_fundamental_div_mod_converse(y * width + x, width, y, x);
}

/// Every flat index decodes to an in-range coordinate pair, and encoding
/// that pair gives back the index: no cell is visited twice.
pub proof fn lemma_index_coords(size: int, width: int, k: int)
    requires
        0 < width,
        size % width == 0,
        0 <= k < size,
    ensures
        0 <= k % width < width,
        0 <= k / width < size / width,
        (k / width) * width + (k % width) == k,
{
    let h = size / width;
    vstd::arithmetic::div_mod::lemma_fundamental_div_mod(size, width);
    assert(size == width * h);
    vstd::arithmetic::div_mod::lemma_fundamental_div_mod(k, width);
    assert(k / width < h) by (nonlinear_arith)
        requires
            size == width * h,
            k < size,
            0 < width,
            k == width * (k / width) + k % width,
            0 <= k % width < width,
    ;
    assert((k / width) * width == width * (k / width)) by (nonlinear_arith);
}

/// Writing a cell and reading it back gives exactly the value written, and
/// every other cell is untouched: the round trip `set` then `get`, stated
/// over the buffer contents the two contracts speak of.
pub proof fn lemma_set_get_round_trip<C: Color>(data: Seq<C>, idx: int, v: C)
    requires
        0 <= idx < data.len(),
    ensures
        data.update(idx, v)[idx] == v,
        forall|j: int| 0 <= j < data.len() && j != idx ==> data.update(idx, v)[j] == data[j],
{
}

/// Accumulating two values into a blank cell leaves their sum: the round
/// trip `add` twice then `get`, stated over the buffer contents the
/// contracts speak of.
pub proof fn lemma_add_add_accumulates<C: Color>(data: Seq<C>, idx: int, v1: C, v2: C)
    requires
        0 <= idx < data.len(),
        data[idx] == C::empty_spec(),
    ensures
        ({
            let once = data.update(idx, data[idx].add_spec(v1));
            once.update(idx, once[idx].add_spec(v2))[idx] == v1.add_spec(v2)
        }),
{
    C::lemma_add_empty(v1);
}

/// A flat pixel coordinate is a valid index into a buffer of `size` cells.
proof fn lemma_xy_in_bounds(size: int, width: int, x: int, y: int)
    requires
        0 < width,
        size % width == 0,
        0 <= x < width,
        0 <= y < size / width,
    ensures
        0 <= y * width + x < size,
{
    lemma_pixel_order_bijection(size, width, x, y);
}

/// A dense, row-major buffer of `size` color values, `width` per row.
#[derive(Clone)]
pub struct Image<T: Color> {
    pub data: Vec<T>,
    pub size: usize,
    pub width: usize,
}

impl<T: Color> View for Image<T> {
    type V = Seq<T>;

    open spec fn view(&self) -> Seq<T> {
        self.data@
    }
}

impl<T: Color> Image<T> {
    /// The buffer's shape is consistent: a positive width, a size that is a
    /// whole number of rows, and one stored value per cell.
    pub open spec fn wf(&self) -> bool {
        0 < self.width && self.size % self.width == 0 && self@.len() == self.size
    }

    /// The implied height.
    pub open spec fn height_spec(&self) -> int {
        self.size as int / self.width as int
    }

    /// The flat index of pixel `px`.
    pub open spec fn pix_index(&self, px: (usize, usize)) -> int {
        px.1 as int * self.width as int + px.0 as int
    }

    /// Whether `px` addresses a cell of this buffer.
    pub open spec fn in_range(&self, px: (usize, usize)) -> bool {
        px.0 < self.width && (px.1 as int) < self.height_spec()
    }

    /// Creates a new, blank image.
    pub fn new(size: usize, width: usize) -> (im: Image<T>)
        requires
            0 < width,
            size % width == 0,
        ensures
            im.wf(),
            im.size == size,
            im.width == width,
            forall|i: int| 0 <= i < size ==> im@[i] == T::empty_spec(),
    {
        let mut data: Vec<T> = Vec::new();
        while data.len() < size
            invariant
                data@.len() <= size,
                forall|i: int| 0 <= i < data@.len() ==> data@[i] == T::empty_spec(),
            decreases size - data@.len(),
        {
            data.push(T::empty());
        }
        Image { data, size, width }
    }

    /// The implied height `size / width`.
    pub fn height(&self) -> (h: usize)
        requires
            self.wf(),
        ensures
            h == self.height_spec(),
    {
        self.size / self.width
    }

    /// Gets the value of a pixel at a given `(x, y)` pixel position.
    pub fn get(&self, px: (usize, usize)) -> (c: T)
        requires
            self.wf(),
            self.in_range(px),
        ensures
            c == self@[self.pix_index(px)],
    {
        proof {
            lemma_xy_in_bounds(self.size as int, self.width as int, px.0 as int, px.1 as int);
        }
        self.data[px.1 * self.width + px.0]
    }

    /// Overwrites the value of a pixel at a given `(x, y)` pixel position.
    pub fn set(&mut self, px: (usize, usize), col: T)
        requires
            old(self).wf(),
            old(self).in_range(px),
        ensures
            final(self).wf(),
            final(self).size == old(self).size,
            final(self).width == old(self).width,
            final(self)@ == old(self)@.update(old(self).pix_index(px), col),
    {
        proof {
            lemma_xy_in_bounds(self.size as int, self.width as int, px.0 as int, px.1 as int);
        }
        self.data.set(px.1 * self.width + px.0, col);
    }

    /// Adds to the value of a pixel at a given `(x, y)` pixel position.
    pub fn add(&mut self, px: (usize, usize), col: T)
        requires
            old(self).wf(),
            old(self).in_range(px),
        ensures
            final(self).wf(),
            final(self).size == old(self).size,
            final(self).width == old(self).width,
            final(self)@ == old(self)@.update(
                old(self).pix_index(px),
                old(self)@[old(self).pix_index(px)].add_spec(col),
            ),
    {
        proof {
            lemma_xy_in_bounds(self.size as int, self.width as int, px.0 as int, px.1 as int);
        }
        let i = px.1 * self.width + px.0;
        let mut c = self.data[i];
        c.add(col);
        self.data.set(i, c);
    }

    /// Swaps two pixels.
    pub fn swap(&mut self, p1: (usize, usize), p2: (usize, usize))
        requires
            old(self).wf(),
            old(self).in_range(p1),
            old(self).in_range(p2),
        ensures
            final(self).wf(),
            final(self).size == old(self).size,
            final(self).width == old(self).width,
            final(self)@ == old(self)@.update(
                old(self).pix_index(p1),
                old(self)@[old(self).pix_index(p2)],
            ).update(old(self).pix_index(p2), old(self)@[old(self).pix_index(p1)]),
    {
        proof {
            lemma_xy_in_bounds(self.size as int, self.width as int, p1.0 as int, p1.1 as int);
            lemma_xy_in_bounds(self.size as int, self.width as int, p2.0 as int, p2.1 as int);
        }
        let i1 = p1.1 * self.width + p1.0;
        let i2 = p2.1 * self.width + p2.0;
        let a = self.data[i1];
        let b = self.data[i2];
        self.data.set(i1, b);
        self.data.set(i2, a);
    }

    /// Every pixel value, in row-major order.
    pub fn pixels(&self) -> (v: Vec<T>)
        requires
            self.wf(),
        ensures
            v@ == self@,
    {
        let mut v: Vec<T> = Vec::new();
        let mut i: usize = 0;
        while i < self.size
            invariant
                self.wf(),
                i <= self.size,
                v@.len() == i,
                forall|k: int| 0 <= k < i ==> v@[k] == self@[k],
            decreases self.size - i,
        {
            v.push(self.data[i]);
            i += 1;
        }
        proof {
            assert(v@ =~= self@);
        }
        v
    }

    /// Every pixel as `(x, y, value)`, in row-major order: `x` increases
    /// fastest, matching the flat index `y * width + x`.
    pub fn enumerate_pixels(&self) -> (v: Vec<(usize, usize, T)>)
        requires
            self.wf(),
        ensures
            v@.len() == self.size,
            forall|k: int|
                0 <= k < self.size ==> #[trigger] v@[k] == (
                    ((k % self.width as int) as usize),
                    ((k / self.width as int) as usize),
                    self@[k],
                ),
    {
        let mut v: Vec<(usize, usize, T)> = Vec::new();
        let mut i: usize = 0;
        while i < self.size
            invariant
                self.wf(),
                i <= self.size,
                v@.len() == i,
                forall|k: int|
                    0 <= k < i ==> #[trigger] v@[k] == (
                        ((k % self.width as int) as usize),
                        ((k / self.width as int) as usize),
                        self@[k],
                    ),
            decreases self.size - i,
        {
            proof {
                lemma_index_coords(self.size as int, self.width as int, i as int);
            }
            let x = i % self.width;
            let y = i / self.width;
            v.push((x, y, self.data[i]));
            i += 1;
        }
        v
    }

    /// As `enumerate_pixels`, consuming the image: the sequence of
    /// `(x, y, value)` triples the buffer held.
    pub fn into_enumerate_pixels(self) -> (v: Vec<(usize, usize, T)>)
        requires
            self.wf(),
        ensures
            v@.len() == self.size,
            forall|k: int|
                0 <= k < self.size ==> #[trigger] v@[k] == (
                    ((k % self.width as int) as usize),
                    ((k / self.width as int) as usize),
                    self@[k],
                ),
    {
        self.enumerate_pixels()
    }

    /// Applies `f` to every pixel in place.
    pub fn map_pixels<F: Fn(T) -> T>(&mut self, f: F)
        requires
            old(self).wf(),
            forall|c: T| call_requires(f, (c,)),
        ensures
            final(self).wf(),
            final(self).size == old(self).size,
            final(self).width == old(self).width,
            forall|k: int|
                0 <= k < old(self)@.len() ==> call_ensures(
                    f,
                    (old(self)@[k],),
                    #[trigger] final(self)@[k],
                ),
    {
        let mut i: usize = 0;
        while i < self.size
            invariant
                self.wf(),
                self.size == old(self).size,
                self.width == old(self).width,
                i <= self.size,
                forall|c: T| call_requires(f, (c,)),
                forall|k: int| i <= k < self.size ==> self@[k] == old(self)@[k],
                forall|k: int|
                    0 <= k < i ==> call_ensures(f, (old(self)@[k],), #[trigger] self@[k]),
            decreases self.size - i,
        {
            let c = self.data[i];
            self.data.set(i, f(c));
            i += 1;
        }
    }
}

} // verus!
