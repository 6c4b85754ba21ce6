//! A generic 2-component complex number over an abstract scalar.
//!
//! The scalar operations the iteration recurrence needs are collected in the
//! [`Num`] trait; the numerically safe magnitude lives in the separate
//! [`Hypot`] trait so that `abs` is available exactly when a scalar offers it.

use vstd::prelude::*;

verus! {

/// The field operations and conversions a scalar must offer so that complex
/// arithmetic and the mapping into pixel coordinates can be written over it.
///
/// Every executable operation is pinned to its specification-level mirror, so
/// code that is generic over `Num` is verified against those mirrors alone.
pub trait Num: Sized + Copy {
    /// What `add` returns.
    spec fn add_spec(self, rhs: Self) -> Self;

    /// What `sub` returns.
    spec fn sub_spec(self, rhs: Self) -> Self;

    /// What `mul` returns.
    spec fn mul_spec(self, rhs: Self) -> Self;

    /// What `div` returns.
    spec fn div_spec(self, rhs: Self) -> Self;

    /// What `gt` returns.
    spec fn gt_spec(self, rhs: Self) -> bool;

    /// The scalar standing for 2, the escape radius.
    spec fn two_spec() -> Self;

    /// The scalar standing for 1/4.
    spec fn quarter_spec() -> Self;

    /// The scalar standing for 1/2.
    spec fn half_spec() -> Self;

    /// What `of_usize` returns.
    spec fn of_usize_spec(v: usize) -> Self;

    /// What `as_i32` returns.
    spec fn as_i32_spec(self) -> i32;

    fn add(self, rhs: Self) -> (r: Self)
        ensures
            r == self.add_spec(rhs),
    ;

    fn sub(self, rhs: Self) -> (r: Self)
        ensures
            r == self.sub_spec(rhs),
    ;

    fn mul(self, rhs: Self) -> (r: Self)
        ensures
            r == self.mul_spec(rhs),
    ;

    fn div(self, rhs: Self) -> (r: Self)
        ensures
            r == self.div_spec(rhs),
    ;

    /// Strict `>` comparison.
    fn gt(self, rhs: Self) -> (r: bool)
        ensures
            r == self.gt_spec(rhs),
    ;

    fn two() -> (r: Self)
        ensures
            r == Self::two_spec(),
    ;

    fn quarter() -> (r: Self)
        ensures
            r == Self::quarter_spec(),
    ;

    fn half() -> (r: Self)
        ensures
            r == Self::half_spec(),
    ;

    /// Conversion from a pixel extent.
    fn of_usize(v: usize) -> (r: Self)
        ensures
            r == Self::of_usize_spec(v),
    ;

    /// Conversion to a pixel coordinate, truncating toward zero.
    fn as_i32(self) -> (r: i32)
        ensures
            r == self.as_i32_spec(),
    ;
}

/// A numerically safe Euclidean magnitude of a pair of scalars.
pub trait Hypot: Sized + Copy {
    /// What `hypotenuse` returns.
    spec fn hypotenuse_spec(self, rhs: Self) -> Self;

    fn hypotenuse(self, rhs: Self) -> (r: Self)
        ensures
            r == self.hypotenuse_spec(rhs),
    ;
}

/// An ordered pair `(re, im)` standing for the complex number `re + im*i`.
#[derive(Clone, Copy, Debug, PartialEq, Eq, Structural)]
pub struct Complex<T> {
    pub re: T,
    pub im: T,
}

impl<T> Complex<T> {
    /// Creates a new instance of `Complex` with the given real and imaginary parts.
    pub fn new(re: T, im: T) -> (r: Complex<T>)
        ensures
            r.re == re,
            r.im == im,
    {
        Complex { re, im }
    }

    /// Maps a function over the real and imaginary parts of a complex number.
    pub fn map<U, F: Fn(T) -> U>(self, f: F) -> (r: Complex<U>)
        requires
            call_requires(f, (self.re,)),
            call_requires(f, (self.im,)),
        ensures
            call_ensures(f, (self.re,), r.re),
            call_ensures(f, (self.im,), r.im),
    {
        let Complex { re, im } = self;
        Complex::<U> { re: f(re), im: f(im) }
    }

    /// Zips two complex numbers together.
    pub fn zip<U>(self, rhs: Complex<U>) -> (r: Complex<(T, U)>)
        ensures
            r.re == (self.re, rhs.re),
            r.im == (self.im, rhs.im),
    {
        let Complex { re, im } = self;
        let Complex { re: re2, im: im2 } = rhs;
        Complex::<(T, U)> { re: (re, re2), im: (im, im2) }
    }

    /// Splits a complex number into the pair of its parts.
    pub fn to_pair(self) -> (r: (T, T))
        ensures
            r.0 == self.re,
            r.1 == self.im,
    {
        let Complex { re, im } = self;
        (re, im)
    }
}

impl<T: Num> Complex<T> {
    /// What `add` returns: componentwise scalar addition.
    pub open spec fn add_spec(self, rhs: Self) -> Self {
        Complex { re: self.re.add_spec(rhs.re), im: self.im.add_spec(rhs.im) }
    }

    /// What `sub` returns: componentwise scalar subtraction.
    pub open spec fn sub_spec(self, rhs: Self) -> Self {
        Complex { re: self.re.sub_spec(rhs.re), im: self.im.sub_spec(rhs.im) }
    }

    /// What `mul` returns: the complex product.
    pub open spec fn mul_spec(self, rhs: Self) -> Self {
        Complex {
            re: self.re.mul_spec(rhs.re).sub_spec(self.im.mul_spec(rhs.im)),
            im: self.re.mul_spec(rhs.im).add_spec(self.im.mul_spec(rhs.re)),
        }
    }

    /// The squared-magnitude denominator used by complex division.
    pub open spec fn div_denom_spec(self) -> T {
        self.re.mul_spec(self.re).add_spec(self.im.mul_spec(self.im))
    }

    /// What `div` returns: the complex quotient.
    pub open spec fn div_spec(self, rhs: Self) -> Self {
        Complex {
            re: self.re.mul_spec(rhs.re).add_spec(self.im.mul_spec(rhs.im)).div_spec(
                rhs.div_denom_spec(),
            ),
            im: self.im.mul_spec(rhs.re).sub_spec(self.re.mul_spec(rhs.im)).div_spec(
                rhs.div_denom_spec(),
            ),
        }
    }

    /// Adds two complex numbers together.
    pub fn add(self, rhs: Self) -> (r: Self)
        ensures
            r == self.add_spec(rhs),
    {
        Complex { re: self.re.add(rhs.re), im: self.im.add(rhs.im) }
    }

    /// Subtracts one complex number from another.
    pub fn sub(self, rhs: Self) -> (r: Self)
        ensures
            r == self.sub_spec(rhs),
    {
        Complex { re: self.re.sub(rhs.re), im: self.im.sub(rhs.im) }
    }

    /// Computes the product of two complex numbers.
    pub fn mul(self, rhs: Self) -> (r: Self)
        ensures
            r == self.mul_spec(rhs),
    {
        Complex {
            re: self.re.mul(rhs.re).sub(self.im.mul(rhs.im)),
            im: self.re.mul(rhs.im).add(self.im.mul(rhs.re)),
        }
    }

    /// Performs complex division on two complex numbers.
    pub fn div(self, rhs: Self) -> (r: Self)
        ensures
            r == self.div_spec(rhs),
    {
        let denom = rhs.re.mul(rhs.re).add(rhs.im.mul(rhs.im));
        Complex {
            re: self.re.mul(rhs.re).add(self.im.mul(rhs.im)).div(denom),
            im: self.im.mul(rhs.re).sub(self.re.mul(rhs.im)).div(denom),
        }
    }

    /// Adds a real scalar to both parts.
    pub fn add_real(self, rhs: T) -> (r: Self)
        ensures
            r == (Complex { re: self.re.add_spec(rhs), im: self.im.add_spec(rhs) }),
    {
        Complex { re: self.re.add(rhs), im: self.im.add(rhs) }
    }

    /// Subtracts a real scalar from both parts.
    pub fn sub_real(self, rhs: T) -> (r: Self)
        ensures
            r == (Complex { re: self.re.sub_spec(rhs), im: self.im.sub_spec(rhs) }),
    {
        Complex { re: self.re.sub(rhs), im: self.im.sub(rhs) }
    }

    /// Scales both parts by a real scalar.
    pub fn mul_real(self, rhs: T) -> (r: Self)
        ensures
            r == (Complex { re: self.re.mul_spec(rhs), im: self.im.mul_spec(rhs) }),
    {
        Complex { re: self.re.mul(rhs), im: self.im.mul(rhs) }
    }

    /// Divides both parts by a real scalar.
    pub fn div_real(self, rhs: T) -> (r: Self)
        ensures
            r == (Complex { re: self.re.div_spec(rhs), im: self.im.div_spec(rhs) }),
    {
        Complex { re: self.re.div(rhs), im: self.im.div(rhs) }
    }
}

impl<T: Hypot> Complex<T> {
    /// What `abs` returns.
    pub open spec fn abs_spec(self) -> T {
        self.re.hypotenuse_spec(self.im)
    }

    /// Computes the absolute value (magnitude) of a complex number.
    pub fn abs(self) -> (r: T)
        ensures
            r == self.abs_spec(),
    {
        self.re.hypotenuse(self.im)
    }
}

impl Default for Complex<crate::fixed::Fixed> {
    /// The origin of the plane.
    fn default() -> (r: Complex<crate::fixed::Fixed>)
        ensures
            r.re.v == 0,
            r.im.v == 0,
    {
        Complex { re: crate::fixed::Fixed { v: 0 }, im: crate::fixed::Fixed { v: 0 } }
    }
}

impl<T> From<(T, T)> for Complex<T> {
    fn from(value: (T, T)) -> (r: Complex<T>) {
        Complex { re: value.0, im: value.1 }
    }
}

impl<T> vstd::std_specs::convert::FromSpecImpl<(T, T)> for Complex<T> {
    open spec fn obeys_from_spec() -> bool {
        true
    }

    open spec fn from_spec(value: (T, T)) -> Complex<T> {
        Complex { re: value.0, im: value.1 }
    }
}

} // verus!
