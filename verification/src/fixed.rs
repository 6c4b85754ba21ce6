//! A Q16.16 fixed-point scalar: the concrete, exactly-specified number type
//! the renderer iterates over.
//!
//! A [`Fixed`] holds `v` and stands for the real number `v / 65536`. All
//! operations are total: results outside the representable range saturate,
//! and division by zero saturates toward the sign of the dividend. The
//! magnitude is an integer square root, computed without intermediate
//! overflow.

use vstd::prelude::*;

use crate::complex::{Hypot, Num};

verus! {

/// The number of fractional units in 1.0.
pub const FRAC_ONE: i64 = 65536;

/// `x` clamped into the range of `i64`.
pub open spec fn clamp_i64(x: int) -> i64 {
    if x > i64::MAX {
        i64::MAX
    } else if x < i64::MIN {
        i64::MIN
    } else {
        x as i64
    }
}

/// `x` clamped into the range of `i32`.
pub open spec fn clamp_i32(x: int) -> i32 {
    if x > i32::MAX {
        i32::MAX
    } else if x < i32::MIN {
        i32::MIN
    } else {
        x as i32
    }
}

/// Division truncating toward zero, the rounding used by the scalar
/// operations. Division by zero is left at zero; the operations that use
/// `tdiv` never reach that case.
pub open spec fn tdiv(x: int, d: int) -> int {
    if d == 0 {
        0
    } else {
        let q = (vstd::math::abs(x) / vstd::math::abs(d)) as int;
        if (x < 0) != (d < 0) {
            -q
        } else {
            q
        }
    }
}

/// The integer square root: the greatest `r` with `r * r <= n`.
pub open spec fn isqrt_spec(n: nat) -> nat
    decreases n,
{
    if n == 0 {
        0
    } else {
        let p = isqrt_spec((n - 1) as nat);
        if (p + 1) * (p + 1) <= n {
            p + 1
        } else {
            p
        }
    }
}

/// The integer square root is sandwiched by the two neighbouring squares.
pub proof fn lemma_isqrt_bounds(n: nat)
    ensures
        isqrt_spec(n) * isqrt_spec(n) <= n,
        n < (isqrt_spec(n) + 1) * (isqrt_spec(n) + 1),
    decreases n,
{
    broadcast use vstd::arithmetic::mul::group_mul_properties;

    if n > 0 {
        lemma_isqrt_bounds((n - 1) as nat);
        let p = isqrt_spec((n - 1) as nat);
        if (p + 1) * (p + 1) <= n {
            assert(isqrt_spec(n) == p + 1);
            assert(n - 1 < (p + 1) * (p + 1));
            assert((p + 1) * (p + 1) < (p + 2) * (p + 2)) by (nonlinear_arith)
                requires
                    p >= 0,
            ;
            assert(n < (p + 2) * (p + 2));
        } else {
            assert(isqrt_spec(n) == p);
            assert(p * p <= n - 1);
        }
    }
}

/// Any value sandwiched by its neighbouring squares is the integer square root.
pub proof fn lemma_isqrt_unique(n: nat, r: nat)
    requires
        r * r <= n,
        n < (r + 1) * (r + 1),
    ensures
        r == isqrt_spec(n),
{
    lemma_isqrt_bounds(n);
    let s = isqrt_spec(n);
    if r < s {
        assert((r + 1) * (r + 1) <= s * s) by (nonlinear_arith)
            requires
                0 <= r,
                r + 1 <= s,
        ;
    }
    if s < r {
        assert((s + 1) * (s + 1) <= r * r) by (nonlinear_arith)
            requires
                0 <= s,
                s + 1 <= r,
        ;
    }
}

/// The magnitude of `x`, as a `u64`.
fn abs_u64(x: i64) -> (m: u64)
    ensures
        m as int == vstd::math::abs(x as int),
{
    if x >= 0 {
        x as u64
    } else {
        (-(x as i128)) as u64
    }
}

/// `m` clamped into the range of `i64`.
fn pos_clamp(m: u128) -> (r: i64)
    ensures
        r == clamp_i64(m as int),
{
    if m > i64::MAX as u128 {
        i64::MAX
    } else {
        m as i64
    }
}

/// `-m` clamped into the range of `i64`.
fn neg_clamp(m: u128) -> (r: i64)
    ensures
        r == clamp_i64(-(m as int)),
{
    if m >= 9223372036854775808u128 {
        i64::MIN
    } else {
        -(m as i64)
    }
}

/// Magnitudes multiply to the magnitude of the product, and strictly
/// differing signs of nonzero factors give a negative product.
proof fn lemma_sign_abs(a: int, b: int)
    ensures
        vstd::math::abs(a) * vstd::math::abs(b) == vstd::math::abs(a * b),
        (a * b < 0) ==> ((a < 0) != (b < 0)),
        ((a < 0) != (b < 0)) && a != 0 && b != 0 ==> a * b < 0,
{
    assert(vstd::math::abs(a) * vstd::math::abs(b) == vstd::math::abs(a * b)
        && ((a * b < 0) ==> ((a < 0) != (b < 0))) && (((a < 0) != (b < 0)) && a != 0 && b != 0
        ==> a * b < 0)) by (nonlinear_arith);
}

/// The integer square root of `n`, by bisection on the quotient test
/// `mid <= n / mid`, which avoids squaring in executable code.
fn isqrt_u128(n: u128) -> (r: u64)
    ensures
        r as nat == isqrt_spec(n as nat),
{
    if n == 0 {
        proof {
            assert(0nat < (0nat + 1) * (0nat + 1)) by (nonlinear_arith);
            lemma_isqrt_unique(0, 0);
        }
        return 0;
    }
    let mut lo: u128 = 0;
    let mut hi: u128 = 18446744073709551616u128;
    proof {
        assert((hi as int) * (hi as int) > u128::MAX as int) by (nonlinear_arith)
            requires
                hi == 18446744073709551616u128,
        ;
    }
    while lo + 1 < hi
        invariant
            lo < hi <= 18446744073709551616u128,
            (lo as int) * (lo as int) <= n as int,
            (hi as int) * (hi as int) > n as int,
        decreases hi - lo,
    {
        let mid = lo + (hi - lo) / 2;
        let q = n / mid;
        if mid <= q {
            proof {
                vstd::arithmetic::div_mod::lemma_fundamental_div_mod(n as int, mid as int);
                assert((mid as int) * (mid as int) <= (mid as int) * (q as int))
                    by (nonlinear_arith)
                    requires
                        0 < mid as int,
                        mid as int <= q as int,
                ;
                assert((mid as int) * (q as int) <= n as int);
            }
            lo = mid;
        } else {
            proof {
                if (mid as int) * (mid as int) <= n as int {
                    vstd::arithmetic::div_mod::lemma_div_is_ordered(
                        (mid as int) * (mid as int),
                        n as int,
                        mid as int,
                    );
                    vstd::arithmetic::div_mod::lemma_div_multiples_vanish(
                        mid as int,
                        mid as int,
                    );
                    assert(mid as int <= q as int);
                }
            }
            hi = mid;
        }
    }
    proof {
        assert(hi == lo + 1);
        lemma_isqrt_unique(n as nat, lo as nat);
    }
    lo as u64
}

/// A Q16.16 fixed-point number standing for `v / 65536`.
#[derive(Clone, Copy, Debug, PartialEq, Eq, Structural)]
pub struct Fixed {
    pub v: i64,
}

impl Default for Fixed {
    /// The zero value.
    fn default() -> (r: Fixed)
        ensures
            r.v == 0,
    {
        Fixed { v: 0 }
    }
}

impl Fixed {
    /// The fixed-point value standing exactly for the integer `v`.
    pub fn from_int(v: i32) -> (r: Fixed)
        ensures
            r.v == (v as int) * 65536,
    {
        Fixed { v: (v as i64) * 65536 }
    }
}

impl Num for Fixed {
    open spec fn add_spec(self, rhs: Self) -> Self {
        Fixed { v: clamp_i64(self.v + rhs.v) }
    }

    open spec fn sub_spec(self, rhs: Self) -> Self {
        Fixed { v: clamp_i64(self.v - rhs.v) }
    }

    open spec fn mul_spec(self, rhs: Self) -> Self {
        Fixed { v: clamp_i64(tdiv((self.v as int) * (rhs.v as int), 65536)) }
    }

    open spec fn div_spec(self, rhs: Self) -> Self {
        if rhs.v == 0 {
            Fixed { v: if self.v >= 0 { i64::MAX } else { i64::MIN } }
        } else {
            Fixed { v: clamp_i64(tdiv((self.v as int) * 65536, rhs.v as int)) }
        }
    }

    open spec fn gt_spec(self, rhs: Self) -> bool {
        self.v > rhs.v
    }

    open spec fn two_spec() -> Self {
        Fixed { v: 131072 }
    }

    open spec fn quarter_spec() -> Self {
        Fixed { v: 16384 }
    }

    open spec fn half_spec() -> Self {
        Fixed { v: 32768 }
    }

    open spec fn of_usize_spec(v: usize) -> Self {
        Fixed { v: clamp_i64((v as int) * 65536) }
    }

    open spec fn as_i32_spec(self) -> i32 {
        clamp_i32(tdiv(self.v as int, 65536))
    }

    fn add(self, rhs: Self) -> (r: Self) {
        let s: i128 = self.v as i128 + rhs.v as i128;
        let v = if s > i64::MAX as i128 {
            i64::MAX
        } else if s < i64::MIN as i128 {
            i64::MIN
        } else {
            s as i64
        };
        Fixed { v }
    }

    fn sub(self, rhs: Self) -> (r: Self) {
        let s: i128 = self.v as i128 - rhs.v as i128;
        let v = if s > i64::MAX as i128 {
            i64::MAX
        } else if s < i64::MIN as i128 {
            i64::MIN
        } else {
            s as i64
        };
        Fixed { v }
    }

    fn mul(self, rhs: Self) -> (r: Self) {
        let neg = (self.v < 0) != (rhs.v < 0);
        let ma = abs_u64(self.v) as u128;
        let mb = abs_u64(rhs.v) as u128;
        proof {
            assert(ma * mb <= u128::MAX as int) by (nonlinear_arith)
                requires
                    0 <= ma <= u64::MAX as int,
                    0 <= mb <= u64::MAX as int,
            ;
        }
        let prod = ma * mb;
        let q = prod / 65536;
        proof {
            lemma_sign_abs(self.v as int, rhs.v as int);
            let ab = (self.v as int) * (rhs.v as int);
            assert(prod as int == vstd::math::abs(ab));
            if ab >= 0 {
                assert(tdiv(ab, 65536) == q as int);
            } else {
                assert(tdiv(ab, 65536) == -(q as int));
            }
        }
        let v = if neg {
            neg_clamp(q)
        } else {
            pos_clamp(q)
        };
        Fixed { v }
    }

    fn div(self, rhs: Self) -> (r: Self) {
        if rhs.v == 0 {
            return Fixed { v: if self.v >= 0 { i64::MAX } else { i64::MIN } };
        }
        let neg = (self.v < 0) != (rhs.v < 0);
        let na = abs_u64(self.v) as u128 * 65536;
        let nb = abs_u64(rhs.v) as u128;
        let q = na / nb;
        proof {
            let a = self.v as int;
            let b = rhs.v as int;
            assert(vstd::math::abs(a * 65536) == vstd::math::abs(a) * 65536);
            assert(na as int == vstd::math::abs(a * 65536));
            assert((a * 65536 < 0) == (a < 0));
            assert(tdiv(a * 65536, b) == if (a * 65536 < 0) != (b < 0) {
                -(q as int)
            } else {
                q as int
            });
        }
        let v = if neg {
            neg_clamp(q)
        } else {
            pos_clamp(q)
        };
        Fixed { v }
    }

    fn gt(self, rhs: Self) -> (r: bool) {
        self.v > rhs.v
    }

    fn two() -> (r: Self) {
        Fixed { v: 131072 }
    }

    fn quarter() -> (r: Self) {
        Fixed { v: 16384 }
    }

    fn half() -> (r: Self) {
        Fixed { v: 32768 }
    }

    fn of_usize(v: usize) -> (r: Self) {
        let w = (v as u128) * 65536;
        Fixed { v: pos_clamp(w) }
    }

    fn as_i32(self) -> (r: i32) {
        let m = abs_u64(self.v);
        let q = m / 65536;
        if self.v >= 0 {
            if q > i32::MAX as u64 {
                i32::MAX
            } else {
                q as i32
            }
        } else {
            if q >= 2147483648u64 {
                i32::MIN
            } else {
                -(q as i32)
            }
        }
    }
}

impl Hypot for Fixed {
    open spec fn hypotenuse_spec(self, rhs: Self) -> Self {
        Fixed {
            v: clamp_i64(
                isqrt_spec(
                    ((self.v as int) * (self.v as int) + (rhs.v as int) * (rhs.v as int)) as nat,
                ) as int,
            ),
        }
    }

    /// The Euclidean magnitude `sqrt(a*a + b*b)`, rounded down, computed on
    /// wide unsigned intermediates so no step can overflow.
    fn hypotenuse(self, rhs: Self) -> (r: Self) {
        let ma = abs_u64(self.v) as u128;
        let mb = abs_u64(rhs.v) as u128;
        proof {
            lemma_sign_abs(self.v as int, self.v as int);
            lemma_sign_abs(rhs.v as int, rhs.v as int);
            assert(ma * ma == (self.v as int) * (self.v as int)) by (nonlinear_arith)
                requires
                    ma as int == vstd::math::abs(self.v as int),
            ;
            assert(mb * mb == (rhs.v as int) * (rhs.v as int)) by (nonlinear_arith)
                requires
                    mb as int == vstd::math::abs(rhs.v as int),
            ;
            assert(ma * ma <= 85070591730234615865843651857942052864u128 && mb * mb
                <= 85070591730234615865843651857942052864u128) by (nonlinear_arith)
                requires
                    0 <= ma <= 9223372036854775808u128,
                    0 <= mb <= 9223372036854775808u128,
            ;
        }
        let sq = ma * ma + mb * mb;
        let root = isqrt_u128(sq);
        Fixed { v: pos_clamp(root as u128) }
    }
}

} // verus!

