//! Per-pixel values and how they are created, accumulated, combined and
//! exported.
//!
//! A color is a small vector of channel counts. The capability set is closed:
//! a monochrome [`Scalar`], a 3-channel [`Rgb`] and a 4-channel [`Rgba`]
//! implement the shared [`Color`] interface. Accumulation saturates instead
//! of wrapping, which keeps `add` associative and commutative — the fact the
//! parallel merge strategy rests on.

use vstd::prelude::*;

verus! {

/// Selects which channel of a color a unit contribution lands in.
#[derive(Clone, Copy, Debug, PartialEq, Eq, Structural)]
pub enum ColorChannel {
    Red,
    Green,
    Blue,
    Alpha,
}

/// Saturating addition of two channel counts.
pub open spec fn sat_add(a: u64, b: u64) -> u64 {
    if a + b > u64::MAX {
        u64::MAX
    } else {
        (a + b) as u64
    }
}

/// Saturating addition is commutative.
pub proof fn lemma_sat_add_comm(a: u64, b: u64)
    ensures
        sat_add(a, b) == sat_add(b, a),
{
}

/// Saturating addition is associative.
pub proof fn lemma_sat_add_assoc(a: u64, b: u64, c: u64)
    ensures
        sat_add(sat_add(a, b), c) == sat_add(a, sat_add(b, c)),
{
}

/// Whether every channel of `c` is nonzero, so that it can serve as an
/// element-wise divisor.
pub open spec fn all_nonzero<C: Color>(c: C) -> bool {
    forall|j: int| 0 <= j < C::arity() ==> c.chans()[j] != 0
}

/// The capability set every pixel value offers: an additive identity,
/// saturating element-wise accumulation, element-wise maximum and division,
/// unit contributions along a channel, element-wise mapping and export as an
/// `(r, g, b)` triple.
pub trait Color: Sized + Copy {
    /// The channel counts of this value, one entry per channel.
    spec fn chans(self) -> Seq<u64>;

    /// How many channels values of this type carry.
    spec fn arity() -> nat;

    /// Which channel selectors this type accepts a unit contribution for.
    spec fn valid_channel(channel: ColorChannel) -> bool;

    /// What `empty` returns.
    spec fn empty_spec() -> Self;

    /// What `one` returns.
    spec fn one_spec(channel: ColorChannel) -> Self;

    /// What `add` leaves behind.
    spec fn add_spec(self, rhs: Self) -> Self;

    /// What `max` returns.
    spec fn max_spec(self, rhs: Self) -> Self;

    /// What `cdiv_assign` leaves behind.
    spec fn cdiv_spec(self, rhs: Self) -> Self;

    /// What `to_tuple` returns.
    spec fn to_tuple_spec(self) -> (u64, u64, u64);

    /// Every value has exactly `arity` channels, and at least one.
    proof fn lemma_chans_len(self)
        ensures
            self.chans().len() == Self::arity(),
            Self::arity() > 0,
    ;

    /// Accumulation is the element-wise saturating sum of the channel counts.
    proof fn lemma_add_chans(self, rhs: Self)
        ensures
            self.add_spec(rhs).chans() == Seq::new(
                Self::arity(),
                (|j: int| sat_add(self.chans()[j], rhs.chans()[j])),
            ),
    ;

    /// Accumulation is commutative.
    proof fn lemma_add_comm(self, rhs: Self)
        ensures
            self.add_spec(rhs) == rhs.add_spec(self),
    ;

    /// Accumulation is associative.
    proof fn lemma_add_assoc(self, mid: Self, rhs: Self)
        ensures
            self.add_spec(mid).add_spec(rhs) == self.add_spec(mid.add_spec(rhs)),
    ;

    /// The empty value is the additive identity.
    proof fn lemma_add_empty(self)
        ensures
            self.add_spec(Self::empty_spec()) == self,
            Self::empty_spec().add_spec(self) == self,
    ;

    /// The identity value: all channels zero.
    fn empty() -> (r: Self)
        ensures
            r == Self::empty_spec(),
    ;

    /// Accumulates `rhs` into `self`, element-wise and saturating.
    fn add(&mut self, rhs: Self)
        ensures
            *final(self) == old(self).add_spec(rhs),
    ;

    /// The element-wise maximum.
    fn max(self, rhs: Self) -> (r: Self)
        ensures
            r == self.max_spec(rhs),
    ;

    /// Applies `f` to every channel.
    fn map<F: Fn(u64) -> u64>(self, f: F) -> (r: Self)
        requires
            forall|x: u64| call_requires(f, (x,)),
        ensures
            r.chans().len() == Self::arity(),
            forall|j: int|
                0 <= j < Self::arity() ==> call_ensures(
                    f,
                    (self.chans()[j],),
                    #[trigger] r.chans()[j],
                ),
    ;

    /// The unit contribution along `channel`.
    fn one(channel: ColorChannel) -> (r: Self)
        requires
            Self::valid_channel(channel),
        ensures
            r == Self::one_spec(channel),
    ;

    /// Divides `self` element-wise by `rhs`, whose channels must be nonzero.
    fn cdiv_assign(&mut self, rhs: Self)
        requires
            forall|j: int| 0 <= j < Self::arity() ==> rhs.chans()[j] != 0,
        ensures
            *final(self) == old(self).cdiv_spec(rhs),
    ;

    /// Exports the value as an `(r, g, b)` triple, dropping alpha if present.
    fn to_tuple(self) -> (r: (u64, u64, u64))
        ensures
            r == self.to_tuple_spec(),
    ;

    /// Whether every channel is nonzero.
    fn nonzero(self) -> (r: bool)
        ensures
            r == (forall|j: int| 0 <= j < Self::arity() ==> #[trigger] self.chans()[j] != 0),
    ;
}

/// The monochrome color: a single accumulated count.
#[derive(Clone, Copy, Debug, PartialEq, Eq, Structural)]
pub struct Scalar {
    pub v: u64,
}

impl Scalar {
    /// Constructs a monochrome color holding the given count.
    pub fn new(v: u64) -> (r: Scalar)
        ensures
            r.v == v,
    {
        Scalar { v }
    }
}

impl Color for Scalar {
    open spec fn chans(self) -> Seq<u64> {
        seq![self.v]
    }

    open spec fn arity() -> nat {
        1
    }

    open spec fn valid_channel(channel: ColorChannel) -> bool {
        true
    }

    open spec fn empty_spec() -> Self {
        Scalar { v: 0 }
    }

    open spec fn one_spec(channel: ColorChannel) -> Self {
        Scalar { v: 1 }
    }

    open spec fn add_spec(self, rhs: Self) -> Self {
        Scalar { v: sat_add(self.v, rhs.v) }
    }

    open spec fn max_spec(self, rhs: Self) -> Self {
        Scalar { v: if self.v > rhs.v { self.v } else { rhs.v } }
    }

    open spec fn cdiv_spec(self, rhs: Self) -> Self {
        Scalar { v: self.v / rhs.v }
    }

    open spec fn to_tuple_spec(self) -> (u64, u64, u64) {
        (self.v, self.v, self.v)
    }

    proof fn lemma_chans_len(self) {
    }

    proof fn lemma_add_chans(self, rhs: Self) {
        assert(self.add_spec(rhs).chans() =~= Seq::new(
            Self::arity(),
            (|j: int| sat_add(self.chans()[j], rhs.chans()[j])),
        ));
    }

    proof fn lemma_add_comm(self, rhs: Self) {
        lemma_sat_add_comm(self.v, rhs.v);
    }

    proof fn lemma_add_assoc(self, mid: Self, rhs: Self) {
        lemma_sat_add_assoc(self.v, mid.v, rhs.v);
    }

    proof fn lemma_add_empty(self) {
    }

    fn empty() -> (r: Self) {
        Scalar { v: 0 }
    }

    fn add(&mut self, rhs: Self) {
        self.v = self.v.saturating_add(rhs.v);
    }

    fn max(self, rhs: Self) -> (r: Self) {
        Scalar { v: if self.v > rhs.v { self.v } else { rhs.v } }
    }

    fn map<F: Fn(u64) -> u64>(self, f: F) -> (r: Self) {
        Scalar { v: f(self.v) }
    }

    fn one(channel: ColorChannel) -> (r: Self) {
        Scalar { v: 1 }
    }

    fn cdiv_assign(&mut self, rhs: Self) {
        proof {
            assert(rhs.chans()[0] == rhs.v);
        }
        self.v = self.v / rhs.v;
    }

    fn to_tuple(self) -> (r: (u64, u64, u64)) {
        (self.v, self.v, self.v)
    }

    fn nonzero(self) -> (r: bool) {
        proof {
            assert(self.chans()[0] == self.v);
        }
        self.v != 0
    }
}

/// A 3-channel color.
#[derive(Clone, Copy, Debug, PartialEq, Eq, Structural)]
pub struct Rgb {
    pub r: u64,
    pub g: u64,
    pub b: u64,
}

impl Rgb {
    /// Constructs a new RGB color from red, green, and blue component values.
    pub fn new(r: u64, g: u64, b: u64) -> (c: Rgb)
        ensures
            c.r == r,
            c.g == g,
            c.b == b,
    {
        Rgb { r, g, b }
    }
}

impl From<(u64, u64, u64)> for Rgb {
    fn from(value: (u64, u64, u64)) -> (c: Rgb) {
        Rgb { r: value.0, g: value.1, b: value.2 }
    }
}

impl vstd::std_specs::convert::FromSpecImpl<(u64, u64, u64)> for Rgb {
    open spec fn obeys_from_spec() -> bool {
        true
    }

    open spec fn from_spec(value: (u64, u64, u64)) -> Rgb {
        Rgb { r: value.0, g: value.1, b: value.2 }
    }
}

impl Color for Rgb {
    open spec fn chans(self) -> Seq<u64> {
        seq![self.r, self.g, self.b]
    }

    open spec fn arity() -> nat {
        3
    }

    open spec fn valid_channel(channel: ColorChannel) -> bool {
        !(channel is Alpha)
    }

    open spec fn empty_spec() -> Self {
        Rgb { r: 0, g: 0, b: 0 }
    }

    open spec fn one_spec(channel: ColorChannel) -> Self {
        match channel {
            ColorChannel::Red => Rgb { r: 1, g: 0, b: 0 },
            ColorChannel::Green => Rgb { r: 0, g: 1, b: 0 },
            ColorChannel::Blue => Rgb { r: 0, g: 0, b: 1 },
            ColorChannel::Alpha => Rgb { r: 0, g: 0, b: 0 },
        }
    }

    open spec fn add_spec(self, rhs: Self) -> Self {
        Rgb { r: sat_add(self.r, rhs.r), g: sat_add(self.g, rhs.g), b: sat_add(self.b, rhs.b) }
    }

    open spec fn max_spec(self, rhs: Self) -> Self {
        Rgb {
            r: if self.r > rhs.r { self.r } else { rhs.r },
            g: if self.g > rhs.g { self.g } else { rhs.g },
            b: if self.b > rhs.b { self.b } else { rhs.b },
        }
    }

    open spec fn cdiv_spec(self, rhs: Self) -> Self {
        Rgb { r: self.r / rhs.r, g: self.g / rhs.g, b: self.b / rhs.b }
    }

    open spec fn to_tuple_spec(self) -> (u64, u64, u64) {
        (self.r, self.g, self.b)
    }

    proof fn lemma_chans_len(self) {
    }

    proof fn lemma_add_chans(self, rhs: Self) {
        assert(self.add_spec(rhs).chans() =~= Seq::new(
            Self::arity(),
            (|j: int| sat_add(self.chans()[j], rhs.chans()[j])),
        ));
    }

    proof fn lemma_add_comm(self, rhs: Self) {
        lemma_sat_add_comm(self.r, rhs.r);
        lemma_sat_add_comm(self.g, rhs.g);
        lemma_sat_add_comm(self.b, rhs.b);
    }

    proof fn lemma_add_assoc(self, mid: Self, rhs: Self) {
        lemma_sat_add_assoc(self.r, mid.r, rhs.r);
        lemma_sat_add_assoc(self.g, mid.g, rhs.g);
        lemma_sat_add_assoc(self.b, mid.b, rhs.b);
    }

    proof fn lemma_add_empty(self) {
    }

    fn empty() -> (r: Self) {
        Rgb { r: 0, g: 0, b: 0 }
    }

    fn add(&mut self, rhs: Self) {
        self.r = self.r.saturating_add(rhs.r);
        self.g = self.g.saturating_add(rhs.g);
        self.b = self.b.saturating_add(rhs.b);
    }

    fn max(self, rhs: Self) -> (r: Self) {
        Rgb {
            r: if self.r > rhs.r { self.r } else { rhs.r },
            g: if self.g > rhs.g { self.g } else { rhs.g },
            b: if self.b > rhs.b { self.b } else { rhs.b },
        }
    }

    fn map<F: Fn(u64) -> u64>(self, f: F) -> (r: Self) {
        Rgb { r: f(self.r), g: f(self.g), b: f(self.b) }
    }

    fn one(channel: ColorChannel) -> (r: Self) {
        match channel {
            ColorChannel::Red => Rgb { r: 1, g: 0, b: 0 },
            ColorChannel::Green => Rgb { r: 0, g: 1, b: 0 },
            ColorChannel::Blue => Rgb { r: 0, g: 0, b: 1 },
            ColorChannel::Alpha => {
                proof {
                    assert(false);
                }
                Rgb { r: 0, g: 0, b: 0 }
            },
        }
    }

    fn cdiv_assign(&mut self, rhs: Self) {
        proof {
            assert(rhs.chans()[0] == rhs.r);
            assert(rhs.chans()[1] == rhs.g);
            assert(rhs.chans()[2] == rhs.b);
        }
        self.r = self.r / rhs.r;
        self.g = self.g / rhs.g;
        self.b = self.b / rhs.b;
    }

    fn to_tuple(self) -> (r: (u64, u64, u64)) {
        (self.r, self.g, self.b)
    }

    fn nonzero(self) -> (r: bool) {
        proof {
            assert(self.chans()[0] == self.r);
            assert(self.chans()[1] == self.g);
            assert(self.chans()[2] == self.b);
        }
        self.r != 0 && self.g != 0 && self.b != 0
    }
}

/// A 4-channel color carrying an alpha channel.
#[derive(Clone, Copy, Debug, PartialEq, Eq, Structural)]
pub struct Rgba {
    pub r: u64,
    pub g: u64,
    pub b: u64,
    pub a: u64,
}

impl Rgba {
    /// Constructs a new RGBA color from red, green, blue, and alpha component values.
    pub fn new(r: u64, g: u64, b: u64, a: u64) -> (c: Rgba)
        ensures
            c.r == r,
            c.g == g,
            c.b == b,
            c.a == a,
    {
        Rgba { r, g, b, a }
    }
}

impl From<(u64, u64, u64, u64)> for Rgba {
    fn from(value: (u64, u64, u64, u64)) -> (c: Rgba) {
        Rgba { r: value.0, g: value.1, b: value.2, a: value.3 }
    }
}

impl vstd::std_specs::convert::FromSpecImpl<(u64, u64, u64, u64)> for Rgba {
    open spec fn obeys_from_spec() -> bool {
        true
    }

    open spec fn from_spec(value: (u64, u64, u64, u64)) -> Rgba {
        Rgba { r: value.0, g: value.1, b: value.2, a: value.3 }
    }
}

impl Color for Rgba {
    open spec fn chans(self) -> Seq<u64> {
        seq![self.r, self.g, self.b, self.a]
    }

    open spec fn arity() -> nat {
        4
    }

    open spec fn valid_channel(channel: ColorChannel) -> bool {
        true
    }

    open spec fn empty_spec() -> Self {
        Rgba { r: 0, g: 0, b: 0, a: 0 }
    }

    open spec fn one_spec(channel: ColorChannel) -> Self {
        match channel {
            ColorChannel::Red => Rgba { r: 1, g: 0, b: 0, a: 0 },
            ColorChannel::Green => Rgba { r: 0, g: 1, b: 0, a: 0 },
            ColorChannel::Blue => Rgba { r: 0, g: 0, b: 1, a: 0 },
            ColorChannel::Alpha => Rgba { r: 0, g: 0, b: 0, a: 1 },
        }
    }

    open spec fn add_spec(self, rhs: Self) -> Self {
        Rgba {
            r: sat_add(self.r, rhs.r),
            g: sat_add(self.g, rhs.g),
            b: sat_add(self.b, rhs.b),
            a: sat_add(self.a, rhs.a),
        }
    }

    open spec fn max_spec(self, rhs: Self) -> Self {
        Rgba {
            r: if self.r > rhs.r { self.r } else { rhs.r },
            g: if self.g > rhs.g { self.g } else { rhs.g },
            b: if self.b > rhs.b { self.b } else { rhs.b },
            a: if self.a > rhs.a { self.a } else { rhs.a },
        }
    }

    open spec fn cdiv_spec(self, rhs: Self) -> Self {
        Rgba { r: self.r / rhs.r, g: self.g / rhs.g, b: self.b / rhs.b, a: self.a / rhs.a }
    }

    open spec fn to_tuple_spec(self) -> (u64, u64, u64) {
        (self.r, self.g, self.b)
    }

    proof fn lemma_chans_len(self) {
    }

    proof fn lemma_add_chans(self, rhs: Self) {
        assert(self.add_spec(rhs).chans() =~= Seq::new(
            Self::arity(),
            (|j: int| sat_add(self.chans()[j], rhs.chans()[j])),
        ));
    }

    proof fn lemma_add_comm(self, rhs: Self) {
        lemma_sat_add_comm(self.r, rhs.r);
        lemma_sat_add_comm(self.g, rhs.g);
        lemma_sat_add_comm(self.b, rhs.b);
        lemma_sat_add_comm(self.a, rhs.a);
    }

    proof fn lemma_add_assoc(self, mid: Self, rhs: Self) {
        lemma_sat_add_assoc(self.r, mid.r, rhs.r);
        lemma_sat_add_assoc(self.g, mid.g, rhs.g);
        lemma_sat_add_assoc(self.b, mid.b, rhs.b);
        lemma_sat_add_assoc(self.a, mid.a, rhs.a);
    }

    proof fn lemma_add_empty(self) {
    }

    fn empty() -> (r: Self) {
        Rgba { r: 0, g: 0, b: 0, a: 0 }
    }

    fn add(&mut self, rhs: Self) {
        self.r = self.r.saturating_add(rhs.r);
        self.g = self.g.saturating_add(rhs.g);
        self.b = self.b.saturating_add(rhs.b);
        self.a = self.a.saturating_add(rhs.a);
    }

    fn max(self, rhs: Self) -> (r: Self) {
        Rgba {
            r: if self.r > rhs.r { self.r } else { rhs.r },
            g: if self.g > rhs.g { self.g } else { rhs.g },
            b: if self.b > rhs.b { self.b } else { rhs.b },
            a: if self.a > rhs.a { self.a } else { rhs.a },
        }
    }

    fn map<F: Fn(u64) -> u64>(self, f: F) -> (r: Self) {
        Rgba { r: f(self.r), g: f(self.g), b: f(self.b), a: f(self.a) }
    }

    fn one(channel: ColorChannel) -> (r: Self) {
        match channel {
            ColorChannel::Red => Rgba { r: 1, g: 0, b: 0, a: 0 },
            ColorChannel::Green => Rgba { r: 0, g: 1, b: 0, a: 0 },
            ColorChannel::Blue => Rgba { r: 0, g: 0, b: 1, a: 0 },
            ColorChannel::Alpha => Rgba { r: 0, g: 0, b: 0, a: 1 },
        }
    }

    fn cdiv_assign(&mut self, rhs: Self) {
        proof {
            assert(rhs.chans()[0] == rhs.r);
            assert(rhs.chans()[1] == rhs.g);
            assert(rhs.chans()[2] == rhs.b);
            assert(rhs.chans()[3] == rhs.a);
        }
        self.r = self.r / rhs.r;
        self.g = self.g / rhs.g;
        self.b = self.b / rhs.b;
        self.a = self.a / rhs.a;
    }

    fn to_tuple(self) -> (r: (u64, u64, u64)) {
        (self.r, self.g, self.b)
    }

    fn nonzero(self) -> (r: bool) {
        proof {
            assert(self.chans()[0] == self.r);
            assert(self.chans()[1] == self.g);
            assert(self.chans()[2] == self.b);
            assert(self.chans()[3] == self.a);
        }
        self.r != 0 && self.g != 0 && self.b != 0 && self.a != 0
    }
}

} // verus!
