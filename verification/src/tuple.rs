//! Homogeneous 4-component tuples: points (`w` one) and directions (`w`
//! zero), with the vector algebra the kernel is built on.
//!
//! Contracts speak about raw quadruples of integers through the mirror
//! functions below, so every operation's result is pinned exactly.

use vstd::prelude::*;
use crate::scalar::Scalar;
use crate::scalar::{fx_mul, fx_div, fx_sqrt, in_range, approx, is_isqrt, SCALE};
use crate::scalar::lemma_fx_square_nonneg;

verus! {

/// The raw components of a tuple, as mathematical integers.
pub open spec fn tv(t: Tuple) -> (int, int, int, int) {
    (t.0@, t.1@, t.2@, t.3@)
}

pub open spec fn add_v(a: (int, int, int, int), b: (int, int, int, int)) -> (int, int, int, int) {
    (a.0 + b.0, a.1 + b.1, a.2 + b.2, a.3 + b.3)
}

pub open spec fn sub_v(a: (int, int, int, int), b: (int, int, int, int)) -> (int, int, int, int) {
    (a.0 - b.0, a.1 - b.1, a.2 - b.2, a.3 - b.3)
}

pub open spec fn neg_v(a: (int, int, int, int)) -> (int, int, int, int) {
    (-a.0, -a.1, -a.2, -a.3)
}

/// Componentwise scaling by a single value.
pub open spec fn scale_v(a: (int, int, int, int), s: int) -> (int, int, int, int) {
    (fx_mul(a.0, s), fx_mul(a.1, s), fx_mul(a.2, s), fx_mul(a.3, s))
}

/// Componentwise division by a single value.
pub open spec fn scale_div_v(a: (int, int, int, int), s: int) -> (int, int, int, int) {
    (fx_div(a.0, s), fx_div(a.1, s), fx_div(a.2, s), fx_div(a.3, s))
}

/// Componentwise (Hadamard) product.
pub open spec fn had_v(a: (int, int, int, int), b: (int, int, int, int)) -> (int, int, int, int) {
    (fx_mul(a.0, b.0), fx_mul(a.1, b.1), fx_mul(a.2, b.2), fx_mul(a.3, b.3))
}

/// The dot product over all four components, summed left to right.
pub open spec fn dot_v(a: (int, int, int, int), b: (int, int, int, int)) -> int {
    fx_mul(a.0, b.0) + fx_mul(a.1, b.1) + fx_mul(a.2, b.2) + fx_mul(a.3, b.3)
}

/// Every intermediate of the dot product fits the machine representation.
pub open spec fn dot_ok_v(a: (int, int, int, int), b: (int, int, int, int)) -> bool {
    &&& in_range(fx_mul(a.0, b.0))
    &&& in_range(fx_mul(a.1, b.1))
    &&& in_range(fx_mul(a.2, b.2))
    &&& in_range(fx_mul(a.3, b.3))
    &&& in_range(fx_mul(a.0, b.0) + fx_mul(a.1, b.1))
    &&& in_range(fx_mul(a.0, b.0) + fx_mul(a.1, b.1) + fx_mul(a.2, b.2))
    &&& in_range(dot_v(a, b))
}

pub open spec fn add_ok_v(a: (int, int, int, int), b: (int, int, int, int)) -> bool {
    &&& in_range(a.0 + b.0)
    &&& in_range(a.1 + b.1)
    &&& in_range(a.2 + b.2)
    &&& in_range(a.3 + b.3)
}

pub open spec fn sub_ok_v(a: (int, int, int, int), b: (int, int, int, int)) -> bool {
    &&& in_range(a.0 - b.0)
    &&& in_range(a.1 - b.1)
    &&& in_range(a.2 - b.2)
    &&& in_range(a.3 - b.3)
}

pub open spec fn neg_ok_v(a: (int, int, int, int)) -> bool {
    &&& in_range(-a.0)
    &&& in_range(-a.1)
    &&& in_range(-a.2)
    &&& in_range(-a.3)
}

pub open spec fn scale_ok_v(a: (int, int, int, int), s: int) -> bool {
    &&& in_range(fx_mul(a.0, s))
    &&& in_range(fx_mul(a.1, s))
    &&& in_range(fx_mul(a.2, s))
    &&& in_range(fx_mul(a.3, s))
}

pub open spec fn scale_div_ok_v(a: (int, int, int, int), s: int) -> bool {
    &&& s != 0
    &&& in_range(fx_div(a.0, s))
    &&& in_range(fx_div(a.1, s))
    &&& in_range(fx_div(a.2, s))
    &&& in_range(fx_div(a.3, s))
}

pub open spec fn had_ok_v(a: (int, int, int, int), b: (int, int, int, int)) -> bool {
    &&& in_range(fx_mul(a.0, b.0))
    &&& in_range(fx_mul(a.1, b.1))
    &&& in_range(fx_mul(a.2, b.2))
    &&& in_range(fx_mul(a.3, b.3))
}

/// The squared length of a tuple (its dot product with itself).
pub open spec fn len2_v(a: (int, int, int, int)) -> int {
    dot_v(a, a)
}

/// The length: the fixed-point square root of the squared length.
pub open spec fn len_v(a: (int, int, int, int)) -> int {
    fx_sqrt(len2_v(a))
}

/// Every component divided by the length.
pub open spec fn normalize_v(a: (int, int, int, int)) -> (int, int, int, int) {
    scale_div_v(a, len_v(a))
}

pub open spec fn normalize_ok_v(a: (int, int, int, int)) -> bool {
    &&& dot_ok_v(a, a)
    &&& len_v(a) != 0
    &&& scale_div_ok_v(a, len_v(a))
}

/// The three-dimensional cross product; the result is a direction.
pub open spec fn cross_v(a: (int, int, int, int), b: (int, int, int, int)) -> (
    int,
    int,
    int,
    int,
) {
    (
        fx_mul(a.1, b.2) - fx_mul(a.2, b.1),
        fx_mul(a.2, b.0) - fx_mul(a.0, b.2),
        fx_mul(a.0, b.1) - fx_mul(a.1, b.0),
        0,
    )
}

pub open spec fn cross_ok_v(a: (int, int, int, int), b: (int, int, int, int)) -> bool {
    &&& in_range(fx_mul(a.1, b.2))
    &&& in_range(fx_mul(a.2, b.1))
    &&& in_range(fx_mul(a.2, b.0))
    &&& in_range(fx_mul(a.0, b.2))
    &&& in_range(fx_mul(a.0, b.1))
    &&& in_range(fx_mul(a.1, b.0))
    &&& in_range(fx_mul(a.1, b.2) - fx_mul(a.2, b.1))
    &&& in_range(fx_mul(a.2, b.0) - fx_mul(a.0, b.2))
    &&& in_range(fx_mul(a.0, b.1) - fx_mul(a.1, b.0))
}

/// The reflection of `v` about `n`: `v - n * 2 * dot(v, n)`.
pub open spec fn reflect_v(v: (int, int, int, int), n: (int, int, int, int)) -> (
    int,
    int,
    int,
    int,
) {
    sub_v(v, scale_v(scale_v(n, 2 * (SCALE as int)), dot_v(v, n)))
}

pub open spec fn reflect_ok_v(v: (int, int, int, int), n: (int, int, int, int)) -> bool {
    &&& dot_ok_v(v, n)
    &&& scale_ok_v(n, 2 * (SCALE as int))
    &&& scale_ok_v(scale_v(n, 2 * (SCALE as int)), dot_v(v, n))
    &&& sub_ok_v(v, scale_v(scale_v(n, 2 * (SCALE as int)), dot_v(v, n)))
}

/// Approximate equality of all four components.
pub open spec fn approx_v(a: (int, int, int, int), b: (int, int, int, int)) -> bool {
    approx(a.0, b.0) && approx(a.1, b.1) && approx(a.2, b.2) && approx(a.3, b.3)
}

/// A homogeneous 4-component value.
#[derive(Clone, Copy, Debug)]
pub struct Tuple(pub Scalar, pub Scalar, pub Scalar, pub Scalar);

/// A point: `w` is one.
pub fn point(x: Scalar, y: Scalar, z: Scalar) -> (r: Tuple)
    ensures
        tv(r) == (x@, y@, z@, SCALE as int),
{
    Tuple(x, y, z, Scalar::one())
}

/// A direction: `w` is zero.
pub fn vector(x: Scalar, y: Scalar, z: Scalar) -> (r: Tuple)
    ensures
        tv(r) == (x@, y@, z@, 0int),
{
    Tuple(x, y, z, Scalar::zero())
}

impl Tuple {
    pub fn x(&self) -> (r: Scalar)
        ensures
            r == self.0,
    {
        self.0
    }

    pub fn y(&self) -> (r: Scalar)
        ensures
            r == self.1,
    {
        self.1
    }

    pub fn z(&self) -> (r: Scalar)
        ensures
            r == self.2,
    {
        self.2
    }

    pub fn w(&self) -> (r: Scalar)
        ensures
            r == self.3,
    {
        self.3
    }

    pub fn set_x(&mut self, x: Scalar)
        ensures
            *final(self) == (Tuple(x, old(self).1, old(self).2, old(self).3)),
    {
        self.0 = x;
    }

    pub fn set_y(&mut self, y: Scalar)
        ensures
            *final(self) == (Tuple(old(self).0, y, old(self).2, old(self).3)),
    {
        self.1 = y;
    }

    pub fn set_z(&mut self, z: Scalar)
        ensures
            *final(self) == (Tuple(old(self).0, old(self).1, z, old(self).3)),
    {
        self.2 = z;
    }

    pub fn set_w(&mut self, w: Scalar)
        ensures
            *final(self) == (Tuple(old(self).0, old(self).1, old(self).2, w)),
    {
        self.3 = w;
    }

    /// Whether `w` is exactly one.
    pub fn is_point(&self) -> (r: bool)
        ensures
            r == (self.3@ == SCALE as int),
    {
        self.3.raw() == SCALE
    }

    /// Whether `w` is exactly zero.
    pub fn is_vec(&self) -> (r: bool)
        ensures
            r == (self.3@ == 0),
    {
        self.3.raw() == 0
    }

    pub fn add(self, rhs: Tuple) -> (r: Tuple)
        requires
            add_ok_v(tv(self), tv(rhs)),
        ensures
            tv(r) == add_v(tv(self), tv(rhs)),
    {
        Tuple(self.0.add(rhs.0), self.1.add(rhs.1), self.2.add(rhs.2), self.3.add(rhs.3))
    }

    pub fn sub(self, rhs: Tuple) -> (r: Tuple)
        requires
            sub_ok_v(tv(self), tv(rhs)),
        ensures
            tv(r) == sub_v(tv(self), tv(rhs)),
    {
        Tuple(self.0.sub(rhs.0), self.1.sub(rhs.1), self.2.sub(rhs.2), self.3.sub(rhs.3))
    }

    pub fn neg(self) -> (r: Tuple)
        requires
            neg_ok_v(tv(self)),
        ensures
            tv(r) == neg_v(tv(self)),
    {
        Tuple(self.0.neg(), self.1.neg(), self.2.neg(), self.3.neg())
    }

    /// Scales every component by `rhs`.
    pub fn mul(self, rhs: Scalar) -> (r: Tuple)
        requires
            scale_ok_v(tv(self), rhs@),
        ensures
            tv(r) == scale_v(tv(self), rhs@),
    {
        Tuple(self.0.mul(rhs), self.1.mul(rhs), self.2.mul(rhs), self.3.mul(rhs))
    }

    /// The componentwise product with another tuple.
    pub fn mul_tuple(self, rhs: Tuple) -> (r: Tuple)
        requires
            had_ok_v(tv(self), tv(rhs)),
        ensures
            tv(r) == had_v(tv(self), tv(rhs)),
    {
        Tuple(self.0.mul(rhs.0), self.1.mul(rhs.1), self.2.mul(rhs.2), self.3.mul(rhs.3))
    }

    /// Divides every component by `rhs`.
    pub fn div(self, rhs: Scalar) -> (r: Tuple)
        requires
            scale_div_ok_v(tv(self), rhs@),
        ensures
            tv(r) == scale_div_v(tv(self), rhs@),
    {
        Tuple(self.0.div(rhs), self.1.div(rhs), self.2.div(rhs), self.3.div(rhs))
    }

    /// The dot product over all four components.
    pub fn dot(self, other: Tuple) -> (r: Scalar)
        requires
            dot_ok_v(tv(self), tv(other)),
        ensures
            r@ == dot_v(tv(self), tv(other)),
    {
        self.0.mul(other.0).add(self.1.mul(other.1)).add(self.2.mul(other.2)).add(
            self.3.mul(other.3),
        )
    }

    /// The Euclidean norm over all four components.
    pub fn length(&self) -> (r: Scalar)
        requires
            dot_ok_v(tv(*self), tv(*self)),
        ensures
            r@ == len_v(tv(*self)),
            r@ >= 0,
            is_isqrt(len2_v(tv(*self)) * (SCALE as int), r@),
    {
        proof {
            lemma_len2_nonneg(tv(*self));
        }
        let d = self.dot(*self);
        d.sqrt()
    }

    /// Divides every component by the length.
    pub fn normalize(self) -> (r: Tuple)
        requires
            normalize_ok_v(tv(self)),
        ensures
            tv(r) == normalize_v(tv(self)),
    {
        let len = self.length();
        self.div(len)
    }

    /// The three-dimensional cross product, ignoring `w`.
    pub fn cross(self, other: Tuple) -> (r: Tuple)
        requires
            cross_ok_v(tv(self), tv(other)),
        ensures
            tv(r) == cross_v(tv(self), tv(other)),
    {
        vector(
            self.1.mul(other.2).sub(self.2.mul(other.1)),
            self.2.mul(other.0).sub(self.0.mul(other.2)),
            self.0.mul(other.1).sub(self.1.mul(other.0)),
        )
    }

    /// Reflects this direction about the given normal.
    pub fn reflect(&self, normal: Tuple) -> (r: Tuple)
        requires
            reflect_ok_v(tv(*self), tv(normal)),
        ensures
            tv(r) == reflect_v(tv(*self), tv(normal)),
    {
        let two = Scalar::from_int(2);
        let d = self.dot(normal);
        self.sub(normal.mul(two).mul(d))
    }
}

/// The squared length of any tuple is nonnegative.
pub proof fn lemma_len2_nonneg(a: (int, int, int, int))
    ensures
        len2_v(a) >= 0,
{
    lemma_fx_square_nonneg(a.0);
    lemma_fx_square_nonneg(a.1);
    lemma_fx_square_nonneg(a.2);
    lemma_fx_square_nonneg(a.3);
}

impl PartialEq for Tuple {
    /// Approximate equality: every component pair differs by less than the
    /// kernel tolerance.
    fn eq(&self, other: &Tuple) -> (r: bool) {
        self.0.approx_eq(other.0) && self.1.approx_eq(other.1) && self.2.approx_eq(other.2)
            && self.3.approx_eq(other.3)
    }
}

impl vstd::std_specs::cmp::PartialEqSpecImpl for Tuple {
    open spec fn obeys_eq_spec() -> bool {
        true
    }

    open spec fn eq_spec(&self, other: &Tuple) -> bool {
        approx_v(tv(*self), tv(*other))
    }
}

} // verus!
