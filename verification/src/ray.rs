//! Rays: an origin point and a direction, with position-at-parameter and
//! transformation by a matrix.

use vstd::prelude::*;
use crate::scalar::Scalar;
use crate::tuple::Tuple;
use crate::tuple::{tv, add_v, sub_v, scale_v, add_ok_v, scale_ok_v};
use crate::scalar::SCALE;
use crate::matrix::BaseMatrix;
use crate::matrix::{mat_vec_v, mat_vec_ok_v};

verus! {

/// The point reached after travelling `t` along the ray.
pub open spec fn position_v(origin: (int, int, int, int), dir: (int, int, int, int), t: int) -> (
    int,
    int,
    int,
    int,
) {
    add_v(origin, scale_v(dir, t))
}

pub open spec fn position_ok_v(
    origin: (int, int, int, int),
    dir: (int, int, int, int),
    t: int,
) -> bool {
    scale_ok_v(dir, t) && add_ok_v(origin, scale_v(dir, t))
}

/// A ray: an origin and a direction.
#[derive(Clone, Copy, Debug)]
pub struct Ray {
    pub origin: Tuple,
    pub dir: Tuple,
}

impl Ray {
    pub fn new(origin: Tuple, dir: Tuple) -> (r: Ray)
        ensures
            r.origin == origin,
            r.dir == dir,
    {
        Ray { origin, dir }
    }

    /// The point `origin + dir * t`.
    pub fn position(&self, t: Scalar) -> (r: Tuple)
        requires
            position_ok_v(tv(self.origin), tv(self.dir), t@),
        ensures
            tv(r) == position_v(tv(self.origin), tv(self.dir), t@),
    {
        self.origin.add(self.dir.mul(t))
    }

    /// Both origin and direction mapped by the matrix.
    pub fn transform(&self, m: &BaseMatrix) -> (r: Ray)
        requires
            m.wf(),
            m.n == 4,
            mat_vec_ok_v(m.sv(), tv(self.origin)),
            mat_vec_ok_v(m.sv(), tv(self.dir)),
        ensures
            tv(r.origin) == mat_vec_v(m.sv(), tv(self.origin)),
            tv(r.dir) == mat_vec_v(m.sv(), tv(self.dir)),
    {
        Ray { origin: m.mul_tuple(self.origin), dir: m.mul_tuple(self.dir) }
    }
}

/// The ray's position at the three unit parameters: at zero it is the
/// origin, at one the origin plus the direction, at minus one the origin
/// minus the direction, all exactly.
pub proof fn lemma_position_units(origin: (int, int, int, int), dir: (int, int, int, int))
    ensures
        position_v(origin, dir, 0) == origin,
        position_v(origin, dir, SCALE as int) == add_v(origin, dir),
        position_v(origin, dir, -(SCALE as int)) == sub_v(origin, dir),
{
    crate::scalar::lemma_fx_mul_zero(origin.0);
    crate::scalar::lemma_fx_mul_zero(dir.0);
    crate::scalar::lemma_fx_mul_zero(dir.1);
    crate::scalar::lemma_fx_mul_zero(dir.2);
    crate::scalar::lemma_fx_mul_zero(dir.3);
    crate::scalar::lemma_fx_mul_one(dir.0);
    crate::scalar::lemma_fx_mul_one(dir.1);
    crate::scalar::lemma_fx_mul_one(dir.2);
    crate::scalar::lemma_fx_mul_one(dir.3);
    crate::scalar::lemma_fx_mul_neg(dir.0, SCALE as int);
    crate::scalar::lemma_fx_mul_neg(dir.1, SCALE as int);
    crate::scalar::lemma_fx_mul_neg(dir.2, SCALE as int);
    crate::scalar::lemma_fx_mul_neg(dir.3, SCALE as int);
}

} // verus!
