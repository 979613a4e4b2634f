//! The unit sphere, its ray intersection, and the ordered intersection
//! collection with the nearest-hit rule.

use vstd::prelude::*;
use crate::scalar::Scalar;
use crate::scalar::{fx_mul, fx_div, fx_sqrt, in_range, is_isqrt, mag, SCALE};
use crate::tuple::{Tuple, point, tv, sub_v, dot_v, sub_ok_v, dot_ok_v, normalize_v,
    normalize_ok_v};
use crate::matrix::{BaseMatrix, bounded, det_spec, cof_spec, mat_vec_v, mat_vec_ok_v, mul_cell,
    identity_seq, ENTRY_RAW, DET_MIN_RAW, MUL_IN_RAW};
use crate::material::Material;
use crate::material::is_default_material;
use crate::ray::Ray;

verus! {

/// The flattened inverse of a four by four matrix: entry `(r, c)` is the
/// cofactor at `(c, r)` divided by the determinant.
pub open spec fn inverse_seq(s: Seq<int>) -> Seq<int> {
    Seq::new(16, |k: int| fx_div(cof_spec(4, s, k % 4, k / 4), det_spec(4, s)))
}

/// The flattened transpose of a four by four matrix.
pub open spec fn transpose_seq(s: Seq<int>) -> Seq<int> {
    Seq::new(16, |k: int| s[(k % 4) * 4 + k / 4])
}

/// A sphere: canonically the unit sphere at the origin in object space,
/// carried into world space by its transform.
#[derive(Clone, Debug)]
pub struct Sphere {
    pub radius: Scalar,
    pub transform: BaseMatrix,
    pub material: Material,
}

/// Two spheres hold the same data.
pub open spec fn same_sphere(a: Sphere, b: Sphere) -> bool {
    &&& a.radius == b.radius
    &&& a.transform.n == b.transform.n
    &&& a.transform.sv() == b.transform.sv()
    &&& a.material == b.material
}

/// The transform is a well-formed four by four matrix.
pub open spec fn sphere_wf(s: Sphere) -> bool {
    s.transform.wf() && s.transform.n == 4
}

/// The origin of the ray carried into object space.
pub open spec fn object_origin_v(t: Seq<int>, r: Ray) -> (int, int, int, int) {
    mat_vec_v(inverse_seq(t), tv(r.origin))
}

/// The direction of the ray carried into object space.
pub open spec fn object_dir_v(t: Seq<int>, r: Ray) -> (int, int, int, int) {
    mat_vec_v(inverse_seq(t), tv(r.dir))
}

/// The vector from the sphere's center to the object-space ray origin.
pub open spec fn sphere_to_ray_v(t: Seq<int>, r: Ray) -> (int, int, int, int) {
    sub_v(object_origin_v(t, r), (0int, 0int, 0int, SCALE as int))
}

/// The quadratic coefficient `a`: the direction dotted with itself.
pub open spec fn quad_a_v(t: Seq<int>, r: Ray) -> int {
    dot_v(object_dir_v(t, r), object_dir_v(t, r))
}

/// The quadratic coefficient `b`.
pub open spec fn quad_b_v(t: Seq<int>, r: Ray) -> int {
    fx_mul(2 * SCALE as int, dot_v(object_dir_v(t, r), sphere_to_ray_v(t, r)))
}

/// The quadratic coefficient `c`.
pub open spec fn quad_c_v(t: Seq<int>, r: Ray) -> int {
    dot_v(sphere_to_ray_v(t, r), sphere_to_ray_v(t, r)) - SCALE as int
}

/// The discriminant `b * b - 4 * a * c`.
pub open spec fn disc_v(t: Seq<int>, r: Ray) -> int {
    fx_mul(quad_b_v(t, r), quad_b_v(t, r)) - fx_mul(
        fx_mul(4 * SCALE as int, quad_a_v(t, r)),
        quad_c_v(t, r),
    )
}

/// The nearer intersection parameter.
pub open spec fn hit_t1_v(t: Seq<int>, r: Ray) -> int {
    fx_div(
        -quad_b_v(t, r) - fx_sqrt(disc_v(t, r)),
        fx_mul(2 * SCALE as int, quad_a_v(t, r)),
    )
}

/// The farther intersection parameter.
pub open spec fn hit_t2_v(t: Seq<int>, r: Ray) -> int {
    fx_div(
        -quad_b_v(t, r) + fx_sqrt(disc_v(t, r)),
        fx_mul(2 * SCALE as int, quad_a_v(t, r)),
    )
}

/// The transform can be inverted: its entries are within the entry budget
/// and its determinant is nonzero and not too small.
pub open spec fn invert_pre(t: Seq<int>) -> bool {
    &&& bounded(t, ENTRY_RAW as int)
    &&& det_spec(4, t) != 0
    &&& mag(det_spec(4, t)) >= DET_MIN_RAW as int
}

/// Every intermediate of the intersection computation fits the machine
/// representation, and the quadratic is nondegenerate.
pub open spec fn intersect_ok(t: Seq<int>, r: Ray) -> bool {
    let b = quad_b_v(t, r);
    let a = quad_a_v(t, r);
    let c = quad_c_v(t, r);
    let disc = disc_v(t, r);
    &&& invert_pre(t)
    &&& mat_vec_ok_v(inverse_seq(t), tv(r.origin))
    &&& mat_vec_ok_v(inverse_seq(t), tv(r.dir))
    &&& sub_ok_v(object_origin_v(t, r), (0int, 0int, 0int, SCALE as int))
    &&& dot_ok_v(object_dir_v(t, r), object_dir_v(t, r))
    &&& dot_ok_v(object_dir_v(t, r), sphere_to_ray_v(t, r))
    &&& dot_ok_v(sphere_to_ray_v(t, r), sphere_to_ray_v(t, r))
    &&& in_range(fx_mul(2 * SCALE as int, dot_v(object_dir_v(t, r), sphere_to_ray_v(t, r))))
    &&& in_range(c)
    &&& in_range(fx_mul(b, b))
    &&& in_range(fx_mul(4 * SCALE as int, a))
    &&& in_range(fx_mul(fx_mul(4 * SCALE as int, a), c))
    &&& in_range(disc)
    &&& a != 0
    &&& in_range(fx_mul(2 * SCALE as int, a))
    &&& (disc >= 0 ==> {
        &&& in_range(-b - fx_sqrt(disc))
        &&& in_range(-b + fx_sqrt(disc))
        &&& in_range(hit_t1_v(t, r))
        &&& in_range(hit_t2_v(t, r))
    })
}

/// The object-space normal at a world point: the point pulled back by the
/// inverse transform, minus the center.
pub open spec fn object_normal_v(t: Seq<int>, at: (int, int, int, int)) -> (int, int, int, int) {
    sub_v(mat_vec_v(inverse_seq(t), at), (0int, 0int, 0int, SCALE as int))
}

/// The world normal before normalization: the object normal pushed through
/// the transposed inverse, with its fourth component forced to zero.
pub open spec fn world_normal_v(t: Seq<int>, at: (int, int, int, int)) -> (int, int, int, int) {
    let wn = mat_vec_v(transpose_seq(inverse_seq(t)), object_normal_v(t, at));
    (wn.0, wn.1, wn.2, 0int)
}

/// The surface normal: the world normal, normalized.
pub open spec fn normal_v(t: Seq<int>, at: (int, int, int, int)) -> (int, int, int, int) {
    normalize_v(world_normal_v(t, at))
}

/// Every intermediate of the normal computation fits the machine
/// representation.
pub open spec fn normal_ok(t: Seq<int>, at: (int, int, int, int)) -> bool {
    &&& invert_pre(t)
    &&& mat_vec_ok_v(inverse_seq(t), at)
    &&& sub_ok_v(mat_vec_v(inverse_seq(t), at), (0int, 0int, 0int, SCALE as int))
    &&& mat_vec_ok_v(transpose_seq(inverse_seq(t)), object_normal_v(t, at))
    &&& normalize_ok_v(world_normal_v(t, at))
}

impl Sphere {
    /// A sphere with the given radius, the identity transform, and the
    /// default material.
    pub fn new(radius: Scalar) -> (r: Sphere)
        ensures
            r.radius == radius,
            sphere_wf(r),
            r.transform.sv() == identity_seq(4),
            is_default_material(r.material),
    {
        Sphere { radius, transform: BaseMatrix::identity(4), material: Material::default() }
    }

    /// A copy of this sphere.
    pub fn duplicate(&self) -> (r: Sphere)
        ensures
            same_sphere(r, *self),
    {
        Sphere {
            radius: self.radius,
            transform: self.transform.duplicate(),
            material: self.material,
        }
    }

    /// Right-multiplies a further transform onto this sphere's transform.
    pub fn transform(&mut self, transform: BaseMatrix)
        requires
            sphere_wf(*old(self)),
            transform.wf(),
            transform.n == 4,
            bounded(old(self).transform.sv(), MUL_IN_RAW as int),
            bounded(transform.sv(), MUL_IN_RAW as int),
        ensures
            final(self).radius == old(self).radius,
            final(self).material == old(self).material,
            sphere_wf(*final(self)),
            forall|r: int, c: int|
                0 <= r < 4 && 0 <= c < 4 ==> final(self).transform.idx(r, c) == mul_cell(
                    4,
                    old(self).transform.sv(),
                    transform.sv(),
                    r,
                    c,
                ),
    {
        let t = self.transform.mul(&transform);
        self.transform = t;
    }

    /// The surface normal at a world point.  The point must not be a
    /// direction: a fourth component of zero is rejected by contract.
    pub fn normal_at(&self, at: Tuple) -> (r: Tuple)
        requires
            sphere_wf(*self),
            at.3@ != 0,
            normal_ok(self.transform.sv(), tv(at)),
        ensures
            tv(r) == normal_v(self.transform.sv(), tv(at)),
    {
        let inv = match self.transform.invert() {
            Some(m) => m,
            None => vstd::pervasive::unreached(),
        };
        proof {
            lemma_inverse_seq(&self.transform, &inv);
        }
        let object_point = inv.mul_tuple(at);
        let object_normal = object_point.sub(
            point(Scalar::zero(), Scalar::zero(), Scalar::zero()),
        );
        let invt = inv.transpose();
        proof {
            lemma_transpose_seq(&inv, &invt);
        }
        let mut world_normal = invt.mul_tuple(object_normal);
        world_normal.set_w(Scalar::zero());
        world_normal.normalize()
    }

    /// Carries the ray into object space, solves the quadratic, and returns
    /// the two intersection parameters in ascending order, or `None` when
    /// the discriminant is negative.
    pub fn intersect(&self, ray: Ray) -> (res: Option<Intersections<Sphere>>)
        requires
            sphere_wf(*self),
            intersect_ok(self.transform.sv(), ray),
        ensures
            res is None <==> disc_v(self.transform.sv(), ray) < 0,
            res matches Some(xs) ==> {
                &&& xs@.len() == 2
                &&& xs@[0].t@ == hit_t1_v(self.transform.sv(), ray)
                &&& xs@[1].t@ == hit_t2_v(self.transform.sv(), ray)
                &&& xs@[0].t@ <= xs@[1].t@
                &&& same_sphere(xs@[0].obj, *self)
                &&& same_sphere(xs@[1].obj, *self)
            },
    {
        let inv = match self.transform.invert() {
            Some(m) => m,
            None => vstd::pervasive::unreached(),
        };
        proof {
            lemma_inverse_seq(&self.transform, &inv);
            if disc_v(self.transform.sv(), ray) >= 0 {
                lemma_intersections_ascending(self.transform.sv(), ray);
            }
        }
        let r = ray.transform(&inv);
        let sphere_to_ray = r.origin.sub(point(Scalar::zero(), Scalar::zero(), Scalar::zero()));
        let a = r.dir.dot(r.dir);
        let two = Scalar::from_int(2);
        let b = two.mul(r.dir.dot(sphere_to_ray));
        let c = sphere_to_ray.dot(sphere_to_ray).sub(Scalar::one());
        let four = Scalar::from_int(4);
        let discriminant = b.mul(b).sub(four.mul(a).mul(c));
        if discriminant.raw() < 0 {
            None
        } else {
            let sd = discriminant.sqrt();
            let denom = two.mul(a);
            proof {
                lemma_two_a_nonzero(quad_a_v(self.transform.sv(), ray));
            }
            let t1 = (b.neg().sub(sd)).div(denom);
            let t2 = (b.neg().add(sd)).div(denom);
            Some(
                Intersections::from(
                    vec![
                        Intersection::new(t1, self.duplicate()),
                        Intersection::new(t2, self.duplicate()),
                    ],
                ),
            )
        }
    }
}

/// Twice a nonzero value is nonzero under exact scaling by two.
pub proof fn lemma_two_a_nonzero(a: int)
    requires
        a != 0,
    ensures
        fx_mul(2 * SCALE as int, a) == 2 * a,
        fx_mul(2 * SCALE as int, a) != 0,
{
    crate::scalar::lemma_fx_mul_one(2 * a);
    assert(2 * (SCALE as int) * a == 2 * a * (SCALE as int)) by (nonlinear_arith);
}

/// The two intersection parameters come in ascending order: the root with
/// the subtracted square root never exceeds the root with the added one.
pub proof fn lemma_intersections_ascending(t: Seq<int>, r: Ray)
    requires
        intersect_ok(t, r),
        disc_v(t, r) >= 0,
    ensures
        hit_t1_v(t, r) <= hit_t2_v(t, r),
{
    let a = quad_a_v(t, r);
    let b = quad_b_v(t, r);
    let disc = disc_v(t, r);
    crate::tuple::lemma_len2_nonneg(object_dir_v(t, r));
    crate::scalar::lemma_isqrt_exists(disc * (SCALE as int));
    let sd = fx_sqrt(disc);
    assert(is_isqrt(disc * (SCALE as int), sd));
    lemma_two_a_nonzero(a);
    crate::scalar::lemma_fx_div_monotone(-b - sd, -b + sd, fx_mul(2 * SCALE as int, a));
}

/// The matrix produced by `invert` flattens to `inverse_seq`.
proof fn lemma_inverse_seq(t: &BaseMatrix, inv: &BaseMatrix)
    requires
        t.wf(),
        t.n == 4,
        inv.wf(),
        inv.n == 4,
        forall|r: int, c: int|
            0 <= r < 4 && 0 <= c < 4 ==> inv.idx(c, r) == fx_div(
                cof_spec(4, t.sv(), r, c),
                det_spec(4, t.sv()),
            ),
    ensures
        inv.sv() == inverse_seq(t.sv()),
{
    assert forall|k: int| 0 <= k < 16 implies inv.sv()[k] == inverse_seq(t.sv())[k] by {
        let r = k % 4;
        let c = k / 4;
        assert(0 <= r < 4 && 0 <= c < 4);
        assert(inv.idx(c, r) == fx_div(cof_spec(4, t.sv(), r, c), det_spec(4, t.sv())));
        assert(c * 4 + r == k);
    }
    assert(inv.sv() =~= inverse_seq(t.sv()));
}

/// The matrix produced by `transpose` flattens to `transpose_seq`.
proof fn lemma_transpose_seq(m: &BaseMatrix, mt: &BaseMatrix)
    requires
        m.wf(),
        m.n == 4,
        mt.wf(),
        mt.n == 4,
        forall|i: int, j: int| 0 <= i < 4 && 0 <= j < 4 ==> mt.idx(i, j) == m.idx(j, i),
    ensures
        mt.sv() == transpose_seq(m.sv()),
{
    assert forall|k: int| 0 <= k < 16 implies mt.sv()[k] == transpose_seq(m.sv())[k] by {
        let i = k / 4;
        let j = k % 4;
        assert(0 <= i < 4 && 0 <= j < 4);
        assert(mt.idx(i, j) == m.idx(j, i));
        assert(i * 4 + j == k);
    }
    assert(mt.sv() =~= transpose_seq(m.sv()));
}

/// A parametric hit record: the distance along the ray and the object hit.
#[derive(Clone, Debug)]
pub struct Intersection<O> {
    pub t: Scalar,
    pub obj: O,
}

impl<O> Intersection<O> {
    pub fn new(t: Scalar, obj: O) -> (r: Intersection<O>)
        ensures
            r.t == t,
            r.obj == obj,
    {
        Intersection { t, obj }
    }
}

/// An ordered collection of hit records.
#[derive(Clone, Debug)]
pub struct Intersections<O> {
    intersections: Vec<Intersection<O>>,
}

impl<O> View for Intersections<O> {
    type V = Seq<Intersection<O>>;

    closed spec fn view(&self) -> Seq<Intersection<O>> {
        self.intersections@
    }
}

/// Index `i` holds the hit: its distance is positive, no positive distance
/// in the collection is smaller, and every earlier record with a positive
/// distance is strictly farther.
pub open spec fn is_hit<O>(s: Seq<Intersection<O>>, i: int) -> bool {
    &&& 0 <= i < s.len()
    &&& s[i].t@ > 0
    &&& forall|j: int| 0 <= j < s.len() && #[trigger] s[j].t@ > 0 ==> s[i].t@ <= s[j].t@
    &&& forall|j: int| 0 <= j < i && #[trigger] s[j].t@ > 0 ==> s[i].t@ < s[j].t@
}

impl<O> Intersections<O> {
    pub fn from(intersections: Vec<Intersection<O>>) -> (r: Intersections<O>)
        ensures
            r@ == intersections@,
    {
        Intersections { intersections }
    }

    pub fn len(&self) -> (r: usize)
        ensures
            r == self@.len(),
    {
        self.intersections.len()
    }

    pub fn is_empty(&self) -> (r: bool)
        ensures
            r == (self@.len() == 0),
    {
        self.intersections.len() == 0
    }

    /// The record at index `i`.
    pub fn get(&self, i: usize) -> (r: &Intersection<O>)
        requires
            i < self@.len(),
        ensures
            *r == self@[i as int],
    {
        &self.intersections[i]
    }

    /// The nearest record with a positive distance: `None` when every
    /// distance is zero or negative, otherwise the first record among those
    /// of minimal positive distance.
    pub fn hit(&self) -> (res: Option<&Intersection<O>>)
        ensures
            match res {
                None => forall|j: int| 0 <= j < self@.len() ==> !(#[trigger] self@[j].t@ > 0),
                Some(it) => exists|i: int| is_hit(self@, i) && *it == self@[i],
            },
    {
        let len = self.intersections.len();
        let mut best: Option<usize> = None;
        let mut k: usize = 0;
        while k < len
            invariant
                k <= len,
                len == self@.len(),
                match best {
                    None => forall|j: int| 0 <= j < k ==> !(#[trigger] self@[j].t@ > 0),
                    Some(b) => {
                        &&& b < k
                        &&& self@[b as int].t@ > 0
                        &&& forall|j: int|
                            0 <= j < k && #[trigger] self@[j].t@ > 0 ==> self@[b as int].t@
                                <= self@[j].t@
                        &&& forall|j: int|
                            0 <= j < b && #[trigger] self@[j].t@ > 0 ==> self@[b as int].t@
                                < self@[j].t@
                    },
                },
            decreases len - k,
        {
            if self.intersections[k].t.raw() > 0 {
                best = match best {
                    None => Some(k),
                    Some(b) => {
                        if self.intersections[k].t.raw() < self.intersections[b].t.raw() {
                            Some(k)
                        } else {
                            Some(b)
                        }
                    },
                };
            }
            k = k + 1;
        }
        match best {
            None => None,
            Some(b) => {
                proof {
                    assert(is_hit(self@, b as int));
                }
                Some(&self.intersections[b])
            },
        }
    }
}

impl Default for Sphere {
    /// The canonical unit sphere: radius one, identity transform, default
    /// material.
    fn default() -> (r: Sphere)
        ensures
            r.radius@ == SCALE as int,
            sphere_wf(r),
            r.transform.sv() == identity_seq(4),
            is_default_material(r.material),
    {
        Sphere::new(Scalar::one())
    }
}

/// The hit's distance is a pure function of the collection's contents:
/// two collections holding the same records, in whatever order, agree on
/// the distance of their hits.
pub proof fn lemma_hit_order_independent<O>(
    s1: Seq<Intersection<O>>,
    s2: Seq<Intersection<O>>,
    i1: int,
    i2: int,
)
    requires
        s1.to_multiset() == s2.to_multiset(),
        is_hit(s1, i1),
        is_hit(s2, i2),
    ensures
        s1[i1].t@ == s2[i2].t@,
{
    s1.to_multiset_ensures();
    s2.to_multiset_ensures();
    assert(s2.contains(s2[i2]));
    assert(s1.to_multiset().count(s2[i2]) > 0);
    assert(s1.contains(s2[i2]));
    let j1 = choose|j: int| 0 <= j < s1.len() && s1[j] == s2[i2];
    assert(s1[j1].t@ > 0);
    assert(s1[i1].t@ <= s2[i2].t@);
    assert(s1.contains(s1[i1]));
    assert(s2.to_multiset().count(s1[i1]) > 0);
    assert(s2.contains(s1[i1]));
    let j2 = choose|j: int| 0 <= j < s2.len() && s2[j] == s1[i1];
    assert(s2[j2].t@ > 0);
    assert(s2[i2].t@ <= s1[i1].t@);
}

impl PartialEq for Sphere {
    /// Radius exactly, transform approximately, material componentwise.
    fn eq(&self, other: &Sphere) -> (r: bool) {
        self.radius.raw() == other.radius.raw() && self.transform == other.transform
            && self.material == other.material
    }
}

impl vstd::std_specs::cmp::PartialEqSpecImpl for Sphere {
    open spec fn obeys_eq_spec() -> bool {
        true
    }

    open spec fn eq_spec(&self, other: &Sphere) -> bool {
        &&& self.radius@ == other.radius@
        &&& vstd::std_specs::cmp::PartialEqSpec::eq_spec(&self.transform, &other.transform)
        &&& vstd::std_specs::cmp::PartialEqSpec::eq_spec(&self.material, &other.material)
    }
}

impl PartialEq for Intersection<Sphere> {
    /// Distance exactly, object as sphere equality.
    fn eq(&self, other: &Intersection<Sphere>) -> (r: bool) {
        self.t.raw() == other.t.raw() && self.obj == other.obj
    }
}

impl vstd::std_specs::cmp::PartialEqSpecImpl for Intersection<Sphere> {
    open spec fn obeys_eq_spec() -> bool {
        true
    }

    open spec fn eq_spec(&self, other: &Intersection<Sphere>) -> bool {
        &&& self.t@ == other.t@
        &&& vstd::std_specs::cmp::PartialEqSpec::eq_spec(&self.obj, &other.obj)
    }
}

impl PartialEq for Intersections<Sphere> {
    /// Same length, records equal pairwise.
    fn eq(&self, other: &Intersections<Sphere>) -> (r: bool) {
        if self.intersections.len() != other.intersections.len() {
            return false;
        }
        let mut k: usize = 0;
        while k < self.intersections.len()
            invariant
                k <= self@.len(),
                self@.len() == other@.len(),
                forall|j: int|
                    0 <= j < k ==> vstd::std_specs::cmp::PartialEqSpec::eq_spec(
                        &(#[trigger] self@[j]),
                        &other@[j],
                    ),
            decreases self@.len() - k,
        {
            if !(self.intersections[k] == other.intersections[k]) {
                return false;
            }
            k = k + 1;
        }
        true
    }
}

impl vstd::std_specs::cmp::PartialEqSpecImpl for Intersections<Sphere> {
    open spec fn obeys_eq_spec() -> bool {
        true
    }

    open spec fn eq_spec(&self, other: &Intersections<Sphere>) -> bool {
        &&& self@.len() == other@.len()
        &&& forall|j: int|
            0 <= j < self@.len() ==> vstd::std_specs::cmp::PartialEqSpec::eq_spec(
                &(#[trigger] self@[j]),
                &other@[j],
            )
    }
}

} // verus!
