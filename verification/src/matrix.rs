//! Square matrices of fixed-point scalars, with one uniform set of
//! operations for every dimension: the entries live in a flat vector indexed
//! by `row * n + column`, and the determinant is a recursive Laplace
//! expansion that bottoms out at the empty matrix.

use vstd::prelude::*;
use crate::scalar::Scalar;
use crate::scalar::{fx_mul, fx_div, in_range, approx, mag, SCALE};
use crate::scalar::{lemma_fx_mul_mag, lemma_fx_div_mag};
use crate::tuple::Tuple;
use crate::tuple::{tv, dot_v, dot_ok_v};

verus! {

/// The largest raw entry magnitude the determinant and inversion routines
/// accept: a value of one hundred.
pub const ENTRY_RAW: i64 = 100 * SCALE;

/// The smallest determinant magnitude (when not zero) that inversion
/// accepts: a value of one thousandth.
pub const DET_MIN_RAW: i64 = 1_000_000;

/// The largest raw entry magnitude the product routines accept: a value of
/// ten thousand.
pub const MUL_IN_RAW: i64 = 10_000 * SCALE;

/// Every entry of `s` has magnitude at most `b`.
pub open spec fn bounded(s: Seq<int>, b: int) -> bool {
    forall|i: int| 0 <= i < s.len() ==> mag(#[trigger] s[i]) <= b
}

/// A square matrix: `n` rows of `n` fixed-point entries, flattened row by
/// row.
#[derive(Clone, Debug)]
pub struct BaseMatrix {
    /// The dimension.
    pub n: usize,
    /// The entries, flattened row by row.
    pub elems: Vec<Scalar>,
}

impl BaseMatrix {
    /// The raw entries, flattened row by row.
    pub open spec fn sv(&self) -> Seq<int> {
        self.elems@.map(|i: int, s: Scalar| s@)
    }

    /// The entry vector has exactly `n * n` entries.
    pub open spec fn wf(&self) -> bool {
        self.sv().len() == self.n * self.n
    }

    /// The raw entry at row `r`, column `c`.
    pub open spec fn idx(&self, r: int, c: int) -> int {
        self.sv()[r * self.n + c]
    }

    /// Builds a matrix from its dimension and flattened entries.
    pub fn from_elems(n: usize, elems: Vec<Scalar>) -> (r: BaseMatrix)
        requires
            elems@.len() == n * n,
        ensures
            r.wf(),
            r.n == n,
            r.sv() == elems@.map(|i: int, s: Scalar| s@),
    {
        BaseMatrix { n, elems }
    }

    /// Builds an `n` by `n` matrix with every entry equal to `elem`.
    pub fn new(n: usize, elem: Scalar) -> (r: BaseMatrix)
        requires
            n * n <= usize::MAX,
        ensures
            r.wf(),
            r.n == n,
            forall|i: int| 0 <= i < n * n ==> r.sv()[i] == elem@,
    {
        proof {
            vstd::arithmetic::mul::lemma_mul_nonnegative(n as int, n as int);
        }
        let total = n * n;
        let mut elems: Vec<Scalar> = Vec::new();
        let mut i: usize = 0;
        while i < total
            invariant
                i <= total,
                elems@.len() == i,
                forall|k: int| 0 <= k < i ==> elems@[k] == elem,
            decreases total - i,
        {
            elems.push(elem);
            i = i + 1;
        }
        BaseMatrix { n, elems }
    }

    /// The entry at row `r`, column `c`.
    pub fn at(&self, r: usize, c: usize) -> (v: Scalar)
        requires
            self.wf(),
            r < self.n,
            c < self.n,
        ensures
            v@ == self.idx(r as int, c as int),
    {
        let len = self.elems.len();
        proof {
            lemma_rc_index(self.n as int, r as int, c as int);
        }
        self.elems[r * self.n + c]
    }

    /// Replaces the entry at row `r`, column `c`.
    pub fn set_at(&mut self, r: usize, c: usize, v: Scalar)
        requires
            old(self).wf(),
            r < old(self).n,
            c < old(self).n,
        ensures
            final(self).wf(),
            final(self).n == old(self).n,
            final(self).sv() == old(self).sv().update(r * old(self).n + c, v@),
    {
        let len = self.elems.len();
        proof {
            lemma_rc_index(self.n as int, r as int, c as int);
        }
        let i = r * self.n + c;
        self.elems.set(i, v);
        proof {
            assert(final(self).sv() =~= old(self).sv().update(
                r * old(self).n + c,
                v@,
            ));
        }
    }

    /// The identity: ones on the diagonal, zeros elsewhere.
    pub fn identity(n: usize) -> (r: BaseMatrix)
        requires
            n * n <= usize::MAX,
        ensures
            r.wf(),
            r.n == n,
            r.sv() == identity_seq(n as nat),
    {
        proof {
            vstd::arithmetic::mul::lemma_mul_nonnegative(n as int, n as int);
        }
        let total = n * n;
        let mut elems: Vec<Scalar> = Vec::new();
        let mut i: usize = 0;
        while i < total
            invariant
                i <= total,
                total == n * n,
                n * n <= usize::MAX,
                elems@.len() == i,
                forall|k: int|
                    0 <= k < i ==> elems@[k]@ == identity_seq(n as nat)[k],
            decreases total - i,
        {
            let r = i / n;
            let c = i % n;
            if r == c {
                elems.push(Scalar::one());
            } else {
                elems.push(Scalar::zero());
            }
            i = i + 1;
        }
        let m = BaseMatrix { n, elems };
        proof {
            assert(m.sv() =~= identity_seq(n as nat));
        }
        m
    }

    /// Rows and columns exchanged.
    pub fn transpose(&self) -> (r: BaseMatrix)
        requires
            self.wf(),
        ensures
            r.wf(),
            r.n == self.n,
            forall|i: int, j: int|
                0 <= i < self.n && 0 <= j < self.n ==> r.idx(i, j) == self.idx(j, i),
    {
        let n = self.n;
        let mut elems: Vec<Scalar> = Vec::new();
        let mut i: usize = 0;
        let total = self.elems.len();
        while i < total
            invariant
                i <= total,
                total == n * n,
                self.wf(),
                n == self.n,
                elems@.len() == i,
                forall|k: int|
                    0 <= k < i ==> elems@[k]@ == self.idx((k % (n as int)), (k / (n as int))),
            decreases total - i,
        {
            let r = i / n;
            let c = i % n;
            proof {
                lemma_div_mod_split(n as int, i as int);
            }
            elems.push(self.at(c, r));
            i = i + 1;
        }
        let m = BaseMatrix { n, elems };
        proof {
            assert forall|i0: int, j0: int|
                0 <= i0 < n && 0 <= j0 < n implies m.idx(i0, j0) == self.idx(j0, i0) by {
                lemma_rc_index(n as int, i0, j0);
                lemma_div_mod_of_rc(n as int, i0, j0);
            }
        }
        m
    }
}

/// The flattened entries of the `n` by `n` identity.
pub open spec fn identity_seq(n: nat) -> Seq<int> {
    Seq::new(n * n, |k: int| if k / (n as int) == k % (n as int) { SCALE as int } else { 0 })
}

/// A valid row and column pair flattens to a valid index.
pub proof fn lemma_rc_index(n: int, r: int, c: int)
    requires
        0 <= r < n,
        0 <= c < n,
    ensures
        0 <= r * n + c < n * n,
        (r * n + c) / n == r,
        (r * n + c) % n == c,
{
    assert(0 <= r * n + c < n * n) by (nonlinear_arith)
        requires
            0 <= r < n,
            0 <= c < n,
    ;
    assert((r * n + c) / n == r && (r * n + c) % n == c) by (nonlinear_arith)
        requires
            0 <= r < n,
            0 <= c < n,
    ;
}

/// A valid flat index splits into a valid row and column pair.
proof fn lemma_div_mod_split(n: int, i: int)
    requires
        0 < n,
        0 <= i < n * n,
    ensures
        0 <= i / n < n,
        0 <= i % n < n,
        (i / n) * n + (i % n) == i,
    decreases 0int,
{
    assert(0 <= i / n < n && 0 <= i % n < n && (i / n) * n + (i % n) == i) by (nonlinear_arith)
        requires
            0 < n,
            0 <= i < n * n,
    ;
}

/// Flattening then splitting gives back the same pair.
proof fn lemma_div_mod_of_rc(n: int, r: int, c: int)
    requires
        0 <= r < n,
        0 <= c < n,
    ensures
        (r * n + c) % n == c,
        (r * n + c) / n == r,
{
    lemma_rc_index(n, r, c);
}

/// The index-skipping map used when a row or column is removed.
pub open spec fn skip(i: int, d: int) -> int {
    if i < d {
        i
    } else {
        i + 1
    }
}

/// The flattened entries after deleting row `dr` and column `dc` from an
/// `n` by `n` matrix.
pub open spec fn sub_seq(n: nat, s: Seq<int>, dr: int, dc: int) -> Seq<int> {
    Seq::new(
        ((n - 1) * (n - 1)) as nat,
        |k: int| s[skip(k / (n - 1), dr) * n + skip(k % (n - 1), dc)],
    )
}

/// The sum of the first `k` terms of the Laplace expansion along row zero.
pub open spec fn det_partial(n: nat, s: Seq<int>, k: nat) -> int
    decreases n, 1nat, k,
{
    if k == 0 {
        0
    } else {
        det_partial(n, s, (k - 1) as nat) + fx_mul(s[k - 1], cof_spec(n, s, 0, k - 1))
    }
}

/// The cofactor: the minor, negated on odd row and column parity.
pub open spec fn cof_spec(n: nat, s: Seq<int>, r: int, c: int) -> int
    decreases n, 0nat, 1nat,
{
    if (r + c) % 2 == 0 {
        minor_spec(n, s, r, c)
    } else {
        -minor_spec(n, s, r, c)
    }
}

/// The minor: the determinant of the submatrix without row `r` and column
/// `c`.
pub open spec fn minor_spec(n: nat, s: Seq<int>, r: int, c: int) -> int
    decreases n, 0nat, 0nat,
{
    if n >= 1 {
        det_spec((n - 1) as nat, sub_seq(n, s, r, c))
    } else {
        0
    }
}

/// The determinant: one for the empty matrix, else the full Laplace
/// expansion along row zero.
pub open spec fn det_spec(n: nat, s: Seq<int>) -> int
    decreases n, 2nat, 0nat,
{
    if n == 0 {
        SCALE as int
    } else {
        det_partial(n, s, n)
    }
}

/// An upper bound on determinant magnitudes of matrices whose entries stay
/// within `ENTRY_RAW`, by dimension.
pub open spec fn det_bound(n: nat) -> int
    decreases n,
{
    if n == 0 {
        SCALE as int
    } else {
        n * ((ENTRY_RAW as int * det_bound((n - 1) as nat)) / (SCALE as int))
    }
}

/// The determinant bounds are nonnegative.
pub proof fn lemma_det_bound_nonneg(n: nat)
    ensures
        det_bound(n) >= 0,
    decreases n,
{
    if n > 0 {
        lemma_det_bound_nonneg((n - 1) as nat);
        vstd::arithmetic::mul::lemma_mul_nonnegative(ENTRY_RAW as int, det_bound((n - 1) as nat));
        vstd::arithmetic::div_mod::lemma_div_pos_is_pos(
            ENTRY_RAW as int * det_bound((n - 1) as nat),
            SCALE as int,
        );
        vstd::arithmetic::mul::lemma_mul_nonnegative(
            n as int,
            (ENTRY_RAW as int * det_bound((n - 1) as nat)) / (SCALE as int),
        );
    }
}

/// The concrete bound values for the dimensions the kernel accepts; all fit
/// the machine representation.
pub proof fn lemma_det_bound_values()
    ensures
        det_bound(0) == SCALE as int,
        det_bound(1) == 100_000_000_000,
        det_bound(2) == 20_000_000_000_000,
        det_bound(3) == 6_000_000_000_000_000,
        det_bound(4) == 2_400_000_000_000_000_000,
{
    assert(det_bound(0) == SCALE as int);
    assert(det_bound(1) == 100_000_000_000);
    assert(det_bound(2) == 20_000_000_000_000);
    assert(det_bound(3) == 6_000_000_000_000_000);
    assert(det_bound(4) == 2_400_000_000_000_000_000);
}

/// Removing a row and column keeps the entries within any bound that held
/// for the whole matrix.
pub proof fn lemma_sub_seq_bounded(n: nat, s: Seq<int>, r: int, c: int, b: int)
    requires
        s.len() == n * n,
        1 <= n,
        0 <= r < n,
        0 <= c < n,
        bounded(s, b),
    ensures
        bounded(sub_seq(n, s, r, c), b),
{
    let m = n - 1;
    assert forall|k: int| 0 <= k < sub_seq(n, s, r, c).len() implies mag(
        #[trigger] sub_seq(n, s, r, c)[k],
    ) <= b by {
        if m >= 1 {
            assert(0 <= k / m < m && 0 <= k % m < m) by (nonlinear_arith)
                requires
                    1 <= m,
                    0 <= k < m * m,
            ;
            lemma_rc_index(n as int, skip(k / m, r), skip(k % m, c));
        }
    }
}

impl BaseMatrix {
    /// The matrix without row `r` and column `c`.
    pub fn submatrix(&self, r: usize, c: usize) -> (res: BaseMatrix)
        requires
            self.wf(),
            1 <= self.n,
            r < self.n,
            c < self.n,
        ensures
            res.wf(),
            res.n == self.n - 1,
            res.sv() == sub_seq(self.n as nat, self.sv(), r as int, c as int),
    {
        let n = self.n;
        let m = n - 1;
        let big = self.elems.len();
        proof {
            assert(m * m <= n * n) by (nonlinear_arith)
                requires
                    m == n - 1,
                    1 <= n,
            ;
        }
        let total = m * m;
        let mut elems: Vec<Scalar> = Vec::new();
        let mut k: usize = 0;
        while k < total
            invariant
                k <= total,
                total == m * m,
                m == n - 1,
                1 <= n,
                r < n,
                c < n,
                self.wf(),
                n == self.n,
                elems@.len() == k,
                forall|j: int|
                    0 <= j < k ==> elems@[j]@ == sub_seq(n as nat, self.sv(), r as int, c as int)[j],
            decreases total - k,
        {
            let rr = k / m;
            let cc = k % m;
            proof {
                assert(0 <= (k as int) / (m as int) < m && 0 <= (k as int) % (m as int)
                    < m) by (nonlinear_arith)
                    requires
                        1 <= m,
                        0 <= k < m * m,
                ;
            }
            let rs = if rr < r {
                rr
            } else {
                rr + 1
            };
            let cs = if cc < c {
                cc
            } else {
                cc + 1
            };
            elems.push(self.at(rs, cs));
            k = k + 1;
        }
        let res = BaseMatrix { n: m, elems };
        proof {
            assert(res.sv() =~= sub_seq(n as nat, self.sv(), r as int, c as int));
        }
        res
    }

    /// The determinant of the submatrix without row `r` and column `c`.
    pub fn minor(&self, r: usize, c: usize) -> (res: Scalar)
        requires
            self.wf(),
            1 <= self.n <= 4,
            r < self.n,
            c < self.n,
            bounded(self.sv(), ENTRY_RAW as int),
        ensures
            res@ == minor_spec(self.n as nat, self.sv(), r as int, c as int),
            mag(res@) <= det_bound((self.n - 1) as nat),
        decreases self.n, 0int,
    {
        let sub = self.submatrix(r, c);
        proof {
            lemma_sub_seq_bounded(
                self.n as nat,
                self.sv(),
                r as int,
                c as int,
                ENTRY_RAW as int,
            );
        }
        sub.determinant()
    }

    /// The cofactor: the minor, negated on odd row and column parity.
    pub fn cofactor(&self, r: usize, c: usize) -> (res: Scalar)
        requires
            self.wf(),
            1 <= self.n <= 4,
            r < self.n,
            c < self.n,
            bounded(self.sv(), ENTRY_RAW as int),
        ensures
            res@ == cof_spec(self.n as nat, self.sv(), r as int, c as int),
            mag(res@) <= det_bound((self.n - 1) as nat),
        decreases self.n, 1int,
    {
        let m = self.minor(r, c);
        proof {
            lemma_det_bound_values();
            lemma_det_bound_nonneg((self.n - 1) as nat);
        }
        if (r + c) % 2 == 0 {
            m
        } else {
            m.neg()
        }
    }

    /// The determinant, by Laplace expansion along row zero.
    pub fn determinant(&self) -> (res: Scalar)
        requires
            self.wf(),
            self.n <= 4,
            bounded(self.sv(), ENTRY_RAW as int),
        ensures
            res@ == det_spec(self.n as nat, self.sv()),
            mag(res@) <= det_bound(self.n as nat),
        decreases self.n, 2int,
    {
        if self.n == 0 {
            return Scalar::one();
        }
        let n = self.n;
        let ghost tb = (ENTRY_RAW as int * det_bound((n - 1) as nat)) / (SCALE as int);
        proof {
            lemma_det_bound_nonneg((n - 1) as nat);
            vstd::arithmetic::mul::lemma_mul_nonnegative(
                ENTRY_RAW as int,
                det_bound((n - 1) as nat),
            );
            vstd::arithmetic::div_mod::lemma_div_pos_is_pos(
                ENTRY_RAW as int * det_bound((n - 1) as nat),
                SCALE as int,
            );
            lemma_det_bound_values();
        }
        let mut acc = Scalar::zero();
        let mut i: usize = 0;
        while i < n
            invariant
                i <= n,
                1 <= n <= 4,
                n == self.n,
                self.wf(),
                bounded(self.sv(), ENTRY_RAW as int),
                tb == (ENTRY_RAW as int * det_bound((n - 1) as nat)) / (SCALE as int),
                0 <= tb,
                det_bound(n as nat) == n * tb,
                det_bound(n as nat) <= 2_400_000_000_000_000_000,
                acc@ == det_partial(n as nat, self.sv(), i as nat),
                mag(acc@) <= i * tb,
            decreases n - i,
        {
            let co = self.cofactor(0, i);
            let e = self.at(0, i);
            proof {
                assert(n <= n * n) by (nonlinear_arith)
                    requires
                        1 <= n,
                ;
                assert(mag(self.sv()[i as int]) <= ENTRY_RAW as int);
                lemma_fx_mul_mag(e@, co@, ENTRY_RAW as int, det_bound((n - 1) as nat));
                assert((i + 1) * tb == i * tb + tb) by (nonlinear_arith);
                vstd::arithmetic::mul::lemma_mul_inequality(i + 1, n as int, tb);
            }
            let term = e.mul(co);
            acc = acc.add(term);
            i = i + 1;
        }
        acc
    }
}

/// The output bound of the product routines: four terms, each a product of
/// two entries within `MUL_IN_RAW`.
pub const MUL_OUT_RAW: i64 = 400_000_000_000_000_000;

/// The sum of the first `k` terms of the row-by-column product cell.
pub open spec fn mul_cell_partial(n: nat, a: Seq<int>, b: Seq<int>, r: int, c: int, k: nat) -> int
    decreases k,
{
    if k == 0 {
        0
    } else {
        mul_cell_partial(n, a, b, r, c, (k - 1) as nat) + fx_mul(
            a[r * n + (k - 1)],
            b[(k - 1) * n + c],
        )
    }
}

/// One cell of the matrix product: the row of `a` dotted with the column of
/// `b`.
pub open spec fn mul_cell(n: nat, a: Seq<int>, b: Seq<int>, r: int, c: int) -> int {
    mul_cell_partial(n, a, b, r, c, n)
}

/// Row `r` of a flattened four by four matrix, as a raw quadruple.
pub open spec fn row_v(s: Seq<int>, r: int) -> (int, int, int, int) {
    (s[4 * r], s[4 * r + 1], s[4 * r + 2], s[4 * r + 3])
}

/// The matrix applied to a tuple: each row dotted with the tuple.
pub open spec fn mat_vec_v(s: Seq<int>, t: (int, int, int, int)) -> (int, int, int, int) {
    (
        dot_v(row_v(s, 0), t),
        dot_v(row_v(s, 1), t),
        dot_v(row_v(s, 2), t),
        dot_v(row_v(s, 3), t),
    )
}

/// Every intermediate of the matrix application fits the machine
/// representation.
pub open spec fn mat_vec_ok_v(s: Seq<int>, t: (int, int, int, int)) -> bool {
    &&& dot_ok_v(row_v(s, 0), t)
    &&& dot_ok_v(row_v(s, 1), t)
    &&& dot_ok_v(row_v(s, 2), t)
    &&& dot_ok_v(row_v(s, 3), t)
}

impl BaseMatrix {
    /// Whether the determinant is nonzero.
    pub fn invertible(&self) -> (r: bool)
        requires
            self.wf(),
            self.n <= 4,
            bounded(self.sv(), ENTRY_RAW as int),
        ensures
            r == (det_spec(self.n as nat, self.sv()) != 0),
    {
        self.determinant().raw() != 0
    }

    /// The inverse by the adjugate method: entry `(c, r)` of the result is
    /// the cofactor at `(r, c)` divided by the determinant.  Returns `None`
    /// exactly when the determinant is zero.
    pub fn invert(&self) -> (res: Option<BaseMatrix>)
        requires
            self.wf(),
            1 <= self.n <= 4,
            bounded(self.sv(), ENTRY_RAW as int),
            det_spec(self.n as nat, self.sv()) == 0 || mag(det_spec(self.n as nat, self.sv()))
                >= DET_MIN_RAW as int,
        ensures
            res is None <==> det_spec(self.n as nat, self.sv()) == 0,
            res matches Some(m) ==> {
                &&& m.wf()
                &&& m.n == self.n
                &&& forall|r: int, c: int|
                    0 <= r < self.n && 0 <= c < self.n ==> m.idx(c, r) == fx_div(
                        cof_spec(self.n as nat, self.sv(), r, c),
                        det_spec(self.n as nat, self.sv()),
                    )
            },
    {
        let d = self.determinant();
        if d.raw() == 0 {
            return None;
        }
        let n = self.n;
        let total = self.elems.len();
        let ghost det = det_spec(n as nat, self.sv());
        let mut elems: Vec<Scalar> = Vec::new();
        let mut k: usize = 0;
        while k < total
            invariant
                k <= total,
                total == n * n,
                1 <= n <= 4,
                n == self.n,
                self.wf(),
                bounded(self.sv(), ENTRY_RAW as int),
                det == det_spec(n as nat, self.sv()),
                det != 0,
                mag(det) >= DET_MIN_RAW as int,
                d@ == det,
                elems@.len() == k,
                forall|j: int|
                    0 <= j < k ==> elems@[j]@ == fx_div(
                        cof_spec(n as nat, self.sv(), j % (n as int), j / (n as int)),
                        det,
                    ),
            decreases total - k,
        {
            let rr = k / n;
            let cc = k % n;
            proof {
                lemma_div_mod_split(n as int, k as int);
            }
            let co = self.cofactor(cc, rr);
            proof {
                lemma_det_bound_values();
                lemma_det_bound_nonneg((n - 1) as nat);
                lemma_fx_div_mag(co@, det, det_bound((n - 1) as nat), DET_MIN_RAW as int);
                vstd::arithmetic::mul::lemma_mul_inequality(
                    det_bound((n - 1) as nat),
                    6_000_000_000_000_000,
                    SCALE as int,
                );
                vstd::arithmetic::div_mod::lemma_div_is_ordered(
                    det_bound((n - 1) as nat) * (SCALE as int),
                    6_000_000_000_000_000 * (SCALE as int),
                    DET_MIN_RAW as int,
                );
            }
            let v = co.div(d);
            elems.push(v);
            k = k + 1;
        }
        let m = BaseMatrix { n, elems };
        proof {
            assert forall|r0: int, c0: int|
                0 <= r0 < n && 0 <= c0 < n implies m.idx(c0, r0) == fx_div(
                cof_spec(n as nat, self.sv(), r0, c0),
                det,
            ) by {
                lemma_rc_index(n as int, c0, r0);
                lemma_div_mod_of_rc(n as int, c0, r0);
            }
        }
        Some(m)
    }

    /// The row-by-column matrix product.
    pub fn mul(&self, rhs: &BaseMatrix) -> (res: BaseMatrix)
        requires
            self.wf(),
            rhs.wf(),
            self.n == rhs.n,
            self.n <= 4,
            bounded(self.sv(), MUL_IN_RAW as int),
            bounded(rhs.sv(), MUL_IN_RAW as int),
        ensures
            res.wf(),
            res.n == self.n,
            forall|r: int, c: int|
                0 <= r < self.n && 0 <= c < self.n ==> res.idx(r, c) == mul_cell(
                    self.n as nat,
                    self.sv(),
                    rhs.sv(),
                    r,
                    c,
                ),
            bounded(res.sv(), MUL_OUT_RAW as int),
    {
        let n = self.n;
        let total = self.elems.len();
        let ghost cb = (MUL_IN_RAW as int * MUL_IN_RAW as int) / (SCALE as int);
        proof {
            assert(MUL_IN_RAW as int * MUL_IN_RAW as int == 100_000_000_000_000_000_000_000_000int)
                by (nonlinear_arith);
            assert(cb == 100_000_000_000_000_000);
        }
        let mut elems: Vec<Scalar> = Vec::new();
        let mut k: usize = 0;
        while k < total
            invariant
                k <= total,
                total == n * n,
                n <= 4,
                n == self.n,
                n == rhs.n,
                self.wf(),
                rhs.wf(),
                bounded(self.sv(), MUL_IN_RAW as int),
                bounded(rhs.sv(), MUL_IN_RAW as int),
                cb == 100_000_000_000_000_000,
                elems@.len() == k,
                forall|j: int|
                    0 <= j < k ==> elems@[j]@ == mul_cell(
                        n as nat,
                        self.sv(),
                        rhs.sv(),
                        j / (n as int),
                        j % (n as int),
                    ),
                forall|j: int| 0 <= j < k ==> mag(elems@[j]@) <= MUL_OUT_RAW as int,
            decreases total - k,
        {
            let rr = k / n;
            let cc = k % n;
            proof {
                lemma_div_mod_split(n as int, k as int);
            }
            let mut cell = Scalar::zero();
            let mut j: usize = 0;
            while j < n
                invariant
                    j <= n,
                    n <= 4,
                    n == self.n,
                    n == rhs.n,
                    rr < n,
                    cc < n,
                    self.wf(),
                    rhs.wf(),
                    bounded(self.sv(), MUL_IN_RAW as int),
                    bounded(rhs.sv(), MUL_IN_RAW as int),
                    cb == 100_000_000_000_000_000,
                    cell@ == mul_cell_partial(
                        n as nat,
                        self.sv(),
                        rhs.sv(),
                        rr as int,
                        cc as int,
                        j as nat,
                    ),
                    mag(cell@) <= j * cb,
                decreases n - j,
            {
                let a = self.at(rr, j);
                let b = rhs.at(j, cc);
                proof {
                    lemma_rc_index(n as int, rr as int, j as int);
                    lemma_rc_index(n as int, j as int, cc as int);
                    lemma_fx_mul_mag(a@, b@, MUL_IN_RAW as int, MUL_IN_RAW as int);
                    assert((j + 1) * cb == j * cb + cb) by (nonlinear_arith);
                    vstd::arithmetic::mul::lemma_mul_inequality(j + 1, n as int, cb);
                    vstd::arithmetic::mul::lemma_mul_inequality(n as int, 4, cb);
                }
                let term = a.mul(b);
                cell = cell.add(term);
                j = j + 1;
            }
            proof {
                vstd::arithmetic::mul::lemma_mul_inequality(n as int, 4, cb);
            }
            elems.push(cell);
            k = k + 1;
        }
        let m = BaseMatrix { n, elems };
        proof {
            assert forall|r0: int, c0: int|
                0 <= r0 < n && 0 <= c0 < n implies m.idx(r0, c0) == mul_cell(
                n as nat,
                self.sv(),
                rhs.sv(),
                r0,
                c0,
            ) by {
                lemma_rc_index(n as int, r0, c0);
                lemma_div_mod_of_rc(n as int, r0, c0);
            }
            assert forall|i0: int| 0 <= i0 < m.sv().len() implies mag(#[trigger] m.sv()[i0])
                <= MUL_OUT_RAW as int by {
            }
        }
        m
    }

    /// The matrix applied to a tuple: each row dotted with the tuple.
    pub fn mul_tuple(&self, rhs: Tuple) -> (res: Tuple)
        requires
            self.wf(),
            self.n == 4,
            mat_vec_ok_v(self.sv(), tv(rhs)),
        ensures
            tv(res) == mat_vec_v(self.sv(), tv(rhs)),
    {
        let r0 = Tuple(self.at(0, 0), self.at(0, 1), self.at(0, 2), self.at(0, 3));
        let r1 = Tuple(self.at(1, 0), self.at(1, 1), self.at(1, 2), self.at(1, 3));
        let r2 = Tuple(self.at(2, 0), self.at(2, 1), self.at(2, 2), self.at(2, 3));
        let r3 = Tuple(self.at(3, 0), self.at(3, 1), self.at(3, 2), self.at(3, 3));
        Tuple(r0.dot(rhs), r1.dot(rhs), r2.dot(rhs), r3.dot(rhs))
    }
}

impl BaseMatrix {
    /// A copy of this matrix.
    pub fn duplicate(&self) -> (r: BaseMatrix)
        ensures
            r.n == self.n,
            r.sv() == self.sv(),
    {
        let len = self.elems.len();
        let mut elems: Vec<Scalar> = Vec::new();
        let mut i: usize = 0;
        while i < len
            invariant
                i <= len,
                len == self.elems@.len(),
                elems@.len() == i,
                forall|k: int| 0 <= k < i ==> elems@[k] == self.elems@[k],
            decreases len - i,
        {
            elems.push(self.elems[i]);
            i = i + 1;
        }
        let m = BaseMatrix { n: self.n, elems };
        proof {
            assert(m.sv() =~= self.sv());
        }
        m
    }
}

/// The elementary translation matrix, flattened.
pub open spec fn translation_seq(x: int, y: int, z: int) -> Seq<int> {
    identity_seq(4).update(3, x).update(7, y).update(11, z)
}

/// The elementary scaling matrix, flattened.
pub open spec fn scaling_seq(x: int, y: int, z: int) -> Seq<int> {
    identity_seq(4).update(0, x).update(5, y).update(10, z)
}

/// The elementary rotation about the x axis, from the angle's cosine and
/// sine, flattened.
pub open spec fn rotation_x_seq(cos: int, sin: int) -> Seq<int> {
    identity_seq(4).update(5, cos).update(6, -sin).update(9, sin).update(10, cos)
}

/// The elementary rotation about the y axis, flattened.
pub open spec fn rotation_y_seq(cos: int, sin: int) -> Seq<int> {
    identity_seq(4).update(0, cos).update(2, sin).update(8, -sin).update(10, cos)
}

/// The elementary rotation about the z axis, flattened.
pub open spec fn rotation_z_seq(cos: int, sin: int) -> Seq<int> {
    identity_seq(4).update(0, cos).update(1, -sin).update(4, sin).update(5, cos)
}

/// The elementary shear matrix, flattened.
pub open spec fn shear_seq(xy: int, xz: int, yx: int, yz: int, zx: int, zy: int) -> Seq<int> {
    identity_seq(4).update(1, xy).update(2, xz).update(4, yx).update(6, yz).update(8, zx).update(
        9,
        zy,
    )
}

impl BaseMatrix {
    /// Right-multiplies a translation onto this transform.
    pub fn translate(self, x: Scalar, y: Scalar, z: Scalar) -> (res: BaseMatrix)
        requires
            self.wf(),
            self.n == 4,
            bounded(self.sv(), MUL_IN_RAW as int),
            mag(x@) <= MUL_IN_RAW as int,
            mag(y@) <= MUL_IN_RAW as int,
            mag(z@) <= MUL_IN_RAW as int,
        ensures
            res.wf(),
            res.n == 4,
            forall|r: int, c: int|
                0 <= r < 4 && 0 <= c < 4 ==> res.idx(r, c) == mul_cell(
                    4,
                    self.sv(),
                    translation_seq(x@, y@, z@),
                    r,
                    c,
                ),
            bounded(res.sv(), MUL_OUT_RAW as int),
    {
        let mut s = BaseMatrix::identity(4);
        s.set_at(0, 3, x);
        s.set_at(1, 3, y);
        s.set_at(2, 3, z);
        proof {
            assert(s.sv() == translation_seq(x@, y@, z@));
        }
        self.mul(&s)
    }

    /// Right-multiplies a scaling onto this transform.
    pub fn scale(self, x: Scalar, y: Scalar, z: Scalar) -> (res: BaseMatrix)
        requires
            self.wf(),
            self.n == 4,
            bounded(self.sv(), MUL_IN_RAW as int),
            mag(x@) <= MUL_IN_RAW as int,
            mag(y@) <= MUL_IN_RAW as int,
            mag(z@) <= MUL_IN_RAW as int,
        ensures
            res.wf(),
            res.n == 4,
            forall|r: int, c: int|
                0 <= r < 4 && 0 <= c < 4 ==> res.idx(r, c) == mul_cell(
                    4,
                    self.sv(),
                    scaling_seq(x@, y@, z@),
                    r,
                    c,
                ),
            bounded(res.sv(), MUL_OUT_RAW as int),
    {
        let mut s = BaseMatrix::identity(4);
        s.set_at(0, 0, x);
        s.set_at(1, 1, y);
        s.set_at(2, 2, z);
        proof {
            assert(s.sv() == scaling_seq(x@, y@, z@));
        }
        self.mul(&s)
    }

    /// Right-multiplies a rotation about the x axis onto this transform.
    /// The angle arrives as its cosine and sine.
    pub fn rotate_x(self, cos: Scalar, sin: Scalar) -> (res: BaseMatrix)
        requires
            self.wf(),
            self.n == 4,
            bounded(self.sv(), MUL_IN_RAW as int),
            mag(cos@) <= MUL_IN_RAW as int,
            mag(sin@) <= MUL_IN_RAW as int,
        ensures
            res.wf(),
            res.n == 4,
            forall|r: int, c: int|
                0 <= r < 4 && 0 <= c < 4 ==> res.idx(r, c) == mul_cell(
                    4,
                    self.sv(),
                    rotation_x_seq(cos@, sin@),
                    r,
                    c,
                ),
            bounded(res.sv(), MUL_OUT_RAW as int),
    {
        let nsin = sin.neg();
        let mut s = BaseMatrix::identity(4);
        s.set_at(1, 1, cos);
        s.set_at(1, 2, nsin);
        s.set_at(2, 1, sin);
        s.set_at(2, 2, cos);
        proof {
            assert(s.sv() == rotation_x_seq(cos@, sin@));
        }
        self.mul(&s)
    }

    /// Right-multiplies a rotation about the y axis onto this transform.
    pub fn rotate_y(self, cos: Scalar, sin: Scalar) -> (res: BaseMatrix)
        requires
            self.wf(),
            self.n == 4,
            bounded(self.sv(), MUL_IN_RAW as int),
            mag(cos@) <= MUL_IN_RAW as int,
            mag(sin@) <= MUL_IN_RAW as int,
        ensures
            res.wf(),
            res.n == 4,
            forall|r: int, c: int|
                0 <= r < 4 && 0 <= c < 4 ==> res.idx(r, c) == mul_cell(
                    4,
                    self.sv(),
                    rotation_y_seq(cos@, sin@),
                    r,
                    c,
                ),
            bounded(res.sv(), MUL_OUT_RAW as int),
    {
        let nsin = sin.neg();
        let mut s = BaseMatrix::identity(4);
        s.set_at(0, 0, cos);
        s.set_at(0, 2, sin);
        s.set_at(2, 0, nsin);
        s.set_at(2, 2, cos);
        proof {
            assert(s.sv() == rotation_y_seq(cos@, sin@));
        }
        self.mul(&s)
    }

    /// Right-multiplies a rotation about the z axis onto this transform.
    pub fn rotate_z(self, cos: Scalar, sin: Scalar) -> (res: BaseMatrix)
        requires
            self.wf(),
            self.n == 4,
            bounded(self.sv(), MUL_IN_RAW as int),
            mag(cos@) <= MUL_IN_RAW as int,
            mag(sin@) <= MUL_IN_RAW as int,
        ensures
            res.wf(),
            res.n == 4,
            forall|r: int, c: int|
                0 <= r < 4 && 0 <= c < 4 ==> res.idx(r, c) == mul_cell(
                    4,
                    self.sv(),
                    rotation_z_seq(cos@, sin@),
                    r,
                    c,
                ),
            bounded(res.sv(), MUL_OUT_RAW as int),
    {
        let nsin = sin.neg();
        let mut s = BaseMatrix::identity(4);
        s.set_at(0, 0, cos);
        s.set_at(0, 1, nsin);
        s.set_at(1, 0, sin);
        s.set_at(1, 1, cos);
        proof {
            assert(s.sv() == rotation_z_seq(cos@, sin@));
        }
        self.mul(&s)
    }

    /// Right-multiplies a shear onto this transform.
    pub fn shear(
        self,
        xy: Scalar,
        xz: Scalar,
        yx: Scalar,
        yz: Scalar,
        zx: Scalar,
        zy: Scalar,
    ) -> (res: BaseMatrix)
        requires
            self.wf(),
            self.n == 4,
            bounded(self.sv(), MUL_IN_RAW as int),
            mag(xy@) <= MUL_IN_RAW as int,
            mag(xz@) <= MUL_IN_RAW as int,
            mag(yx@) <= MUL_IN_RAW as int,
            mag(yz@) <= MUL_IN_RAW as int,
            mag(zx@) <= MUL_IN_RAW as int,
            mag(zy@) <= MUL_IN_RAW as int,
        ensures
            res.wf(),
            res.n == 4,
            forall|r: int, c: int|
                0 <= r < 4 && 0 <= c < 4 ==> res.idx(r, c) == mul_cell(
                    4,
                    self.sv(),
                    shear_seq(xy@, xz@, yx@, yz@, zx@, zy@),
                    r,
                    c,
                ),
            bounded(res.sv(), MUL_OUT_RAW as int),
    {
        let mut s = BaseMatrix::identity(4);
        s.set_at(0, 1, xy);
        s.set_at(0, 2, xz);
        s.set_at(1, 0, yx);
        s.set_at(1, 2, yz);
        s.set_at(2, 0, zx);
        s.set_at(2, 1, zy);
        proof {
            assert(s.sv() == shear_seq(xy@, xz@, yx@, yz@, zx@, zy@));
        }
        self.mul(&s)
    }
}

/// Transposing twice restores every entry: for any matrix, the transpose
/// of its transpose agrees with it everywhere.
pub proof fn lemma_transpose_involution(m: &BaseMatrix, t: &BaseMatrix, tt: &BaseMatrix)
    requires
        m.wf(),
        t.n == m.n,
        tt.n == m.n,
        forall|i: int, j: int| 0 <= i < m.n && 0 <= j < m.n ==> t.idx(i, j) == m.idx(j, i),
        forall|i: int, j: int| 0 <= i < m.n && 0 <= j < m.n ==> tt.idx(i, j) == t.idx(j, i),
    ensures
        forall|i: int, j: int| 0 <= i < m.n && 0 <= j < m.n ==> tt.idx(i, j) == m.idx(i, j),
{
}

/// The identity matrix is symmetric: it equals its own transpose entry for
/// entry.
pub proof fn lemma_identity_transpose(n: nat, i: int, j: int)
    requires
        0 <= i < n,
        0 <= j < n,
    ensures
        identity_seq(n)[j * n + i] == identity_seq(n)[i * n + j],
{
    lemma_rc_index(n as int, i, j);
    lemma_rc_index(n as int, j, i);
}

/// Multiplying by the identity on the left leaves every entry unchanged.
pub proof fn lemma_identity_mul(s: Seq<int>, r: int, c: int)
    requires
        s.len() == 16,
        0 <= r < 4,
        0 <= c < 4,
    ensures
        mul_cell(4, identity_seq(4), s, r, c) == s[r * 4 + c],
{
    reveal_with_fuel(mul_cell_partial, 5);
    lemma_rc_index(4, r, 0);
    lemma_rc_index(4, r, 1);
    lemma_rc_index(4, r, 2);
    lemma_rc_index(4, r, 3);
    crate::scalar::lemma_fx_mul_zero(s[0 * 4 + c]);
    crate::scalar::lemma_fx_mul_zero(s[1 * 4 + c]);
    crate::scalar::lemma_fx_mul_zero(s[2 * 4 + c]);
    crate::scalar::lemma_fx_mul_zero(s[3 * 4 + c]);
    crate::scalar::lemma_fx_mul_one(s[r * 4 + c]);
}

/// Translation does not affect directions: applying a translation matrix to
/// any tuple whose fourth component is zero gives back that tuple exactly.
pub proof fn lemma_translation_fixes_vectors(x: int, y: int, z: int, v: (int, int, int, int))
    requires
        v.3 == 0,
    ensures
        mat_vec_v(translation_seq(x, y, z), v) == v,
{
    crate::scalar::lemma_fx_mul_one(v.0);
    crate::scalar::lemma_fx_mul_one(v.1);
    crate::scalar::lemma_fx_mul_one(v.2);
    crate::scalar::lemma_fx_mul_zero(v.0);
    crate::scalar::lemma_fx_mul_zero(v.1);
    crate::scalar::lemma_fx_mul_zero(v.2);
    crate::scalar::lemma_fx_mul_zero(v.3);
    crate::scalar::lemma_fx_mul_zero(x);
    crate::scalar::lemma_fx_mul_zero(y);
    crate::scalar::lemma_fx_mul_zero(z);
}

/// A translation followed by the opposite translation restores any point
/// exactly.  The general inverse round trip holds only to within the
/// tolerance, because inversion divides by the determinant on the raw grid;
/// for translations both directions are exact.
pub proof fn lemma_translation_round_trip(x: int, y: int, z: int, p: (int, int, int, int))
    requires
        p.3 == SCALE as int,
    ensures
        mat_vec_v(translation_seq(-x, -y, -z), mat_vec_v(translation_seq(x, y, z), p)) == p,
{
    crate::scalar::lemma_fx_mul_one(p.0);
    crate::scalar::lemma_fx_mul_one(p.1);
    crate::scalar::lemma_fx_mul_one(p.2);
    crate::scalar::lemma_fx_mul_one(p.3);
    crate::scalar::lemma_fx_mul_one(x);
    crate::scalar::lemma_fx_mul_one(y);
    crate::scalar::lemma_fx_mul_one(z);
    crate::scalar::lemma_fx_mul_one(-x);
    crate::scalar::lemma_fx_mul_one(-y);
    crate::scalar::lemma_fx_mul_one(-z);
    crate::scalar::lemma_fx_mul_zero(p.0);
    crate::scalar::lemma_fx_mul_zero(p.1);
    crate::scalar::lemma_fx_mul_zero(p.2);
    crate::scalar::lemma_fx_mul_zero(p.0 + x);
    crate::scalar::lemma_fx_mul_zero(p.1 + y);
    crate::scalar::lemma_fx_mul_zero(p.2 + z);
    crate::scalar::lemma_fx_mul_comm(x, SCALE as int);
    crate::scalar::lemma_fx_mul_comm(y, SCALE as int);
    crate::scalar::lemma_fx_mul_comm(z, SCALE as int);
    crate::scalar::lemma_fx_mul_comm(-x, SCALE as int);
    crate::scalar::lemma_fx_mul_comm(-y, SCALE as int);
    crate::scalar::lemma_fx_mul_comm(-z, SCALE as int);
}

/// Scaling by minus one, one, one is the reflection across the y-z plane:
/// it negates the first component exactly and leaves the rest unchanged.
pub proof fn lemma_scaling_reflects(v: (int, int, int, int))
    ensures
        mat_vec_v(scaling_seq(-(SCALE as int), SCALE as int, SCALE as int), v) == (
            -v.0,
            v.1,
            v.2,
            v.3,
        ),
{
    crate::scalar::lemma_fx_mul_one(v.0);
    crate::scalar::lemma_fx_mul_neg(v.0, SCALE as int);
    crate::scalar::lemma_fx_mul_comm(v.0, SCALE as int);
    crate::scalar::lemma_fx_mul_comm(v.0, -(SCALE as int));
    crate::scalar::lemma_fx_mul_one(v.1);
    crate::scalar::lemma_fx_mul_one(v.2);
    crate::scalar::lemma_fx_mul_one(v.3);
    crate::scalar::lemma_fx_mul_zero(v.0);
    crate::scalar::lemma_fx_mul_zero(v.1);
    crate::scalar::lemma_fx_mul_zero(v.2);
    crate::scalar::lemma_fx_mul_zero(v.3);
}

impl PartialEq for BaseMatrix {
    /// Approximate equality: same dimension, and every entry pair differs by
    /// less than the kernel tolerance.
    fn eq(&self, other: &BaseMatrix) -> (r: bool) {
        if self.n != other.n || self.elems.len() != other.elems.len() {
            return false;
        }
        let mut i: usize = 0;
        while i < self.elems.len()
            invariant
                i <= self.elems@.len(),
                self.elems@.len() == other.elems@.len(),
                forall|k: int| 0 <= k < i ==> approx(self.sv()[k], other.sv()[k]),
            decreases self.elems@.len() - i,
        {
            if !self.elems[i].approx_eq(other.elems[i]) {
                proof {
                    assert(self.sv()[i as int] == self.elems@[i as int]@);
                    assert(other.sv()[i as int] == other.elems@[i as int]@);
                }
                return false;
            }
            i = i + 1;
        }
        true
    }
}

impl vstd::std_specs::cmp::PartialEqSpecImpl for BaseMatrix {
    open spec fn obeys_eq_spec() -> bool {
        true
    }

    open spec fn eq_spec(&self, other: &BaseMatrix) -> bool {
        &&& self.n == other.n
        &&& self.sv().len() == other.sv().len()
        &&& forall|k: int| 0 <= k < self.sv().len() ==> approx(self.sv()[k], other.sv()[k])
    }
}

} // verus!
