//! Fixed-point scalar arithmetic.
//!
//! Every quantity in the kernel is a `Scalar`: a signed count of billionths.
//! The operations truncate toward zero, exactly as the contracts state, so a
//! caller knows the result of every computation to the last unit.

use vstd::prelude::*;
use vstd::arithmetic::div_mod::lemma_div_multiples_vanish;
use vstd::arithmetic::div_mod::lemma_div_is_ordered;
use vstd::arithmetic::div_mod::lemma_div_pos_is_pos;
use vstd::arithmetic::div_mod::lemma_div_is_ordered_by_denominator;
use vstd::arithmetic::div_mod::lemma_div_of0;
use vstd::arithmetic::mul::lemma_mul_unary_negation;
use vstd::arithmetic::mul::lemma_mul_inequality;
use vstd::arithmetic::mul::lemma_mul_nonnegative;

verus! {

/// Raw units in 1.0: the kernel keeps nine decimal places.
pub const SCALE: i64 = 1_000_000_000;

/// Raw magnitude of the comparison tolerance (a value difference of 1e-5).
pub const EPSILON_RAW: i64 = 10_000;

/// Magnitude of an integer.
pub open spec fn mag(x: int) -> int {
    if x >= 0 {
        x
    } else {
        -x
    }
}

/// Truncating (toward zero) division, defined for `d != 0`.
pub open spec fn tdiv(p: int, d: int) -> int {
    if (p >= 0) == (d >= 0) {
        mag(p) / mag(d)
    } else {
        -(mag(p) / mag(d))
    }
}

/// The product of two fixed-point values, truncated toward zero.
pub open spec fn fx_mul(a: int, b: int) -> int {
    tdiv(a * b, SCALE as int)
}

/// The quotient of two fixed-point values, truncated toward zero.
pub open spec fn fx_div(a: int, b: int) -> int {
    tdiv(a * (SCALE as int), b)
}

/// Whether a raw value fits the machine representation.
pub open spec fn in_range(x: int) -> bool {
    i64::MIN <= x <= i64::MAX
}

/// Approximate equality: the raw difference is strictly below the tolerance.
pub open spec fn approx(a: int, b: int) -> bool {
    mag(a - b) < EPSILON_RAW
}

/// A fixed-point number: `raw` counts billionths.
#[derive(Clone, Copy, Debug, PartialEq, Eq, Structural)]
pub struct Scalar {
    raw: i64,
}

impl View for Scalar {
    type V = int;

    closed spec fn view(&self) -> int {
        self.raw as int
    }
}

impl Scalar {
    /// Builds a scalar from a raw count of billionths.
    pub fn from_raw(raw: i64) -> (r: Scalar)
        ensures
            r@ == raw as int,
    {
        Scalar { raw }
    }

    /// Builds the scalar with the exact integer value `n`.
    pub fn from_int(n: i64) -> (r: Scalar)
        requires
            in_range(n * (SCALE as int)),
        ensures
            r@ == n * (SCALE as int),
    {
        Scalar { raw: n * SCALE }
    }

    /// The raw count of billionths.
    pub fn raw(self) -> (r: i64)
        ensures
            r as int == self@,
    {
        self.raw
    }

    /// Zero.
    pub fn zero() -> (r: Scalar)
        ensures
            r@ == 0,
    {
        Scalar { raw: 0 }
    }

    /// One.
    pub fn one() -> (r: Scalar)
        ensures
            r@ == SCALE as int,
    {
        Scalar { raw: SCALE }
    }

    pub fn add(self, rhs: Scalar) -> (r: Scalar)
        requires
            in_range(self@ + rhs@),
        ensures
            r@ == self@ + rhs@,
    {
        Scalar { raw: self.raw + rhs.raw }
    }

    pub fn sub(self, rhs: Scalar) -> (r: Scalar)
        requires
            in_range(self@ - rhs@),
        ensures
            r@ == self@ - rhs@,
    {
        Scalar { raw: self.raw - rhs.raw }
    }

    pub fn neg(self) -> (r: Scalar)
        requires
            in_range(-self@),
        ensures
            r@ == -self@,
    {
        Scalar { raw: -self.raw }
    }

    /// Approximate comparison at the kernel tolerance.
    pub fn approx_eq(self, rhs: Scalar) -> (r: bool)
        ensures
            r == approx(self@, rhs@),
    {
        let d: i128 = self.raw as i128 - rhs.raw as i128;
        -(EPSILON_RAW as i128) < d && d < EPSILON_RAW as i128
    }

    /// The magnitude of this value, as an unsigned count of raw units.
    fn mag_u128(self) -> (r: u128)
        ensures
            r as int == mag(self@),
    {
        if self.raw >= 0 {
            self.raw as u128
        } else {
            (-(self.raw as i128)) as u128
        }
    }

    /// Rebuilds a value from a sign and a magnitude.
    fn from_sign_mag(neg: bool, m: u128) -> (r: Scalar)
        requires
            in_range(if neg { -(m as int) } else { m as int }),
        ensures
            r@ == if neg { -(m as int) } else { m as int },
    {
        if neg {
            let v: i128 = -(m as i128);
            Scalar { raw: v as i64 }
        } else {
            Scalar { raw: m as i64 }
        }
    }

    pub fn mul(self, rhs: Scalar) -> (r: Scalar)
        requires
            in_range(fx_mul(self@, rhs@)),
        ensures
            r@ == fx_mul(self@, rhs@),
    {
        let ma = self.mag_u128();
        let mb = rhs.mag_u128();
        proof {
            lemma_mag_fits(self@);
            lemma_mag_fits(rhs@);
            lemma_mul_upper(ma as int, mb as int, 0x8000_0000_0000_0000, 0x8000_0000_0000_0000);
        }
        let p: u128 = ma * mb;
        let q: u128 = p / (SCALE as u128);
        let neg = (self.raw < 0) != (rhs.raw < 0);
        proof {
            lemma_mag_mul(self@, rhs@);
            lemma_sign_of_mul(self@, rhs@);
            lemma_div_pos_is_pos(mag(self@ * rhs@), SCALE as int);
        }
        Scalar::from_sign_mag(neg, q)
    }

    pub fn div(self, rhs: Scalar) -> (r: Scalar)
        requires
            rhs@ != 0,
            in_range(fx_div(self@, rhs@)),
        ensures
            r@ == fx_div(self@, rhs@),
    {
        let ma = self.mag_u128();
        let mb = rhs.mag_u128();
        proof {
            lemma_mag_fits(self@);
            lemma_mul_upper(ma as int, SCALE as int, 0x8000_0000_0000_0000, SCALE as int);
        }
        let p: u128 = ma * (SCALE as u128);
        let q: u128 = p / mb;
        let neg = (self.raw < 0) != (rhs.raw < 0);
        proof {
            lemma_mag_mul(self@, SCALE as int);
            lemma_sign_of_mul(self@, SCALE as int);
            lemma_div_pos_is_pos(mag(self@ * (SCALE as int)), mag(rhs@));
        }
        Scalar::from_sign_mag(neg, q)
    }

    /// The square root, truncated to the raw grid: the result is the largest
    /// scalar whose square does not exceed this value.
    pub fn sqrt(self) -> (r: Scalar)
        requires
            self@ >= 0,
        ensures
            r@ == fx_sqrt(self@),
            is_isqrt(self@ * (SCALE as int), r@),
    {
        let x: u128 = (self.raw as u128) * (SCALE as u128);
        let q = isqrt_u128(x);
        proof {
            assert(exists|r: int| is_isqrt(x as int, r)) by {
                assert(is_isqrt(x as int, q as int));
            }
            lemma_isqrt_unique(x as int, q as int, fx_sqrt(self@));
        }
        Scalar { raw: q as i64 }
    }
}

/// The magnitude of a product is the product of the magnitudes.
pub proof fn lemma_mag_mul(a: int, b: int)
    ensures
        mag(a * b) == mag(a) * mag(b),
{
    if a >= 0 {
        if b >= 0 {
            assert(a * b >= 0) by (nonlinear_arith)
                requires
                    a >= 0,
                    b >= 0,
            ;
        } else {
            assert(a * b <= 0 && a * (-b) == -(a * b)) by (nonlinear_arith)
                requires
                    a >= 0,
                    b < 0,
            ;
        }
    } else {
        if b >= 0 {
            assert(a * b <= 0 && (-a) * b == -(a * b)) by (nonlinear_arith)
                requires
                    a < 0,
                    b >= 0,
            ;
        } else {
            assert(a * b >= 0 && (-a) * (-b) == a * b) by (nonlinear_arith)
                requires
                    a < 0,
                    b < 0,
            ;
        }
    }
}

/// The magnitude of a machine word fits below two to the sixty-third.
proof fn lemma_mag_fits(a: int)
    requires
        in_range(a),
    ensures
        mag(a) <= 0x8000_0000_0000_0000,
{
}

/// A product of bounded factors is bounded by the product of the bounds.
pub proof fn lemma_mul_upper(a: int, b: int, ba: int, bb: int)
    requires
        0 <= a <= ba,
        0 <= b <= bb,
    ensures
        a * b <= ba * bb,
{
    lemma_mul_inequality(a, ba, b);
    lemma_mul_inequality(b, bb, ba);
}

/// A product is negative exactly when its factors disagree in sign and
/// neither is zero.
proof fn lemma_sign_of_mul(a: int, b: int)
    ensures
        a * b > 0 ==> (a < 0) == (b < 0),
        a * b < 0 ==> (a < 0) != (b < 0),
        (a == 0 || b == 0) ==> a * b == 0,
{
    assert((a * b > 0 ==> (a < 0) == (b < 0)) && (a * b < 0 ==> (a < 0) != (b < 0)) && ((a == 0
        || b == 0) ==> a * b == 0)) by (nonlinear_arith);
}

/// `r` is the integer square root of `x`.
pub open spec fn is_isqrt(x: int, r: int) -> bool {
    0 <= r && r * r <= x && x < (r + 1) * (r + 1)
}

/// The fixed-point square root of `a`: the integer square root of the raw
/// value lifted back onto the raw grid.
pub open spec fn fx_sqrt(a: int) -> int {
    choose|r: int| #[trigger] is_isqrt(a * (SCALE as int), r)
}

proof fn lemma_isqrt_unique(x: int, r1: int, r2: int)
    requires
        is_isqrt(x, r1),
        is_isqrt(x, r2),
    ensures
        r1 == r2,
{
    if r1 < r2 {
        assert((r1 + 1) * (r1 + 1) <= r2 * r2) by (nonlinear_arith)
            requires
                0 <= r1,
                0 <= r2,
                r1 < r2,
        ;
    }
    if r2 < r1 {
        assert((r2 + 1) * (r2 + 1) <= r1 * r1) by (nonlinear_arith)
            requires
                0 <= r1,
                0 <= r2,
                r2 < r1,
        ;
    }
}

/// Integer square root by bisection.
fn isqrt_u128(x: u128) -> (r: u128)
    requires
        x < 0x4000_0000_0000_0000_0000_0000,
    ensures
        is_isqrt(x as int, r as int),
        r < 0x8000_0000_0000,
{
    let bound: u128 = 0x8000_0000_0000;
    let mut lo: u128 = 0;
    let mut hi: u128 = bound;
    assert(hi * hi == 0x4000_0000_0000_0000_0000_0000) by (nonlinear_arith)
        requires
            hi == 0x8000_0000_0000u128,
    ;
    while hi - lo > 1
        invariant
            lo < hi <= 0x8000_0000_0000,
            lo * lo <= x,
            x < hi * hi,
        decreases hi - lo,
    {
        let mid = lo + (hi - lo) / 2;
        proof {
            assert(lo < mid < hi);
            lemma_mul_inequality(mid as int, 0x8000_0000_0000, mid as int);
            lemma_mul_inequality(mid as int, 0x8000_0000_0000, 0x8000_0000_0000);
        }
        if mid * mid <= x {
            lo = mid;
        } else {
            hi = mid;
        }
    }
    proof {
        assert(hi == lo + 1);
    }
    lo
}

/// Truncating division of a negated dividend negates the quotient.
pub proof fn lemma_tdiv_neg(p: int, d: int)
    requires
        d > 0,
    ensures
        tdiv(-p, d) == -tdiv(p, d),
{
}

/// The magnitude of a truncated quotient is the floor quotient of the
/// magnitudes.
pub proof fn lemma_tdiv_mag(p: int, d: int)
    requires
        d != 0,
    ensures
        mag(tdiv(p, d)) == mag(p) / mag(d),
{
    lemma_div_pos_is_pos(mag(p), mag(d));
}

/// Multiplying by one (a raw value of `SCALE`) is exact.
pub proof fn lemma_fx_mul_one(a: int)
    ensures
        fx_mul(a, SCALE as int) == a,
        fx_mul(SCALE as int, a) == a,
{
    lemma_mag_mul(a, SCALE as int);
    lemma_div_multiples_vanish(mag(a), SCALE as int);
    if a >= 0 {
        lemma_mul_nonnegative(a, SCALE as int);
    } else {
        assert(a * (SCALE as int) < 0) by (nonlinear_arith)
            requires
                a < 0,
        ;
    }
}

/// Multiplying by zero is zero.
pub proof fn lemma_fx_mul_zero(a: int)
    ensures
        fx_mul(a, 0) == 0,
        fx_mul(0, a) == 0,
{
    lemma_div_of0(SCALE as int);
}

/// The fixed-point product is symmetric in its arguments.
pub proof fn lemma_fx_mul_comm(a: int, b: int)
    ensures
        fx_mul(a, b) == fx_mul(b, a),
{
}

/// Negating a factor negates the truncated product.
pub proof fn lemma_fx_mul_neg(a: int, b: int)
    ensures
        fx_mul(a, -b) == -fx_mul(a, b),
        fx_mul(-a, b) == -fx_mul(a, b),
{
    lemma_mul_unary_negation(a, b);
    lemma_tdiv_neg(a * b, SCALE as int);
}

/// A bound on the magnitude of a fixed-point product.
pub proof fn lemma_fx_mul_mag(a: int, b: int, ba: int, bb: int)
    requires
        mag(a) <= ba,
        mag(b) <= bb,
    ensures
        mag(fx_mul(a, b)) <= (ba * bb) / (SCALE as int),
{
    lemma_mag_mul(a, b);
    lemma_tdiv_mag(a * b, SCALE as int);
    lemma_mul_upper(mag(a), mag(b), ba, bb);
    lemma_div_is_ordered(mag(a * b), ba * bb, SCALE as int);
}

/// A bound on the magnitude of a fixed-point quotient, from a bound on the
/// dividend and a lower bound on the divisor.
pub proof fn lemma_fx_div_mag(a: int, b: int, ba: int, bm: int)
    requires
        mag(a) <= ba,
        0 < bm <= mag(b),
    ensures
        mag(fx_div(a, b)) <= (ba * (SCALE as int)) / bm,
{
    lemma_mag_mul(a, SCALE as int);
    lemma_tdiv_mag(a * (SCALE as int), b);
    lemma_mul_inequality(mag(a), ba, SCALE as int);
    lemma_div_is_ordered(mag(a * (SCALE as int)), ba * (SCALE as int), mag(b));
    lemma_div_is_ordered_by_denominator(ba * (SCALE as int), bm, mag(b));
    lemma_mul_nonnegative(ba, SCALE as int);
}

/// A bound on an integer square root from a bound on its argument.
pub proof fn lemma_isqrt_le(x: int, r: int, b: int)
    requires
        is_isqrt(x, r),
        0 <= b,
        x <= b * b,
    ensures
        r <= b,
{
    if r > b {
        assert((b + 1) * (b + 1) <= r * r) by (nonlinear_arith)
            requires
                0 <= b,
                b < r,
        ;
        assert(x < (b + 1) * (b + 1)) by (nonlinear_arith)
            requires
                x <= b * b,
                0 <= b,
        ;
    }
}

/// Every nonnegative integer has an integer square root.
pub proof fn lemma_isqrt_exists(x: int)
    requires
        x >= 0,
    ensures
        exists|r: int| #[trigger] is_isqrt(x, r),
    decreases x,
{
    if x == 0 {
        assert(is_isqrt(0, 0));
    } else {
        lemma_isqrt_exists(x - 1);
        let r0 = choose|r: int| #[trigger] is_isqrt(x - 1, r);
        if x < (r0 + 1) * (r0 + 1) {
            assert(is_isqrt(x, r0));
        } else {
            assert(x == (r0 + 1) * (r0 + 1));
            assert((r0 + 1) * (r0 + 1) < (r0 + 2) * (r0 + 2)) by (nonlinear_arith)
                requires
                    r0 >= 0,
            ;
            assert(is_isqrt(x, r0 + 1));
        }
    }
}

/// Truncating division is monotone in the dividend, for a positive divisor.
pub proof fn lemma_tdiv_monotone(p1: int, p2: int, d: int)
    requires
        p1 <= p2,
        d > 0,
    ensures
        tdiv(p1, d) <= tdiv(p2, d),
{
    if p1 >= 0 {
        lemma_div_is_ordered(p1, p2, d);
    } else if p2 >= 0 {
        lemma_div_pos_is_pos(-p1, d);
        lemma_div_pos_is_pos(p2, d);
    } else {
        lemma_div_is_ordered(-p2, -p1, d);
    }
}

/// The fixed-point quotient is monotone in the dividend, for a positive
/// divisor.
pub proof fn lemma_fx_div_monotone(a1: int, a2: int, b: int)
    requires
        a1 <= a2,
        b > 0,
    ensures
        fx_div(a1, b) <= fx_div(a2, b),
{
    lemma_mul_inequality(a1, a2, SCALE as int);
    lemma_tdiv_monotone(a1 * (SCALE as int), a2 * (SCALE as int), b);
}

/// A fixed-point square is never negative.
pub proof fn lemma_fx_square_nonneg(a: int)
    ensures
        fx_mul(a, a) >= 0,
{
    assert(a * a >= 0) by (nonlinear_arith);
    lemma_div_pos_is_pos(a * a, SCALE as int);
}

/// The fixed-point power with a natural exponent: one at exponent zero, and
/// one truncated multiplication by the base for each further step.
pub open spec fn fx_pow(b: int, e: nat) -> int
    decreases e,
{
    if e == 0 {
        SCALE as int
    } else {
        fx_mul(b, fx_pow(b, (e - 1) as nat))
    }
}

impl Scalar {
    /// Raises a value in the unit interval to a natural power.
    pub fn powi(self, e: u32) -> (r: Scalar)
        requires
            0 <= self@ <= SCALE as int,
        ensures
            r@ == fx_pow(self@, e as nat),
            0 <= r@ <= SCALE as int,
    {
        let mut acc = Scalar::one();
        let mut i: u32 = 0;
        while i < e
            invariant
                i <= e,
                0 <= self@ <= SCALE as int,
                acc@ == fx_pow(self@, i as nat),
                0 <= acc@ <= SCALE as int,
            decreases e - i,
        {
            proof {
                lemma_mul_nonnegative(self@, acc@);
                lemma_div_pos_is_pos(self@ * acc@, SCALE as int);
                lemma_fx_mul_mag(self@, acc@, SCALE as int, SCALE as int);
                lemma_div_multiples_vanish(SCALE as int, SCALE as int);
            }
            acc = self.mul(acc);
            i = i + 1;
        }
        acc
    }
}

} // verus!
