//! Colors: a red, green, blue triple carried in a homogeneous tuple, with
//! componentwise arithmetic and conversion to the plain-text pixel triple.

use vstd::prelude::*;
use crate::scalar::Scalar;
use crate::scalar::{approx, SCALE};
use crate::tuple::{Tuple, vector, tv, add_v, sub_v, had_v, scale_v, add_ok_v, sub_ok_v, had_ok_v,
    scale_ok_v};
use crate::canvas::{dec_seq, to_decimal};
use vstd::string::StringExecFns;

verus! {

/// A color; the red, green and blue channels sit in the first three tuple
/// components.
#[derive(Clone, Copy, Debug)]
pub struct Color(pub Tuple);

impl Color {
    /// Builds a color from its three channels; the fourth component is
    /// zero.
    pub fn new(r: Scalar, g: Scalar, b: Scalar) -> (res: Color)
        ensures
            tv(res.0) == (r@, g@, b@, 0int),
    {
        Color(vector(r, g, b))
    }

    /// Black, with a fourth component of one.
    pub fn black() -> (res: Color)
        ensures
            tv(res.0) == (0int, 0int, 0int, SCALE as int),
    {
        Color(Tuple(Scalar::zero(), Scalar::zero(), Scalar::zero(), Scalar::one()))
    }

    /// White, with a fourth component of one.
    pub fn white() -> (res: Color)
        ensures
            tv(res.0) == (SCALE as int, SCALE as int, SCALE as int, SCALE as int),
    {
        Color(Tuple(Scalar::one(), Scalar::one(), Scalar::one(), Scalar::one()))
    }

    /// The red channel.
    pub fn r(self) -> (res: Scalar)
        ensures
            res == self.0.0,
    {
        self.0.0
    }

    /// The green channel.
    pub fn g(self) -> (res: Scalar)
        ensures
            res == self.0.1,
    {
        self.0.1
    }

    /// The blue channel.
    pub fn b(self) -> (res: Scalar)
        ensures
            res == self.0.2,
    {
        self.0.2
    }

    pub fn add(self, rhs: Color) -> (res: Color)
        requires
            add_ok_v(tv(self.0), tv(rhs.0)),
        ensures
            tv(res.0) == add_v(tv(self.0), tv(rhs.0)),
    {
        Color(self.0.add(rhs.0))
    }

    pub fn sub(self, rhs: Color) -> (res: Color)
        requires
            sub_ok_v(tv(self.0), tv(rhs.0)),
        ensures
            tv(res.0) == sub_v(tv(self.0), tv(rhs.0)),
    {
        Color(self.0.sub(rhs.0))
    }

    /// The componentwise product of two colors.
    pub fn mul(self, rhs: Color) -> (res: Color)
        requires
            had_ok_v(tv(self.0), tv(rhs.0)),
        ensures
            tv(res.0) == had_v(tv(self.0), tv(rhs.0)),
    {
        Color(self.0.mul_tuple(rhs.0))
    }

    /// Every component scaled by a single value.
    pub fn mul_scalar(self, rhs: Scalar) -> (res: Color)
        requires
            scale_ok_v(tv(self.0), rhs@),
        ensures
            tv(res.0) == scale_v(tv(self.0), rhs@),
    {
        Color(self.0.mul(rhs))
    }
}

/// The largest raw channel value that survives clamping: 0.999.
pub const CHANNEL_CLAMP_RAW: i64 = 999_000_000;

/// A channel clamped to the printable range.
pub open spec fn channel_clamp(c: int) -> int {
    if c < 0 {
        0
    } else if c > CHANNEL_CLAMP_RAW as int {
        CHANNEL_CLAMP_RAW as int
    } else {
        c
    }
}

/// A channel as a pixel byte: clamped, scaled by 256, and truncated.
pub open spec fn channel_byte(c: int) -> int {
    (channel_clamp(c) * 256) / (SCALE as int)
}

/// The pixel triple of a color: the three channel bytes in decimal,
/// separated by single spaces.
pub open spec fn ppm_color_seq(c: (int, int, int, int)) -> Seq<char> {
    dec_seq(channel_byte(c.0)) + seq![' '] + dec_seq(channel_byte(c.1)) + seq![' '] + dec_seq(
        channel_byte(c.2),
    )
}

/// One channel clamped and scaled to its pixel byte.
fn channel_to_byte(c: Scalar) -> (r: usize)
    ensures
        r == channel_byte(c@),
        r <= 255,
{
    let raw = c.raw();
    let cl: i64 = if raw < 0 {
        0
    } else if raw > CHANNEL_CLAMP_RAW {
        CHANNEL_CLAMP_RAW
    } else {
        raw
    };
    let v = ((cl as u64) * 256) / (SCALE as u64);
    proof {
        vstd::arithmetic::mul::lemma_mul_inequality(cl as int, CHANNEL_CLAMP_RAW as int, 256);
        vstd::arithmetic::div_mod::lemma_div_is_ordered(
            cl as int * 256,
            CHANNEL_CLAMP_RAW as int * 256,
            SCALE as int,
        );
    }
    v as usize
}

impl Color {
    /// The pixel triple "r g b" of this color.
    pub fn to_ppm_color(&self) -> (res: String)
        ensures
            res@ == ppm_color_seq(tv(self.0)),
    {
        let rb = channel_to_byte(self.0.0);
        let gb = channel_to_byte(self.0.1);
        let bb = channel_to_byte(self.0.2);
        let mut s = to_decimal(rb);
        s.append(" ");
        let gs = to_decimal(gb);
        s.append(gs.as_str());
        s.append(" ");
        let bs = to_decimal(bb);
        s.append(bs.as_str());
        proof {
            reveal_strlit(" ");
            assert(s@ =~= ppm_color_seq(tv(self.0)));
        }
        s
    }
}

impl Default for Color {
    /// Black, as a plain channel triple.
    fn default() -> (r: Color)
        ensures
            tv(r.0) == (0int, 0int, 0int, 0int),
    {
        Color::new(Scalar::zero(), Scalar::zero(), Scalar::zero())
    }
}

/// Channel equality ignores the fourth component.
pub open spec fn color_approx_v(a: (int, int, int, int), b: (int, int, int, int)) -> bool {
    approx(a.0, b.0) && approx(a.1, b.1) && approx(a.2, b.2)
}

impl PartialEq for Color {
    /// Approximate equality of the three channels; the fourth component is
    /// ignored.
    fn eq(&self, other: &Color) -> (r: bool) {
        self.0.0.approx_eq(other.0.0) && self.0.1.approx_eq(other.0.1) && self.0.2.approx_eq(
            other.0.2,
        )
    }
}

impl vstd::std_specs::cmp::PartialEqSpecImpl for Color {
    open spec fn obeys_eq_spec() -> bool {
        true
    }

    open spec fn eq_spec(&self, other: &Color) -> bool {
        color_approx_v(tv(self.0), tv(other.0))
    }
}

} // verus!
