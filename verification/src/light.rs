//! A single point light: a position and an intensity, with no attenuation.

use vstd::prelude::*;
use crate::tuple::Tuple;
use crate::color::Color;

verus! {

/// A point light.
#[derive(Clone, Copy, Debug)]
pub struct Light {
    pub position: Tuple,
    pub intensity: Color,
}

impl Light {
    pub fn new(position: Tuple, intensity: Color) -> (r: Light)
        ensures
            r.position == position,
            r.intensity == intensity,
    {
        Light { position, intensity }
    }
}

} // verus!
