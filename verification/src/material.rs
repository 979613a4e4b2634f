//! Surface materials and the Phong lighting evaluation.

use vstd::prelude::*;
use crate::scalar::Scalar;
use crate::scalar::{fx_pow, in_range, SCALE};
use crate::color::Color;
use crate::light::Light;
use crate::tuple::Tuple;
use crate::tuple::{tv, add_v, sub_v, neg_v, scale_v, had_v, dot_v, normalize_v, reflect_v,
    add_ok_v, sub_ok_v, neg_ok_v, scale_ok_v, had_ok_v, dot_ok_v, normalize_ok_v, reflect_ok_v};

verus! {

/// A surface material: a color, the three Phong coefficients, and the
/// specular exponent.
#[derive(Clone, Copy, Debug)]
pub struct Material {
    pub color: Color,
    pub ambient: Scalar,
    pub diffuse: Scalar,
    pub specular: Scalar,
    pub shininess: u32,
}

/// The surface color modulated by the light's intensity.
pub open spec fn effective_color_v(m: Material, light: Light) -> (int, int, int, int) {
    had_v(tv(m.color.0), tv(light.intensity.0))
}

/// The unit direction from the surface point toward the light.
pub open spec fn light_vector_v(light: Light, p: (int, int, int, int)) -> (int, int, int, int) {
    normalize_v(sub_v(tv(light.position), p))
}

/// The ambient contribution.
pub open spec fn ambient_term_v(m: Material, light: Light) -> (int, int, int, int) {
    scale_v(effective_color_v(m, light), m.ambient@)
}

/// The cosine between the light direction and the surface normal.
pub open spec fn light_dot_normal_v(
    light: Light,
    p: (int, int, int, int),
    normal: (int, int, int, int),
) -> int {
    dot_v(light_vector_v(light, p), normal)
}

/// The specular cosine: the reflected light direction dotted with the eye
/// direction.
pub open spec fn reflect_dot_eye_v(
    light: Light,
    p: (int, int, int, int),
    eye: (int, int, int, int),
    normal: (int, int, int, int),
) -> int {
    dot_v(neg_v(reflect_v(light_vector_v(light, p), normal)), eye)
}

/// The specular cosine capped at one, so that its power stays in the unit
/// interval.
pub open spec fn spec_base_v(rde: int) -> int {
    if rde > SCALE as int {
        SCALE as int
    } else {
        rde
    }
}

/// The full Phong evaluation, mirrored step for step.
pub open spec fn lighting_v(
    m: Material,
    light: Light,
    p: (int, int, int, int),
    eye: (int, int, int, int),
    normal: (int, int, int, int),
) -> (int, int, int, int) {
    let amb = ambient_term_v(m, light);
    let ldn = light_dot_normal_v(light, p, normal);
    if ldn < 0 {
        add_v(amb, scale_v((0int, 0int, 0int, SCALE as int), 2 * SCALE as int))
    } else {
        let dif = scale_v(scale_v(effective_color_v(m, light), m.diffuse@), ldn);
        let rde = reflect_dot_eye_v(light, p, eye, normal);
        let spec = if rde <= 0 {
            (0int, 0int, 0int, SCALE as int)
        } else {
            scale_v(
                scale_v(tv(light.intensity.0), m.specular@),
                fx_pow(spec_base_v(rde), m.shininess as nat),
            )
        };
        add_v(add_v(amb, dif), spec)
    }
}

/// Every intermediate of the Phong evaluation fits the machine
/// representation.
pub open spec fn lighting_ok(
    m: Material,
    light: Light,
    p: (int, int, int, int),
    eye: (int, int, int, int),
    normal: (int, int, int, int),
) -> bool {
    let eff = effective_color_v(m, light);
    let lv = light_vector_v(light, p);
    let amb = ambient_term_v(m, light);
    let ldn = light_dot_normal_v(light, p, normal);
    &&& had_ok_v(tv(m.color.0), tv(light.intensity.0))
    &&& sub_ok_v(tv(light.position), p)
    &&& normalize_ok_v(sub_v(tv(light.position), p))
    &&& scale_ok_v(eff, m.ambient@)
    &&& dot_ok_v(lv, normal)
    &&& if ldn < 0 {
        &&& scale_ok_v((0int, 0int, 0int, SCALE as int), 2 * SCALE as int)
        &&& add_ok_v(amb, scale_v((0int, 0int, 0int, SCALE as int), 2 * SCALE as int))
    } else {
        let dif = scale_v(scale_v(eff, m.diffuse@), ldn);
        let rde = reflect_dot_eye_v(light, p, eye, normal);
        let spec = if rde <= 0 {
            (0int, 0int, 0int, SCALE as int)
        } else {
            scale_v(
                scale_v(tv(light.intensity.0), m.specular@),
                fx_pow(spec_base_v(rde), m.shininess as nat),
            )
        };
        &&& scale_ok_v(eff, m.diffuse@)
        &&& scale_ok_v(scale_v(eff, m.diffuse@), ldn)
        &&& reflect_ok_v(lv, normal)
        &&& neg_ok_v(reflect_v(lv, normal))
        &&& dot_ok_v(neg_v(reflect_v(lv, normal)), eye)
        &&& (rde > 0 ==> {
            &&& scale_ok_v(tv(light.intensity.0), m.specular@)
            &&& scale_ok_v(
                scale_v(tv(light.intensity.0), m.specular@),
                fx_pow(spec_base_v(rde), m.shininess as nat),
            )
        })
        &&& add_ok_v(amb, dif)
        &&& add_ok_v(add_v(amb, dif), spec)
    }
}

/// The canonical material values: white, ambient one tenth, diffuse and
/// specular nine tenths, shininess two hundred.
pub open spec fn is_default_material(m: Material) -> bool {
    &&& tv(m.color.0) == (SCALE as int, SCALE as int, SCALE as int, 0int)
    &&& m.ambient@ == SCALE as int / 10
    &&& m.diffuse@ == 9 * (SCALE as int) / 10
    &&& m.specular@ == 9 * (SCALE as int) / 10
    &&& m.shininess == 200u32
}

impl Material {
    /// The Phong evaluation of this material under one light, at a surface
    /// point, with the given eye and normal directions.  With the light on
    /// the far side of the surface only the ambient term remains; the
    /// specular cosine is capped at one before the power is taken.
    pub fn lighting(&self, light: &Light, point: Tuple, eye_vector: Tuple, normal_vector: Tuple)
        -> (res: Color)
        requires
            lighting_ok(*self, *light, tv(point), tv(eye_vector), tv(normal_vector)),
        ensures
            tv(res.0) == lighting_v(*self, *light, tv(point), tv(eye_vector), tv(normal_vector)),
    {
        let effective_color = self.color.mul(light.intensity);
        let light_vector = (light.position.sub(point)).normalize();
        let ambient = effective_color.mul_scalar(self.ambient);
        let light_dot_normal = light_vector.dot(normal_vector);
        if light_dot_normal.raw() < 0 {
            let two = Scalar::from_int(2);
            ambient.add(Color::black().mul_scalar(two))
        } else {
            let diffuse = effective_color.mul_scalar(self.diffuse).mul_scalar(light_dot_normal);
            let reflect_vector = light_vector.reflect(normal_vector).neg();
            let reflect_dot_eye = reflect_vector.dot(eye_vector);
            let specular = if reflect_dot_eye.raw() <= 0 {
                Color::black()
            } else {
                let base = if reflect_dot_eye.raw() > SCALE {
                    Scalar::one()
                } else {
                    reflect_dot_eye
                };
                let factor = base.powi(self.shininess);
                light.intensity.mul_scalar(self.specular).mul_scalar(factor)
            };
            ambient.add(diffuse).add(specular)
        }
    }
}

/// With the light behind the surface, the lighting is exactly the ambient
/// term in every color channel.
pub proof fn lemma_lighting_light_behind(
    m: Material,
    light: Light,
    p: (int, int, int, int),
    eye: (int, int, int, int),
    normal: (int, int, int, int),
)
    requires
        light_dot_normal_v(light, p, normal) < 0,
    ensures
        lighting_v(m, light, p, eye, normal).0 == ambient_term_v(m, light).0,
        lighting_v(m, light, p, eye, normal).1 == ambient_term_v(m, light).1,
        lighting_v(m, light, p, eye, normal).2 == ambient_term_v(m, light).2,
{
    crate::scalar::lemma_fx_mul_zero(2 * SCALE as int);
}

impl Default for Material {
    /// The canonical material: white, ambient one tenth, diffuse and
    /// specular nine tenths, shininess two hundred.
    fn default() -> (r: Material)
        ensures
            is_default_material(r),
    {
        Material {
            color: Color::new(Scalar::one(), Scalar::one(), Scalar::one()),
            ambient: Scalar::from_raw(100_000_000),
            diffuse: Scalar::from_raw(900_000_000),
            specular: Scalar::from_raw(900_000_000),
            shininess: 200,
        }
    }
}

impl PartialEq for Material {
    /// Componentwise equality: the color approximately, the coefficients
    /// and exponent exactly.
    fn eq(&self, other: &Material) -> (r: bool) {
        self.color == other.color && self.ambient.raw() == other.ambient.raw()
            && self.diffuse.raw() == other.diffuse.raw() && self.specular.raw()
            == other.specular.raw() && self.shininess == other.shininess
    }
}

impl vstd::std_specs::cmp::PartialEqSpecImpl for Material {
    open spec fn obeys_eq_spec() -> bool {
        true
    }

    open spec fn eq_spec(&self, other: &Material) -> bool {
        &&& crate::color::color_approx_v(tv(self.color.0), tv(other.color.0))
        &&& self.ambient@ == other.ambient@
        &&& self.diffuse@ == other.diffuse@
        &&& self.specular@ == other.specular@
        &&& self.shininess == other.shininess
    }
}

} // verus!
