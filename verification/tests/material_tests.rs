use apolaki::Scalar;
use apolaki::color::Color;
use apolaki::light::Light;
use apolaki::material::Material;
use apolaki::tuple::{point, vector, Tuple};

fn fx(v: f64) -> Scalar {
    Scalar::from_raw((v * 1e9).round() as i64)
}

fn pt(x: f64, y: f64, z: f64) -> Tuple {
    point(fx(x), fx(y), fx(z))
}

fn vec3(x: f64, y: f64, z: f64) -> Tuple {
    vector(fx(x), fx(y), fx(z))
}

fn col(r: f64, g: f64, b: f64) -> Color {
    Color::new(fx(r), fx(g), fx(b))
}

fn test_material() -> Material {
    Material::default()
}

fn test_position() -> Tuple {
    pt(0.0, 0.0, 0.0)
}

#[test]
fn default_material() {
    let m = Material::default();

    assert_eq!(col(1.0, 1.0, 1.0), m.color);
    assert_eq!(fx(0.1), m.ambient);
    assert_eq!(fx(0.9), m.diffuse);
    assert_eq!(fx(0.9), m.specular);
    assert_eq!(200, m.shininess);
}

#[test]
fn lighting_with_eye_between_light_and_surface() {
    let eyev = vec3(0.0, 0.0, -1.0);
    let normalv = vec3(0.0, 0.0, -1.0);
    let light = Light::new(pt(0.0, 0.0, -10.0), col(1.0, 1.0, 1.0));

    let result = test_material().lighting(&light, test_position(), eyev, normalv);

    assert_eq!(col(1.9, 1.9, 1.9), result)
}

#[test]
fn lighting_with_eye_between_light_and_surface_eye_offset_45_degrees() {
    let sqrt2 = 2_f64.sqrt();
    let eyev = vec3(0.0, sqrt2 / 2.0, -sqrt2 / 2.0);
    let normalv = vec3(0.0, 0.0, -1.0);
    let light = Light::new(pt(0.0, 0.0, -10.0), col(1.0, 1.0, 1.0));

    let result = test_material().lighting(&light, test_position(), eyev, normalv);

    assert_eq!(col(1.0, 1.0, 1.0), result)
}

#[test]
fn lighting_with_eye_between_light_and_surface_light_offset_45_degrees() {
    let eyev = vec3(0.0, 0.0, -1.0);
    let normalv = vec3(0.0, 0.0, -1.0);
    let light = Light::new(pt(0.0, 10.0, -10.0), col(1.0, 1.0, 1.0));

    let result = test_material().lighting(&light, test_position(), eyev, normalv);

    assert_eq!(col(0.7364, 0.7364, 0.7364), result)
}

#[test]
fn lighting_with_eye_in_the_path_of_the_reflection_vector() {
    let sqrt2 = 2_f64.sqrt();
    let eyev = vec3(0.0, -sqrt2 / 2.0, -sqrt2 / 2.0);
    let normalv = vec3(0.0, 0.0, -1.0);
    let light = Light::new(pt(0.0, 10.0, -10.0), col(1.0, 1.0, 1.0));

    let result = test_material().lighting(&light, test_position(), eyev, normalv);

    assert_eq!(col(1.6364, 1.6364, 1.6364), result)
}

#[test]
fn lighting_with_the_light_behind_the_surface() {
    let eyev = vec3(0.0, 0.0, -1.0);
    let normalv = vec3(0.0, 0.0, -1.0);
    let light = Light::new(pt(0.0, 0.0, 10.0), col(1.0, 1.0, 1.0));

    let result = test_material().lighting(&light, test_position(), eyev, normalv);

    assert_eq!(col(0.1, 0.1, 0.1), result)
}
