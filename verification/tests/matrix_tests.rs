use apolaki::Scalar;
use apolaki::matrix::BaseMatrix;
use apolaki::tuple::{point, vector, Tuple};
use std::f64::consts::PI;

fn fx(v: f64) -> Scalar {
    Scalar::from_raw((v * 1e9).round() as i64)
}

fn mat(n: usize, vals: &[f64]) -> BaseMatrix {
    let mut elems: Vec<Scalar> = Vec::new();
    for v in vals {
        elems.push(fx(*v));
    }
    BaseMatrix::from_elems(n, elems)
}

fn tup(x: f64, y: f64, z: f64, w: f64) -> Tuple {
    Tuple(fx(x), fx(y), fx(z), fx(w))
}

fn pt(x: f64, y: f64, z: f64) -> Tuple {
    point(fx(x), fx(y), fx(z))
}

fn vec3(x: f64, y: f64, z: f64) -> Tuple {
    vector(fx(x), fx(y), fx(z))
}

fn translation(x: f64, y: f64, z: f64) -> BaseMatrix {
    BaseMatrix::identity(4).translate(fx(x), fx(y), fx(z))
}

fn scaling(x: f64, y: f64, z: f64) -> BaseMatrix {
    BaseMatrix::identity(4).scale(fx(x), fx(y), fx(z))
}

fn rotation_x(radians: f64) -> BaseMatrix {
    BaseMatrix::identity(4).rotate_x(fx(radians.cos()), fx(radians.sin()))
}

fn rotation_y(radians: f64) -> BaseMatrix {
    BaseMatrix::identity(4).rotate_y(fx(radians.cos()), fx(radians.sin()))
}

fn rotation_z(radians: f64) -> BaseMatrix {
    BaseMatrix::identity(4).rotate_z(fx(radians.cos()), fx(radians.sin()))
}

#[test]
fn constructing_and_inspecting_4x4() {
    let m = mat(
        4,
        &[
            1.0, 2.0, 3.0, 4.0, 5.5, 6.5, 7.5, 8.5, 9.0, 10.0, 11.0, 12.0, 13.5, 14.5, 15.5, 16.5,
        ],
    );

    assert_eq!(fx(1.0), m.at(0, 0));
    assert_eq!(fx(4.0), m.at(0, 3));
    assert_eq!(fx(5.5), m.at(1, 0));
    assert_eq!(fx(7.5), m.at(1, 2));
    assert_eq!(fx(11.0), m.at(2, 2));
    assert_eq!(fx(13.5), m.at(3, 0));
    assert_eq!(fx(15.5), m.at(3, 2));
}

#[test]
fn a_2x2_matrix_ought_to_be_representable() {
    let m = mat(2, &[-3.0, 5.0, 1.0, -2.0]);

    assert_eq!(fx(-3.0), m.at(0, 0));
    assert_eq!(fx(5.0), m.at(0, 1));
    assert_eq!(fx(1.0), m.at(1, 0));
    assert_eq!(fx(-2.0), m.at(1, 1));
}

#[test]
fn a_3x3_matrix_ought_to_be_representable() {
    let m = mat(3, &[-3.0, 5.0, 0.0, 1.0, -2.0, -7.0, 0.0, 1.0, 1.0]);

    assert_eq!(fx(-3.0), m.at(0, 0));
    assert_eq!(fx(-2.0), m.at(1, 1));
    assert_eq!(fx(1.0), m.at(2, 2));
}

#[test]
fn matrix_eq_with_identical_matrices() {
    let a = mat(
        4,
        &[1.0, 2.0, 3.0, 4.0, 5.0, 6.0, 7.0, 8.0, 9.0, 8.0, 7.0, 6.0, 5.0, 4.0, 3.0, 2.0],
    );

    let b = mat(
        4,
        &[1.0, 2.0, 3.0, 4.0, 5.0, 6.0, 7.0, 8.0, 9.0, 8.0, 7.0, 6.0, 5.0, 4.0, 3.0, 2.0],
    );

    assert_eq!(a, b);
}

#[test]
fn matrix_eq_with_different_matrices() {
    let a = mat(
        4,
        &[1.0, 2.0, 3.0, 4.0, 5.0, 6.0, 7.0, 8.0, 9.0, 8.0, 7.0, 6.0, 5.0, 4.0, 3.0, 2.0],
    );

    let b = mat(
        4,
        &[2.0, 3.0, 4.0, 5.0, 6.0, 7.0, 8.0, 9.0, 8.0, 7.0, 6.0, 5.0, 4.0, 3.0, 2.0, 1.0],
    );

    assert_ne!(a, b);
}

#[test]
fn multiplying() {
    let a = mat(
        4,
        &[1.0, 2.0, 3.0, 4.0, 5.0, 6.0, 7.0, 8.0, 9.0, 8.0, 7.0, 6.0, 5.0, 4.0, 3.0, 2.0],
    );

    let b = mat(
        4,
        &[-2.0, 1.0, 2.0, 3.0, 3.0, 2.0, 1.0, -1.0, 4.0, 3.0, 6.0, 5.0, 1.0, 2.0, 7.0, 8.0],
    );

    let expected = mat(
        4,
        &[
            20.0, 22.0, 50.0, 48.0, 44.0, 54.0, 114.0, 108.0, 40.0, 58.0, 110.0, 102.0, 16.0,
            26.0, 46.0, 42.0,
        ],
    );

    assert_eq!(expected, a.mul(&b));
}

#[test]
fn lib_constructing_and_inspecting_4x4() {
    let m = mat(
        4,
        &[
            1.0, 2.0, 3.0, 4.0, 5.5, 6.5, 7.5, 8.5, 9.0, 10.0, 11.0, 12.0, 13.5, 14.5, 15.5, 16.5,
        ],
    );

    assert_eq!(fx(1.0), m.at(0, 0));
    assert_eq!(fx(4.0), m.at(0, 3));
    assert_eq!(fx(5.5), m.at(1, 0));
    assert_eq!(fx(7.5), m.at(1, 2));
    assert_eq!(fx(11.0), m.at(2, 2));
    assert_eq!(fx(13.5), m.at(3, 0));
    assert_eq!(fx(15.5), m.at(3, 2));
}

#[test]
fn lib_a_2x2_matrix_ought_to_be_representable() {
    let m = mat(2, &[-3.0, 5.0, 1.0, -2.0]);

    assert_eq!(fx(-3.0), m.at(0, 0));
    assert_eq!(fx(5.0), m.at(0, 1));
    assert_eq!(fx(1.0), m.at(1, 0));
    assert_eq!(fx(-2.0), m.at(1, 1));
}

#[test]
fn lib_a_3x3_matrix_ought_to_be_representable() {
    let m = mat(3, &[-3.0, 5.0, 0.0, 1.0, -2.0, -7.0, 0.0, 1.0, 1.0]);

    assert_eq!(fx(-3.0), m.at(0, 0));
    assert_eq!(fx(-2.0), m.at(1, 1));
    assert_eq!(fx(1.0), m.at(2, 2));
}

#[test]
fn lib_matrix_eq_with_identical_matrices() {
    let a = mat(
        4,
        &[1.0, 2.0, 3.0, 4.0, 5.0, 6.0, 7.0, 8.0, 9.0, 8.0, 7.0, 6.0, 5.0, 4.0, 3.0, 2.0],
    );

    let b = mat(
        4,
        &[1.0, 2.0, 3.0, 4.0, 5.0, 6.0, 7.0, 8.0, 9.0, 8.0, 7.0, 6.0, 5.0, 4.0, 3.0, 2.0],
    );

    assert_eq!(a, b);
}

#[test]
fn lib_matrix_eq_with_different_matrices() {
    let a = mat(
        4,
        &[1.0, 2.0, 3.0, 4.0, 5.0, 6.0, 7.0, 8.0, 9.0, 8.0, 7.0, 6.0, 5.0, 4.0, 3.0, 2.0],
    );

    let b = mat(
        4,
        &[2.0, 3.0, 4.0, 5.0, 6.0, 7.0, 8.0, 9.0, 8.0, 7.0, 6.0, 5.0, 4.0, 3.0, 2.0, 1.0],
    );

    assert_ne!(a, b);
}

#[test]
fn lib_multiplying() {
    let a = mat(
        4,
        &[1.0, 2.0, 3.0, 4.0, 5.0, 6.0, 7.0, 8.0, 9.0, 8.0, 7.0, 6.0, 5.0, 4.0, 3.0, 2.0],
    );

    let b = mat(
        4,
        &[-2.0, 1.0, 2.0, 3.0, 3.0, 2.0, 1.0, -1.0, 4.0, 3.0, 6.0, 5.0, 1.0, 2.0, 7.0, 8.0],
    );

    let expected = mat(
        4,
        &[
            20.0, 22.0, 50.0, 48.0, 44.0, 54.0, 114.0, 108.0, 40.0, 58.0, 110.0, 102.0, 16.0,
            26.0, 46.0, 42.0,
        ],
    );

    assert_eq!(expected, a.mul(&b));
}

#[test]
fn multiplying_by_tuple() {
    let a = mat(
        4,
        &[1.0, 2.0, 3.0, 4.0, 2.0, 4.0, 4.0, 2.0, 8.0, 6.0, 4.0, 1.0, 0.0, 0.0, 0.0, 1.0],
    );

    let b = tup(1.0, 2.0, 3.0, 1.0);

    let expected = tup(18.0, 24.0, 33.0, 1.0);

    assert_eq!(expected, a.mul_tuple(b));
}

#[test]
fn multiply_by_identity() {
    let a = mat(
        4,
        &[0.0, 1.0, 2.0, 4.0, 1.0, 2.0, 4.0, 8.0, 2.0, 4.0, 8.0, 16.0, 4.0, 8.0, 16.0, 32.0],
    );

    assert_eq!(a, a.mul(&BaseMatrix::identity(4)));
}

#[test]
fn transpose() {
    let a = mat(
        4,
        &[0.0, 9.0, 3.0, 0.0, 9.0, 8.0, 0.0, 8.0, 1.0, 8.0, 5.0, 3.0, 0.0, 0.0, 5.0, 8.0],
    );

    let expected = mat(
        4,
        &[0.0, 9.0, 1.0, 0.0, 9.0, 8.0, 8.0, 0.0, 3.0, 0.0, 5.0, 5.0, 0.0, 8.0, 3.0, 8.0],
    );

    assert_eq!(expected, a.transpose());
}

#[test]
fn transpose_the_identity() {
    let identity = BaseMatrix::identity(4);

    assert_eq!(identity, identity.transpose());
}

#[test]
fn transpose_twice_restores_the_matrix() {
    let a = mat(
        4,
        &[0.0, 9.0, 3.0, 0.0, 9.0, 8.0, 0.0, 8.0, 1.0, 8.0, 5.0, 3.0, 0.0, 0.0, 5.0, 8.0],
    );

    assert_eq!(a, a.transpose().transpose());
}

#[test]
fn calculating_the_determinant_of_2x2() {
    let a = mat(2, &[1.0, 5.0, -3.0, 2.0]);
    assert_eq!(fx(17.0), a.determinant());
}

#[test]
fn submatrix_of_3x3_is_2x2() {
    let a = mat(3, &[1.0, 5.0, 0.0, -3.0, 2.0, 7.0, 0.0, 6.0, -3.0]);

    let expected = mat(2, &[-3.0, 2.0, 0.0, 6.0]);

    assert_eq!(expected, a.submatrix(0, 2));
}

#[test]
fn submatrix_of_4x4_is_3x3() {
    let a = mat(
        4,
        &[-6.0, 1.0, 1.0, 6.0, -8.0, 5.0, 8.0, 6.0, -1.0, 0.0, 8.0, 2.0, -7.0, 1.0, -1.0, 1.0],
    );

    let expected = mat(3, &[-6.0, 1.0, 6.0, -8.0, 8.0, 6.0, -7.0, -1.0, 1.0]);

    assert_eq!(expected, a.submatrix(2, 1));
}

#[test]
fn calculating_minor_of_3x3() {
    let a = mat(3, &[3.0, 5.0, 0.0, 2.0, -1.0, -7.0, 6.0, -1.0, 5.0]);

    let b = a.submatrix(1, 0);
    assert_eq!(b.determinant(), fx(25.0));
    assert_eq!(a.minor(1, 0), fx(25.0));
}

#[test]
fn calculating_cofactor_of_3x3() {
    let a = mat(3, &[3.0, 5.0, 0.0, 2.0, -1.0, -7.0, 6.0, -1.0, 5.0]);

    assert_eq!(fx(-12.0), a.minor(0, 0));
    assert_eq!(fx(-12.0), a.cofactor(0, 0));
    assert_eq!(fx(25.0), a.minor(1, 0));
    assert_eq!(fx(-25.0), a.cofactor(1, 0));
}

#[test]
fn calculating_determinant_of_3x3() {
    let a = mat(3, &[1.0, 2.0, 6.0, -5.0, 8.0, -4.0, 2.0, 6.0, 4.0]);

    assert_eq!(fx(56.0), a.cofactor(0, 0));
    assert_eq!(fx(12.0), a.cofactor(0, 1));
    assert_eq!(fx(-46.0), a.cofactor(0, 2));
    assert_eq!(fx(-196.0), a.determinant());
}

#[test]
fn testing_an_invertible_matrix_for_invertibility() {
    let a = mat(
        4,
        &[6.0, 4.0, 4.0, 4.0, 5.0, 5.0, 7.0, 6.0, 4.0, -9.0, 3.0, -7.0, 9.0, 1.0, 7.0, -6.0],
    );

    assert!(a.invertible());
}

#[test]
fn testing_an_noninvertible_matrix_for_invertibility() {
    let a = mat(
        4,
        &[-4.0, 4.0, -2.0, -3.0, 9.0, 6.0, 2.0, 6.0, 0.0, -5.0, 1.0, -5.0, 0.0, 0.0, 0.0, 0.0],
    );

    assert!(!a.invertible());
}

#[test]
fn inverting_a_singular_matrix_returns_none() {
    let a = mat(
        4,
        &[-4.0, 4.0, -2.0, -3.0, 9.0, 6.0, 2.0, 6.0, 0.0, -5.0, 1.0, -5.0, 0.0, 0.0, 0.0, 0.0],
    );

    assert!(a.invert().is_none());
}

#[test]
fn calculating_inverse_of_matrix() {
    let a = mat(
        4,
        &[-5.0, 2.0, 6.0, -8.0, 1.0, -5.0, 1.0, 8.0, 7.0, 7.0, -6.0, -7.0, 1.0, -3.0, 7.0, 4.0],
    );

    let b = a.invert().unwrap();
    let expected = mat(
        4,
        &[
            0.21805, 0.45113, 0.24060, -0.04511, -0.80827, -1.45677, -0.44361, 0.52068, -0.07895,
            -0.22368, -0.05263, 0.19737, -0.52256, -0.81391, -0.30075, 0.30639,
        ],
    );

    assert_eq!(a.determinant(), fx(532.0));
    assert_eq!(a.cofactor(2, 3), fx(-160.0));
    assert!(b.at(3, 2).approx_eq(fx(-160.0 / 532.0)));
    assert_eq!(a.cofactor(3, 2), fx(105.0));
    assert!(b.at(2, 3).approx_eq(fx(105.0 / 532.0)));

    assert_eq!(b, expected);
}

#[test]
fn calculating_inverse_of_another_matrix() {
    let a = mat(
        4,
        &[8.0, -5.0, 9.0, 2.0, 7.0, 5.0, 6.0, 1.0, -6.0, 0.0, 9.0, 6.0, -3.0, 0.0, -9.0, -4.0],
    );

    let expected = mat(
        4,
        &[
            -0.15385, -0.15385, -0.28205, -0.53846, -0.07692, 0.12308, 0.02564, 0.03077, 0.35897,
            0.35897, 0.43590, 0.92308, -0.69231, -0.69231, -0.76923, -1.92308,
        ],
    );

    assert_eq!(a.invert().unwrap(), expected);
}

#[test]
fn calculating_inverse_of_another_another_matrix() {
    let a = mat(
        4,
        &[9.0, 3.0, 0.0, 9.0, -5.0, -2.0, -6.0, -3.0, -4.0, 9.0, 6.0, 4.0, -7.0, 6.0, 6.0, 2.0],
    );

    let expected = mat(
        4,
        &[
            -0.04074, -0.07778, 0.14444, -0.22222, -0.07778, 0.03333, 0.36667, -0.33333,
            -0.02901, -0.14630, -0.10926, 0.12963, 0.17778, 0.06667, -0.26667, 0.33333,
        ],
    );

    assert_eq!(a.invert().unwrap(), expected);
}

#[test]
fn multiplying_a_product_by_its_inverse() {
    let a = mat(
        4,
        &[3.0, -9.0, 7.0, 3.0, 3.0, -8.0, 2.0, -9.0, -4.0, 4.0, 4.0, 1.0, -6.0, 5.0, -1.0, 1.0],
    );

    let b = mat(
        4,
        &[8.0, 2.0, 2.0, 2.0, 3.0, -1.0, 7.0, 0.0, 7.0, 0.0, 5.0, 4.0, 6.0, -2.0, 0.0, 5.0],
    );

    let c = a.mul(&b);

    assert_eq!(c.mul(&b.invert().unwrap()), a);
}

#[test]
fn multiplying_a_matrix_by_its_inverse_gives_identity() {
    let a = mat(
        4,
        &[-5.0, 2.0, 6.0, -8.0, 1.0, -5.0, 1.0, 8.0, 7.0, 7.0, -6.0, -7.0, 1.0, -3.0, 7.0, 4.0],
    );

    let b = a.invert().unwrap();

    assert_eq!(BaseMatrix::identity(4), a.mul(&b));
}

#[test]
fn inverting_twice_restores_the_matrix() {
    let a = translation(5.0, -3.0, 2.0).mul(&scaling(2.0, 2.0, 2.0));

    let back = a.invert().unwrap().invert().unwrap();

    assert_eq!(a, back);
}

#[test]
fn multiplying_by_a_translation_matrix() {
    let transform = translation(5.0, -3.0, 2.0);
    let p = pt(-3.0, 4.0, 5.0);

    assert_eq!(pt(2.0, 1.0, 7.0), transform.mul_tuple(p));
}

#[test]
fn multiplying_by_the_inverse_of_translation_matrix() {
    let transform = translation(5.0, -3.0, 2.0);
    let inv = transform.invert().unwrap();
    let p = pt(-3.0, 4.0, 5.0);

    assert_eq!(pt(-8.0, 7.0, 3.0), inv.mul_tuple(p));
}

#[test]
fn translation_does_not_vectors() {
    let transform = translation(5.0, -3.0, 2.0);

    let v = vec3(-3.0, 4.0, 5.0);
    assert_eq!(v, transform.mul_tuple(v));
}

#[test]
fn inverse_translation_round_trips_a_point() {
    let transform = translation(5.0, -3.0, 2.0);
    let inv = transform.invert().unwrap();
    let p = pt(-3.0, 4.0, 5.0);

    assert_eq!(p, inv.mul_tuple(transform.mul_tuple(p)));
}

#[test]
fn scaling_matrix_to_a_point() {
    let transform = scaling(2.0, 3.0, 4.0);

    let p = pt(-4.0, 6.0, 8.0);
    assert_eq!(pt(-8.0, 18.0, 32.0), transform.mul_tuple(p));
}

#[test]
fn scaling_matrivector() {
    let transform = scaling(2.0, 3.0, 4.0);

    let v = vec3(-4.0, 6.0, 8.0);
    assert_eq!(vec3(-8.0, 18.0, 32.0), transform.mul_tuple(v));
}

#[test]
fn multiplying_by_inverse_of_scaling_matrix() {
    let transform = scaling(2.0, 3.0, 4.0);

    let inv = transform.invert().unwrap();
    let v = vec3(-4.0, 6.0, 8.0);

    assert_eq!(vec3(-2.0, 2.0, 2.0), inv.mul_tuple(v));
}

#[test]
fn reflection_is_scaling_by_negative_value() {
    let transform = scaling(-1.0, 1.0, 1.0);

    let p = vec3(2.0, 3.0, 4.0);

    assert_eq!(vec3(-2.0, 3.0, 4.0), transform.mul_tuple(p));
}

#[test]
fn rotate_a_point_around_x() {
    let p = pt(0.0, 1.0, 0.0);

    let half_quarter = rotation_x(PI / 4.0);

    let full_quarter = rotation_x(PI / 2.0);

    assert_eq!(
        pt(0.0, 2_f64.sqrt() / 2.0, 2_f64.sqrt() / 2.0),
        half_quarter.mul_tuple(p)
    );
    assert_eq!(pt(0.0, 0.0, 1.0), full_quarter.mul_tuple(p));
}

#[test]
fn inverse_of_x_rotatation_rotates_in_opposite_dir() {
    let p = pt(0.0, 1.0, 0.0);

    let half_quarter = rotation_x(PI / 4.0);
    let inv = half_quarter.invert().unwrap();
    assert_eq!(
        pt(0.0, 2_f64.sqrt() / 2.0, -(2_f64.sqrt()) / 2.0),
        inv.mul_tuple(p)
    );
}

#[test]
fn rotate_a_point_around_y() {
    let p = pt(0.0, 0.0, 1.0);

    let half_quarter = rotation_y(PI / 4.0);

    let full_quarter = rotation_y(PI / 2.0);

    assert_eq!(
        pt(2_f64.sqrt() / 2.0, 0.0, 2_f64.sqrt() / 2.0),
        half_quarter.mul_tuple(p)
    );
    assert_eq!(pt(1.0, 0.0, 0.0), full_quarter.mul_tuple(p));
}

#[test]
fn rotate_a_point_around_z() {
    let p = pt(0.0, 1.0, 0.0);

    let half_quarter = rotation_z(PI / 4.0);

    let full_quarter = rotation_z(PI / 2.0);

    assert_eq!(
        pt(-(2_f64.sqrt()) / 2.0, 2_f64.sqrt() / 2.0, 0.0),
        half_quarter.mul_tuple(p)
    );
    assert_eq!(pt(-1.0, 0.0, 0.0), full_quarter.mul_tuple(p));
}

#[test]
fn shearing_transform_moves_x_in_proportion_to_y() {
    let transform = BaseMatrix::identity(4).shear(
        fx(1.0),
        fx(0.0),
        fx(0.0),
        fx(0.0),
        fx(0.0),
        fx(0.0),
    );

    let p = pt(2.0, 3.0, 4.0);
    assert_eq!(pt(5.0, 3.0, 4.0), transform.mul_tuple(p));
}

#[test]
fn shearing_transform_moves_x_in_proportion_to_z() {
    let transform = BaseMatrix::identity(4).shear(
        fx(0.0),
        fx(1.0),
        fx(0.0),
        fx(0.0),
        fx(0.0),
        fx(0.0),
    );

    let p = pt(2.0, 3.0, 4.0);
    assert_eq!(pt(6.0, 3.0, 4.0), transform.mul_tuple(p));
}

#[test]
fn shearing_transform_moves_y_in_proportion_to_x() {
    let transform = BaseMatrix::identity(4).shear(
        fx(0.0),
        fx(0.0),
        fx(1.0),
        fx(0.0),
        fx(0.0),
        fx(0.0),
    );

    let p = pt(2.0, 3.0, 4.0);
    assert_eq!(pt(2.0, 5.0, 4.0), transform.mul_tuple(p));
}

#[test]
fn shearing_transform_moves_y_in_proportion_to_z() {
    let transform = BaseMatrix::identity(4).shear(
        fx(0.0),
        fx(0.0),
        fx(0.0),
        fx(1.0),
        fx(0.0),
        fx(0.0),
    );

    let p = pt(2.0, 3.0, 4.0);
    assert_eq!(pt(2.0, 7.0, 4.0), transform.mul_tuple(p));
}

#[test]
fn shearing_transform_moves_z_in_proportion_to_x() {
    let transform = BaseMatrix::identity(4).shear(
        fx(0.0),
        fx(0.0),
        fx(0.0),
        fx(0.0),
        fx(1.0),
        fx(0.0),
    );

    let p = pt(2.0, 3.0, 4.0);
    assert_eq!(pt(2.0, 3.0, 6.0), transform.mul_tuple(p));
}

#[test]
fn shearing_transform_moves_z_in_proportion_to_y() {
    let transform = BaseMatrix::identity(4).shear(
        fx(0.0),
        fx(0.0),
        fx(0.0),
        fx(0.0),
        fx(0.0),
        fx(1.0),
    );

    let p = pt(2.0, 3.0, 4.0);
    assert_eq!(pt(2.0, 3.0, 7.0), transform.mul_tuple(p));
}

#[test]
fn individual_transformation_are_applied_in_sequence() {
    let p = pt(1.0, 0.0, 1.0);
    let a = rotation_x(PI / 2.0);
    let b = scaling(5.0, 5.0, 5.0);
    let c = translation(10.0, 5.0, 7.0);

    let p2 = a.mul_tuple(p);

    assert_eq!(pt(1.0, -1.0, 0.0), p2);

    let p3 = b.mul_tuple(p2);

    assert_eq!(pt(5.0, -5.0, 0.0), p3);

    let p4 = c.mul_tuple(p3);

    assert_eq!(pt(15.0, 0.0, 7.0), p4);
}

#[test]
fn chained_transform_must_be_applied_in_reverse() {
    let p = pt(1.0, 0.0, 1.0);
    let a = rotation_x(PI / 2.0);
    let b = scaling(5.0, 5.0, 5.0);
    let c = translation(10.0, 5.0, 7.0);

    let t = c.mul(&b).mul(&a);
    assert_eq!(pt(15.0, 0.0, 7.0), t.mul_tuple(p));
}

#[test]
fn lib_multiplying_by_tuple() {
    let a = mat(
        4,
        &[1.0, 2.0, 3.0, 4.0, 2.0, 4.0, 4.0, 2.0, 8.0, 6.0, 4.0, 1.0, 0.0, 0.0, 0.0, 1.0],
    );

    let b = tup(1.0, 2.0, 3.0, 1.0);

    let expected = tup(18.0, 24.0, 33.0, 1.0);

    assert_eq!(expected, a.mul_tuple(b));
}

#[test]
fn lib_multiply_by_identity() {
    let a = mat(
        4,
        &[0.0, 1.0, 2.0, 4.0, 1.0, 2.0, 4.0, 8.0, 2.0, 4.0, 8.0, 16.0, 4.0, 8.0, 16.0, 32.0],
    );

    assert_eq!(a, a.mul(&BaseMatrix::identity(4)));
}

#[test]
fn lib_transpose() {
    let a = mat(
        4,
        &[0.0, 9.0, 3.0, 0.0, 9.0, 8.0, 0.0, 8.0, 1.0, 8.0, 5.0, 3.0, 0.0, 0.0, 5.0, 8.0],
    );

    let expected = mat(
        4,
        &[0.0, 9.0, 1.0, 0.0, 9.0, 8.0, 8.0, 0.0, 3.0, 0.0, 5.0, 5.0, 0.0, 8.0, 3.0, 8.0],
    );

    assert_eq!(expected, a.transpose());
}

#[test]
fn lib_transpose_the_identity() {
    let identity = BaseMatrix::identity(4);

    assert_eq!(identity, identity.transpose());
}

#[test]
fn lib_calculating_the_determinant_of_2x2() {
    let a = mat(2, &[1.0, 5.0, -3.0, 2.0]);
    assert_eq!(fx(17.0), a.determinant());
}

#[test]
fn lib_submatrix_of_3x3_is_2x2() {
    let a = mat(3, &[1.0, 5.0, 0.0, -3.0, 2.0, 7.0, 0.0, 6.0, -3.0]);

    let expected = mat(2, &[-3.0, 2.0, 0.0, 6.0]);

    assert_eq!(expected, a.submatrix(0, 2));
}

#[test]
fn lib_submatrix_of_4x4_is_3x3() {
    let a = mat(
        4,
        &[-6.0, 1.0, 1.0, 6.0, -8.0, 5.0, 8.0, 6.0, -1.0, 0.0, 8.0, 2.0, -7.0, 1.0, -1.0, 1.0],
    );

    let expected = mat(3, &[-6.0, 1.0, 6.0, -8.0, 8.0, 6.0, -7.0, -1.0, 1.0]);

    assert_eq!(expected, a.submatrix(2, 1));
}

#[test]
fn lib_calculating_minor_of_3x3() {
    let a = mat(3, &[3.0, 5.0, 0.0, 2.0, -1.0, -7.0, 6.0, -1.0, 5.0]);

    let b = a.submatrix(1, 0);
    assert_eq!(b.determinant(), fx(25.0));
    assert_eq!(a.minor(1, 0), fx(25.0));
}

#[test]
fn lib_calculating_cofactor_of_3x3() {
    let a = mat(3, &[3.0, 5.0, 0.0, 2.0, -1.0, -7.0, 6.0, -1.0, 5.0]);

    assert_eq!(fx(-12.0), a.minor(0, 0));
    assert_eq!(fx(-12.0), a.cofactor(0, 0));
    assert_eq!(fx(25.0), a.minor(1, 0));
    assert_eq!(fx(-25.0), a.cofactor(1, 0));
}

#[test]
fn lib_calculating_determinant_of_3x3() {
    let a = mat(3, &[1.0, 2.0, 6.0, -5.0, 8.0, -4.0, 2.0, 6.0, 4.0]);

    assert_eq!(fx(56.0), a.cofactor(0, 0));
    assert_eq!(fx(12.0), a.cofactor(0, 1));
    assert_eq!(fx(-46.0), a.cofactor(0, 2));
    assert_eq!(fx(-196.0), a.determinant());
}

#[test]
fn lib_testing_an_invertible_matrix_for_invertibility() {
    let a = mat(
        4,
        &[6.0, 4.0, 4.0, 4.0, 5.0, 5.0, 7.0, 6.0, 4.0, -9.0, 3.0, -7.0, 9.0, 1.0, 7.0, -6.0],
    );

    assert!(a.invertible());
}

#[test]
fn lib_testing_an_noninvertible_matrix_for_invertibility() {
    let a = mat(
        4,
        &[-4.0, 4.0, -2.0, -3.0, 9.0, 6.0, 2.0, 6.0, 0.0, -5.0, 1.0, -5.0, 0.0, 0.0, 0.0, 0.0],
    );

    assert!(!a.invertible());
}

#[test]
fn lib_calculating_inverse_of_matrix() {
    let a = mat(
        4,
        &[-5.0, 2.0, 6.0, -8.0, 1.0, -5.0, 1.0, 8.0, 7.0, 7.0, -6.0, -7.0, 1.0, -3.0, 7.0, 4.0],
    );

    let b = a.invert().unwrap();
    let expected = mat(
        4,
        &[
            0.21805, 0.45113, 0.24060, -0.04511, -0.80827, -1.45677, -0.44361, 0.52068, -0.07895,
            -0.22368, -0.05263, 0.19737, -0.52256, -0.81391, -0.30075, 0.30639,
        ],
    );

    assert_eq!(a.determinant(), fx(532.0));
    assert_eq!(a.cofactor(2, 3), fx(-160.0));
    assert!(b.at(3, 2).approx_eq(fx(-160.0 / 532.0)));
    assert_eq!(a.cofactor(3, 2), fx(105.0));
    assert!(b.at(2, 3).approx_eq(fx(105.0 / 532.0)));

    assert_eq!(b, expected);
}

#[test]
fn lib_calculating_inverse_of_another_matrix() {
    let a = mat(
        4,
        &[8.0, -5.0, 9.0, 2.0, 7.0, 5.0, 6.0, 1.0, -6.0, 0.0, 9.0, 6.0, -3.0, 0.0, -9.0, -4.0],
    );

    let expected = mat(
        4,
        &[
            -0.15385, -0.15385, -0.28205, -0.53846, -0.07692, 0.12308, 0.02564, 0.03077, 0.35897,
            0.35897, 0.43590, 0.92308, -0.69231, -0.69231, -0.76923, -1.92308,
        ],
    );

    assert_eq!(a.invert().unwrap(), expected);
}

#[test]
fn lib_calculating_inverse_of_another_another_matrix() {
    let a = mat(
        4,
        &[9.0, 3.0, 0.0, 9.0, -5.0, -2.0, -6.0, -3.0, -4.0, 9.0, 6.0, 4.0, -7.0, 6.0, 6.0, 2.0],
    );

    let expected = mat(
        4,
        &[
            -0.04074, -0.07778, 0.14444, -0.22222, -0.07778, 0.03333, 0.36667, -0.33333,
            -0.02901, -0.14630, -0.10926, 0.12963, 0.17778, 0.06667, -0.26667, 0.33333,
        ],
    );

    assert_eq!(a.invert().unwrap(), expected);
}

#[test]
fn lib_multiplying_a_product_by_its_inverse() {
    let a = mat(
        4,
        &[3.0, -9.0, 7.0, 3.0, 3.0, -8.0, 2.0, -9.0, -4.0, 4.0, 4.0, 1.0, -6.0, 5.0, -1.0, 1.0],
    );

    let b = mat(
        4,
        &[8.0, 2.0, 2.0, 2.0, 3.0, -1.0, 7.0, 0.0, 7.0, 0.0, 5.0, 4.0, 6.0, -2.0, 0.0, 5.0],
    );

    let c = a.mul(&b);

    assert_eq!(c.mul(&b.invert().unwrap()), a);
}

#[test]
fn lib_multiplying_by_a_translation_matrix() {
    let transform = translation(5.0, -3.0, 2.0);
    let p = pt(-3.0, 4.0, 5.0);

    assert_eq!(pt(2.0, 1.0, 7.0), transform.mul_tuple(p));
}
