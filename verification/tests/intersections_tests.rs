use apolaki::Scalar;
use apolaki::objects::{Intersection, Intersections, Sphere};

fn fx(v: f64) -> Scalar {
    Scalar::from_raw((v * 1e9).round() as i64)
}

#[test]
fn an_intersection_encapsulates_t_and_object() {
    let s = Sphere::default();

    let i = Intersection::new(fx(3.5), s.duplicate());

    assert_eq!(i.t, fx(3.5));
    assert_eq!(i.obj, s);
}

#[test]
fn aggregating_intersections() {
    let s = Sphere::default();
    let i1 = Intersection::new(fx(1.0), s.duplicate());
    let i2 = Intersection::new(fx(2.0), s.duplicate());

    let xs = Intersections::from(vec![i1, i2]);

    assert_eq!(xs.len(), 2);
    assert_eq!(xs.get(0).t, fx(1.0));
    assert_eq!(xs.get(1).t, fx(2.0));
}

#[test]
fn the_hit_when_all_intersections_have_positive_t() {
    let s = Sphere::default();
    let i1 = Intersection::new(fx(1.0), s.duplicate());
    let i2 = Intersection::new(fx(2.0), s.duplicate());
    let xs = Intersections::from(vec![i2, i1]);

    let i = xs.hit();

    assert_eq!(i, Some(&Intersection::new(fx(1.0), s.duplicate())));
}

#[test]
fn the_hit_when_some_intersections_have_negative_t() {
    let s = Sphere::default();
    let i1 = Intersection::new(fx(-1.0), s.duplicate());
    let i2 = Intersection::new(fx(1.0), s.duplicate());
    let xs = Intersections::from(vec![i2, i1]);

    let i = xs.hit();

    assert_eq!(i, Some(&Intersection::new(fx(1.0), s.duplicate())));
}

#[test]
fn the_hit_when_all_intersections_have_negative_t() {
    let s = Sphere::default();
    let i1 = Intersection::new(fx(-2.0), s.duplicate());
    let i2 = Intersection::new(fx(-1.0), s.duplicate());
    let xs = Intersections::from(vec![i2, i1]);

    let i = xs.hit();

    assert_eq!(i, None);
}

#[test]
fn the_hit_is_always_the_lowest_nonnegative_intersection() {
    let s = Sphere::default();
    let i1 = Intersection::new(fx(5.0), s.duplicate());
    let i2 = Intersection::new(fx(7.0), s.duplicate());
    let i3 = Intersection::new(fx(-3.0), s.duplicate());
    let i4 = Intersection::new(fx(2.0), s.duplicate());
    let xs = Intersections::from(vec![i1, i2, i3, i4]);

    let i = xs.hit();

    assert_eq!(i, Some(&Intersection::new(fx(2.0), s.duplicate())));
}

#[test]
fn the_hit_picks_the_first_of_equal_positive_distances() {
    let s = Sphere::default();
    let i1 = Intersection::new(fx(3.0), s.duplicate());
    let i2 = Intersection::new(fx(3.0), s.duplicate());
    let xs = Intersections::from(vec![i1, i2]);

    let i = xs.hit().expect("must have a hit");

    assert_eq!(i.t, fx(3.0));
    assert!(std::ptr::eq(i, xs.get(0)));
}

#[test]
fn the_hit_ignores_a_zero_distance() {
    let s = Sphere::default();
    let i1 = Intersection::new(fx(0.0), s.duplicate());
    let i2 = Intersection::new(fx(4.0), s.duplicate());
    let xs = Intersections::from(vec![i1, i2]);

    let i = xs.hit().expect("must have a hit");

    assert_eq!(i.t, fx(4.0));
}

#[test]
fn lib_aggregating_intersections() {
    let s = Sphere::default();
    let i1 = Intersection::new(fx(1.0), s.duplicate());
    let i2 = Intersection::new(fx(2.0), s.duplicate());

    let xs = Intersections::from(vec![i1, i2]);

    assert_eq!(xs.len(), 2);
    assert_eq!(xs.get(0).t, fx(1.0));
    assert_eq!(xs.get(1).t, fx(2.0));
}

#[test]
fn lib_the_hit_when_all_intersections_have_positive_t() {
    let s = Sphere::default();
    let i1 = Intersection::new(fx(1.0), s.duplicate());
    let i2 = Intersection::new(fx(2.0), s.duplicate());
    let xs = Intersections::from(vec![i2, i1]);

    let i = xs.hit();

    assert_eq!(i, Some(&Intersection::new(fx(1.0), s.duplicate())));
}

#[test]
fn lib_the_hit_when_some_intersections_have_negative_t() {
    let s = Sphere::default();
    let i1 = Intersection::new(fx(-1.0), s.duplicate());
    let i2 = Intersection::new(fx(1.0), s.duplicate());
    let xs = Intersections::from(vec![i2, i1]);

    let i = xs.hit();

    assert_eq!(i, Some(&Intersection::new(fx(1.0), s.duplicate())));
}

#[test]
fn lib_the_hit_when_all_intersections_have_negative_t() {
    let s = Sphere::default();
    let i1 = Intersection::new(fx(-2.0), s.duplicate());
    let i2 = Intersection::new(fx(-1.0), s.duplicate());
    let xs = Intersections::from(vec![i2, i1]);

    let i = xs.hit();

    assert_eq!(i, None);
}

#[test]
fn lib_the_hit_is_always_the_lowest_nonnegative_intersection() {
    let s = Sphere::default();
    let i1 = Intersection::new(fx(5.0), s.duplicate());
    let i2 = Intersection::new(fx(7.0), s.duplicate());
    let i3 = Intersection::new(fx(-3.0), s.duplicate());
    let i4 = Intersection::new(fx(2.0), s.duplicate());
    let xs = Intersections::from(vec![i1, i2, i3, i4]);

    let i = xs.hit();

    assert_eq!(i, Some(&Intersection::new(fx(2.0), s.duplicate())));
}

#[test]
fn an_interesection_encapsulates_t_and_object() {
    let s = Sphere::default();

    let i = Intersection::new(fx(3.5), s.duplicate());

    assert_eq!(i.t, fx(3.5));
    assert_eq!(i.obj, s);
}
