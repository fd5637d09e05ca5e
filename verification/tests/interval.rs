use raytracer::interval::Interval;
use raytracer::ray::Ray;
use raytracer::scalar::Scalar;
use raytracer::vec3::Vec3;

fn s(x: f64) -> Scalar {
    Scalar::from_bits(x.to_bits())
}

fn range(min: f64, max: f64) -> Interval {
    Interval::new(s(min), s(max))
}

fn numbers() -> Vec<f64> {
    vec![
        f64::NEG_INFINITY,
        -7.0,
        -0.0,
        0.0,
        0.001,
        0.5,
        0.999,
        1.0,
        3.0,
        1.0e9,
        f64::INFINITY,
        f64::NAN,
    ]
}

#[test]
fn interval_new_keeps_its_ends() {
    let r = range(0.001, f64::INFINITY);
    assert_eq!(r.min, s(0.001));
    assert_eq!(r.max, s(f64::INFINITY));
}

#[test]
fn surrounds_excludes_both_ends() {
    for min in numbers() {
        for max in numbers() {
            let r = range(min, max);
            assert!(!r.surrounds(s(min)), "{min:?} {max:?}");
            assert!(!r.surrounds(s(max)), "{min:?} {max:?}");
        }
    }
}

#[test]
fn surrounds_takes_what_lies_between() {
    let r = range(1.0, 3.0);
    assert!(r.surrounds(s(2.0)));
    assert!(r.surrounds(s(1.0000000000000002)));
    assert!(r.surrounds(s(2.9999999999999996)));
    assert!(!r.surrounds(s(1.0)));
    assert!(!r.surrounds(s(3.0)));
    assert!(!r.surrounds(s(0.0)));
    assert!(!r.surrounds(s(4.0)));
    assert!(!r.surrounds(s(f64::NAN)));
}

#[test]
fn surrounds_agrees_with_the_machine() {
    for min in numbers() {
        for max in numbers() {
            for x in numbers() {
                assert_eq!(range(min, max).surrounds(s(x)), min < x && x < max);
            }
        }
    }
}

#[test]
fn a_range_the_wrong_way_round_surrounds_nothing() {
    for x in numbers() {
        assert!(!range(3.0, 1.0).surrounds(s(x)));
    }
}

#[test]
fn clamp_moves_to_the_nearer_end() {
    let r = range(0.0, 0.999);
    assert_eq!(r.clamp(s(-1.0)), s(0.0));
    assert_eq!(r.clamp(s(2.0)), s(0.999));
    assert_eq!(r.clamp(s(0.5)), s(0.5));
    assert_eq!(r.clamp(s(0.0)), s(0.0));
    assert_eq!(r.clamp(s(0.999)), s(0.999));
    assert_eq!(r.clamp(s(f64::INFINITY)), s(0.999));
    assert_eq!(r.clamp(s(f64::NEG_INFINITY)), s(0.0));
}

#[test]
fn clamp_leaves_a_nan_alone() {
    let r = range(0.0, 0.999);
    assert!(r.clamp(s(f64::NAN)).is_nan());
    assert_eq!(r.clamp(s(f64::NAN)), s(f64::NAN));
}

#[test]
fn clamp_agrees_with_the_machine() {
    for min in numbers() {
        for max in numbers() {
            for x in numbers() {
                let expected = if x < min {
                    min
                } else if x > max {
                    max
                } else {
                    x
                };
                assert_eq!(range(min, max).clamp(s(x)).to_bits(), expected.to_bits());
            }
        }
    }
}

#[test]
fn clamp_twice_is_clamp_once() {
    let r = range(-1.0, 1.0);
    for x in numbers() {
        assert_eq!(r.clamp(r.clamp(s(x))), r.clamp(s(x)));
    }
}

#[test]
fn ray_new_keeps_origin_and_direction() {
    let origin = Vec3::new(s(1.0), s(2.0), s(3.0));
    let direction = Vec3::new(s(0.0), s(-1.0), s(0.0));
    let r = Ray::new(origin, direction);
    assert_eq!(r.origin, origin);
    assert_eq!(r.direction, direction);
}

#[test]
fn the_default_ray_is_all_zero() {
    let r = Ray::default();
    assert_eq!(r.origin, Vec3::splat(s(0.0)));
    assert_eq!(r.direction, Vec3::splat(s(0.0)));
}
