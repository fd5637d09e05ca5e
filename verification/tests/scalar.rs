use raytracer::scalar::{Scalar, INFINITY_BITS, ONE_BITS, SIGN_BIT};
use raytracer::vec3::{vec3_near_zero, Vec3, NEAR_ZERO_BITS};

fn s(x: f64) -> Scalar {
    Scalar::from_bits(x.to_bits())
}

fn samples() -> Vec<f64> {
    vec![
        0.0,
        -0.0,
        1.0,
        -1.0,
        0.5,
        0.001,
        0.999,
        1.0e-8,
        -1.0e-8,
        2.5,
        -2.5,
        255.0,
        1.0e300,
        -1.0e300,
        f64::MIN_POSITIVE,
        -f64::MIN_POSITIVE,
        5.0e-324,
        -5.0e-324,
        f64::MAX,
        f64::MIN,
        f64::INFINITY,
        f64::NEG_INFINITY,
        f64::NAN,
        f64::from_bits(0xfff8_0000_0000_0001),
        f64::from_bits(0x7ff0_0000_0000_0001),
    ]
}

#[test]
fn constants_are_the_patterns_of_their_numbers() {
    assert_eq!(ONE_BITS, 1.0f64.to_bits());
    assert_eq!(INFINITY_BITS, f64::INFINITY.to_bits());
    assert_eq!(SIGN_BIT, (-0.0f64).to_bits());
    assert_eq!(NEAR_ZERO_BITS, 1.0e-8f64.to_bits());
    assert_eq!(Scalar::zero().to_bits(), 0.0f64.to_bits());
    assert_eq!(Scalar::one().to_bits(), 1.0f64.to_bits());
    assert_eq!(Scalar::infinity().to_bits(), f64::INFINITY.to_bits());
}

#[test]
fn from_bits_and_to_bits_round_trip() {
    for x in samples() {
        assert_eq!(s(x).to_bits(), x.to_bits());
        assert_eq!(s(x).bits, x.to_bits());
    }
}

#[test]
fn is_nan_agrees_with_the_machine() {
    for x in samples() {
        assert_eq!(s(x).is_nan(), x.is_nan(), "{x:?}");
    }
}

#[test]
fn lt_agrees_with_the_machine() {
    for a in samples() {
        for b in samples() {
            assert_eq!(s(a).lt(s(b)), a < b, "{a:?} < {b:?}");
        }
    }
}

#[test]
fn le_agrees_with_the_machine() {
    for a in samples() {
        for b in samples() {
            assert_eq!(s(a).le(s(b)), a <= b, "{a:?} <= {b:?}");
        }
    }
}

#[test]
fn gt_agrees_with_the_machine() {
    for a in samples() {
        for b in samples() {
            assert_eq!(s(a).gt(s(b)), a > b, "{a:?} > {b:?}");
        }
    }
}

#[test]
fn the_two_zeros_are_equal_in_order() {
    assert!(!s(-0.0).lt(s(0.0)));
    assert!(!s(0.0).lt(s(-0.0)));
    assert!(s(-0.0).le(s(0.0)));
    assert!(s(0.0).le(s(-0.0)));
}

#[test]
fn nan_is_ordered_with_nothing() {
    for x in samples() {
        assert!(!s(f64::NAN).lt(s(x)));
        assert!(!s(x).lt(s(f64::NAN)));
        assert!(!s(f64::NAN).le(s(x)));
        assert!(!s(x).gt(s(f64::NAN)));
    }
}

#[test]
fn neg_flips_the_sign_bit() {
    for x in samples() {
        assert_eq!(s(x).neg().to_bits(), (-x).to_bits(), "{x:?}");
        assert_eq!(s(x).neg().neg(), s(x));
    }
    assert_eq!(s(2.5).neg(), s(-2.5));
}

#[test]
fn abs_clears_the_sign_bit() {
    for x in samples() {
        assert_eq!(s(x).abs().to_bits(), x.abs().to_bits(), "{x:?}");
    }
    assert_eq!(s(-2.5).abs(), s(2.5));
}

#[test]
fn min_agrees_with_the_machine() {
    for a in samples() {
        for b in samples() {
            let ours = f64::from_bits(s(a).min(s(b)).to_bits());
            let theirs = a.min(b);
            if theirs.is_nan() {
                assert!(ours.is_nan(), "{a:?} min {b:?}");
            } else {
                assert!(ours == theirs, "{a:?} min {b:?}");
            }
        }
    }
}

#[test]
fn min_prefers_a_number_to_a_nan() {
    assert_eq!(s(f64::NAN).min(s(1.0)), s(1.0));
    assert_eq!(s(1.0).min(s(f64::NAN)), s(1.0));
    assert_eq!(s(0.3).min(s(1.0)), s(0.3));
    assert_eq!(s(7.0).min(s(1.0)), s(1.0));
}

#[test]
fn order_laws_hold_on_the_samples() {
    for a in samples() {
        assert!(!s(a).lt(s(a)));
        for b in samples() {
            if s(a).lt(s(b)) {
                assert!(!s(b).lt(s(a)));
                assert!(s(b).neg().lt(s(a).neg()));
            }
            for c in samples() {
                if s(a).lt(s(b)) && s(b).lt(s(c)) {
                    assert!(s(a).lt(s(c)));
                }
            }
        }
    }
}

#[test]
fn vec3_new_and_splat_hold_their_components() {
    let v = Vec3::new(s(1.0), s(2.0), s(3.0));
    assert_eq!(v.x, s(1.0));
    assert_eq!(v.y, s(2.0));
    assert_eq!(v.z, s(3.0));
    let w = Vec3::splat(s(0.5));
    assert_eq!(w, Vec3::new(s(0.5), s(0.5), s(0.5)));
}

#[test]
fn vec3_neg_negates_each_component() {
    let v = Vec3::new(s(1.0), s(-2.0), s(0.0));
    assert_eq!(v.neg(), Vec3::new(s(-1.0), s(2.0), s(-0.0)));
    assert_eq!(v.neg().neg(), v);
}

#[test]
fn near_zero_needs_every_component_small() {
    assert!(vec3_near_zero(&Vec3::new(s(0.0), s(0.0), s(0.0))));
    assert!(vec3_near_zero(&Vec3::new(s(9.9e-9), s(-9.9e-9), s(-0.0))));
    assert!(!vec3_near_zero(&Vec3::new(s(1.0e-8), s(0.0), s(0.0))));
    assert!(!vec3_near_zero(&Vec3::new(s(0.0), s(-1.0e-8), s(0.0))));
    assert!(!vec3_near_zero(&Vec3::new(s(0.0), s(0.0), s(1.0))));
    assert!(!vec3_near_zero(&Vec3::new(s(f64::NAN), s(0.0), s(0.0))));
}

#[test]
fn near_zero_agrees_with_the_machine() {
    for x in samples() {
        for y in [0.0, 1.0e-9, -1.0e-9, 1.0e-8, 1.0] {
            let expected = x.abs() < 1.0e-8 && f64::abs(y) < 1.0e-8 && 0.0f64.abs() < 1.0e-8;
            assert_eq!(vec3_near_zero(&Vec3::new(s(x), s(y), s(0.0))), expected);
        }
    }
}
