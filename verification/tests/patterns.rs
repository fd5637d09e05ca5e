use raytracer::camera::image_height;
use raytracer::color::channel;
use raytracer::hittable::Crossing;
use raytracer::interval::Interval;
use raytracer::scalar::Scalar;

fn s(x: f64) -> Scalar {
    Scalar::from_bits(x.to_bits())
}

/// A fixed sequence of bit patterns that covers every exponent and both
/// signs, the special values among them.
fn patterns(count: usize) -> Vec<f64> {
    let mut state: u64 = 0x9e37_79b9_7f4a_7c15;
    let mut out: Vec<f64> = Vec::new();
    for k in 0..count {
        state ^= state << 13;
        state ^= state >> 7;
        state ^= state << 17;
        let bits: u64 = match k % 8 {
            0 => state,
            1 => state & 0x800f_ffff_ffff_ffff,
            2 => (state & 0x800f_ffff_ffff_ffff) | 0x7ff0_0000_0000_0000,
            3 => state & 0xfff0_0000_0000_0000,
            4 => (state & 0x801f_ffff_ffff_ffff) | 0x3fe0_0000_0000_0000,
            5 => (state & 0x80ff_ffff_ffff_ffff) | 0x4100_0000_0000_0000,
            6 => (state & 0x8000_0000_0000_0000) | ((state >> 1) & 0x3ff0_0000_0000_0000),
            _ => (state & 0x807f_ffff_ffff_ffff) | 0x3f80_0000_0000_0000,
        };
        out.push(f64::from_bits(bits));
    }
    out
}

#[test]
fn comparisons_agree_with_the_machine_on_many_patterns() {
    let xs = patterns(600);
    for a in &xs {
        for b in &xs {
            assert_eq!(s(*a).lt(s(*b)), a < b, "{a:?} {b:?}");
            assert_eq!(s(*a).le(s(*b)), a <= b, "{a:?} {b:?}");
            assert_eq!(s(*a).gt(s(*b)), a > b, "{a:?} {b:?}");
        }
    }
}

#[test]
fn sign_operations_agree_with_the_machine_on_many_patterns() {
    for x in patterns(20_000) {
        assert_eq!(s(x).neg().to_bits(), (-x).to_bits());
        assert_eq!(s(x).abs().to_bits(), x.abs().to_bits());
        assert_eq!(s(x).is_nan(), x.is_nan());
    }
}

#[test]
fn min_agrees_with_the_machine_on_many_patterns() {
    let xs = patterns(400);
    for a in &xs {
        for b in &xs {
            let ours = f64::from_bits(s(*a).min(s(*b)).to_bits());
            let theirs = a.min(*b);
            assert!(ours == theirs || (ours.is_nan() && theirs.is_nan()), "{a:?} {b:?}");
        }
    }
}

#[test]
fn interval_agrees_with_the_machine_on_many_patterns() {
    let xs = patterns(90);
    for min in &xs {
        for max in &xs {
            let range = Interval::new(s(*min), s(*max));
            for x in &xs {
                assert_eq!(range.surrounds(s(*x)), min < x && x < max);
                let clamped = if x < min {
                    *min
                } else if x > max {
                    *max
                } else {
                    *x
                };
                assert_eq!(range.clamp(s(*x)).to_bits(), clamped.to_bits());
            }
        }
    }
}

#[test]
fn image_height_agrees_with_the_machine_on_many_patterns() {
    for x in patterns(40_000) {
        assert_eq!(image_height(s(x)), x as i32, "{x:?}");
    }
}

#[test]
fn channel_agrees_with_the_machine_on_many_patterns() {
    for x in patterns(40_000) {
        let clamped = if x < 0.0 {
            0.0
        } else if x > 0.999 {
            0.999
        } else {
            x
        };
        assert_eq!(channel(s(x)) as i32, (256.0 * clamped) as i32, "{x:?}");
    }
}

#[test]
fn root_choice_agrees_with_the_machine_on_many_patterns() {
    let xs = patterns(40);
    for discriminant in [-1.0, -0.0, 0.0, 2.0, f64::NAN] {
        for near in &xs {
            for far in &xs {
                for min in [0.001, -3.0, 1.0e10] {
                    for max in [f64::INFINITY, 5.0, 1.0e12] {
                        let expected = if discriminant < 0.0 {
                            None
                        } else if min < *near && *near < max {
                            Some(s(*near))
                        } else if min < *far && *far < max {
                            Some(s(*far))
                        } else {
                            None
                        };
                        let crossing = Crossing::new(s(discriminant), s(*near), s(*far));
                        assert_eq!(crossing.root_in(Interval::new(s(min), s(max))), expected);
                    }
                }
            }
        }
    }
}
