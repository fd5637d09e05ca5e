use raytracer::camera::{trace_range, TRACE_START_BITS};
use raytracer::render::{Render, Work};
use raytracer::scalar::Scalar;
use raytracer::scene::{
    choose_surface, keeps_clear, Surface, CLEARANCE_BITS, DIFFUSE_BELOW_BITS, METAL_BELOW_BITS,
};

fn s(x: f64) -> Scalar {
    Scalar::from_bits(x.to_bits())
}

/// All the work of an image, in the order in which it comes.
fn all_work(width: i32, height: i32, samples: i32) -> Vec<Work> {
    let mut plan = Render::new(width, height, samples);
    let mut done: Vec<Work> = Vec::new();
    loop {
        let work = plan.next();
        done.push(work);
        if work == Work::Done {
            return done;
        }
        assert!(done.len() < 100_000);
    }
}

/// The same work, written down as loops.
fn looped(width: i32, height: i32, samples: i32) -> Vec<Work> {
    let mut done: Vec<Work> = vec![Work::Header];
    for j in 0..height {
        done.push(Work::Scanline { j, remaining: height - j });
        for i in 0..width {
            for s in 0..samples {
                done.push(Work::Sample { i, j, s });
            }
            done.push(Work::Pixel { i, j });
        }
    }
    done.push(Work::Done);
    done
}

#[test]
fn render_begins_with_the_header() {
    let mut plan = Render::new(600, 337, 100);
    assert_eq!(plan.next(), Work::Header);
    assert_eq!(plan.next(), Work::Scanline { j: 0, remaining: 337 });
    assert_eq!(plan.next(), Work::Sample { i: 0, j: 0, s: 0 });
    assert_eq!(plan.next(), Work::Sample { i: 0, j: 0, s: 1 });
}

#[test]
fn render_of_a_small_image() {
    assert_eq!(
        all_work(2, 2, 1),
        vec![
            Work::Header,
            Work::Scanline { j: 0, remaining: 2 },
            Work::Sample { i: 0, j: 0, s: 0 },
            Work::Pixel { i: 0, j: 0 },
            Work::Sample { i: 1, j: 0, s: 0 },
            Work::Pixel { i: 1, j: 0 },
            Work::Scanline { j: 1, remaining: 1 },
            Work::Sample { i: 0, j: 1, s: 0 },
            Work::Pixel { i: 0, j: 1 },
            Work::Sample { i: 1, j: 1, s: 0 },
            Work::Pixel { i: 1, j: 1 },
            Work::Done,
        ]
    );
}

#[test]
fn render_follows_the_loops() {
    for width in -1..5 {
        for height in -1..5 {
            for samples in -1..4 {
                assert_eq!(all_work(width, height, samples), looped(width, height, samples));
            }
        }
    }
}

#[test]
fn render_without_pixels_still_writes_the_header() {
    assert_eq!(all_work(0, 0, 10), vec![Work::Header, Work::Done]);
    assert_eq!(all_work(5, 0, 10), vec![Work::Header, Work::Done]);
    assert_eq!(all_work(5, -3, 10), vec![Work::Header, Work::Done]);
    assert_eq!(
        all_work(0, 2, 10),
        vec![
            Work::Header,
            Work::Scanline { j: 0, remaining: 2 },
            Work::Scanline { j: 1, remaining: 1 },
            Work::Done
        ]
    );
}

#[test]
fn render_without_samples_writes_every_pixel() {
    assert_eq!(
        all_work(2, 1, 0),
        vec![
            Work::Header,
            Work::Scanline { j: 0, remaining: 1 },
            Work::Pixel { i: 0, j: 0 },
            Work::Pixel { i: 1, j: 0 },
            Work::Done
        ]
    );
}

#[test]
fn render_stays_done() {
    let mut plan = Render::new(1, 1, 1);
    for _ in 0..5 {
        plan.next();
    }
    assert_eq!(plan.next(), Work::Done);
    assert_eq!(plan.next(), Work::Done);
}

#[test]
fn render_counts_its_work() {
    let work = all_work(7, 5, 3);
    assert_eq!(work.len(), 2 + 5 * (1 + 7 * (3 + 1)));
    let pixels: Vec<&Work> = work.iter().filter(|w| matches!(w, Work::Pixel { .. })).collect();
    assert_eq!(pixels.len(), 35);
    assert_eq!(*pixels[0], Work::Pixel { i: 0, j: 0 });
    assert_eq!(*pixels[7], Work::Pixel { i: 0, j: 1 });
    assert_eq!(*pixels[34], Work::Pixel { i: 6, j: 4 });
}

#[test]
fn trace_range_starts_just_off_the_surface() {
    assert_eq!(TRACE_START_BITS, 0.001f64.to_bits());
    let range = trace_range();
    assert_eq!(range.min, s(0.001));
    assert_eq!(range.max, s(f64::INFINITY));
    assert!(range.surrounds(s(0.0010000000000000002)));
    assert!(range.surrounds(s(f64::MAX)));
    assert!(!range.surrounds(s(0.001)));
    assert!(!range.surrounds(s(0.0)));
    assert!(!range.surrounds(s(-5.0)));
    assert!(!range.surrounds(s(f64::INFINITY)));
}

#[test]
fn scene_constants_are_the_patterns_of_their_numbers() {
    assert_eq!(DIFFUSE_BELOW_BITS, 0.8f64.to_bits());
    assert_eq!(METAL_BELOW_BITS, 0.95f64.to_bits());
    assert_eq!(CLEARANCE_BITS, 0.9f64.to_bits());
}

#[test]
fn surface_follows_the_draw() {
    assert_eq!(choose_surface(s(0.0)), Surface::Diffuse);
    assert_eq!(choose_surface(s(0.5)), Surface::Diffuse);
    assert_eq!(choose_surface(s(0.7999999999999999)), Surface::Diffuse);
    assert_eq!(choose_surface(s(0.8)), Surface::Metal);
    assert_eq!(choose_surface(s(0.9)), Surface::Metal);
    assert_eq!(choose_surface(s(0.9499999999999998)), Surface::Metal);
    assert_eq!(choose_surface(s(0.95)), Surface::Glass);
    assert_eq!(choose_surface(s(0.9999999999999999)), Surface::Glass);
}

#[test]
fn surface_agrees_with_the_machine() {
    let mut num: f64 = 0.0;
    while num < 1.0 {
        let expected = if num < 0.8 {
            Surface::Diffuse
        } else if num < 0.95 {
            Surface::Metal
        } else {
            Surface::Glass
        };
        assert_eq!(choose_surface(s(num)), expected);
        num += 0.00917;
    }
}

#[test]
fn small_spheres_keep_clear_of_the_large_one() {
    assert!(keeps_clear(s(0.9000000000000001)));
    assert!(keeps_clear(s(3.0)));
    assert!(!keeps_clear(s(0.9)));
    assert!(!keeps_clear(s(0.2)));
    assert!(!keeps_clear(s(0.0)));
    assert!(!keeps_clear(s(f64::NAN)));
}
