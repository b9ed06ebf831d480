use palette_sampling::color::shade_colors;
use palette_sampling::curve::{Point, UNIT};
use palette_sampling::sampler::{algebraic_simple, integer_sqrt, sampler_samples, ColorShades, ParametricSampler};
use palette_sampling::sampling::SamplingRect;

#[test]
fn integer_sqrt_values() {
    assert_eq!(integer_sqrt(0), 0);
    assert_eq!(integer_sqrt(15), 3);
    assert_eq!(integer_sqrt(16), 4);
    assert_eq!(integer_sqrt(u128::MAX), u64::MAX as u128);
}

#[test]
fn algebraic_sigmoid_values() {
    assert_eq!(algebraic_simple(0), 0);
    // 1 / sqrt(2) = 0.7071067...
    assert_eq!(algebraic_simple(UNIT as i64), 707_107);
    assert_eq!(algebraic_simple(-(UNIT as i64)), -707_107);
    // 2 / sqrt(5) = 0.894427...
    assert_eq!(algebraic_simple(2 * UNIT as i64), 894_427);
}

#[test]
fn sigmoid_midpoint_is_one_half() {
    let s = ParametricSampler::Sigmoid { amplification: 4 * UNIT };
    assert_eq!(s.sample(&vec![500_000]), vec![Point::new(500_000, 500_000)]);
}

#[test]
fn negative_amplification_reverses_points() {
    let xs = vec![0, 500_000, UNIT];
    let pos = ParametricSampler::Sigmoid { amplification: 4 * UNIT }.sample(&xs);
    let neg = ParametricSampler::Sigmoid { amplification: -4 * UNIT }.sample(&xs);
    let pos_y: Vec<i32> = pos.iter().map(|p| p.y).collect();
    let neg_y: Vec<i32> = neg.iter().map(|p| p.y).collect();
    assert_eq!(pos_y, neg_y);
    let neg_x: Vec<i32> = neg.iter().map(|p| p.x).collect();
    assert_eq!(neg_x, vec![UNIT, 500_000, 0]);
    // at x = 0 the stretched input is -2, so y = 0.5 + 0.894427 / 2
    assert_eq!(pos[0], Point::new(0, 947_213));
    assert_eq!(pos[2], Point::new(UNIT, 52_787));
    assert!(pos[0].y > 500_000 && pos[1].y == 500_000 && pos[1].y > pos[2].y);
}

#[test]
fn diagonal_over_tailwind_stops() {
    let pts = sampler_samples(&ParametricSampler::Diagonal, &ColorShades::Tailwind, &SamplingRect::identity());
    assert_eq!(pts.len(), 11);
    assert_eq!(pts[0], Point::new(0, UNIT));
    assert_eq!(pts[3], Point::new(300_000, 700_000));
    assert_eq!(pts[10], Point::new(UNIT, 0));
}

#[test]
fn custom_stops_and_fixed_curves() {
    let pts = sampler_samples(
        &ParametricSampler::Diagonal,
        &ColorShades::Custom(vec![-10, 250_000]),
        &SamplingRect::identity(),
    );
    assert_eq!(pts, vec![Point::new(0, UNIT), Point::new(250_000, 750_000)]);
    let a = ParametricSampler::FixedCurveA.sample(&vec![]);
    assert_eq!(a.len(), 11);
    assert_eq!(a[3], Point::new(400_000, 670_000));
    let b = ParametricSampler::FixedCurveB.sample(&vec![1, 2, 3]);
    assert_eq!(b[3], Point::new(400_000, 860_000));
}

#[test]
fn end_to_end_diagonal_cyan() {
    let pts = sampler_samples(&ParametricSampler::Diagonal, &ColorShades::Tailwind, &SamplingRect::identity());
    let shades = shade_colors(180 * UNIT, 0, &pts);
    let rgb: Vec<(u8, u8, u8)> = shades
        .iter()
        .map(|s| {
            hsv::hsv_to_rgb(
                s.hue as f64 / 1e6,
                s.saturation as f64 / 1e6,
                s.level as f64 / 1e6,
            )
        })
        .collect();
    assert_eq!(rgb[0], (255, 255, 255));
    assert_eq!(rgb[10], (0, 0, 0));
}
