use palette_sampling::curve::{CurveError, Modifiers, Point, SamplingCurve, UNIT};

fn no_mods() -> Modifiers {
    Modifiers { alt: false, ctrl: false, shift: false }
}

fn is_fully_sorted(c: &[Point]) -> bool {
    for i in 0..c.len() {
        for j in i + 1..c.len() {
            if c[i].x > c[j].x {
                return false;
            }
            if (c[i].x as i64 - c[j].x as i64).abs() < 100 && c[i].y < c[j].y {
                return false;
            }
        }
    }
    true
}

#[test]
fn new_curve_has_centre_point() {
    let c = SamplingCurve::new();
    assert_eq!(c.name, "New Curve");
    assert_eq!(c.curve, vec![Point::new(500_000, 500_000)]);
}

#[test]
fn add_point_keeps_order() {
    let mut c = SamplingCurve::new();
    c.add_new_point(Point::new(100_000, 200_000));
    c.add_new_point(Point::new(900_000, 100_000));
    c.add_new_point(Point::new(500_000, 900_000));
    c.add_new_point(Point::new(500_050, 100_000));
    assert_eq!(
        c.curve,
        vec![
            Point::new(100_000, 200_000),
            Point::new(500_000, 900_000),
            Point::new(500_000, 500_000),
            Point::new(500_050, 100_000),
            Point::new(900_000, 100_000),
        ]
    );
    assert!(is_fully_sorted(&c.curve));
}

#[test]
fn same_x_sorted_by_descending_y() {
    let mut c = SamplingCurve { name: "t".to_string(), curve: vec![] };
    c.add_new_point(Point::new(300_000, 100_000));
    c.add_new_point(Point::new(300_000, 700_000));
    c.add_new_point(Point::new(300_000, 400_000));
    assert_eq!(
        c.curve,
        vec![Point::new(300_000, 700_000), Point::new(300_000, 400_000), Point::new(300_000, 100_000)]
    );
}

#[test]
fn replace_point_tracks_moved_point() {
    let mut c = SamplingCurve::pixelart_5();
    let idx = c.replace_point(0, Point::new(600_000, 550_000), no_mods());
    assert_eq!(c.curve[idx], Point::new(600_000, 550_000));
    assert_eq!(idx, 2);
    assert!(is_fully_sorted(&c.curve));
    assert_eq!(c.curve.len(), 5);
}

#[test]
fn replace_point_with_locks() {
    let mut c = SamplingCurve::pixelart_5();
    let idx = c.replace_point(1, Point::new(10, 20), Modifiers { alt: true, ctrl: false, shift: false });
    assert_eq!(c.curve[idx], Point::new(250_000, 20));
    let mut d = SamplingCurve::pixelart_5();
    let idx = d.replace_point(1, Point::new(10, 20), Modifiers { alt: false, ctrl: true, shift: false });
    assert_eq!(d.curve[idx], Point::new(10, 800_000));
    assert_eq!(idx, 1);
}

#[test]
fn y_align_picks_first_close_point() {
    let mut c = SamplingCurve::pixelart_5();
    c.try_y_align_at_x(Point::new(-255_000, 123));
    assert_eq!(c.curve[1], Point::new(250_000, 123));
    let before = c.curve.clone();
    c.try_y_align_at_x(Point::new(400_000, 1));
    assert_eq!(c.curve, before);
}

#[test]
fn remove_point_checks_index() {
    let mut c = SamplingCurve::pixelart_5();
    assert_eq!(c.remove_point(5), Err(CurveError::InvalidIndex));
    assert_eq!(c.remove_point(0), Ok(Point::new(0, UNIT)));
    assert_eq!(c.curve.len(), 4);
}

#[test]
fn diagonal_preset_values() {
    let c = SamplingCurve::tailwind_diagonal();
    assert_eq!(c.curve.len(), 11);
    assert_eq!(c.curve[5], Point::new(454_545, 545_455));
    assert_eq!(c.curve[0], Point::new(0, UNIT));
    assert_eq!(c.name, "Tailwind Diagonal");
}

#[test]
fn happy_and_pixelart_presets() {
    let h = SamplingCurve::tailwind_happy();
    assert_eq!(h.curve.len(), 11);
    assert_eq!(h.curve[4], Point::new(470_000, 800_000));
    let p = SamplingCurve::pixelart_5();
    assert_eq!(p.curve[3], Point::new(750_000, 300_000));
}

#[test]
fn sort_leaves_ordered_curve_unchanged() {
    let mut c = SamplingCurve {
        name: "t".to_string(),
        curve: vec![Point::new(0, 10), Point::new(50, 5), Point::new(120, 3), Point::new(500_000, 1)],
    };
    let before = c.curve.clone();
    c.sort();
    assert_eq!(c.curve, before);
    c.sort();
    assert_eq!(c.curve, before);
}

#[test]
fn clustered_points_sorted_up_to_epsilon() {
    let mut c = SamplingCurve { name: "t".to_string(), curve: vec![] };
    c.add_new_point(Point::new(300_050, 100));
    c.add_new_point(Point::new(300_000, 200));
    c.add_new_point(Point::new(700_000, 50));
    assert_eq!(c.curve, vec![Point::new(300_000, 200), Point::new(300_050, 100), Point::new(700_000, 50)]);
    let mut d = SamplingCurve { name: "t".to_string(), curve: vec![] };
    d.add_new_point(Point::new(300_000, 100));
    d.add_new_point(Point::new(300_050, 200));
    // near-equal x: the higher point comes first though its x is larger
    assert_eq!(d.curve, vec![Point::new(300_050, 200), Point::new(300_000, 100)]);
}
