use palette_sampling::color::{shade_hex_table, effective_hue, index_to_tailwind_number, shade_colors, CakeType, ColorSpace, ShadeColor};
use palette_sampling::curve::{Point, UNIT};
use palette_sampling::sampling::{get_equidistant_points_in_range, static_sample, SamplingError, SamplingRect};

#[test]
fn equidistant_eleven_stops() {
    let v = get_equidistant_points_in_range(0, UNIT, 11).unwrap();
    assert_eq!(v, (0..11).map(|i| i * 100_000).collect::<Vec<i32>>());
}

#[test]
fn equidistant_two_stops() {
    assert_eq!(get_equidistant_points_in_range(0, UNIT, 2).unwrap(), vec![0, UNIT]);
}

#[test]
fn equidistant_descending_and_exact_ends() {
    let v = get_equidistant_points_in_range(UNIT, 0, 4).unwrap();
    assert_eq!(v, vec![UNIT, 666_667, 333_334, 0]);
    let w = get_equidistant_points_in_range(-7, 13, 3).unwrap();
    assert_eq!(w, vec![-7, 3, 13]);
}

#[test]
fn equidistant_degenerate_count() {
    assert_eq!(get_equidistant_points_in_range(0, UNIT, 1), Err(SamplingError::DegenerateEquidistantRange));
    assert_eq!(get_equidistant_points_in_range(0, UNIT, 0), Err(SamplingError::DegenerateEquidistantRange));
}

#[test]
fn hue_wraps_around() {
    assert_eq!(effective_hue(10_000_000, 20_000_000, UNIT), 350_000_000);
    assert_eq!(effective_hue(10_000_000, 20_000_000, 0), 10_000_000);
    assert_eq!(effective_hue(350_000_000, -20_000_000, UNIT), 10_000_000);
    assert_eq!(effective_hue(180_000_000, 90_000_000, 500_000), 135_000_000);
}

#[test]
fn shades_follow_samples() {
    let pts = vec![Point::new(0, UNIT), Point::new(UNIT, 0)];
    let s = shade_colors(180_000_000, 0, &pts);
    assert_eq!(
        s,
        vec![
            ShadeColor { hue: 180_000_000, saturation: 0, level: UNIT },
            ShadeColor { hue: 180_000_000, saturation: UNIT, level: 0 },
        ]
    );
}

#[test]
fn empty_inputs_give_empty_outputs() {
    let rect = SamplingRect::new();
    assert!(static_sample(&rect.matrices(), &vec![]).is_empty());
    assert!(shade_colors(0, 0, &vec![]).is_empty());
}

#[test]
fn identity_rect_keeps_unit_points() {
    let rect = SamplingRect::identity();
    let pts = vec![Point::new(0, UNIT), Point::new(250_000, 750_000), Point::new(UNIT, 0)];
    assert_eq!(static_sample(&rect.matrices(), &pts), pts);
}

#[test]
fn points_are_clamped_before_and_after() {
    let rect = SamplingRect::identity();
    let pts = vec![Point::new(-5, 2 * UNIT)];
    assert_eq!(static_sample(&rect.matrices(), &pts), vec![Point::new(0, UNIT)]);
    let inset = SamplingRect::new();
    // 0.13 + 0.75 * 1.0 = 0.88
    assert_eq!(static_sample(&inset.matrices(), &vec![Point::new(UNIT, 0)]), vec![Point::new(880_000, 130_000)]);
}

#[test]
fn rotation_then_scale_then_translate() {
    // a quarter turn: (x, y) -> (-y, x), then scaled by (0.5, 0.5), then moved by (0.5, 0)
    let rect = SamplingRect { x: 500_000, y: 0, width: 500_000, height: 500_000, rotation_cos: 0, rotation_sin: UNIT };
    let out = static_sample(&rect.matrices(), &vec![Point::new(200_000, 400_000)]);
    assert_eq!(out, vec![Point::new(300_000, 100_000)]);
}

#[test]
fn color_space_and_cake_names() {
    assert_eq!(ColorSpace::parse("HSV"), Some(ColorSpace::HSV));
    assert_eq!(ColorSpace::parse("HSL"), Some(ColorSpace::HSL));
    assert_eq!(ColorSpace::parse("RGB"), None);
    assert_eq!(ColorSpace::HSL.label(), "HSL");
    assert_eq!(CakeType::parse("Brick"), Some(CakeType::Brick));
    assert_eq!(CakeType::parse("brick"), None);
    assert_eq!(CakeType::new().label(), "Cylinder");
    assert_eq!(ColorSpace::new(), ColorSpace::HSV);
}

#[test]
fn tailwind_numbers() {
    let v: Vec<usize> = (0..12).map(index_to_tailwind_number).collect();
    assert_eq!(v, vec![50, 100, 200, 300, 400, 500, 600, 700, 800, 900, 950, 0]);
}

#[test]
fn defaults_and_parsing() {
    assert_eq!(SamplingRect::default(), SamplingRect::new());
    assert_eq!(ColorSpace::default(), ColorSpace::HSV);
    assert_eq!(CakeType::default(), CakeType::Cylinder);
    assert_eq!("HSL".parse::<ColorSpace>(), Ok(ColorSpace::HSL));
    assert_eq!("Cylinder".parse::<CakeType>(), Ok(CakeType::Cylinder));
    assert_eq!("x".parse::<CakeType>(), Err(()));
}

#[test]
fn hex_table_gives_weights_and_hex() {
    let shades = vec![(255, 0, 16), (1, 171, 255)];
    assert_eq!(
        shade_hex_table(&shades),
        vec![(50, "#FF0010FF".to_string()), (100, "#01ABFFFF".to_string())]
    );
    let many = vec![(0, 0, 0); 12];
    let t = shade_hex_table(&many);
    assert_eq!(t.len(), 11);
    assert_eq!(t[10], (950, "#000000FF".to_string()));
}
