use palette_sampling::color::ColorSpace;
use palette_sampling::curve::{Point, SamplingCurve, UNIT};
use palette_sampling::palette::{Palette, PaletteColor, PaletteError, NIL_CURVE_ID};
use palette_sampling::sampling::SamplingRect;
use palette_sampling::tools::{Tool, ToolsViewState};

#[test]
fn new_palette_has_presets() {
    let p = Palette::new();
    assert_eq!(p.colors.len(), 1);
    assert_eq!(p.colors[0].hue, 180_000_000);
    assert_eq!(p.colors[0].name, "some-color-180");
    assert_eq!(p.sampling_curves.len(), 3);
    assert_eq!(p.sampling_curves[&NIL_CURVE_ID].name, "Tailwind Happy");
    assert_eq!(p.sampling_curves[&1].name, "Tailwind Diagonal");
    assert_eq!(p.sampling_curves[&2].curve.len(), 5);
    assert_eq!(p.sampling_curves[&2].name, "Pixelart 5");
}

#[test]
fn color_samples_through_rect() {
    let p = Palette::new();
    let mut c = PaletteColor::new(180_000_000);
    c.sampling_rect = SamplingRect::identity();
    c.sampling_curve_id = 2;
    let s = c.samples(&p.sampling_curves).unwrap();
    assert_eq!(s, p.sampling_curves[&2].curve);
    assert_eq!(c.is_tailwind(&p.sampling_curves), Ok(false));
    c.sampling_curve_id = 1;
    assert_eq!(c.is_tailwind(&p.sampling_curves), Ok(true));
}

#[test]
fn missing_curve_is_an_error() {
    let p = Palette::new();
    let mut c = PaletteColor::new(0);
    c.sampling_curve_id = 99;
    assert_eq!(c.samples(&p.sampling_curves), Err(PaletteError::MissingCurve));
    assert_eq!(c.is_tailwind(&p.sampling_curves), Err(PaletteError::MissingCurve));
}

#[test]
fn empty_curve_gives_no_samples() {
    let mut p = Palette::new();
    let id = p.add_new_curve().unwrap();
    p.sampling_curves.get_mut(&id).unwrap().curve.clear();
    let mut c = PaletteColor::new(0);
    c.sampling_curve_id = id;
    assert_eq!(c.samples(&p.sampling_curves), Ok(vec![]));
    assert!(c.shades(&vec![]).is_empty());
}

#[test]
fn new_color_hues_step_by_26_degrees() {
    let mut p = Palette::new();
    p.add_new_color();
    assert_eq!(p.colors[1].hue, 26_000_000);
    for _ in 0..13 {
        p.add_new_color();
    }
    // 14 colours before the last: 14 * 26 = 364, so 4 degrees
    assert_eq!(p.colors[14].hue, 4_000_000);
    p.add_new_color_hue(-30_000_000);
    assert_eq!(p.colors[15].hue, 330_000_000);
    assert_eq!(p.colors[15].name, "some-color-330");
}

#[test]
fn remove_hue_keeps_far_colors() {
    let mut p = Palette::new();
    p.add_new_color_hue(181_000_000);
    p.add_new_color_hue(182_000_000);
    p.add_new_color_hue(10_000_000);
    p.remove_hue(180_000_000);
    let hues: Vec<i32> = p.colors.iter().map(|c| c.hue).collect();
    assert_eq!(hues, vec![182_000_000, 10_000_000]);
}

#[test]
fn add_new_curve_inserts_default_curve() {
    let mut p = Palette::new();
    let id = p.add_new_curve().unwrap();
    assert!(id > 2);
    assert_eq!(p.sampling_curves.len(), 4);
    assert_eq!(p.sampling_curves[&NIL_CURVE_ID].name, "Tailwind Happy");
    assert_eq!(p.sampling_curves[&id].curve, vec![Point::new(500_000, 500_000)]);
    assert!(p.sampling_curves.contains_key(&NIL_CURVE_ID));
}

#[test]
fn import_color_sorts_its_curve() {
    let mut p = Palette::new();
    let id = p.import_color(
        "sky".to_string(),
        "sky_curve".to_string(),
        200_000_000,
        vec![Point::new(UNIT, 0), Point::new(0, UNIT), Point::new(500_000, 500_000)],
    )
    .unwrap();
    assert_eq!(p.sampling_curves.len(), 4);
    assert_eq!(
        p.sampling_curves[&id].curve,
        vec![Point::new(0, UNIT), Point::new(500_000, 500_000), Point::new(UNIT, 0)]
    );
    let c = p.colors.last().unwrap();
    assert_eq!(c.name, "sky");
    assert_eq!(c.sampling_curve_id, id);
    assert_eq!(c.color_space, ColorSpace::HSV);
    assert_eq!(p.sampling_curves[&id].name, "sky_curve");
}

#[test]
fn default_color_name_uses_whole_degrees() {
    assert_eq!(PaletteColor::new(26_500_000).name, "some-color-26");
    assert_eq!(PaletteColor::new(-1).name, "some-color--1");
    assert_eq!(PaletteColor::new(0).name, "some-color-0");
    assert_eq!(PaletteColor::new(i32::MIN).name, "some-color--2148");
    assert_eq!(PaletteColor::new(i32::MAX).name, "some-color-2147");
}

#[test]
fn tools_toggle_and_close() {
    let mut t = ToolsViewState::new();
    assert!(t.tool_state(Tool::PaletteOverview));
    assert!(!t.tool_state(Tool::WcagContrast));
    assert_eq!(t.shown_tools(), vec![Tool::PaletteOverview, Tool::DwuiExample, Tool::PixelArt]);
    t.toggle(Tool::WcagContrast);
    assert!(t.tool_state(Tool::WcagContrast));
    t.close_tool(Tool::PaletteOverview);
    assert_eq!(t.shown_tools(), vec![Tool::DwuiExample, Tool::WcagContrast, Tool::PixelArt]);
    assert_eq!(Tool::CurveEditor.label(), "Curve Editor");
    assert_eq!(Tool::at(3), Tool::CurveEditor);
    let _ = SamplingCurve::new();
}

#[test]
fn add_curve_at_refuses_taken_ids() {
    let mut p = Palette::new();
    assert_eq!(p.add_curve_at(1), Err(PaletteError::CurveIdTaken));
    assert_eq!(p.sampling_curves[&1].name, "Tailwind Diagonal");
    assert_eq!(p.add_curve_at(7), Ok(7));
    assert_eq!(p.sampling_curves[&7].curve, vec![Point::new(500_000, 500_000)]);
}

#[test]
fn import_color_at_refuses_taken_ids() {
    let mut p = Palette::new();
    let r = p.import_color_at("a".to_string(), "a_curve".to_string(), 0, vec![Point::new(0, 0)], NIL_CURVE_ID);
    assert_eq!(r, Err(PaletteError::CurveIdTaken));
    assert_eq!(p.colors.len(), 1);
    assert_eq!(p.sampling_curves[&NIL_CURVE_ID].name, "Tailwind Happy");
    let r = p.import_color_at("a".to_string(), "a_curve".to_string(), 5, vec![Point::new(9, 1), Point::new(1, 2)], 42);
    assert_eq!(r, Ok(42));
    assert_eq!(p.sampling_curves[&42].curve, vec![Point::new(1, 2), Point::new(9, 1)]);
    assert_eq!(p.colors[1].sampling_curve_id, 42);
    assert_eq!(p.colors[1].name, "a");
}
