use palette_sampling::contrast::{
    brightness, contrast, is_enhanced_large_text_contrast, is_enhanced_text_contrast,
    is_minimum_large_text_contrast, is_minimum_text_contrast, swatch_color_contrast,
    SwatchColorContrast,
};

// The library reads a colour's lightness as the HSL lightness
// (max + min) / 2 on 0..=1, so for the greys 0..=19 the largest ratio is
// (2 * 38 + 51) / 51, about 2.49, and no pair reaches 4.5:1 or 7:1. Counts
// of 51 and 36 belong to a lightness on the 0..=255 scale instead.
#[test]
fn test_swatch_contrasts() {
    let swatch_a = (0..20u8).map(|c| (c, c, c)).collect::<Vec<_>>();
    let swatch_b = (0..20u8).map(|c| (c, c, c)).collect::<Vec<_>>();

    let contrasts = swatch_color_contrast(&swatch_a, &swatch_b);

    let text_contrasts_minimum: Vec<&SwatchColorContrast> = contrasts
        .iter()
        .filter(|contrast| {
            is_minimum_text_contrast(
                swatch_a[contrast.swatch_a_idx],
                swatch_b[contrast.swatch_b_idx],
            )
        })
        .collect::<Vec<_>>();

    let text_contrasts_enhanced = contrasts
        .iter()
        .filter(|contrast| {
            is_enhanced_text_contrast(
                swatch_a[contrast.swatch_a_idx],
                swatch_b[contrast.swatch_b_idx],
            )
        })
        .collect::<Vec<_>>();

    assert_eq!(contrasts.len(), 400);
    assert_eq!(text_contrasts_minimum.len(), 0);
    assert_eq!(text_contrasts_enhanced.len(), 0);
    assert_eq!(contrasts[399].contrast.numerator, 127);
    assert_eq!(contrasts[399].contrast.denominator, 51);
}

#[test]
fn swatch_contrasts_are_ascending_and_complete() {
    let a = vec![(0, 0, 0), (255, 255, 255)];
    let b = vec![(128, 128, 128), (0, 0, 0), (255, 255, 255)];
    let r = swatch_color_contrast(&a, &b);
    assert_eq!(r.len(), 6);
    for w in r.windows(2) {
        let (x, y) = (w[0].contrast, w[1].contrast);
        assert!(x.numerator as u64 * y.denominator as u64 <= y.numerator as u64 * x.denominator as u64);
    }
    // black against white is the largest ratio: 1071 / 51 = 21
    let last = r[5];
    assert_eq!((last.contrast.numerator, last.contrast.denominator), (1071, 51));
    // equal colours come first with ratio 1
    assert_eq!(r[0].contrast.numerator, r[0].contrast.denominator);
}

#[test]
fn brightness_is_max_plus_min() {
    assert_eq!(brightness((0, 0, 0)), 0);
    assert_eq!(brightness((255, 255, 255)), 510);
    assert_eq!(brightness((10, 200, 50)), 210);
}

#[test]
fn contrast_black_white_is_21() {
    let c = contrast((255, 255, 255), (0, 0, 0));
    assert_eq!((c.numerator, c.denominator), (1071, 51));
    let d = contrast((0, 0, 0), (255, 255, 255));
    assert_eq!(c, d);
    assert!(c.at_least(21, 1));
    assert!(!c.at_least(22, 1));
}

#[test]
fn contrast_thresholds() {
    let white = (255, 255, 255);
    let black = (0, 0, 0);
    assert!(is_minimum_text_contrast(white, black));
    assert!(is_enhanced_text_contrast(white, black));
    assert!(is_minimum_large_text_contrast(white, black));
    assert!(is_enhanced_large_text_contrast(white, black));
    assert!(!is_minimum_large_text_contrast(white, white));
    // s = 0 against s = 100: (200 + 51) / 51 is about 4.92
    let grey = (50, 50, 50);
    assert!(is_minimum_text_contrast(grey, black));
    assert!(!is_enhanced_text_contrast(grey, black));
    // exactly 3:1: s_lo = 0, 2 * s_hi + 51 = 153, s_hi = 51
    let edge = (51, 0, 0);
    assert!(is_minimum_large_text_contrast(edge, black));
    let below = (50, 0, 0);
    assert!(!is_minimum_large_text_contrast(below, black));
}
