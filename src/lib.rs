//! Colour-palette sampling: editable sampling curves in the unit colour
//! plane, the sampling-rectangle transform, the hue mapping of each shade,
//! and WCAG contrast checks.
//!
//! All quantities are exact fixed-point integers: a colour-plane coordinate
//! is stored in millionths (`1_000_000` is `1.0`), and hues and angles in
//! millionths of a degree.

pub mod color;
pub mod contrast;
pub mod curve;
pub mod palette;
pub mod sampler;
pub mod sampling;
pub mod tools;
