//! Colour spaces and the hue of each shade.

use crate::curve::{Point, UNIT};
use vstd::arithmetic::div_mod::lemma_fundamental_div_mod_converse;
use vstd::prelude::*;

verus! {

/// A full turn of the hue circle, in millionths of a degree.
pub const FULL_TURN: i64 = 360_000_000;

/// How the two colour-plane axes are read: `(saturation, value)` for HSV,
/// `(saturation, lightness)` for HSL.
#[derive(Clone, Copy, Debug, PartialEq, Eq, Structural)]
pub enum ColorSpace {
    HSV,
    HSL,
}

impl ColorSpace {
    /// The default colour space, HSV.
    pub fn new() -> (r: ColorSpace)
        ensures
            r == ColorSpace::HSV,
    {
        ColorSpace::HSV
    }

    /// The colour space's name.
    pub fn label(&self) -> (r: &'static str)
        ensures
            *self == ColorSpace::HSV ==> r@ == "HSV"@,
            *self == ColorSpace::HSL ==> r@ == "HSL"@,
    {
        match self {
            ColorSpace::HSV => "HSV",
            ColorSpace::HSL => "HSL",
        }
    }

    /// The colour space named `s` (`"HSV"` or `"HSL"`), if any.
    pub fn parse(s: &str) -> (r: Option<ColorSpace>)
        ensures
            s@ == "HSV"@ ==> r == Some(ColorSpace::HSV),
            s@ == "HSL"@ ==> r == Some(ColorSpace::HSL),
            s@ != "HSV"@ && s@ != "HSL"@ ==> r is None,
    {
        proof {
            reveal_strlit("HSV");
            reveal_strlit("HSL");
            assert("HSV"@[2] != "HSL"@[2]);
        }
        let t = s.to_owned();
        if t == "HSV".to_owned() {
            Some(ColorSpace::HSV)
        } else if t == "HSL".to_owned() {
            Some(ColorSpace::HSL)
        } else {
            None
        }
    }
}

impl Default for ColorSpace {
    fn default() -> (r: ColorSpace)
        ensures
            r == ColorSpace::HSV,
    {
        ColorSpace::HSV
    }
}

impl std::str::FromStr for ColorSpace {
    type Err = ();

    fn from_str(s: &str) -> Result<ColorSpace, ()> {
        match ColorSpace::parse(s) {
            Some(c) => Ok(c),
            None => Err(()),
        }
    }
}

/// The shape in which a colour's shades are drawn in three dimensions.
#[derive(Clone, Copy, Debug, PartialEq, Eq, Structural)]
pub enum CakeType {
    Cylinder,
    Brick,
}

impl CakeType {
    /// The default shape, a cylinder.
    pub fn new() -> (r: CakeType)
        ensures
            r == CakeType::Cylinder,
    {
        CakeType::Cylinder
    }

    /// The shape's name.
    pub fn label(&self) -> (r: &'static str)
        ensures
            *self == CakeType::Cylinder ==> r@ == "Cylinder"@,
            *self == CakeType::Brick ==> r@ == "Brick"@,
    {
        match self {
            CakeType::Cylinder => "Cylinder",
            CakeType::Brick => "Brick",
        }
    }

    /// The shape named `s` (`"Cylinder"` or `"Brick"`), if any.
    pub fn parse(s: &str) -> (r: Option<CakeType>)
        ensures
            s@ == "Cylinder"@ ==> r == Some(CakeType::Cylinder),
            s@ == "Brick"@ ==> r == Some(CakeType::Brick),
            s@ != "Cylinder"@ && s@ != "Brick"@ ==> r is None,
    {
        proof {
            reveal_strlit("Cylinder");
            reveal_strlit("Brick");
            assert("Cylinder"@.len() != "Brick"@.len());
        }
        let t = s.to_owned();
        if t == "Cylinder".to_owned() {
            Some(CakeType::Cylinder)
        } else if t == "Brick".to_owned() {
            Some(CakeType::Brick)
        } else {
            None
        }
    }
}

impl Default for CakeType {
    fn default() -> (r: CakeType)
        ensures
            r == CakeType::Cylinder,
    {
        CakeType::Cylinder
    }
}

impl std::str::FromStr for CakeType {
    type Err = ();

    fn from_str(s: &str) -> Result<CakeType, ()> {
        match CakeType::parse(s) {
            Some(c) => Ok(c),
            None => Err(()),
        }
    }
}

/// The hue of a shade at height `y` of the colour plane: the colour's `hue`
/// turned back by `plane_angle * y`, reduced into `0..FULL_TURN`.
/// (`plane_angle * y` is rounded down to millionths of a degree.)
pub open spec fn effective_hue_spec(hue: int, plane_angle: int, y: int) -> int {
    (hue - (plane_angle * y) / (UNIT as int)) % (FULL_TURN as int)
}

/// `v / d` rounded down, for a positive `d`.
pub(crate) fn floor_div(v: i64, d: i64) -> (r: i64)
    requires
        d > 0,
        v >= -0x4000_0000_0000_0000,
    ensures
        r == v as int / d as int,
{
    let n: i64 = if v >= 0 { v } else { -v };
    let q = n / d;
    let m = n % d;
    proof {
        vstd::arithmetic::div_mod::lemma_fundamental_div_mod(n as int, d as int);
        vstd::arithmetic::div_mod::lemma_mod_bound(n as int, d as int);
        assert(d * q == q * d) by (nonlinear_arith);
        assert(n == q * d + m);
    }
    if v >= 0 {
        proof {
            lemma_fundamental_div_mod_converse(v as int, d as int, q as int, m as int);
        }
        q
    } else if m == 0 {
        proof {
            assert((-q) * d == -(q * d)) by (nonlinear_arith);
            lemma_fundamental_div_mod_converse(v as int, d as int, -q, 0);
        }
        -q
    } else {
        proof {
            assert((-q - 1) * d == -(q * d) - d) by (nonlinear_arith);
            lemma_fundamental_div_mod_converse(v as int, d as int, -q - 1, d - m);
        }
        -q - 1
    }
}

/// The Euclidean remainder of `v` by a positive `d`.
pub(crate) fn euclid_mod(v: i64, d: i64) -> (r: i64)
    requires
        0 < d <= 0x4000_0000_0000_0000,
        v >= -0x4000_0000_0000_0000,
    ensures
        r == v as int % d as int,
        0 <= r < d,
{
    let q = floor_div(v, d);
    proof {
        vstd::arithmetic::div_mod::lemma_fundamental_div_mod(v as int, d as int);
        vstd::arithmetic::div_mod::lemma_mod_bound(v as int, d as int);
        assert(q * d == d * q) by (nonlinear_arith);
    }
    v - q * d
}

/// The hue of a shade at height `y`: `(hue - plane_angle * y) mod 360°`,
/// never negative.
pub fn effective_hue(hue: i32, plane_angle: i32, y: i32) -> (r: i32)
    ensures
        r == effective_hue_spec(hue as int, plane_angle as int, y as int),
        0 <= r < FULL_TURN,
{
    proof {
        assert(-0x4000_0000_0000_0000 <= plane_angle * y <= 0x4000_0000_0000_0000) by (nonlinear_arith)
            requires
                -0x8000_0000 <= plane_angle < 0x8000_0000,
                -0x8000_0000 <= y < 0x8000_0000,
        ;
    }
    let turned = floor_div(plane_angle as i64 * y as i64, UNIT as i64);
    proof {
        vstd::arithmetic::div_mod::lemma_div_is_ordered(plane_angle * y, 0x4000_0000_0000_0000, UNIT as int);
        vstd::arithmetic::div_mod::lemma_div_is_ordered(-0x4000_0000_0000_0000, plane_angle * y, UNIT as int);
    }
    euclid_mod(hue as i64 - turned, FULL_TURN) as i32
}

/// The coordinates of one shade in its colour space: hue in millionths of a
/// degree, saturation and value (or lightness) in millionths.
#[derive(Clone, Copy, Debug, PartialEq, Eq, Structural)]
pub struct ShadeColor {
    pub hue: i32,
    pub saturation: i32,
    pub level: i32,
}

/// The shade that sample point `p` gives for a colour of `hue` and `plane_angle`.
pub open spec fn shade_of(hue: int, plane_angle: int, p: Point) -> ShadeColor {
    ShadeColor { hue: effective_hue_spec(hue, plane_angle, p.y as int) as i32, saturation: p.x, level: p.y }
}

/// One shade for each sample point, in order: the point's `x` is the
/// saturation, its `y` the value (or lightness), and its hue is the colour's
/// hue shifted by the plane angle.
pub fn shade_colors(hue: i32, plane_angle: i32, sample_coords: &Vec<Point>) -> (r: Vec<ShadeColor>)
    ensures
        r@.len() == sample_coords@.len(),
        forall|i: int| 0 <= i < r@.len() ==> #[trigger] r@[i] == shade_of(hue as int, plane_angle as int, sample_coords@[i]),
{
    let mut out: Vec<ShadeColor> = Vec::new();
    let mut i: usize = 0;
    while i < sample_coords.len()
        invariant
            i <= sample_coords@.len(),
            out@.len() == i,
            forall|k: int| 0 <= k < i ==> #[trigger] out@[k] == shade_of(hue as int, plane_angle as int, sample_coords@[k]),
        decreases sample_coords@.len() - i,
    {
        let p = sample_coords[i];
        let h = effective_hue(hue, plane_angle, p.y);
        out.push(ShadeColor { hue: h, saturation: p.x, level: p.y });
        i = i + 1;
    }
    out
}

/// The Tailwind weight of shade `index` (50, 100, 200, ..., 900, 950), or 0
/// past the eleventh shade.
pub open spec fn tailwind_number(index: int) -> int {
    if index == 0 {
        50
    } else if 1 <= index <= 9 {
        index * 100
    } else if index == 10 {
        950
    } else {
        0
    }
}

/// The Tailwind weight of shade `index`, or 0 past the eleventh shade.
pub fn index_to_tailwind_number(index: usize) -> (r: usize)
    ensures
        r == tailwind_number(index as int),
{
    if index == 0 {
        50
    } else if index <= 9 {
        index * 100
    } else if index == 10 {
        950
    } else {
        0
    }
}

/// The uppercase hexadecimal digit `d`.
pub open spec fn hex_digit(d: int) -> char {
    "0123456789ABCDEF"@[d]
}

/// `v` as two uppercase hexadecimal digits.
pub open spec fn hex_byte(v: u8) -> Seq<char> {
    seq![hex_digit(v as int / 16), hex_digit(v as int % 16)]
}

/// `#RRGGBBFF`: the colour in uppercase hexadecimal, fully opaque.
pub open spec fn hex_rgba(c: (u8, u8, u8)) -> Seq<char> {
    seq!['#'] + hex_byte(c.0) + hex_byte(c.1) + hex_byte(c.2) + seq!['F', 'F']
}

/// Relies on `hex_color::HexColor::rgb` (alpha 255) shown through
/// `display_rgba`, which writes `#` and the four channels as two uppercase
/// hexadecimal digits each.
#[verifier::external_body]
fn hex_string(c: (u8, u8, u8)) -> (r: String)
    ensures
        r@ == hex_rgba(c),
{
    format!("{}", hex_color::HexColor::rgb(c.0, c.1, c.2).display_rgba())
}

/// The shades of a colour as swatch entries: the Tailwind weight of each of
/// the first eleven shades with the shade in hexadecimal (`#RRGGBBFF`).
pub fn shade_hex_table(shades: &Vec<(u8, u8, u8)>) -> (r: Vec<(usize, String)>)
    ensures
        r@.len() == if shades@.len() < 11 { shades@.len() } else { 11 },
        forall|i: int| 0 <= i < r@.len() ==> (#[trigger] r@[i]).0 == tailwind_number(i) && r@[i].1@ == hex_rgba(shades@[i]),
{
    let mut out: Vec<(usize, String)> = Vec::new();
    let mut i: usize = 0;
    while i < shades.len() && i < 11
        invariant
            i <= shades@.len(),
            i <= 11,
            out@.len() == i,
            forall|k: int| 0 <= k < i ==> (#[trigger] out@[k]).0 == tailwind_number(k) && out@[k].1@ == hex_rgba(shades@[k]),
        decreases 11 - i,
    {
        let weight = index_to_tailwind_number(i);
        let hex = hex_string(shades[i]);
        out.push((weight, hex));
        i = i + 1;
    }
    out
}

} // verus!
