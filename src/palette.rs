//! Palette colours, the curve registry, and the palette that owns both.

use crate::color::{euclid_mod, floor_div, shade_colors, shade_of, CakeType, ColorSpace, ShadeColor, FULL_TURN};
use crate::curve::{Point, SamplingCurve, happy_points, diagonal_point, pixelart_5_points};
use crate::sampling::{sample_point, SamplingRect};
use crate::tools::ToolsViewState;
use std::collections::BTreeMap;
use vstd::prelude::*;
use vstd::string::StringExecFns;

verus! {

broadcast use vstd::laws_cmp::group_laws_cmp, vstd::std_specs::btree::group_btree_axioms;

/// The identifier of the curve that every palette keeps.
pub const NIL_CURVE_ID: u128 = 0;

/// One degree, in millionths of a degree.
pub const DEGREE: i32 = 1_000_000;

/// Why a palette request was refused.
#[derive(Clone, Copy, Debug, PartialEq, Eq, Structural)]
pub enum PaletteError {
    /// The colour refers to a curve that the registry does not hold.
    MissingCurve,
    /// Every identifier drawn for a new curve was already in the registry.
    CurveIdTaken,
}

/// The decimal digit `d`.
pub open spec fn digit_char(d: nat) -> char {
    "0123456789"@[d as int]
}

/// The decimal digits of `n`, most significant first.
pub open spec fn decimal_digits(n: nat) -> Seq<char>
    decreases n,
{
    if n < 10 {
        seq![digit_char(n)]
    } else {
        decimal_digits(n / 10).push(digit_char(n % 10))
    }
}

/// `v` written in decimal, with a leading `-` when negative.
pub open spec fn decimal(v: int) -> Seq<char> {
    if v < 0 {
        seq!['-'] + decimal_digits((-v) as nat)
    } else {
        decimal_digits(v as nat)
    }
}

/// The one-character string of digit `d`.
fn digit_str(d: u64) -> (r: &'static str)
    requires
        d < 10,
    ensures
        r@ == seq![digit_char(d as nat)],
{
    proof {
        reveal_strlit("0123456789");
        reveal_strlit("0");
        reveal_strlit("1");
        reveal_strlit("2");
        reveal_strlit("3");
        reveal_strlit("4");
        reveal_strlit("5");
        reveal_strlit("6");
        reveal_strlit("7");
        reveal_strlit("8");
        reveal_strlit("9");
    }
    match d {
        0 => "0",
        1 => "1",
        2 => "2",
        3 => "3",
        4 => "4",
        5 => "5",
        6 => "6",
        7 => "7",
        8 => "8",
        _ => "9",
    }
}

/// Appends the decimal digits of `n` to `s`.
fn append_digits(s: &mut String, n: u64)
    ensures
        final(s)@ == old(s)@ + decimal_digits(n as nat),
    decreases n,
{
    if n >= 10 {
        append_digits(s, n / 10);
    }
    s.append(digit_str(n % 10));
    proof {
        if n >= 10 {
            assert(old(s)@ + decimal_digits((n / 10) as nat) + seq![digit_char((n % 10) as nat)] =~= old(s)@ + decimal_digits(n as nat));
        } else {
            assert(old(s)@ + seq![digit_char((n % 10) as nat)] =~= old(s)@ + decimal_digits(n as nat));
        }
    }
}

/// `v` in decimal, with a leading `-` when negative.
fn decimal_string(v: i32) -> (r: String)
    ensures
        r@ == decimal(v as int),
{
    let mut r = String::new();
    if v < 0 {
        r.append("-");
        proof {
            reveal_strlit("-");
        }
        append_digits(&mut r, (-(v as i64)) as u64);
        proof {
            assert(r@ =~= seq!['-'] + decimal_digits((-v) as nat));
        }
    } else {
        append_digits(&mut r, v as u64);
        proof {
            assert(r@ =~= decimal_digits(v as nat));
        }
    }
    r
}

/// The name a new colour gets: "some-color-" followed by `degrees` in decimal.
fn default_color_name(degrees: i32) -> (r: String)
    ensures
        r@ == "some-color-"@ + decimal(degrees as int),
{
    let digits = decimal_string(degrees);
    let mut name = String::from_str("some-color-");
    name.append(digits.as_str());
    name
}

/// Relies on `uuid::Uuid::new_v4`: a random identifier, as its 128 bits.
#[verifier::external_body]
fn new_curve_id() -> (r: u128) {
    uuid::Uuid::new_v4().as_u128()
}

/// A colour of the palette: its hue, how its shades are sampled, and how
/// they are read as colours.
#[derive(Clone, Debug)]
pub struct PaletteColor {
    pub name: String,
    /// Hue in millionths of a degree.
    pub hue: i32,
    pub color_space: ColorSpace,
    pub sampling_rect: SamplingRect,
    /// The registry key of the curve this colour samples.
    pub sampling_curve_id: u128,
    pub cake_type: CakeType,
    /// Hue shift per unit of height in the colour plane, in millionths of a degree.
    pub color_plane_angle: i32,
}

/// The sample points of a curve seen through a sampling rectangle.
pub open spec fn rect_samples(rect: SamplingRect, points: Seq<Point>) -> Seq<Point> {
    Seq::new(points.len(), |i: int| sample_point((rect.translate_spec(), rect.scale_spec(), rect.rotate_spec()), points[i]))
}

/// The shades that sample points give for a colour of `hue` and `plane_angle`.
pub open spec fn shades_of(hue: int, plane_angle: int, points: Seq<Point>) -> Seq<ShadeColor> {
    Seq::new(points.len(), |i: int| shade_of(hue, plane_angle, points[i]))
}

/// `c` is the colour that `PaletteColor::new` makes for `hue`.
pub open spec fn fresh_color(c: PaletteColor, hue: int) -> bool {
    &&& c.name@ == "some-color-"@ + decimal(hue / DEGREE as int)
    &&& c.hue == hue
    &&& c.color_space == ColorSpace::HSV
    &&& c.sampling_rect == SamplingRect::new_spec()
    &&& c.sampling_curve_id == NIL_CURVE_ID
    &&& c.cake_type == CakeType::Cylinder
    &&& c.color_plane_angle == 0
}

impl PaletteColor {
    /// A colour of `hue` (millionths of a degree), named after its hue in
    /// whole degrees, sampling the nil curve through the default rectangle
    /// in HSV, with no plane angle.
    pub fn new(hue: i32) -> (r: PaletteColor)
        ensures
            fresh_color(r, hue as int),
    {
        let degrees = floor_div(hue as i64, DEGREE as i64);
        proof {
            vstd::arithmetic::div_mod::lemma_div_is_ordered(hue as int, 0x8000_0000, DEGREE as int);
            vstd::arithmetic::div_mod::lemma_div_is_ordered(-0x8000_0000, hue as int, DEGREE as int);
        }
        let degrees = degrees as i32;
        PaletteColor {
            name: default_color_name(degrees),
            hue,
            color_space: ColorSpace::new(),
            sampling_rect: SamplingRect::new(),
            sampling_curve_id: NIL_CURVE_ID,
            cake_type: CakeType::new(),
            color_plane_angle: 0,
        }
    }

    /// The points at which this colour is sampled: its curve's points seen
    /// through its sampling rectangle. Fails with `MissingCurve` when the
    /// registry does not hold its curve.
    pub fn samples(&self, sampling_curves: &BTreeMap<u128, SamplingCurve>) -> (r: Result<Vec<Point>, PaletteError>)
        ensures
            sampling_curves@.contains_key(self.sampling_curve_id) <==> r is Ok,
            r is Err ==> r == Err::<Vec<Point>, PaletteError>(PaletteError::MissingCurve),
            r is Ok ==> r->Ok_0@ == rect_samples(self.sampling_rect, sampling_curves@[self.sampling_curve_id].curve@),
    {
        match sampling_curves.get(&self.sampling_curve_id) {
            Some(curve) => {
                let matrices = self.sampling_rect.matrices();
                let points = crate::sampling::static_sample(&matrices, &curve.curve);
                proof {
                    assert(points@ =~= rect_samples(self.sampling_rect, curve.curve@));
                }
                Ok(points)
            },
            None => Err(PaletteError::MissingCurve),
        }
    }

    /// The shade of each sample point, in order: the point's coordinates as
    /// saturation and value (or lightness), and this colour's hue shifted by
    /// its plane angle.
    pub fn shades(&self, sample_coords: &Vec<Point>) -> (r: Vec<ShadeColor>)
        ensures
            r@ == shades_of(self.hue as int, self.color_plane_angle as int, sample_coords@),
    {
        let r = shade_colors(self.hue, self.color_plane_angle, sample_coords);
        proof {
            assert(r@ =~= shades_of(self.hue as int, self.color_plane_angle as int, sample_coords@));
        }
        r
    }

    /// Whether this colour's curve has the eleven points of a Tailwind
    /// palette. Fails with `MissingCurve` when the registry does not hold it.
    pub fn is_tailwind(&self, sampling_curves: &BTreeMap<u128, SamplingCurve>) -> (r: Result<bool, PaletteError>)
        ensures
            sampling_curves@.contains_key(self.sampling_curve_id) <==> r is Ok,
            r is Err ==> r == Err::<bool, PaletteError>(PaletteError::MissingCurve),
            r is Ok ==> r->Ok_0 == (sampling_curves@[self.sampling_curve_id].curve@.len() == 11),
    {
        match sampling_curves.get(&self.sampling_curve_id) {
            Some(curve) => Ok(curve.curve.len() == 11),
            None => Err(PaletteError::MissingCurve),
        }
    }
}

/// How many random identifiers a new curve may draw before giving up.
pub const CURVE_ID_DRAWS: usize = 8;

/// A random identifier that `curves` does not hold yet, if one of
/// `CURVE_ID_DRAWS` draws gives one.
fn fresh_curve_id(curves: &BTreeMap<u128, SamplingCurve>) -> (r: Option<u128>)
    ensures
        r matches Some(id) ==> !curves@.contains_key(id),
{
    let mut n: usize = 0;
    while n < CURVE_ID_DRAWS
        decreases CURVE_ID_DRAWS - n,
    {
        let id = new_curve_id();
        if !curves.contains_key(&id) {
            return Some(id);
        }
        n = n + 1;
    }
    None
}

/// An empty curve gives no sample points, and no sample points give no shades.
pub proof fn lemma_empty_is_safe(rect: SamplingRect, hue: int, plane_angle: int)
    ensures
        rect_samples(rect, Seq::empty()) == Seq::<Point>::empty(),
        shades_of(hue, plane_angle, Seq::empty()) == Seq::<ShadeColor>::empty(),
{
    assert(rect_samples(rect, Seq::empty()) =~= Seq::<Point>::empty());
    assert(shades_of(hue, plane_angle, Seq::empty()) =~= Seq::<ShadeColor>::empty());
}

/// Whether a colour of hue `c_hue` is kept when removing `hue`: their hues
/// lie at least two degrees apart.
pub open spec fn far_from_hue(c_hue: int, hue: int) -> bool {
    c_hue - hue >= 2 * DEGREE || hue - c_hue >= 2 * DEGREE
}

/// The colours of `s` whose hue lies at least two degrees from `hue`, in order.
pub open spec fn colors_away_from(s: Seq<PaletteColor>, hue: int) -> Seq<PaletteColor>
    decreases s.len(),
{
    if s.len() == 0 {
        Seq::empty()
    } else if far_from_hue(s.last().hue as int, hue) {
        colors_away_from(s.drop_last(), hue).push(s.last())
    } else {
        colors_away_from(s.drop_last(), hue)
    }
}

/// A palette: its colours, the registry of curves they sample, and which
/// tool panels are shown.
#[derive(Clone, Debug)]
pub struct Palette {
    pub colors: Vec<PaletteColor>,
    pub sampling_curves: BTreeMap<u128, SamplingCurve>,
    pub tools_view_state: ToolsViewState,
}

impl Palette {
    /// The nil curve is always present.
    pub open spec fn wf(&self) -> bool {
        &&& self.sampling_curves@.contains_key(NIL_CURVE_ID)
        &&& self.tools_view_state.wf()
    }

    /// A palette with one colour of hue 180° and the preset curves: "Tailwind
    /// Happy" under the nil id, "Tailwind Diagonal" under 1, "Pixelart 5" under 2.
    pub fn new() -> (r: Palette)
        ensures
            r.wf(),
            r.colors@.len() == 1,
            fresh_color(r.colors@[0], 180 * DEGREE as int),
            r.sampling_curves@.dom() == set![NIL_CURVE_ID, 1u128, 2u128],
            r.sampling_curves@[NIL_CURVE_ID].curve@ == happy_points(),
            r.sampling_curves@[1u128].curve@ == Seq::new(11, |i: int| diagonal_point(i)),
            r.sampling_curves@[2u128].curve@ == pixelart_5_points(),
            r.sampling_curves@[NIL_CURVE_ID].name@ == "Tailwind Happy"@,
            r.sampling_curves@[1u128].name@ == "Tailwind Diagonal"@,
            r.sampling_curves@[2u128].name@ == "Pixelart 5"@,
            r.tools_view_state.show_tools@ == seq![true, true, false, false, true, false],
    {
        let mut colors: Vec<PaletteColor> = Vec::new();
        colors.push(PaletteColor::new(180 * DEGREE));
        let mut sampling_curves: BTreeMap<u128, SamplingCurve> = BTreeMap::new();
        sampling_curves.insert(NIL_CURVE_ID, SamplingCurve::tailwind_happy());
        sampling_curves.insert(1, SamplingCurve::tailwind_diagonal());
        sampling_curves.insert(2, SamplingCurve::pixelart_5());
        proof {
            assert(sampling_curves@.dom() =~= set![NIL_CURVE_ID, 1u128, 2u128]);
        }
        Palette { colors, sampling_curves, tools_view_state: ToolsViewState::new() }
    }

    /// Adds a new curve (see `SamplingCurve::new`) under a random id that
    /// the registry does not hold yet, and returns that id. Fails with
    /// `CurveIdTaken`, changing nothing, when every id drawn was taken.
    pub fn add_new_curve(&mut self) -> (r: Result<u128, PaletteError>)
        requires
            old(self).wf(),
        ensures
            final(self).wf(),
            final(self).colors == old(self).colors,
            final(self).tools_view_state == old(self).tools_view_state,
            r matches Ok(id) ==> {
                &&& !old(self).sampling_curves@.contains_key(id)
                &&& final(self).sampling_curves@ == old(self).sampling_curves@.insert(id, final(self).sampling_curves@[id])
                &&& final(self).sampling_curves@[id].name@ == "New Curve"@
                &&& final(self).sampling_curves@[id].curve@ == seq![Point { x: 500_000, y: 500_000 }]
            },
            r is Err ==> r == Err::<u128, PaletteError>(PaletteError::CurveIdTaken)
                && final(self).sampling_curves@ == old(self).sampling_curves@,
    {
        match fresh_curve_id(&self.sampling_curves) {
            Some(id) => self.add_curve_at(id),
            None => Err(PaletteError::CurveIdTaken),
        }
    }

    /// Adds a new curve (see `SamplingCurve::new`) under `id` and returns
    /// `id`; fails with `CurveIdTaken`, changing nothing, when the registry
    /// already holds `id`.
    pub fn add_curve_at(&mut self, id: u128) -> (r: Result<u128, PaletteError>)
        requires
            old(self).wf(),
        ensures
            final(self).wf(),
            final(self).colors == old(self).colors,
            final(self).tools_view_state == old(self).tools_view_state,
            r is Ok <==> !old(self).sampling_curves@.contains_key(id),
            r is Ok ==> r == Ok::<u128, PaletteError>(id)
                && final(self).sampling_curves@ == old(self).sampling_curves@.insert(id, final(self).sampling_curves@[id])
                && final(self).sampling_curves@[id].name@ == "New Curve"@
                && final(self).sampling_curves@[id].curve@ == seq![Point { x: 500_000, y: 500_000 }],
            r is Err ==> r == Err::<u128, PaletteError>(PaletteError::CurveIdTaken)
                && final(self).sampling_curves@ == old(self).sampling_curves@,
    {
        if self.sampling_curves.contains_key(&id) {
            return Err(PaletteError::CurveIdTaken);
        }
        let curve = SamplingCurve::new();
        self.sampling_curves.insert(id, curve);
        Ok(id)
    }

    /// Adds a colour whose hue is 26° times the number of colours, modulo 360°.
    pub fn add_new_color(&mut self)
        requires
            old(self).wf(),
        ensures
            final(self).wf(),
            final(self).colors@.len() == old(self).colors@.len() + 1,
            final(self).colors@.drop_last() == old(self).colors@,
            fresh_color(final(self).colors@.last(), (old(self).colors@.len() * (26 * DEGREE)) % FULL_TURN as int),
            final(self).sampling_curves == old(self).sampling_curves,
            final(self).tools_view_state == old(self).tools_view_state,
    {
        let n = self.colors.len() as u128;
        proof {
            assert(n * 26_000_000 <= 0x1_0000_0000_0000_0000 * 26_000_000) by (nonlinear_arith)
                requires
                    n < 0x1_0000_0000_0000_0000,
            ;
        }
        let hue = ((n * 26_000_000) % (FULL_TURN as u128)) as i32;
        let color = PaletteColor::new(hue);
        self.colors.push(color);
        proof {
            assert(self.colors@.drop_last() =~= old(self).colors@);
        }
    }

    /// Adds a colour of `hue` reduced into `0..360°`.
    pub fn add_new_color_hue(&mut self, hue: i32)
        requires
            old(self).wf(),
        ensures
            final(self).wf(),
            final(self).colors@.len() == old(self).colors@.len() + 1,
            final(self).colors@.drop_last() == old(self).colors@,
            fresh_color(final(self).colors@.last(), hue as int % FULL_TURN as int),
            final(self).sampling_curves == old(self).sampling_curves,
            final(self).tools_view_state == old(self).tools_view_state,
    {
        let h = euclid_mod(hue as i64, FULL_TURN) as i32;
        let color = PaletteColor::new(h);
        self.colors.push(color);
        proof {
            assert(self.colors@.drop_last() =~= old(self).colors@);
        }
    }

    /// Removes every colour whose hue lies within two degrees of `hue`.
    pub fn remove_hue(&mut self, hue: i32)
        requires
            old(self).wf(),
        ensures
            final(self).wf(),
            final(self).colors@ == colors_away_from(old(self).colors@, hue as int),
            final(self).sampling_curves == old(self).sampling_curves,
            final(self).tools_view_state == old(self).tools_view_state,
    {
        let ghost orig = self.colors@;
        let mut i: usize = 0;
        let ghost mut j: int = 0;
        proof {
            assert(orig.take(0) =~= Seq::<PaletteColor>::empty());
            assert(self.colors@.take(0) =~= Seq::<PaletteColor>::empty());
            assert(orig.skip(0) =~= orig);
            assert(self.colors@.skip(0) =~= self.colors@);
        }
        while i < self.colors.len()
            invariant
                i <= self.colors@.len(),
                0 <= j <= orig.len(),
                self.colors@.len() - i == orig.len() - j,
                self.colors@.take(i as int) == colors_away_from(orig.take(j), hue as int),
                self.colors@.skip(i as int) == orig.skip(j),
                self.wf(),
                self.sampling_curves == old(self).sampling_curves,
                self.tools_view_state == old(self).tools_view_state,
            decreases self.colors@.len() - i,
        {
            let c_hue = self.colors[i].hue;
            let far = c_hue as i64 - hue as i64 >= 2 * DEGREE as i64 || hue as i64 - c_hue as i64 >= 2 * DEGREE as i64;
            let ghost before = self.colors@;
            proof {
                assert(orig.skip(j)[0] == before.skip(i as int)[0]);
                assert(orig[j] == before[i as int]);
                assert(orig.take(j + 1).drop_last() =~= orig.take(j));
                assert(orig.take(j + 1).last() == orig[j]);
            }
            if far {
                proof {
                    assert forall|k: int| 0 <= k < before.skip(i + 1).len() implies #[trigger] before.skip(i + 1)[k] == orig.skip(j + 1)[k] by {
                        assert(before.skip(i as int)[k + 1] == orig.skip(j)[k + 1]);
                    }
                    assert(before.skip(i + 1) =~= orig.skip(j + 1));
                    assert(before.take(i + 1) =~= before.take(i as int).push(before[i as int]));
                }
                i = i + 1;
            } else {
                self.colors.remove(i);
                proof {
                    assert(self.colors@ == before.remove(i as int));
                    assert(self.colors@.take(i as int) =~= before.take(i as int));
                    assert forall|k: int| 0 <= k < self.colors@.skip(i as int).len() implies #[trigger] self.colors@.skip(i as int)[k] == orig.skip(j + 1)[k] by {
                        assert(before.skip(i as int)[k + 1] == orig.skip(j)[k + 1]);
                    }
                    assert(self.colors@.skip(i as int) =~= orig.skip(j + 1));
                }
            }
            proof {
                j = j + 1;
            }
        }
        proof {
            assert(orig.skip(j).len() == 0);
            assert(j == orig.len());
            assert(orig.take(j) =~= orig);
            assert(self.colors@.take(i as int) =~= self.colors@);
        }
    }

    /// Adds the curve `points` (put in curve order) as `curve_name` under a
    /// random id that the registry does not hold yet, and an HSV colour
    /// `name` of `hue` that samples it; returns the curve's id. Fails with
    /// `CurveIdTaken`, changing nothing, when every id drawn was taken.
    pub fn import_color(&mut self, name: String, curve_name: String, hue: i32, points: Vec<Point>) -> (r: Result<u128, PaletteError>)
        requires
            old(self).wf(),
        ensures
            final(self).wf(),
            final(self).tools_view_state == old(self).tools_view_state,
            r matches Ok(id) ==> {
                let c = final(self).colors@.last();
                &&& !old(self).sampling_curves@.contains_key(id)
                &&& final(self).sampling_curves@ == old(self).sampling_curves@.insert(id, final(self).sampling_curves@[id])
                &&& final(self).sampling_curves@[id].name == curve_name
                &&& final(self).sampling_curves@[id].curve@.to_multiset() == points@.to_multiset()
                &&& crate::curve::adjacent_sorted(final(self).sampling_curves@[id].curve@)
                &&& final(self).colors@.drop_last() == old(self).colors@
                &&& final(self).colors@.len() == old(self).colors@.len() + 1
                &&& c.name == name
                &&& c.hue == hue
                &&& c.sampling_curve_id == id
                &&& c.color_space == ColorSpace::HSV
                &&& c.sampling_rect == SamplingRect::new_spec()
                &&& c.cake_type == CakeType::Cylinder
                &&& c.color_plane_angle == 0
            },
            r is Err ==> r == Err::<u128, PaletteError>(PaletteError::CurveIdTaken)
                && final(self).sampling_curves@ == old(self).sampling_curves@
                && final(self).colors == old(self).colors,
    {
        match fresh_curve_id(&self.sampling_curves) {
            Some(id) => self.import_color_at(name, curve_name, hue, points, id),
            None => Err(PaletteError::CurveIdTaken),
        }
    }

    /// Adds the curve `points` (put in curve order) as `curve_name` under
    /// `id`, and an HSV colour `name` of `hue` that samples it; returns `id`.
    /// Fails with `CurveIdTaken`, changing nothing, when the registry already
    /// holds `id`.
    pub fn import_color_at(&mut self, name: String, curve_name: String, hue: i32, points: Vec<Point>, id: u128) -> (r: Result<u128, PaletteError>)
        requires
            old(self).wf(),
        ensures
            final(self).wf(),
            final(self).tools_view_state == old(self).tools_view_state,
            r is Ok <==> !old(self).sampling_curves@.contains_key(id),
            r is Ok ==> r == Ok::<u128, PaletteError>(id) && ({
                let c = final(self).colors@.last();
                &&& !old(self).sampling_curves@.contains_key(id)
                &&& final(self).sampling_curves@ == old(self).sampling_curves@.insert(id, final(self).sampling_curves@[id])
                &&& final(self).sampling_curves@[id].name == curve_name
                &&& final(self).sampling_curves@[id].curve@.to_multiset() == points@.to_multiset()
                &&& crate::curve::adjacent_sorted(final(self).sampling_curves@[id].curve@)
                &&& final(self).colors@.drop_last() == old(self).colors@
                &&& final(self).colors@.len() == old(self).colors@.len() + 1
                &&& c.name == name
                &&& c.hue == hue
                &&& c.sampling_curve_id == id
                &&& c.color_space == ColorSpace::HSV
                &&& c.sampling_rect == SamplingRect::new_spec()
                &&& c.cake_type == CakeType::Cylinder
                &&& c.color_plane_angle == 0
            }),
            r is Err ==> r == Err::<u128, PaletteError>(PaletteError::CurveIdTaken)
                && final(self).sampling_curves@ == old(self).sampling_curves@
                && final(self).colors == old(self).colors,
    {
        if self.sampling_curves.contains_key(&id) {
            return Err(PaletteError::CurveIdTaken);
        }
        let mut curve = SamplingCurve { name: curve_name, curve: points };
        curve.sort();
        self.sampling_curves.insert(id, curve);
        let mut color = PaletteColor::new(hue);
        color.name = name;
        color.sampling_curve_id = id;
        color.color_space = ColorSpace::HSV;
        self.colors.push(color);
        proof {
            assert(self.colors@.drop_last() =~= old(self).colors@);
        }
        Ok(id)
    }
}

} // verus!
