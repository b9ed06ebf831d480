//! Parametric samplers: formulas that give a sample point for each stop.

use crate::curve::{Point, UNIT};
use crate::sampling::{clamp_point, clamp_unit, get_equidistant_points_in_range, sample_point, static_sample, SamplingRect};
use vstd::prelude::*;

verus! {

/// `r` is the integer square root of `n`.
pub open spec fn is_isqrt(n: int, r: int) -> bool {
    0 <= r && r * r <= n < (r + 1) * (r + 1)
}

/// The integer square root of `n` (the largest `r` with `r * r <= n`).
pub open spec fn isqrt(n: int) -> int {
    choose|r: int| is_isqrt(n, r)
}

proof fn lemma_isqrt_unique(n: int, a: int, b: int)
    requires
        is_isqrt(n, a),
        is_isqrt(n, b),
    ensures
        a == b,
{
    if a < b {
        assert((a + 1) * (a + 1) <= b * b) by (nonlinear_arith)
            requires
                0 <= a,
                a + 1 <= b,
        ;
    } else if b < a {
        assert((b + 1) * (b + 1) <= a * a) by (nonlinear_arith)
            requires
                0 <= b,
                b + 1 <= a,
        ;
    }
}

/// `isqrt(n)` is `r` wherever `r` is a square root of `n`.
proof fn lemma_isqrt_is(n: int, r: int)
    requires
        is_isqrt(n, r),
    ensures
        isqrt(n) == r,
{
    let s = isqrt(n);
    assert(is_isqrt(n, s));
    lemma_isqrt_unique(n, r, s);
}

/// The integer square root of `n`.
pub fn integer_sqrt(n: u128) -> (r: u128)
    ensures
        is_isqrt(n as int, r as int),
        r as int == isqrt(n as int),
        r < 0x1_0000_0000_0000_0000,
{
    let mut lo: u128 = 0;
    let mut hi: u128 = 0x1_0000_0000_0000_0000;
    proof {
        assert(0x1_0000_0000_0000_0000 * 0x1_0000_0000_0000_0000 > n) by (nonlinear_arith);
    }
    while hi - lo > 1
        invariant
            lo < hi <= 0x1_0000_0000_0000_0000,
            lo * lo <= n,
            n < hi * hi,
        decreases hi - lo,
    {
        let mid = lo + (hi - lo) / 2;
        proof {
            assert(mid * mid <= 0x1_0000_0000_0000_0000 * 0x1_0000_0000_0000_0000) by (nonlinear_arith)
                requires
                    mid <= 0x1_0000_0000_0000_0000,
            ;
            assert(mid * mid < 0x1_0000_0000_0000_0000 * 0x1_0000_0000_0000_0000) by (nonlinear_arith)
                requires
                    mid < 0x1_0000_0000_0000_0000,
            ;
        }
        if mid * mid <= n {
            lo = mid;
        } else {
            hi = mid;
        }
    }
    proof {
        assert(hi == lo + 1);
        lemma_isqrt_is(n as int, lo as int);
    }
    lo
}

/// `a / b` rounded toward zero, for a positive `b`.
pub open spec fn div_toward_zero(a: int, b: int) -> int {
    if a >= 0 {
        a / b
    } else {
        -((-a) / b)
    }
}

/// `t / sqrt(1 + t^2)` in millionths for `t` in millionths, rounded toward
/// zero: `t * UNIT / isqrt(UNIT^2 + t^2)`.
pub open spec fn algebraic_simple_spec(t: int) -> int {
    div_toward_zero(t * UNIT, isqrt(UNIT * UNIT + t * t))
}

/// The algebraic sigmoid `x / sqrt(1 + x^2)`, in millionths; it lies in
/// `-UNIT..=UNIT` and is 0 at 0.
pub fn algebraic_simple(x: i64) -> (r: i64)
    ensures
        r == algebraic_simple_spec(x as int),
        -UNIT <= r <= UNIT,
{
    let u: i128 = UNIT as i128;
    let ax: i128 = if x < 0 { -(x as i128) } else { x as i128 };
    proof {
        assert(ax * ax <= 0x8000_0000_0000_0000 * 0x8000_0000_0000_0000) by (nonlinear_arith)
            requires
                0 <= ax <= 0x8000_0000_0000_0000,
        ;
        assert(x * x == ax * ax) by (nonlinear_arith)
            requires
                ax == x || ax == -x,
        ;
    }
    let n: u128 = (u * u + ax * ax) as u128;
    let s = integer_sqrt(n);
    proof {
        // s >= ax and s >= UNIT, since s + 1 squared exceeds both squares
        assert(s >= ax) by (nonlinear_arith)
            requires
                (s + 1) * (s + 1) > ax * ax + 1_000_000 * 1_000_000,
                s >= 0,
                ax >= 0,
        ;
        assert(s >= 1_000_000) by (nonlinear_arith)
            requires
                (s + 1) * (s + 1) > ax * ax + 1_000_000 * 1_000_000,
                s >= 0,
                ax >= 0,
        ;
        assert(ax * 1_000_000 <= s * 1_000_000) by (nonlinear_arith)
            requires
                s >= ax,
        ;
        vstd::arithmetic::div_mod::lemma_div_is_ordered(ax * 1_000_000, s * 1_000_000, s as int);
        vstd::arithmetic::div_mod::lemma_div_by_multiple(1_000_000, s as int);
        assert(s * 1_000_000 == 1_000_000 * s) by (nonlinear_arith);
        vstd::arithmetic::div_mod::lemma_div_pos_is_pos(ax * 1_000_000, s as int);
        assert((-(x as int)) * UNIT == -(x * UNIT)) by (nonlinear_arith);
    }
    let q: i128 = (ax * u) / (s as i128);
    proof {
        assert(n as int == UNIT * UNIT + x * x);
        assert(s as int == isqrt(UNIT * UNIT + x * x));
        if x >= 0 {
            assert(ax * u == x * UNIT);
        } else {
            assert(ax * u == -(x * UNIT));
        }
    }
    if x >= 0 {
        q as i64
    } else {
        -(q as i64)
    }
}

/// Height of the sigmoid sampler of `amplification` at stop `x`:
/// `0.5 - algebraic_simple((x - 0.5) * amplification) / 2`, each division
/// rounded toward zero.
pub open spec fn sigmoid_y(x: int, amplification: int) -> int {
    UNIT / 2 - div_toward_zero(algebraic_simple_spec(div_toward_zero((x - UNIT / 2) * amplification, UNIT as int)), 2)
}

/// A sampler given by a formula rather than by an edited curve.
#[derive(Clone, Copy, Debug, PartialEq, Eq, Structural)]
pub enum ParametricSampler {
    /// The algebraic sigmoid, stretched by `amplification` (millionths);
    /// a negative amplification reverses the points.
    Sigmoid { amplification: i32 },
    /// `y = 1 - x`.
    Diagonal,
    /// The first fixed eleven-point curve.
    FixedCurveA,
    /// The second fixed eleven-point curve.
    FixedCurveB,
}

/// The points of the first fixed curve.
pub open spec fn fixed_curve_a() -> Seq<Point> {
    seq![
        Point { x: 0, y: 1000000 },
        Point { x: 200000, y: 900000 },
        Point { x: 300000, y: 800000 },
        Point { x: 400000, y: 670000 },
        Point { x: 470000, y: 570000 },
        Point { x: 550000, y: 470000 },
        Point { x: 620000, y: 400000 },
        Point { x: 700000, y: 360000 },
        Point { x: 800000, y: 300000 },
        Point { x: 900000, y: 200000 },
        Point { x: 1000000, y: 0 },
    ]
}

/// The sigmoid points of `amplification` at the stops `xs`, in stop order.
pub open spec fn sigmoid_points(xs: Seq<i32>, amplification: int) -> Seq<Point> {
    Seq::new(xs.len(), |i: int| clamp_point(Point { x: xs[i], y: clamp_unit(sigmoid_y(xs[i] as int, amplification)) as i32 }))
}

/// What `sampler` gives at the stops `xs`, each point in the unit square.
pub open spec fn sampler_points(sampler: ParametricSampler, xs: Seq<i32>) -> Seq<Point> {
    match sampler {
        ParametricSampler::Sigmoid { amplification } => if amplification < 0 {
            sigmoid_points(xs, amplification as int).reverse()
        } else {
            sigmoid_points(xs, amplification as int)
        },
        ParametricSampler::Diagonal => Seq::new(
            xs.len(),
            |i: int| Point { x: clamp_unit(xs[i] as int) as i32, y: (UNIT - clamp_unit(xs[i] as int)) as i32 },
        ),
        ParametricSampler::FixedCurveA => fixed_curve_a(),
        ParametricSampler::FixedCurveB => crate::curve::happy_points(),
    }
}

fn sigmoid_y_exec(x: i32, amplification: i32) -> (r: i32)
    ensures
        r == clamp_unit(sigmoid_y(x as int, amplification as int)),
{
    let d: i64 = x as i64 - (UNIT / 2) as i64;
    proof {
        assert(d * amplification <= 0x1_0000_0000 * 0x8000_0000) by (nonlinear_arith)
            requires
                -0x1_0000_0000 <= d <= 0x1_0000_0000,
                -0x8000_0000 <= amplification <= 0x8000_0000,
        ;
        assert(-(0x1_0000_0000 * 0x8000_0000) <= d * amplification) by (nonlinear_arith)
            requires
                -0x1_0000_0000 <= d <= 0x1_0000_0000,
                -0x8000_0000 <= amplification <= 0x8000_0000,
        ;
    }
    let p: i128 = d as i128 * amplification as i128;
    let t: i128 = if p >= 0 { p / UNIT as i128 } else { -((-p) / UNIT as i128) };
    proof {
        vstd::arithmetic::div_mod::lemma_div_is_ordered(p as int, (0x1_0000_0000 * 0x8000_0000) as int, UNIT as int);
        vstd::arithmetic::div_mod::lemma_div_is_ordered(-(p as int), (0x1_0000_0000 * 0x8000_0000) as int, UNIT as int);
    }
    let a = algebraic_simple(t as i64);
    let h: i64 = if a >= 0 { a / 2 } else { -((-a) / 2) };
    let y: i64 = (UNIT / 2) as i64 - h;
    if y < 0 {
        0
    } else if y > UNIT as i64 {
        UNIT
    } else {
        y as i32
    }
}

fn clamp_coord(v: i64) -> (r: i32)
    ensures
        r == clamp_unit(v as int),
{
    if v < 0 {
        0
    } else if v > UNIT as i64 {
        UNIT
    } else {
        v as i32
    }
}

impl ParametricSampler {
    /// The sampler's points at the stops `xs`, each clamped to the unit square.
    /// The fixed curves give their own eleven points whatever the stops.
    pub fn sample(&self, xs: &Vec<i32>) -> (r: Vec<Point>)
        ensures
            r@ == sampler_points(*self, xs@),
    {
        match self {
            ParametricSampler::Sigmoid { amplification } => {
                let amp = *amplification;
                let mut out: Vec<Point> = Vec::new();
                let mut i: usize = 0;
                while i < xs.len()
                    invariant
                        i <= xs@.len(),
                        out@ == sigmoid_points(xs@, amp as int).take(i as int),
                    decreases xs@.len() - i,
                {
                    let x = xs[i];
                    let y = sigmoid_y_exec(x, amp);
                    out.push(Point { x: clamp_coord(x as i64), y });
                    proof {
                        assert(out@ =~= sigmoid_points(xs@, amp as int).take(i + 1));
                    }
                    i = i + 1;
                }
                proof {
                    assert(sigmoid_points(xs@, amp as int).take(xs@.len() as int) =~= sigmoid_points(xs@, amp as int));
                }
                if amp < 0 {
                    let mut rev: Vec<Point> = Vec::new();
                    let mut k: usize = out.len();
                    while k > 0
                        invariant
                            k <= out@.len(),
                            out@ == sigmoid_points(xs@, amp as int),
                            rev@ == out@.reverse().take(out@.len() - k),
                        decreases k,
                    {
                        k = k - 1;
                        rev.push(out[k]);
                        proof {
                            assert(rev@ =~= out@.reverse().take(out@.len() - k));
                        }
                    }
                    proof {
                        assert(out@.reverse().take(out@.len() as int) =~= out@.reverse());
                    }
                    rev
                } else {
                    out
                }
            },
            ParametricSampler::Diagonal => {
                let mut out: Vec<Point> = Vec::new();
                let mut i: usize = 0;
                while i < xs.len()
                    invariant
                        i <= xs@.len(),
                        out@ == sampler_points(ParametricSampler::Diagonal, xs@).take(i as int),
                    decreases xs@.len() - i,
                {
                    let x = clamp_coord(xs[i] as i64);
                    out.push(Point { x, y: UNIT - x });
                    proof {
                        assert(out@ =~= sampler_points(ParametricSampler::Diagonal, xs@).take(i + 1));
                    }
                    i = i + 1;
                }
                proof {
                    assert(sampler_points(ParametricSampler::Diagonal, xs@).take(xs@.len() as int) =~= sampler_points(ParametricSampler::Diagonal, xs@));
                }
                out
            },
            ParametricSampler::FixedCurveA => {
                let mut curve: Vec<Point> = Vec::new();
                curve.push(Point { x: 0, y: 1000000 });
                curve.push(Point { x: 200000, y: 900000 });
                curve.push(Point { x: 300000, y: 800000 });
                curve.push(Point { x: 400000, y: 670000 });
                curve.push(Point { x: 470000, y: 570000 });
                curve.push(Point { x: 550000, y: 470000 });
                curve.push(Point { x: 620000, y: 400000 });
                curve.push(Point { x: 700000, y: 360000 });
                curve.push(Point { x: 800000, y: 300000 });
                curve.push(Point { x: 900000, y: 200000 });
                curve.push(Point { x: 1000000, y: 0 });
                proof {
                    assert(curve@ =~= fixed_curve_a());
                }
                curve
            },
            ParametricSampler::FixedCurveB => crate::curve::SamplingCurve::tailwind_happy().curve,
        }
    }
}

/// Where the stops of a shade ramp lie along `x`.
#[derive(Clone, Debug)]
pub enum ColorShades {
    /// Eleven stops spaced evenly over `0..=1`.
    Tailwind,
    /// The given stops, in millionths.
    Custom(Vec<i32>),
}

/// The eleven Tailwind stops `0, 0.1, ..., 1`.
pub open spec fn tailwind_stops() -> Seq<i32> {
    Seq::new(11, |i: int| (i * 100_000) as i32)
}

/// The stops that `shades` names.
pub open spec fn shade_stops(shades: ColorShades) -> Seq<i32> {
    match shades {
        ColorShades::Tailwind => tailwind_stops(),
        ColorShades::Custom(v) => v@,
    }
}

/// The sample points of `sampler` at the stops of `shades`, seen through `rect`.
pub open spec fn sampler_samples_spec(sampler: ParametricSampler, shades: ColorShades, rect: SamplingRect) -> Seq<Point> {
    let pts = sampler_points(sampler, shade_stops(shades));
    Seq::new(pts.len(), |i: int| sample_point((rect.translate_spec(), rect.scale_spec(), rect.rotate_spec()), pts[i]))
}

/// The sample points of `sampler` at the stops of `shades`, transformed by
/// `rect` (see `static_sample`).
pub fn sampler_samples(sampler: &ParametricSampler, shades: &ColorShades, rect: &SamplingRect) -> (r: Vec<Point>)
    ensures
        r@ == sampler_samples_spec(*sampler, *shades, *rect),
{
    let pts = match shades {
        ColorShades::Tailwind => {
            let stops = get_equidistant_points_in_range(0, UNIT, 11);
            match stops {
                Ok(xs) => {
                    proof {
                        assert forall|i: int| 0 <= i < 11 implies #[trigger] xs@[i] == tailwind_stops()[i] by {
                            assert((i * 1_000_000) / 10 == i * 100_000);
                        }
                        assert(xs@ =~= tailwind_stops());
                    }
                    sampler.sample(&xs)
                },
                Err(_) => Vec::new(),
            }
        },
        ColorShades::Custom(xs) => sampler.sample(xs),
    };
    let matrices = rect.matrices();
    let r = static_sample(&matrices, &pts);
    proof {
        assert(r@ =~= sampler_samples_spec(*sampler, *shades, *rect));
    }
    r
}

/// At the middle stop the sigmoid sampler gives height one half, whatever
/// its amplification.
pub proof fn lemma_sigmoid_midpoint(amplification: int)
    ensures
        sigmoid_y(UNIT / 2, amplification) == UNIT / 2,
{
    let u = UNIT as int;
    assert(is_isqrt(u * u, u)) by (nonlinear_arith)
        requires
            u == 1_000_000,
    ;
    lemma_isqrt_is(u * u + 0 * 0, u);
    assert((UNIT / 2 - UNIT / 2) * amplification == 0);
}

/// Turning the sign of the amplification reverses the order of the sigmoid
/// points over stops that lie symmetric about one half, and keeps their
/// heights: point `i` of `Sigmoid(-a)` has the height of point `i` of
/// `Sigmoid(a)` and the stop of point `n - 1 - i`.
pub proof fn lemma_sigmoid_sign_reverses(xs: Seq<i32>, a: i32)
    requires
        a > 0,
        forall|i: int| 0 <= i < xs.len() ==> #[trigger] xs[i] + xs[xs.len() - 1 - i] == UNIT,
    ensures
        ({
            let neg = sampler_points(ParametricSampler::Sigmoid { amplification: (-a) as i32 }, xs);
            let pos = sampler_points(ParametricSampler::Sigmoid { amplification: a }, xs);
            &&& neg.len() == pos.len()
            &&& forall|i: int| 0 <= i < pos.len() ==> (#[trigger] neg[i]).y == pos[i].y && neg[i].x == pos[pos.len() - 1 - i].x
        }),
{
    let neg = sampler_points(ParametricSampler::Sigmoid { amplification: (-a) as i32 }, xs);
    let pos = sampler_points(ParametricSampler::Sigmoid { amplification: a }, xs);
    let n = xs.len() as int;
    assert forall|i: int| 0 <= i < n implies (#[trigger] neg[i]).y == pos[i].y && neg[i].x == pos[n - 1 - i].x by {
        let j = n - 1 - i;
        assert(xs[i] + xs[n - 1 - i] == UNIT);
        assert((xs[j] - UNIT / 2) * (-a) == (xs[i] - UNIT / 2) * a) by (nonlinear_arith)
            requires
                xs[i] + xs[j] == 1_000_000,
        ;
    }
}

} // verus!
