//! Equidistant stops and the sampling-rectangle transform.

use crate::curve::{Point, UNIT};
use vstd::prelude::*;

verus! {

/// Why a sampling request was refused.
#[derive(Clone, Copy, Debug, PartialEq, Eq, Structural)]
pub enum SamplingError {
    /// Fewer than two stops were asked of `get_equidistant_points_in_range`.
    DegenerateEquidistantRange,
}

/// Stop `i` of `count` stops from `start` to `end`:
/// `start + i / (count - 1) * (end - start)`, rounded toward `start`.
pub open spec fn equidistant_point(start: int, end: int, count: int, i: int) -> int {
    if end >= start {
        start + (i * (end - start)) / (count - 1)
    } else {
        start - (i * (start - end)) / (count - 1)
    }
}

proof fn lemma_equidistant_between(start: int, end: int, count: int, i: int)
    requires
        count >= 2,
        0 <= i < count,
    ensures
        start <= end ==> start <= equidistant_point(start, end, count, i) <= end,
        end < start ==> end <= equidistant_point(start, end, count, i) <= start,
        i == 0 ==> equidistant_point(start, end, count, i) == start,
        i == count - 1 ==> equidistant_point(start, end, count, i) == end,
{
    let n = count - 1;
    let d = if end >= start {
        end - start
    } else {
        start - end
    };
    assert(0 <= i * d <= n * d) by (nonlinear_arith)
        requires
            0 <= i <= n,
            d >= 0,
    ;
    vstd::arithmetic::div_mod::lemma_div_is_ordered(i * d, n * d, n);
    vstd::arithmetic::div_mod::lemma_div_by_multiple(d, n);
    assert((n * d) / n == d) by {
        assert(n * d == d * n) by (nonlinear_arith);
    }
    vstd::arithmetic::div_mod::lemma_div_pos_is_pos(i * d, n);
    if i == 0 {
        assert(i * d == 0);
    }
    if i == n {
        assert(i * d == n * d);
    }
}

/// `count` values spaced evenly from `start` to `end`, both included.
/// Fails with `DegenerateEquidistantRange` when `count < 2`.
pub fn get_equidistant_points_in_range(start: i32, end: i32, count: usize) -> (r: Result<Vec<i32>, SamplingError>)
    ensures
        count < 2 <==> r is Err,
        r is Err ==> r == Err::<Vec<i32>, SamplingError>(SamplingError::DegenerateEquidistantRange),
        r is Ok ==> {
            let v = r->Ok_0@;
            &&& v.len() == count
            &&& forall|i: int| 0 <= i < count ==> #[trigger] v[i] == equidistant_point(start as int, end as int, count as int, i)
            &&& v[0] == start
            &&& v[count - 1] == end
        },
{
    if count < 2 {
        return Err(SamplingError::DegenerateEquidistantRange);
    }
    let mut points: Vec<i32> = Vec::new();
    let n: i128 = (count - 1) as i128;
    let ascending = end >= start;
    let d: i128 = if ascending {
        end as i128 - start as i128
    } else {
        start as i128 - end as i128
    };
    let mut idx: usize = 0;
    while idx < count
        invariant
            idx <= count,
            count >= 2,
            n == count - 1,
            ascending == (end >= start),
            d == (if end >= start { end - start } else { start - end }),
            points@.len() == idx,
            forall|i: int| 0 <= i < idx ==> #[trigger] points@[i] == equidistant_point(start as int, end as int, count as int, i),
        decreases count - idx,
    {
        proof {
            lemma_equidistant_between(start as int, end as int, count as int, idx as int);
            assert(0 <= idx * d <= 0x1_0000_0000 * 0x1_0000_0000_0000_0000) by (nonlinear_arith)
                requires
                    0 <= idx < 0x1_0000_0000_0000_0000,
                    0 <= d <= 0x1_0000_0000,
            ;
        }
        let offset: i128 = (idx as i128 * d) / n;
        let x: i128 = if ascending {
            start as i128 + offset
        } else {
            start as i128 - offset
        };
        points.push(x as i32);
        idx = idx + 1;
    }
    proof {
        lemma_equidistant_between(start as int, end as int, count as int, 0);
        lemma_equidistant_between(start as int, end as int, count as int, count - 1);
    }
    Ok(points)
}

/// Magnitude bound on the entries of a `Mat3`.
pub const MAT_BOUND: i64 = 0x8000_0000;

/// A 2D affine transform in fixed point:
/// `x' = (a * x + b * y) / UNIT + tx`, `y' = (c * x + d * y) / UNIT + ty`,
/// with every entry in millionths.
#[derive(Clone, Copy, Debug, PartialEq, Eq, Structural)]
pub struct Mat3 {
    pub a: i64,
    pub b: i64,
    pub c: i64,
    pub d: i64,
    pub tx: i64,
    pub ty: i64,
}

impl Mat3 {
    pub open spec fn wf(self) -> bool {
        &&& -MAT_BOUND <= self.a <= MAT_BOUND
        &&& -MAT_BOUND <= self.b <= MAT_BOUND
        &&& -MAT_BOUND <= self.c <= MAT_BOUND
        &&& -MAT_BOUND <= self.d <= MAT_BOUND
        &&& -MAT_BOUND <= self.tx <= MAT_BOUND
        &&& -MAT_BOUND <= self.ty <= MAT_BOUND
    }
}

/// `m` applied to a point held with scale `s`, the result held with scale
/// `s * UNIT` (so no rounding takes place).
pub open spec fn lift(m: Mat3, q: (int, int), s: int) -> (int, int) {
    (m.a * q.0 + m.b * q.1 + m.tx * s, m.c * q.0 + m.d * q.1 + m.ty * s)
}

/// `m0 * m1 * m2` applied to `p`, exact, with scale `UNIT^3`.
pub open spec fn transform_exact(ms: (Mat3, Mat3, Mat3), p: Point) -> (int, int) {
    let u = UNIT as int;
    lift(ms.0, lift(ms.1, lift(ms.2, (p.x as int, p.y as int), u), u * u), u * u * u)
}

/// `v` clamped to `0..=UNIT`.
pub open spec fn clamp_unit(v: int) -> int {
    if v < 0 {
        0
    } else if v > UNIT {
        UNIT as int
    } else {
        v
    }
}

pub open spec fn clamp_point(p: Point) -> Point {
    Point { x: clamp_unit(p.x as int) as i32, y: clamp_unit(p.y as int) as i32 }
}

/// `p` clamped to the unit square, transformed by `m0 * m1 * m2`, rounded
/// down to millionths and clamped to the unit square again.
pub open spec fn sample_point(ms: (Mat3, Mat3, Mat3), p: Point) -> Point {
    let u = UNIT as int;
    let t = transform_exact(ms, clamp_point(p));
    Point { x: clamp_unit(t.0 / (u * u * u)) as i32, y: clamp_unit(t.1 / (u * u * u)) as i32 }
}

proof fn lemma_mul_bound(a: int, b: int, ba: int, bb: int)
    requires
        -ba <= a <= ba,
        -bb <= b <= bb,
    ensures
        -(ba * bb) <= a * b <= ba * bb,
{
    assert(-(ba * bb) <= a * b <= ba * bb) by (nonlinear_arith)
        requires
            -ba <= a <= ba,
            -bb <= b <= bb,
    ;
}

fn lift_exec(m: &Mat3, q0: i128, q1: i128, s: i128, Ghost(bq): Ghost<int>) -> (r: (i128, i128))
    requires
        m.wf(),
        0 <= bq <= 0x400_0000_0000_0000_0000_0000,
        -bq <= q0 <= bq,
        -bq <= q1 <= bq,
        0 <= s <= 0x1_0000_0000_0000_0000,
    ensures
        r.0 == lift(*m, (q0 as int, q1 as int), s as int).0,
        r.1 == lift(*m, (q0 as int, q1 as int), s as int).1,
        -(2 * (MAT_BOUND * bq) + MAT_BOUND * s) <= r.0 <= 2 * (MAT_BOUND * bq) + MAT_BOUND * s,
        -(2 * (MAT_BOUND * bq) + MAT_BOUND * s) <= r.1 <= 2 * (MAT_BOUND * bq) + MAT_BOUND * s,
{
    let ghost bm = MAT_BOUND as int;
    proof {
        lemma_mul_bound(m.a as int, q0 as int, bm, bq);
        lemma_mul_bound(m.b as int, q1 as int, bm, bq);
        lemma_mul_bound(m.c as int, q0 as int, bm, bq);
        lemma_mul_bound(m.d as int, q1 as int, bm, bq);
        lemma_mul_bound(m.tx as int, s as int, bm, s as int);
        lemma_mul_bound(m.ty as int, s as int, bm, s as int);
        assert(bm * bq <= 0x8000_0000 * 0x400_0000_0000_0000_0000_0000) by (nonlinear_arith)
            requires
                bm == 0x8000_0000,
                0 <= bq <= 0x400_0000_0000_0000_0000_0000,
        ;
        assert(bm * s <= 0x8000_0000 * 0x1_0000_0000_0000_0000) by (nonlinear_arith)
            requires
                bm == 0x8000_0000,
                0 <= s <= 0x1_0000_0000_0000_0000,
        ;
    }
    let x = m.a as i128 * q0 + m.b as i128 * q1 + m.tx as i128 * s;
    let y = m.c as i128 * q0 + m.d as i128 * q1 + m.ty as i128 * s;
    (x, y)
}

/// `clamp_unit(n / scale)` for a positive `scale`.
fn clamp_quotient(n: i128, scale: i128) -> (r: i32)
    requires
        scale > 0,
    ensures
        r == clamp_unit(n as int / scale as int),
{
    if n < 0 {
        proof {
            vstd::arithmetic::div_mod::lemma_div_is_ordered(n as int, 0, scale as int);
            vstd::arithmetic::div_mod::lemma_div_of0(scale as int);
            assert(n as int / scale as int <= 0);
            if n as int / scale as int == 0 {
                vstd::arithmetic::div_mod::lemma_fundamental_div_mod(n as int, scale as int);
            }
        }
        0
    } else {
        let q = n / scale;
        if q > UNIT as i128 {
            UNIT
        } else {
            q as i32
        }
    }
}

/// Applies `sampling_rect_matrices` (translate, scale, rotate, combined as
/// `translate * scale * rotate`) to each point: the point is clamped to the
/// unit square before and after the transform.
pub fn static_sample(sampling_rect_matrices: &(Mat3, Mat3, Mat3), input_points: &Vec<Point>) -> (r: Vec<Point>)
    requires
        sampling_rect_matrices.0.wf(),
        sampling_rect_matrices.1.wf(),
        sampling_rect_matrices.2.wf(),
    ensures
        r@.len() == input_points@.len(),
        forall|i: int| 0 <= i < r@.len() ==> #[trigger] r@[i] == sample_point(*sampling_rect_matrices, input_points@[i]),
{
    let mut points: Vec<Point> = Vec::new();
    let u: i128 = UNIT as i128;
    let mut i: usize = 0;
    while i < input_points.len()
        invariant
            i <= input_points@.len(),
            u == UNIT,
            sampling_rect_matrices.0.wf(),
            sampling_rect_matrices.1.wf(),
            sampling_rect_matrices.2.wf(),
            points@.len() == i,
            forall|k: int| 0 <= k < i ==> #[trigger] points@[k] == sample_point(*sampling_rect_matrices, input_points@[k]),
        decreases input_points@.len() - i,
    {
        let p = input_points[i];
        let cx = clamp_quotient(p.x as i128, 1);
        let cy = clamp_quotient(p.y as i128, 1);
        proof {
            assert(p.x as int / 1 == p.x as int);
            assert(p.y as int / 1 == p.y as int);
        }
        let q2 = lift_exec(&sampling_rect_matrices.2, cx as i128, cy as i128, u, Ghost(1_000_000));
        let q1 = lift_exec(&sampling_rect_matrices.1, q2.0, q2.1, u * u, Ghost(0x20_0000_0000_0000));
        let q0 = lift_exec(&sampling_rect_matrices.0, q1.0, q1.1, u * u * u, Ghost(0x40_0000_0000_0000_0000_0000));
        let x = clamp_quotient(q0.0, u * u * u);
        let y = clamp_quotient(q0.1, u * u * u);
        points.push(Point { x, y });
        i = i + 1;
    }
    points
}

/// The rectangle of the colour plane in which a curve is sampled: the unit
/// square is scaled to `width` by `height`, turned by the rotation whose
/// cosine and sine are `rotation_cos` and `rotation_sin`, and moved to
/// `(x, y)`. All fields are in millionths.
#[derive(Clone, Copy, Debug, PartialEq, Eq, Structural)]
pub struct SamplingRect {
    pub x: i32,
    pub y: i32,
    pub width: i32,
    pub height: i32,
    pub rotation_cos: i32,
    pub rotation_sin: i32,
}

impl SamplingRect {
    pub open spec fn new_spec() -> SamplingRect {
        SamplingRect { x: 130_000, y: 130_000, width: 750_000, height: 750_000, rotation_cos: UNIT, rotation_sin: 0 }
    }

    /// The default rectangle: inset to `(0.13, 0.13)`, `0.75` by `0.75`, unrotated.
    pub fn new() -> (r: SamplingRect)
        ensures
            r == Self::new_spec(),
    {
        SamplingRect { x: 130_000, y: 130_000, width: 750_000, height: 750_000, rotation_cos: UNIT, rotation_sin: 0 }
    }

    /// The whole unit square, unrotated.
    pub fn identity() -> (r: SamplingRect)
        ensures
            r == (SamplingRect { x: 0, y: 0, width: UNIT, height: UNIT, rotation_cos: UNIT, rotation_sin: 0 }),
    {
        SamplingRect { x: 0, y: 0, width: UNIT, height: UNIT, rotation_cos: UNIT, rotation_sin: 0 }
    }

    pub open spec fn translate_spec(self) -> Mat3 {
        Mat3 { a: UNIT as i64, b: 0, c: 0, d: UNIT as i64, tx: self.x as i64, ty: self.y as i64 }
    }

    pub open spec fn scale_spec(self) -> Mat3 {
        Mat3 { a: self.width as i64, b: 0, c: 0, d: self.height as i64, tx: 0, ty: 0 }
    }

    pub open spec fn rotate_spec(self) -> Mat3 {
        Mat3 {
            a: self.rotation_cos as i64,
            b: -self.rotation_sin as i64,
            c: self.rotation_sin as i64,
            d: self.rotation_cos as i64,
            tx: 0,
            ty: 0,
        }
    }

    /// The translation to `(x, y)`.
    pub fn translate_mat(&self) -> (r: Mat3)
        ensures
            r == self.translate_spec(),
            r.wf(),
    {
        Mat3 { a: UNIT as i64, b: 0, c: 0, d: UNIT as i64, tx: self.x as i64, ty: self.y as i64 }
    }

    /// The scaling to `width` by `height`.
    pub fn scale_mat(&self) -> (r: Mat3)
        ensures
            r == self.scale_spec(),
            r.wf(),
    {
        Mat3 { a: self.width as i64, b: 0, c: 0, d: self.height as i64, tx: 0, ty: 0 }
    }

    /// The rotation by the rectangle's angle.
    pub fn rotate_mat(&self) -> (r: Mat3)
        ensures
            r == self.rotate_spec(),
            r.wf(),
    {
        Mat3 {
            a: self.rotation_cos as i64,
            b: -(self.rotation_sin as i64),
            c: self.rotation_sin as i64,
            d: self.rotation_cos as i64,
            tx: 0,
            ty: 0,
        }
    }

    /// The translation, scaling and rotation matrices, in that order.
    pub fn matrices(&self) -> (r: (Mat3, Mat3, Mat3))
        ensures
            r == (self.translate_spec(), self.scale_spec(), self.rotate_spec()),
            r.0.wf(),
            r.1.wf(),
            r.2.wf(),
    {
        (self.translate_mat(), self.scale_mat(), self.rotate_mat())
    }
}

impl Default for SamplingRect {
    fn default() -> (r: SamplingRect)
        ensures
            r == SamplingRect::new_spec(),
    {
        SamplingRect::new()
    }
}

} // verus!
