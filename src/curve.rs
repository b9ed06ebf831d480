//! Sampling curves: ordered control points in the unit colour plane.

use vstd::prelude::*;

verus! {

broadcast use vstd::seq_lib::group_to_multiset_ensures;

/// `1.0` in the fixed-point scale of colour-plane coordinates.
pub const UNIT: i32 = 1_000_000;

/// Points whose `x` differ by less than this (`0.0001`) count as the same `x`.
pub const SAME_X_EPSILON: i64 = 100;

/// Distance (`0.01`) within which `try_y_align_at_x` picks a point.
pub const ALIGN_DISTANCE: i64 = 10_000;

/// A point of the colour plane, each coordinate in millionths.
#[derive(Clone, Copy, Debug, PartialEq, Eq, Structural)]
pub struct Point {
    pub x: i32,
    pub y: i32,
}

impl Point {
    pub fn new(x: i32, y: i32) -> (r: Point)
        ensures
            r == (Point { x, y }),
    {
        Point { x, y }
    }
}

pub open spec fn abs(v: int) -> int {
    if v < 0 {
        -v
    } else {
        v
    }
}

/// The two points have the same `x` up to `SAME_X_EPSILON`.
pub open spec fn close_x(a: Point, b: Point) -> bool {
    abs(a.x - b.x) < SAME_X_EPSILON
}

/// `a` comes strictly before `b` in a curve: by ascending `x`, and for the
/// same `x` by descending `y`.
pub open spec fn precedes(a: Point, b: Point) -> bool {
    if close_x(a, b) {
        a.y > b.y
    } else {
        a.x < b.x
    }
}

/// No point comes strictly before the point in front of it.
pub open spec fn adjacent_sorted(s: Seq<Point>) -> bool {
    forall|i: int| 0 <= i < s.len() - 1 ==> !precedes(#[trigger] s[i + 1], s[i])
}

/// Any two points with the same `x` up to `SAME_X_EPSILON` have equal `x`.
pub open spec fn x_separated(s: Seq<Point>) -> bool {
    forall|i: int, j: int|
        0 <= i < s.len() && 0 <= j < s.len() && close_x(#[trigger] s[i], #[trigger] s[j])
            ==> s[i].x == s[j].x
}

/// Non-decreasing in `x`, and among points with the same `x` up to
/// `SAME_X_EPSILON`, non-increasing in `y`.
pub open spec fn fully_sorted(s: Seq<Point>) -> bool {
    forall|i: int, j: int|
        0 <= i < j < s.len() ==> (#[trigger] s[i]).x <= (#[trigger] s[j]).x && (close_x(s[i], s[j])
            ==> s[i].y >= s[j].y)
}

/// Whether `p` is picked by an alignment probe at `pos`: the absolute values
/// of their `x` lie within `ALIGN_DISTANCE`.
pub open spec fn aligned_x(p: Point, pos: Point) -> bool {
    abs(abs(p.x as int) - abs(pos.x as int)) < ALIGN_DISTANCE
}

/// The point that `replace_point` writes: `new_point`, but with the old `x`
/// where `alt` is held and the old `y` where `ctrl` is held.
pub open spec fn locked_point(old_point: Point, new_point: Point, modifiers: Modifiers) -> Point {
    Point {
        x: if modifiers.alt { old_point.x } else { new_point.x },
        y: if modifiers.ctrl { old_point.y } else { new_point.y },
    }
}

/// Being near-equal in `x` is transitive over the points of `s`: they form
/// clusters of near-equal `x`.
pub open spec fn x_clustered(s: Seq<Point>) -> bool {
    forall|i: int, j: int, k: int|
        #![trigger close_x(s[i], s[j]), close_x(s[j], s[k])]
        0 <= i < s.len() && 0 <= j < s.len() && 0 <= k < s.len() && close_x(s[i], s[j]) && close_x(s[j], s[k])
            ==> close_x(s[i], s[k])
}

/// Non-decreasing in `x` up to `SAME_X_EPSILON`, and among points with the
/// same `x` up to `SAME_X_EPSILON`, non-increasing in `y`.
pub open spec fn sorted_up_to_epsilon(s: Seq<Point>) -> bool {
    forall|i: int, j: int|
        0 <= i < j < s.len() ==> (#[trigger] s[i]).x < (#[trigger] s[j]).x + SAME_X_EPSILON && (close_x(s[i], s[j])
            ==> s[i].y >= s[j].y)
}

proof fn lemma_clustered_step(s: Seq<Point>, i: int, j: int)
    requires
        adjacent_sorted(s),
        x_clustered(s),
        0 <= i <= j < s.len(),
    ensures
        close_x(s[i], s[j]) ==> s[i].y >= s[j].y,
        !close_x(s[i], s[j]) ==> s[i].x < s[j].x,
    decreases j - i,
{
    if i < j {
        lemma_clustered_step(s, i, j - 1);
        assert(!precedes(s[(j - 1) + 1], s[j - 1]));
        if close_x(s[j - 1], s[j]) {
            if close_x(s[i], s[j - 1]) {
                assert(close_x(s[i], s[j - 1]) && close_x(s[j - 1], s[j]) ==> close_x(s[i], s[j]));
            } else {
                assert(close_x(s[i], s[j]) && close_x(s[j], s[j - 1]) ==> close_x(s[i], s[j - 1]));
            }
        } else {
            if close_x(s[i], s[j - 1]) {
                assert(close_x(s[j - 1], s[i]) && close_x(s[i], s[j]) ==> close_x(s[j - 1], s[j]));
            }
        }
    }
}

/// In an adjacent-sorted curve whose near-equal `x` form clusters, `x` never
/// falls by `SAME_X_EPSILON` or more, and `y` never rises among near-equal `x`.
pub proof fn lemma_clustered_curve_order(s: Seq<Point>)
    requires
        adjacent_sorted(s),
        x_clustered(s),
    ensures
        sorted_up_to_epsilon(s),
{
    assert forall|i: int, j: int| 0 <= i < j < s.len() implies (#[trigger] s[i]).x < (#[trigger] s[j]).x
        + SAME_X_EPSILON && (close_x(s[i], s[j]) ==> s[i].y >= s[j].y) by {
        lemma_clustered_step(s, i, j);
    }
}

/// An adjacent-sorted curve whose near-equal `x` are equal is fully sorted.
pub proof fn lemma_sorted_curve_order(s: Seq<Point>)
    requires
        adjacent_sorted(s),
        x_separated(s),
    ensures
        fully_sorted(s),
{
    assert forall|i: int, j: int| 0 <= i < j < s.len() implies (#[trigger] s[i]).x <= (
    #[trigger] s[j]).x && (close_x(s[i], s[j]) ==> s[i].y >= s[j].y) by {
        lemma_x_ascending(s, i, j);
        if close_x(s[i], s[j]) {
            lemma_y_descending_on_equal_x(s, i, j);
        }
    }
}

proof fn lemma_x_ascending(s: Seq<Point>, i: int, j: int)
    requires
        adjacent_sorted(s),
        x_separated(s),
        0 <= i <= j < s.len(),
    ensures
        s[i].x <= s[j].x,
    decreases j - i,
{
    if i < j {
        lemma_x_ascending(s, i, j - 1);
        assert(!precedes(s[(j - 1) + 1], s[j - 1]));
    }
}

proof fn lemma_y_descending_on_equal_x(s: Seq<Point>, i: int, j: int)
    requires
        adjacent_sorted(s),
        x_separated(s),
        0 <= i <= j < s.len(),
        s[i].x == s[j].x,
    ensures
        s[i].y >= s[j].y,
    decreases j - i,
{
    if i < j {
        lemma_x_ascending(s, i, j - 1);
        lemma_x_ascending(s, j - 1, j);
        assert(s[j - 1].x == s[j].x);
        assert(!precedes(s[(j - 1) + 1], s[j - 1]));
        lemma_y_descending_on_equal_x(s, i, j - 1);
    }
}

fn precedes_exec(a: &Point, b: &Point) -> (r: bool)
    ensures
        r == precedes(*a, *b),
{
    let dx: i64 = a.x as i64 - b.x as i64;
    let close = if dx < 0 {
        -dx < SAME_X_EPSILON
    } else {
        dx < SAME_X_EPSILON
    };
    if close {
        a.y > b.y
    } else {
        a.x < b.x
    }
}

/// Inserts `e` into the adjacent-sorted `out`, behind every point that it
/// does not strictly precede.
fn insert_point_sorted(out: &mut Vec<Point>, e: Point)
    requires
        adjacent_sorted(old(out)@),
    ensures
        adjacent_sorted(final(out)@),
        final(out)@.to_multiset() == old(out)@.to_multiset().insert(e),
        old(out)@.len() == 0 || !precedes(e, old(out)@.last()) ==> final(out)@ == old(out)@.push(e),
{
    let mut k: usize = out.len();
    while k > 0 && precedes_exec(&e, &out[k - 1])
        invariant
            k <= out.len(),
            adjacent_sorted(out@),
            k < out.len() ==> precedes(e, out@[k as int]),
            out@.len() == 0 || !precedes(e, out@.last()) ==> k == out@.len(),
        decreases k,
    {
        k = k - 1;
    }
    let ghost before = out@;
    out.insert(k, e);
    proof {
        broadcast use vstd::seq_lib::to_multiset_insert;
        let s = out@;
        assert(s == before.insert(k as int, e));
        if before.len() == 0 || !precedes(e, before.last()) {
            assert(k == before.len());
            assert(s =~= before.push(e));
        }
        assert forall|i: int| 0 <= i < s.len() - 1 implies !precedes(#[trigger] s[i + 1], s[i]) by {
            if i + 1 < k {
                assert(s[i] == before[i] && s[i + 1] == before[i + 1]);
            } else if i + 1 == k {
                assert(s[i] == before[i] && s[i + 1] == e);
            } else if i == k {
                assert(s[i] == e && s[i + 1] == before[i]);
            } else {
                assert(s[i] == before[i - 1] && s[i + 1] == before[i]);
                assert(!precedes(before[(i - 1) + 1], before[i - 1]));
            }
        }
    }
}

/// Keyboard modifiers held while dragging a point: `alt` keeps its `x`,
/// `ctrl` keeps its `y`.
#[derive(Clone, Copy, Debug, PartialEq, Eq, Structural)]
pub struct Modifiers {
    pub alt: bool,
    pub ctrl: bool,
    pub shift: bool,
}

/// Why a curve edit was refused.
#[derive(Clone, Copy, Debug, PartialEq, Eq, Structural)]
pub enum CurveError {
    /// The point index is not below the number of points.
    InvalidIndex,
}

/// A named, editable sampling curve.
#[derive(Clone, Debug)]
pub struct SamplingCurve {
    pub name: String,
    /// Control points in the colour plane, kept in curve order.
    pub curve: Vec<Point>,
}

impl SamplingCurve {
    /// Re-establishes curve order: ascending `x`, and for the same `x` up to
    /// `SAME_X_EPSILON` descending `y`. A curve that is already in order is
    /// left as it is.
    pub fn sort(&mut self)
        ensures
            adjacent_sorted(final(self).curve@),
            final(self).curve@.to_multiset() == old(self).curve@.to_multiset(),
            final(self).name == old(self).name,
            adjacent_sorted(old(self).curve@) ==> final(self).curve@ == old(self).curve@,
            x_clustered(final(self).curve@) ==> sorted_up_to_epsilon(final(self).curve@),
    {
        let mut out: Vec<Point> = Vec::new();
        let mut i: usize = 0;
        proof {
            assert(self.curve@.take(0) =~= Seq::<Point>::empty());
        }
        while i < self.curve.len()
            invariant
                i <= self.curve@.len(),
                self.curve@ == old(self).curve@,
                self.name == old(self).name,
                adjacent_sorted(out@),
                out@.to_multiset() == self.curve@.take(i as int).to_multiset(),
                adjacent_sorted(old(self).curve@) ==> out@ == self.curve@.take(i as int),
            decreases self.curve@.len() - i,
        {
            let p = self.curve[i];
            proof {
                if adjacent_sorted(old(self).curve@) && i > 0 {
                    assert(!precedes(self.curve@[(i - 1) + 1], self.curve@[i - 1]));
                    assert(out@.last() == self.curve@[i - 1]);
                }
            }
            insert_point_sorted(&mut out, p);
            proof {
                broadcast use vstd::seq_lib::to_multiset_build;
                assert(self.curve@.take(i + 1) =~= self.curve@.take(i as int).push(p));
            }
            i = i + 1;
        }
        proof {
            assert(self.curve@.take(self.curve@.len() as int) =~= self.curve@);
            if x_clustered(out@) {
                lemma_clustered_curve_order(out@);
            }
        }
        self.curve = out;
    }

    /// Adds `point` and restores curve order.
    pub fn add_new_point(&mut self, point: Point)
        ensures
            adjacent_sorted(final(self).curve@),
            final(self).curve@.to_multiset() == old(self).curve@.to_multiset().insert(point),
            final(self).name == old(self).name,
            x_clustered(final(self).curve@) ==> sorted_up_to_epsilon(final(self).curve@),
    {
        self.curve.push(point);
        proof {
            broadcast use vstd::seq_lib::to_multiset_build;
        }
        self.sort();
    }

    /// Sets the `y` of the first point whose `|x|` lies within
    /// `ALIGN_DISTANCE` of `|pos.x|` to `pos.y`; does nothing if there is none.
    pub fn try_y_align_at_x(&mut self, pos: Point)
        ensures
            final(self).name == old(self).name,
            (forall|k: int| 0 <= k < old(self).curve@.len() ==> !aligned_x(#[trigger] old(self).curve@[k], pos))
                ==> final(self).curve@ == old(self).curve@,
            forall|i: int|
                0 <= i < old(self).curve@.len() && aligned_x(#[trigger] old(self).curve@[i], pos) && (forall|k: int|
                    0 <= k < i ==> !aligned_x(#[trigger] old(self).curve@[k], pos))
                    ==> final(self).curve@ == old(self).curve@.update(
                    i,
                    Point { x: old(self).curve@[i].x, y: pos.y },
                ),
    {
        let pos_abs: i64 = if pos.x < 0 {
            -(pos.x as i64)
        } else {
            pos.x as i64
        };
        let mut i: usize = 0;
        while i < self.curve.len()
            invariant
                i <= self.curve@.len(),
                self.curve@ == old(self).curve@,
                self.name == old(self).name,
                pos_abs == abs(pos.x as int),
                forall|k: int| 0 <= k < i ==> !aligned_x(#[trigger] old(self).curve@[k], pos),
            decreases self.curve@.len() - i,
        {
            let px: i64 = if self.curve[i].x < 0 {
                -(self.curve[i].x as i64)
            } else {
                self.curve[i].x as i64
            };
            let d: i64 = px - pos_abs;
            let within = if d < 0 {
                -d < ALIGN_DISTANCE
            } else {
                d < ALIGN_DISTANCE
            };
            if within {
                let x = self.curve[i].x;
                self.curve.set(i, Point { x, y: pos.y });
                return;
            }
            i = i + 1;
        }
    }

    /// Moves point `idx` to `new_point` (keeping its old `x` under `alt` and
    /// its old `y` under `ctrl`), restores curve order, and returns the index
    /// at which the moved point now stands: the first point equal to it.
    pub fn replace_point(&mut self, idx: usize, new_point: Point, modifiers: Modifiers) -> (r: usize)
        requires
            idx < old(self).curve@.len(),
        ensures
            ({
                let p = locked_point(old(self).curve@[idx as int], new_point, modifiers);
                &&& adjacent_sorted(final(self).curve@)
                &&& final(self).curve@.to_multiset() == old(self).curve@.update(
                    idx as int,
                    p,
                ).to_multiset()
                &&& r < final(self).curve@.len()
                &&& final(self).curve@[r as int] == p
                &&& forall|k: int| 0 <= k < r ==> final(self).curve@[k] != p
            }),
            final(self).name == old(self).name,
            x_clustered(final(self).curve@) ==> sorted_up_to_epsilon(final(self).curve@),
    {
        let old_point = self.curve[idx];
        let x = if modifiers.alt {
            old_point.x
        } else {
            new_point.x
        };
        let y = if modifiers.ctrl {
            old_point.y
        } else {
            new_point.y
        };
        let p = Point { x, y };
        self.curve.set(idx, p);
        let ghost updated = self.curve@;
        self.sort();
        proof {
            broadcast use vstd::seq_lib::to_multiset_contains;
            assert(updated[idx as int] == p);
            assert(updated.contains(p));
            assert(updated.to_multiset().count(p) > 0);
            assert(self.curve@.to_multiset().count(p) > 0);
            assert(self.curve@.contains(p));
        }
        let mut j: usize = 0;
        while j < self.curve.len()
            invariant
                j <= self.curve@.len(),
                self.curve@.contains(p),
                self.name == old(self).name,
                p == locked_point(old(self).curve@[idx as int], new_point, modifiers),
                adjacent_sorted(self.curve@),
                x_clustered(self.curve@) ==> sorted_up_to_epsilon(self.curve@),
                self.curve@.to_multiset() == old(self).curve@.update(idx as int, p).to_multiset(),
                forall|k: int| 0 <= k < j ==> self.curve@[k] != p,
            decreases self.curve@.len() - j,
        {
            if self.curve[j] == p {
                return j;
            }
            j = j + 1;
        }
        proof {
            let w = choose|w: int| 0 <= w < self.curve@.len() && self.curve@[w] == p;
            assert(self.curve@[w] != p);
        }
        j
    }

    /// Removes point `idx`; fails with `InvalidIndex` when there is no such point.
    pub fn remove_point(&mut self, idx: usize) -> (r: Result<Point, CurveError>)
        ensures
            final(self).name == old(self).name,
            idx < old(self).curve@.len() ==> r == Ok::<Point, CurveError>(old(self).curve@[idx as int])
                && final(self).curve@ == old(self).curve@.remove(idx as int),
            idx >= old(self).curve@.len() ==> r == Err::<Point, CurveError>(CurveError::InvalidIndex)
                && final(self).curve@ == old(self).curve@,
    {
        if idx < self.curve.len() {
            Ok(self.curve.remove(idx))
        } else {
            Err(CurveError::InvalidIndex)
        }
    }
}

/// The points of the "Tailwind Happy" preset.
pub open spec fn happy_points() -> Seq<Point> {
    seq![
        Point { x: 0, y: 1000000 },
        Point { x: 200000, y: 950000 },
        Point { x: 300000, y: 920000 },
        Point { x: 400000, y: 860000 },
        Point { x: 470000, y: 800000 },
        Point { x: 550000, y: 720000 },
        Point { x: 620000, y: 630000 },
        Point { x: 700000, y: 530000 },
        Point { x: 800000, y: 400000 },
        Point { x: 900000, y: 200000 },
        Point { x: 1000000, y: 0 },
    ]
}

/// The points of the "Pixelart 5" preset.
pub open spec fn pixelart_5_points() -> Seq<Point> {
    seq![
        Point { x: 0, y: 1000000 },
        Point { x: 250000, y: 800000 },
        Point { x: 500000, y: 600000 },
        Point { x: 750000, y: 300000 },
        Point { x: 1000000, y: 0 },
    ]
}

/// Point `i` of the "Tailwind Diagonal" preset: `(i / 11, 1 - i / 11)`, with
/// `i / 11` rounded down to millionths.
pub open spec fn diagonal_point(i: int) -> Point {
    Point { x: (i * 1_000_000 / 11) as i32, y: (1_000_000 - i * 1_000_000 / 11) as i32 }
}

impl SamplingCurve {
    /// A new curve with the single point `(0.5, 0.5)`.
    pub fn new() -> (r: SamplingCurve)
        ensures
            r.name@ == "New Curve"@,
            r.curve@ == seq![Point { x: 500_000, y: 500_000 }],
    {
        let mut curve: Vec<Point> = Vec::new();
        curve.push(Point { x: 500_000, y: 500_000 });
        proof {
            assert(curve@ =~= seq![Point { x: 500_000, y: 500_000 }]);
        }
        SamplingCurve { name: "New Curve".to_owned(), curve }
    }

    /// The eleven-point "Tailwind Happy" preset.
    pub fn tailwind_happy() -> (r: SamplingCurve)
        ensures
            r.name@ == "Tailwind Happy"@,
            r.curve@ == happy_points(),
    {
        let mut curve: Vec<Point> = Vec::new();
        curve.push(Point { x: 0, y: 1000000 });
        curve.push(Point { x: 200000, y: 950000 });
        curve.push(Point { x: 300000, y: 920000 });
        curve.push(Point { x: 400000, y: 860000 });
        curve.push(Point { x: 470000, y: 800000 });
        curve.push(Point { x: 550000, y: 720000 });
        curve.push(Point { x: 620000, y: 630000 });
        curve.push(Point { x: 700000, y: 530000 });
        curve.push(Point { x: 800000, y: 400000 });
        curve.push(Point { x: 900000, y: 200000 });
        curve.push(Point { x: 1000000, y: 0 });
        proof {
            assert(curve@ =~= happy_points());
        }
        SamplingCurve { name: "Tailwind Happy".to_owned(), curve }
    }

    /// The eleven-point "Tailwind Diagonal" preset: `(i / 11, 1 - i / 11)`
    /// for `i` in `0..11`.
    pub fn tailwind_diagonal() -> (r: SamplingCurve)
        ensures
            r.name@ == "Tailwind Diagonal"@,
            r.curve@ == Seq::new(11, |i: int| diagonal_point(i)),
    {
        let mut curve: Vec<Point> = Vec::new();
        let mut i: i32 = 0;
        while i < 11
            invariant
                0 <= i <= 11,
                curve@ == Seq::new(i as nat, |k: int| diagonal_point(k)),
            decreases 11 - i,
        {
            let x: i32 = i * UNIT / 11;
            curve.push(Point { x, y: UNIT - x });
            proof {
                assert(curve@ =~= Seq::new((i + 1) as nat, |k: int| diagonal_point(k)));
            }
            i = i + 1;
        }
        SamplingCurve { name: "Tailwind Diagonal".to_owned(), curve }
    }

    /// The five-point "Pixelart 5" preset.
    pub fn pixelart_5() -> (r: SamplingCurve)
        ensures
            r.name@ == "Pixelart 5"@,
            r.curve@ == pixelart_5_points(),
    {
        let mut curve: Vec<Point> = Vec::new();
        curve.push(Point { x: 0, y: 1000000 });
        curve.push(Point { x: 250000, y: 800000 });
        curve.push(Point { x: 500000, y: 600000 });
        curve.push(Point { x: 750000, y: 300000 });
        curve.push(Point { x: 1000000, y: 0 });
        proof {
            assert(curve@ =~= pixelart_5_points());
        }
        SamplingCurve { name: "Pixelart 5".to_owned(), curve }
    }
}

} // verus!
