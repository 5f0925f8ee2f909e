//! Outlines of the Glyph Interchange Format (GLIF).
//!
//! A GLIF contour is a list of points, each on the outline (`move`, `line`,
//! `curve`, `qcurve`) or a control point (`offcurve`). A contour that starts
//! with a `move` point is open; any other contour is closed and its list of
//! points is cyclic. This module turns such a list into the Bézier curves of
//! the contour.
use vstd::prelude::*;

use crate::text::str_equal;

verus! {

/// The type of a GLIF point.
#[derive(Debug, Clone, Copy, PartialEq, Eq, Default)]
pub enum PointKind {
    /// Starts an open contour; only allowed as the first point.
    Move,
    /// A straight line from the previous point to this one.
    Line,
    /// A control point of the curve segment that ends at the next `curve`.
    #[default]
    Offcurve,
    /// The end of a cubic curve segment from the last on-curve point.
    Curve,
    /// The end of a quadratic curve segment.
    Qcurve,
}

/// A point of a GLIF contour.
#[derive(Debug, Clone, PartialEq, Eq)]
pub struct Point {
    pub x: i64,
    pub y: i64,
    pub type_: PointKind,
    pub smooth: Option<String>,
}

impl Point {
    /// Whether the point ends a curve segment.
    pub fn is_curve(&self) -> (ret: bool)
        ensures
            ret == (self.type_ == PointKind::Curve),
    {
        matches!(self.type_, PointKind::Curve)
    }

    /// Whether the point starts an open contour.
    pub fn is_move(&self) -> (ret: bool)
        ensures
            ret == (self.type_ == PointKind::Move),
    {
        matches!(self.type_, PointKind::Move)
    }

    /// Whether the point ends a line segment.
    pub fn is_line(&self) -> (ret: bool)
        ensures
            ret == (self.type_ == PointKind::Line),
    {
        matches!(self.type_, PointKind::Line)
    }

    /// Whether the point is marked smooth (`smooth="yes"`).
    pub fn is_smooth(&self) -> (ret: bool)
        ensures
            ret == smooth_yes(*self),
    {
        match &self.smooth {
            Some(s) => str_equal(s.as_str(), "yes"),
            None => false,
        }
    }
}

/// The point is marked `smooth="yes"`.
pub open spec fn smooth_yes(p: Point) -> bool {
    p.smooth matches Some(s) && s@ == "yes"@
}

/// The coordinates of a point.
pub open spec fn pos(p: Point) -> (i64, i64) {
    (p.x, p.y)
}

/// A Bézier curve of a contour: its points, on-curve ends included, and
/// whether its start is smooth.
#[derive(Debug, Clone, PartialEq, Eq)]
pub struct CurveShape {
    pub smooth: bool,
    pub points: Vec<(i64, i64)>,
}

/// The curves of a contour and whether it is open.
#[derive(Debug, Clone, PartialEq, Eq)]
pub struct ContourShape {
    pub open: bool,
    pub curves: Vec<CurveShape>,
}

/// The state of the conversion after some points: the pending points of the
/// segment being read, the previous point, the last on-curve point, and the
/// curves made so far (smoothness and points).
pub struct BuildState {
    pub pending: Seq<(i64, i64)>,
    pub prev: (i64, i64),
    pub last_oncurve: (i64, i64),
    pub curves: Seq<(bool, Seq<(i64, i64)>)>,
}

/// The point kinds that the conversion can read after the start.
pub open spec fn readable(st: BuildState, p: Point) -> bool {
    match p.type_ {
        PointKind::Move => false,
        PointKind::Qcurve => false,
        PointKind::Line => st.pending.len() <= 1,
        _ => true,
    }
}

/// Reads one point.
pub open spec fn step(st: BuildState, p: Point) -> BuildState {
    match p.type_ {
        PointKind::Curve => BuildState {
            pending: Seq::empty(),
            prev: pos(p),
            last_oncurve: pos(p),
            curves: st.curves.push(
                (smooth_yes(p), seq![st.last_oncurve] + st.pending.push(pos(p))),
            ),
        },
        PointKind::Line => BuildState {
            pending: Seq::empty(),
            prev: pos(p),
            last_oncurve: pos(p),
            curves: st.curves.push(
                (
                    false,
                    (if st.pending.len() == 0 {
                        seq![st.prev]
                    } else {
                        st.pending
                    }).push(pos(p)),
                ),
            ),
        },
        _ => BuildState {
            pending: st.pending.push(pos(p)),
            prev: pos(p),
            last_oncurve: st.last_oncurve,
            curves: st.curves,
        },
    }
}

/// Reads the points of `s` in order.
pub open spec fn read_all(st: BuildState, s: Seq<Point>) -> BuildState
    decreases s.len(),
{
    if s.len() == 0 {
        st
    } else {
        step(read_all(st, s.drop_last()), s.last())
    }
}

/// Every point of `s` can be read when its turn comes.
pub open spec fn all_readable(st: BuildState, s: Seq<Point>) -> bool {
    forall|i: int| 0 <= i < s.len() ==> #[trigger] readable(read_all(st, s.take(i)), s[i])
}

/// The curves once all points are read: the pending points, if any, make a
/// last curve that ends at the previous point.
pub open spec fn finish(st: BuildState) -> Seq<(bool, Seq<(i64, i64)>)> {
    if st.pending.len() == 0 {
        st.curves
    } else {
        st.curves.push(
            (
                false,
                if st.pending.contains(st.prev) {
                    st.pending
                } else {
                    st.pending.push(st.prev)
                },
            ),
        )
    }
}

/// Where a closed contour starts: its first point that does not end a curve.
pub open spec fn closed_start(pts: Seq<Point>) -> int {
    choose|r: int|
        0 <= r < pts.len() && pts[r].type_ != PointKind::Curve && forall|k: int|
            0 <= k < r ==> pts[k].type_ == PointKind::Curve
}

/// Whether the contour starts with a `move` point.
pub open spec fn starts_open(pts: Seq<Point>) -> bool {
    pts.len() > 0 && pts[0].type_ == PointKind::Move
}

/// The points in the order they are read, after the start.
pub open spec fn reading_order(pts: Seq<Point>) -> Seq<Point> {
    if starts_open(pts) {
        pts.drop_first()
    } else {
        let r = closed_start(pts);
        pts.subrange(r, pts.len() as int) + pts.subrange(0, r)
    }
}

/// The state before the first point is read. The first curve of a closed
/// contour starts at the first point read (`from_first` false) or at the
/// first point of the list (`from_first` true).
pub open spec fn initial_state(pts: Seq<Point>, from_first: bool) -> BuildState {
    let order = reading_order(pts);
    let back = pos(order.last());
    if starts_open(pts) {
        BuildState {
            pending: seq![pos(pts[0])],
            prev: if order[0].type_ == PointKind::Line { back } else { pos(pts[0]) },
            last_oncurve: pos(pts[0]),
            curves: Seq::empty(),
        }
    } else {
        BuildState {
            pending: Seq::empty(),
            prev: back,
            last_oncurve: if from_first { pos(pts[0]) } else { pos(order[0]) },
            curves: Seq::empty(),
        }
    }
}

/// The contours that the conversion accepts: not empty; an open one has a
/// point after its `move`; a closed one has a point that does not end a
/// curve; and every point can be read in its turn (no `move` after the start,
/// no `qcurve`, and no `line` after two or more control points).
pub open spec fn convertible(pts: Seq<Point>, from_first: bool) -> bool {
    &&& pts.len() > 0
    &&& starts_open(pts) ==> pts.len() > 1
    &&& !starts_open(pts) ==> exists|r: int|
        0 <= r < pts.len() && pts[r].type_ != PointKind::Curve
    &&& all_readable(initial_state(pts, from_first), reading_order(pts))
}

/// The curves of a convertible contour.
pub open spec fn contour_curves(pts: Seq<Point>, from_first: bool) -> Seq<(bool, Seq<(i64, i64)>)> {
    finish(read_all(initial_state(pts, from_first), reading_order(pts)))
}

/// The view of a curve.
pub open spec fn curve_view(c: CurveShape) -> (bool, Seq<(i64, i64)>) {
    (c.smooth, c.points@)
}

proof fn lemma_closed_start(pts: Seq<Point>)
    requires
        exists|r: int| 0 <= r < pts.len() && pts[r].type_ != PointKind::Curve,
    ensures
        0 <= closed_start(pts) < pts.len(),
        pts[closed_start(pts)].type_ != PointKind::Curve,
        forall|k: int| 0 <= k < closed_start(pts) ==> pts[k].type_ == PointKind::Curve,
{
    let w = choose|r: int| 0 <= r < pts.len() && pts[r].type_ != PointKind::Curve;
    lemma_first_non_curve(pts, w);
}

proof fn lemma_first_non_curve(pts: Seq<Point>, w: int)
    requires
        0 <= w < pts.len(),
        pts[w].type_ != PointKind::Curve,
    ensures
        exists|r: int|
            0 <= r < pts.len() && pts[r].type_ != PointKind::Curve && forall|k: int|
                0 <= k < r ==> pts[k].type_ == PointKind::Curve,
    decreases w,
{
    if forall|k: int| 0 <= k < w ==> pts[k].type_ == PointKind::Curve {
        assert(0 <= w < pts.len() && pts[w].type_ != PointKind::Curve && forall|k: int|
            0 <= k < w ==> pts[k].type_ == PointKind::Curve);
    } else {
        let k = choose|k: int| 0 <= k < w && pts[k].type_ != PointKind::Curve;
        lemma_first_non_curve(pts, k);
    }
}

/// The index `i` taken modulo `n`, for `i < 2n`.
pub open spec fn wrap(i: int, n: int) -> int {
    if i < n {
        i
    } else {
        i - n
    }
}

/// Whether `v` holds `p`.
fn contains_point(v: &Vec<(i64, i64)>, p: (i64, i64)) -> (ret: bool)
    ensures
        ret == v@.contains(p),
{
    let mut i: usize = 0;
    while i < v.len()
        invariant
            i <= v.len(),
            forall|j: int| 0 <= j < i ==> v@[j] != p,
        decreases v.len() - i,
    {
        if v[i].0 == p.0 && v[i].1 == p.1 {
            return true;
        }
        i = i + 1;
    }
    false
}

/// Turns the points of a GLIF contour into the curves of the contour, as
/// the glyph iterator reads them: the first curve of a closed contour
/// starts at the first point that does not end a curve.
///
/// Each `curve` point ends a cubic curve that starts at the last on-curve
/// point and goes through the control points read since; each `line` point
/// ends a straight curve from the previous point (or from the one pending
/// control point). Control points left at the end make a last curve.
pub fn contour_from_points(points: &Vec<Point>) -> (ret: ContourShape)
    requires
        convertible(points@, false),
    ensures
        ret.open == starts_open(points@),
        ret.curves@.map_values(|c: CurveShape| curve_view(c)) == contour_curves(points@, false),
{
    convert_points(points, false)
}

/// Turns the points of a GLIF contour into the curves of the contour, as
/// a glyph is built from its GLIF file: as `contour_from_points`, but the
/// first curve of a closed contour starts at the first point of the list.
pub fn glyph_contour_from_points(points: &Vec<Point>) -> (ret: ContourShape)
    requires
        convertible(points@, true),
    ensures
        ret.open == starts_open(points@),
        ret.curves@.map_values(|c: CurveShape| curve_view(c)) == contour_curves(points@, true),
{
    convert_points(points, true)
}

fn convert_points(points: &Vec<Point>, from_first: bool) -> (ret: ContourShape)
    requires
        convertible(points@, from_first),
    ensures
        ret.open == starts_open(points@),
        ret.curves@.map_values(|c: CurveShape| curve_view(c)) == contour_curves(points@, from_first),
{
    let ghost pts = points@;
    let n = points.len();
    let open = points[0].is_move();
    let ghost order = reading_order(pts);
    // The reading order is the points from `start` on, wrapping around.
    let start: usize;
    let count: usize;
    if open {
        start = 1;
        count = n - 1;
    } else {
        proof {
            lemma_closed_start(pts);
        }
        let mut r: usize = 0;
        while points[r].is_curve()
            invariant
                pts == points@,
                r < n,
                n == pts.len(),
                r <= closed_start(pts),
                0 <= closed_start(pts) < n,
                pts[closed_start(pts)].type_ != PointKind::Curve,
                forall|k: int| 0 <= k < closed_start(pts) ==> pts[k].type_ == PointKind::Curve,
            decreases closed_start(pts) - r,
        {
            r = r + 1;
        }
        start = r;
        count = n;
    }
    assert(order.len() == count);
    assert forall|k: int| 0 <= k < count implies #[trigger] order[k] == pts[wrap(start + k, n as int)]
        by {
    }
    let back_index = if count - 1 < n - start {
        start + (count - 1)
    } else {
        count - 1 - (n - start)
    };
    let back = (points[back_index].x, points[back_index].y);
    assert(back == pos(order.last()));
    let mut pending: Vec<(i64, i64)> = Vec::new();
    let mut prev: (i64, i64);
    let mut last_oncurve: (i64, i64);
    if open {
        let p = (points[0].x, points[0].y);
        pending.push(p);
        prev = p;
        last_oncurve = p;
    } else {
        prev = back;
        last_oncurve = if from_first {
            (points[0].x, points[0].y)
        } else {
            (points[start].x, points[start].y)
        };
    }
    if points[start].is_line() {
        prev = back;
    }
    let mut curves: Vec<CurveShape> = Vec::new();
    let ghost init = initial_state(pts, from_first);
    assert(pending@ =~= init.pending);
    assert(prev == init.prev);
    assert(last_oncurve == init.last_oncurve);
    assert(order.take(0) =~= Seq::<Point>::empty());
    assert(curves@.map_values(|c: CurveShape| curve_view(c)) =~= init.curves);
    let mut k: usize = 0;
    while k < count
        invariant
            pts == points@,
            n == pts.len(),
            count == order.len(),
            start < n,
            count <= n,
            forall|j: int| 0 <= j < count ==> #[trigger] order[j] == pts[wrap(start + j, n as int)],
            all_readable(init, order),
            k <= count,
            read_all(init, order.take(k as int)) == (BuildState {
                pending: pending@,
                prev,
                last_oncurve,
                curves: curves@.map_values(|c: CurveShape| curve_view(c)),
            }),
        decreases count - k,
    {
        let ghost before = read_all(init, order.take(k as int));
        let ghost after = step(before, order[k as int]);
        let ghost old_curves = curves@;
        assert(readable(before, order[k as int]));
        assert(order.take(k + 1).drop_last() =~= order.take(k as int));
        assert(read_all(init, order.take(k + 1)) == after);
        let idx = if k < n - start {
            start + k
        } else {
            k - (n - start)
        };
        assert(idx == wrap(start + k, n as int));
        let p = &points[idx];
        assert(*p == order[k as int]);
        let xy = (p.x, p.y);
        if p.is_curve() {
            pending.push(xy);
            pending.insert(0, last_oncurve);
            let smooth = p.is_smooth();
            let mut c: Vec<(i64, i64)> = Vec::new();
            std::mem::swap(&mut c, &mut pending);
            proof {
                assert(c@ =~= seq![before.last_oncurve] + before.pending.push(xy));
            }
            curves.push(CurveShape { smooth, points: c });
            prev = xy;
            last_oncurve = xy;
            proof {
                assert(curves@.map_values(|c: CurveShape| curve_view(c)) =~= old_curves.map_values(
                    |c: CurveShape| curve_view(c),
                ).push((smooth, c@)));
            }
        } else if p.is_line() {
            if pending.len() == 0 {
                pending.push(prev);
            }
            pending.push(xy);
            let mut c: Vec<(i64, i64)> = Vec::new();
            std::mem::swap(&mut c, &mut pending);
            proof {
                assert(c@ =~= (if before.pending.len() == 0 {
                    seq![before.prev]
                } else {
                    before.pending
                }).push(xy));
            }
            curves.push(CurveShape { smooth: false, points: c });
            prev = xy;
            last_oncurve = xy;
            proof {
                assert(curves@.map_values(|c: CurveShape| curve_view(c)) =~= old_curves.map_values(
                    |c: CurveShape| curve_view(c),
                ).push((false, c@)));
            }
        } else {
            prev = xy;
            pending.push(xy);
            proof {
                assert(curves@.map_values(|c: CurveShape| curve_view(c)) =~= old_curves.map_values(
                    |c: CurveShape| curve_view(c),
                ));
            }
        }
        k = k + 1;
        proof {
            assert(curves@.map_values(|c: CurveShape| curve_view(c)) =~= after.curves);
            assert(pending@ =~= after.pending);
        }
    }
    assert(order.take(count as int) =~= order);
    if pending.len() > 0 {
        if !contains_point(&pending, prev) {
            pending.push(prev);
        }
        curves.push(CurveShape { smooth: false, points: pending });
    }
    proof {
        assert(curves@.map_values(|c: CurveShape| curve_view(c)) =~= contour_curves(pts, from_first));
    }
    ContourShape { open, curves }
}

/// The positions of the on-curve points (`curve` and `line`) of `s`, in order.
pub open spec fn oncurve_positions(s: Seq<Point>) -> Seq<(i64, i64)>
    decreases s.len(),
{
    if s.len() == 0 {
        Seq::empty()
    } else {
        let r = oncurve_positions(s.drop_last());
        match s.last().type_ {
            PointKind::Curve | PointKind::Line => r.push(pos(s.last())),
            _ => r,
        }
    }
}

/// The end point of each curve.
pub open spec fn curve_ends(cs: Seq<(bool, Seq<(i64, i64)>)>) -> Seq<(i64, i64)> {
    cs.map_values(|c: (bool, Seq<(i64, i64)>)| c.1.last())
}

proof fn lemma_read_all_ends(st: BuildState, s: Seq<Point>)
    ensures
        curve_ends(read_all(st, s).curves) == curve_ends(st.curves) + oncurve_positions(s),
        read_all(st, s).curves.len() == st.curves.len() + oncurve_positions(s).len(),
    decreases s.len(),
{
    if s.len() > 0 {
        lemma_read_all_ends(st, s.drop_last());
        let before = read_all(st, s.drop_last());
        let after = read_all(st, s);
        assert(after == step(before, s.last()));
        match s.last().type_ {
            PointKind::Curve | PointKind::Line => {
                let e = after.curves.last();
                assert(after.curves =~= before.curves.push(e));
                assert(e.1.last() == pos(s.last()));
                assert(curve_ends(after.curves) =~= curve_ends(before.curves).push(pos(s.last())));
            },
            _ => {
                assert(after.curves == before.curves);
            },
        }
        assert(curve_ends(after.curves) =~= curve_ends(st.curves) + oncurve_positions(s));
    } else {
        assert(curve_ends(st.curves) + oncurve_positions(s) =~= curve_ends(st.curves));
    }
}

/// The curves of a contour end, in order, at the contour's on-curve points,
/// taken in reading order: one curve for each `curve` or `line` point, and at
/// most one more curve for the control points left over at the end.
pub proof fn law_curves_end_at_oncurve_points(pts: Seq<Point>, from_first: bool)
    requires
        convertible(pts, from_first),
    ensures
        curve_ends(contour_curves(pts, from_first)).take(oncurve_positions(reading_order(pts)).len() as int)
            == oncurve_positions(reading_order(pts)),
        oncurve_positions(reading_order(pts)).len() <= contour_curves(pts, from_first).len()
            <= oncurve_positions(reading_order(pts)).len() + 1,
{
    let st = read_all(initial_state(pts, from_first), reading_order(pts));
    lemma_read_all_ends(initial_state(pts, from_first), reading_order(pts));
    let k = oncurve_positions(reading_order(pts)).len() as int;
    assert(curve_ends(initial_state(pts, from_first).curves) =~= Seq::<(i64, i64)>::empty());
    assert(curve_ends(st.curves) =~= oncurve_positions(reading_order(pts)));
    assert(curve_ends(contour_curves(pts, from_first)).take(k) =~= curve_ends(st.curves));
}

} // verus!
