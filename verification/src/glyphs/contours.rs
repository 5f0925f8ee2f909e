//! Contours: sequences of Bézier curves that join end to start, and the
//! continuity at each join.
//!
//! A point's position is a float and stays with the caller; a contour here
//! holds what its structure reads: for each curve, whether it is smooth, the
//! continuity at its two ends, and its points by identifier.
use vstd::prelude::*;

use crate::glyphs::GlyphPointIndex;
use crate::glyphs::transform::{plan_transform, transform_plan, PointEdit};

verus! {

/// The kind of continuity where two curves join.
#[derive(Debug, Clone, Copy, PartialEq, Eq, Structural, Default)]
pub enum Continuity {
    /// The curves meet at a point; nothing more is constrained.
    #[default]
    Positional,
    /// The control points around the join mirror each other.
    Velocity,
    /// The control points around the join are collinear with it; `beta_bits`
    /// holds the bits of the ratio of their distances from the join.
    Tangent { beta_bits: u64 },
}

impl Continuity {
    /// Whether this is positional continuity.
    pub fn is_positional(self) -> (ret: bool)
        ensures
            ret == (self == Continuity::Positional),
    {
        matches!(self, Continuity::Positional)
    }
}

/// A point of a curve: its identifier, the continuity it carries if it is
/// an on-curve point at a join, and the curve's degree when it is the
/// curve's last point.
#[derive(Debug, Clone, Copy, PartialEq, Eq, Structural)]
pub struct CurvePoint {
    pub uuid: u128,
    pub continuity: Option<Continuity>,
    pub degree: Option<usize>,
}

/// A Bézier curve of a contour.
#[derive(Debug)]
pub struct Bezier {
    pub smooth: bool,
    pub continuity_in: Option<Continuity>,
    pub continuity_out: Option<Continuity>,
    pub points: Vec<CurvePoint>,
}

/// What a curve is, as a value.
pub struct BezierView {
    pub smooth: bool,
    pub continuity_in: Option<Continuity>,
    pub continuity_out: Option<Continuity>,
    pub points: Seq<CurvePoint>,
}

impl View for Bezier {
    type V = BezierView;

    open spec fn view(&self) -> BezierView {
        BezierView {
            smooth: self.smooth,
            continuity_in: self.continuity_in,
            continuity_out: self.continuity_out,
            points: self.points@,
        }
    }
}

/// The curves of a contour, as values.
pub open spec fn curve_views(curves: Seq<Bezier>) -> Seq<BezierView>
    decreases curves.len(),
{
    if curves.len() == 0 {
        Seq::empty()
    } else {
        curve_views(curves.drop_last()).push(curves.last()@)
    }
}

/// The curves as values are the curves' views, one for one.
pub proof fn lemma_curve_views(curves: Seq<Bezier>)
    ensures
        curve_views(curves).len() == curves.len(),
        forall|i: int| 0 <= i < curves.len() ==> #[trigger] curve_views(curves)[i] == curves[i]@,
    decreases curves.len(),
{
    if curves.len() > 0 {
        lemma_curve_views(curves.drop_last());
    }
}

/// The curve `c` with the continuity at its start set to `k`.
pub open spec fn with_in(c: BezierView, k: Continuity) -> BezierView {
    BezierView { continuity_in: Some(k), ..c }
}

/// The curve `c` with the continuity at its end set to `k`.
pub open spec fn with_out(c: BezierView, k: Continuity) -> BezierView {
    BezierView { continuity_out: Some(k), ..c }
}

/// The continuity where a curve ends and `next` starts: the smooth
/// continuity `smooth_join` computed for the two when `next` is smooth,
/// else positional.
pub open spec fn join_continuity(next: BezierView, smooth_join: Continuity) -> Continuity {
    if next.smooth {
        smooth_join
    } else {
        Continuity::Positional
    }
}

/// The curve `c` with the continuities at its two ends set to `cin` and
/// `cout`.
pub open spec fn with_ends(c: BezierView, cin: Option<Continuity>, cout: Option<Continuity>) -> BezierView {
    BezierView { continuity_in: cin, continuity_out: cout, ..c }
}

/// The curve `c` drawn the other way: its points in reverse order.
pub open spec fn reversed_curve(c: BezierView) -> BezierView {
    BezierView { points: c.points.reverse(), ..c }
}

/// `r` is the contour `cs` drawn the other way: the curves in reverse
/// order, each drawn the other way.
pub open spec fn is_reversal(cs: Seq<BezierView>, r: Seq<BezierView>) -> bool {
    &&& r.len() == cs.len()
    &&& forall|i: int| 0 <= i < cs.len() ==> #[trigger] r[i] == reversed_curve(cs[cs.len() - 1 - i])
}

/// The curves `cs` after a smooth curve `c` is appended with the smooth
/// continuity `smooth_join` computed for the join with the last curve.
pub open spec fn pushed_curves(cs: Seq<BezierView>, c: BezierView, smooth_join: Continuity) -> Seq<
    BezierView,
> {
    if c.points.len() == 0 {
        cs
    } else if cs.len() == 0 {
        seq![c]
    } else {
        let k = join_continuity(c, smooth_join);
        cs.update(cs.len() - 1, with_out(cs.last(), k)).push(with_in(c, k))
    }
}

/// The curves `cs` after the contour is closed: the last curve joins the
/// first with the continuity computed for that join.
pub open spec fn closed_curves(cs: Seq<BezierView>, smooth_join: Continuity) -> Seq<BezierView> {
    if cs.len() == 0 {
        cs
    } else {
        let k = join_continuity(cs[0], smooth_join);
        let first_set = cs.update(0, with_in(cs[0], k));
        first_set.update(cs.len() - 1, with_out(first_set.last(), k))
    }
}

/// The continuity of the join after curve `i` of `cs`, cyclically:
/// `joins[i]` when the next curve is smooth, else positional.
pub open spec fn join_after(cs: Seq<BezierView>, joins: Seq<Continuity>, i: int) -> Continuity {
    join_continuity(cs[(i + 1) % (cs.len() as int)], joins[i])
}

/// `new` is `cs` with the continuity of every join recomputed from `joins`:
/// each curve ends with the continuity of the join after it and starts
/// with that of the join before it, cyclically.
pub open spec fn recalculated(cs: Seq<BezierView>, joins: Seq<Continuity>, new: Seq<BezierView>) -> bool {
    let n = cs.len() as int;
    &&& new.len() == n
    &&& forall|i: int|
        0 <= i < n ==> #[trigger] new[i] == with_ends(
            cs[i],
            Some(join_after(cs, joins, (i + n - 1) % n)),
            Some(join_after(cs, joins, i)),
        )
}

/// The neighbours of position `i` in a cycle of length `n`.
pub proof fn lemma_cyclic_neighbours(i: int, n: int)
    requires
        0 <= i < n,
    ensures
        (i + 1) % n == (if i + 1 == n { 0 } else { i + 1 }),
        (i + n - 1) % n == (if i == 0 { n - 1 } else { i - 1 }),
{
    if i + 1 == n {
        vstd::arithmetic::div_mod::lemma_mod_self_0(n);
    } else {
        vstd::arithmetic::div_mod::lemma_small_mod((i + 1) as nat, n as nat);
    }
    if i == 0 {
        vstd::arithmetic::div_mod::lemma_small_mod((n - 1) as nat, n as nat);
    } else {
        vstd::arithmetic::div_mod::lemma_mod_add_multiples_vanish(i - 1, n);
        vstd::arithmetic::div_mod::lemma_small_mod((i - 1) as nat, n as nat);
    }
}

fn set_ends(curves: &mut Vec<Bezier>, i: usize, cin: Option<Continuity>, cout: Option<Continuity>)
    requires
        i < old(curves)@.len(),
    ensures
        curve_views(final(curves)@) == curve_views(old(curves)@).update(
            i as int,
            with_ends(old(curves)@[i as int]@, cin, cout),
        ),
{
    let mut b = curves.remove(i);
    b.continuity_in = cin;
    b.continuity_out = cout;
    curves.insert(i, b);
    proof {
        lemma_curve_views(old(curves)@);
        lemma_curve_views(curves@);
        assert(curve_views(curves@) =~= curve_views(old(curves)@).update(
            i as int,
            with_ends(old(curves)@[i as int]@, cin, cout),
        ));
    }
}

fn reversed_points(points: &Vec<CurvePoint>) -> (ret: Vec<CurvePoint>)
    ensures
        ret@ == points@.reverse(),
{
    let mut ret: Vec<CurvePoint> = Vec::new();
    let n = points.len();
    let mut j: usize = n;
    while j > 0
        invariant
            j <= n,
            n == points@.len(),
            ret@ == points@.subrange(j as int, n as int).reverse(),
        decreases j,
    {
        j = j - 1;
        ret.push(points[j]);
        proof {
            assert(points@.subrange(j as int, n as int).reverse() =~= points@.subrange(
                (j + 1) as int,
                n as int,
            ).reverse().push(points@[j as int]));
        }
    }
    assert(points@.subrange(0, n as int) =~= points@);
    ret
}

/// Position `k` holds the first point of `points` with identifier `uuid`
/// that carries a continuity.
pub open spec fn is_first_join_point(points: Seq<CurvePoint>, uuid: u128, k: int) -> bool {
    &&& 0 <= k < points.len()
    &&& points[k].uuid == uuid
    &&& points[k].continuity is Some
    &&& forall|j: int|
        0 <= j < k ==> !(#[trigger] points[j].uuid == uuid && points[j].continuity is Some)
}

/// Where the first point of `points` with identifier `uuid` that carries a
/// continuity stands, if there is one.
pub open spec fn find_join_point(points: Seq<CurvePoint>, uuid: u128) -> Option<int> {
    if exists|k: int| is_first_join_point(points, uuid, k) {
        Some(choose|k: int| is_first_join_point(points, uuid, k))
    } else {
        None
    }
}

/// Position `k` holds the first point of `points` with identifier `uuid`.
pub open spec fn is_first_point(points: Seq<CurvePoint>, uuid: u128, k: int) -> bool {
    &&& 0 <= k < points.len()
    &&& points[k].uuid == uuid
    &&& forall|j: int| 0 <= j < k ==> (#[trigger] points[j].uuid) != uuid
}

/// Where the first point of `points` with identifier `uuid` stands, if
/// there is one.
pub open spec fn find_point(points: Seq<CurvePoint>, uuid: u128) -> Option<int> {
    if exists|k: int| is_first_point(points, uuid, k) {
        Some(choose|k: int| is_first_point(points, uuid, k))
    } else {
        None
    }
}

/// Whether point `k` of a curve is the curve's last point: its degree
/// names its own position.
pub open spec fn ends_curve(points: Seq<CurvePoint>, k: int) -> bool {
    points[k].degree == Some(k as usize)
}

/// The continuity that `change_continuity` finds at the point `idx`: at
/// the end of its curve when the point ends it, else at its start.
pub open spec fn continuity_at(cs: Seq<BezierView>, idx: GlyphPointIndex) -> Option<Continuity> {
    let ci = idx.curve_index as int;
    if 0 <= ci < cs.len() {
        match find_point(cs[ci].points, idx.uuid) {
            Some(k) => if ends_curve(cs[ci].points, k) {
                cs[ci].continuity_out
            } else {
                cs[ci].continuity_in
            },
            None => None,
        }
    } else {
        None
    }
}

/// The point `idx` names a point of the contour.
pub open spec fn names_point(cs: Seq<BezierView>, idx: GlyphPointIndex) -> bool {
    let ci = idx.curve_index as int;
    0 <= ci < cs.len() && find_point(cs[ci].points, idx.uuid) is Some
}

/// The curves `cs` after the continuity at point `idx` is changed to `k`:
/// when the point ends its curve, the end of that curve and the start of
/// the curve before it (cyclically); else the start of that curve and
/// the end of the curve before it.
pub open spec fn changed_continuity(cs: Seq<BezierView>, idx: GlyphPointIndex, k: Continuity) -> Seq<
    BezierView,
> {
    let ci = idx.curve_index as int;
    let n = cs.len() as int;
    let before = if ci == 0 { n - 1 } else { ci - 1 };
    let at_end = ends_curve(cs[ci].points, find_point(cs[ci].points, idx.uuid)->0);
    if at_end {
        let first = cs.update(ci, with_out(cs[ci], k));
        first.update(before, with_in(first[before], k))
    } else {
        let first = cs.update(ci, with_in(cs[ci], k));
        first.update(before, with_out(first[before], k))
    }
}

fn find_point_exec(points: &Vec<CurvePoint>, uuid: u128) -> (ret: Option<usize>)
    ensures
        match ret {
            Some(k) => find_point(points@, uuid) == Some(k as int),
            None => find_point(points@, uuid) is None,
        },
{
    let mut k: usize = 0;
    while k < points.len()
        invariant
            k <= points@.len(),
            forall|j: int| 0 <= j < k ==> (#[trigger] points@[j].uuid) != uuid,
        decreases points@.len() - k,
    {
        if points[k].uuid == uuid {
            proof {
                assert(is_first_point(points@, uuid, k as int));
                assert forall|k2: int| is_first_point(points@, uuid, k2) implies k2 == k by {
                    if k2 < k {
                        assert(points@[k2].uuid != uuid);
                    }
                    if k2 > k {
                        assert(points@[k as int].uuid == uuid);
                    }
                }
            }
            return Some(k);
        }
        k = k + 1;
    }
    proof {
        assert forall|k2: int| !is_first_point(points@, uuid, k2) by {
            if 0 <= k2 < points@.len() {
                assert(points@[k2].uuid != uuid);
            }
        }
    }
    None
}

/// The index of point `k` of curve `ci` in contour `contour`.
pub open spec fn point_index(contour: usize, ci: int, points: Seq<CurvePoint>, k: int) -> Option<
    GlyphPointIndex,
> {
    if 0 <= k < points.len() {
        Some(GlyphPointIndex { contour_index: contour, curve_index: ci as usize, uuid: points[k].uuid })
    } else {
        None
    }
}

/// The control points next to an on-curve point at a join: the one before
/// it (only when the join is not positional) and the one after it.
pub open spec fn control_points_spec(cs: Seq<BezierView>, open: bool, idx: GlyphPointIndex) -> (
    Option<GlyphPointIndex>,
    Option<GlyphPointIndex>,
) {
    let ci = idx.curve_index as int;
    let c = idx.contour_index;
    let n = cs.len() as int;
    if !(0 <= ci < n) {
        (None, None)
    } else {
        let points = cs[ci].points;
        let m = points.len() as int;
        match find_join_point(points, idx.uuid) {
            None => (None, None),
            Some(k) => {
                let smooth = points[k].continuity != Some(Continuity::Positional);
                if ci + 1 == n && k + 1 == m && !open {
                    (
                        if k > 1 && smooth { point_index(c, ci, points, k - 1) } else { None },
                        point_index(c, 0, cs[0].points, 1),
                    )
                } else if ci == 0 && k == 0 && !open {
                    let last = cs[n - 1].points;
                    (
                        if smooth { point_index(c, n - 1, last, last.len() - 2) } else { None },
                        point_index(c, ci, points, 1),
                    )
                } else if ci == 0 && k == 0 && open {
                    (None, None)
                } else if k + 1 == m {
                    (
                        if k > 1 && smooth { point_index(c, ci, points, m - 2) } else { None },
                        if ci + 1 < n { point_index(c, ci + 1, cs[ci + 1].points, 1) } else { None },
                    )
                } else if k == 0 {
                    let before = cs[ci - 1].points;
                    (
                        if smooth { point_index(c, ci - 1, before, before.len() - 2) } else { None },
                        point_index(c, ci, points, 1),
                    )
                } else {
                    (
                        if k > 1 && smooth { point_index(c, ci, points, k - 1) } else { None },
                        if ci + 1 < n { point_index(c, ci + 1, cs[ci + 1].points, 1) } else { None },
                    )
                }
            },
        }
    }
}

fn find_join_point_exec(points: &Vec<CurvePoint>, uuid: u128) -> (ret: Option<usize>)
    ensures
        match ret {
            Some(k) => find_join_point(points@, uuid) == Some(k as int),
            None => find_join_point(points@, uuid) is None,
        },
{
    let mut k: usize = 0;
    while k < points.len()
        invariant
            k <= points@.len(),
            forall|j: int|
                0 <= j < k ==> !(#[trigger] points@[j].uuid == uuid && points@[j].continuity is Some),
        decreases points@.len() - k,
    {
        if points[k].uuid == uuid && points[k].continuity.is_some() {
            proof {
                assert(is_first_join_point(points@, uuid, k as int));
                assert forall|k2: int| is_first_join_point(points@, uuid, k2) implies k2 == k by {
                    if k2 < k {
                        assert(points@[k2].uuid == uuid && points@[k2].continuity is Some);
                    }
                    if k2 > k {
                        assert(points@[k as int].uuid == uuid && points@[k as int].continuity is Some);
                    }
                }
            }
            return Some(k);
        }
        k = k + 1;
    }
    proof {
        assert forall|k2: int| !is_first_join_point(points@, uuid, k2) by {
            if 0 <= k2 < points@.len() {
                assert(!(points@[k2].uuid == uuid && points@[k2].continuity is Some));
            }
        }
    }
    None
}

fn point_index_exec(contour: usize, ci: usize, points: &Vec<CurvePoint>, k: usize) -> (ret: Option<
    GlyphPointIndex,
>)
    ensures
        ret == point_index(contour, ci as int, points@, k as int),
{
    if k < points.len() {
        Some(GlyphPointIndex { contour_index: contour, curve_index: ci, uuid: points[k].uuid })
    } else {
        None
    }
}

/// A contour: its curves in order, and whether it is open.
#[derive(Debug)]
pub struct Contour {
    open: bool,
    curves: Vec<Bezier>,
}

impl Contour {
    /// The curves, as values.
    pub closed spec fn curves_view(&self) -> Seq<BezierView> {
        curve_views(self.curves@)
    }

    /// Whether the contour is open.
    pub closed spec fn open_view(&self) -> bool {
        self.open
    }

    /// An open contour with no curves.
    pub fn new() -> (ret: Self)
        ensures
            ret.open_view(),
            ret.curves_view() == Seq::<BezierView>::empty(),
    {
        let ret = Contour { open: true, curves: Vec::new() };
        assert(ret.curves_view() =~= Seq::<BezierView>::empty());
        ret
    }

    /// An open contour of the curves `curves`, with the continuity of
    /// every join computed from `joins` as `recalc_continuities` does.
    pub fn new_with_curves(curves: Vec<Bezier>, joins: &Vec<Continuity>) -> (ret: Self)
        requires
            joins@.len() == curves@.len(),
        ensures
            ret.open_view(),
            recalculated(curve_views(curves@), joins@, ret.curves_view()),
    {
        let mut ret = Contour { open: true, curves };
        proof {
            lemma_curve_views(ret.curves@);
        }
        ret.recalc_continuities(joins);
        ret
    }

    /// Whether the contour is open.
    pub fn is_open(&self) -> (ret: bool)
        ensures
            ret == self.open_view(),
    {
        self.open
    }

    /// The curves of the contour.
    pub fn curves(&self) -> (ret: &Vec<Bezier>)
        ensures
            curve_views(ret@) == self.curves_view(),
    {
        &self.curves
    }

    /// Appends a curve. A curve with no points is ignored. Otherwise, when
    /// the contour has curves, the join between its last curve and the new
    /// one gets a continuity: `smooth_join`, computed for the two curves by
    /// the caller, when the new curve is smooth; else positional.
    pub fn push_curve(&mut self, curve: Bezier, smooth_join: Continuity)
        ensures
            final(self).open_view() == old(self).open_view(),
            final(self).curves_view() == pushed_curves(old(self).curves_view(), curve@, smooth_join),
    {
        proof {
            lemma_curve_views(self.curves@);
        }
        if curve.points.len() == 0 {
            return;
        }
        let ghost orig = curve@;
        let mut curve = curve;
        let n = self.curves.len();
        if n == 0 {
            self.curves.push(curve);
            proof {
                lemma_curve_views(self.curves@);
                assert(curve_views(self.curves@) =~= seq![curve@]);
            }
            return;
        }
        let k = if curve.smooth {
            smooth_join
        } else {
            Continuity::Positional
        };
        let cin = self.curves[n - 1].continuity_in;
        set_ends(&mut self.curves, n - 1, cin, Some(k));
        curve.continuity_in = Some(k);
        let ghost before = self.curves@;
        self.curves.push(curve);
        proof {
            lemma_curve_views(before);
            lemma_curve_views(self.curves@);
            assert(curve_views(self.curves@) =~= pushed_curves(
                curve_views(old(self).curves@),
                orig,
                smooth_join,
            ));
        }
    }

    /// Closes an open contour: the last curve now joins the first, with
    /// `smooth_join`, computed for the two by the caller, when the first
    /// curve is smooth, else positional continuity. A closed contour is
    /// left as it is.
    pub fn close(&mut self, smooth_join: Continuity)
        ensures
            !old(self).open_view() ==> final(self).open_view() == old(self).open_view()
                && final(self).curves_view() == old(self).curves_view(),
            old(self).open_view() ==> !final(self).open_view() && final(self).curves_view()
                == closed_curves(old(self).curves_view(), smooth_join),
    {
        proof {
            lemma_curve_views(self.curves@);
        }
        if !self.open {
            return;
        }
        self.open = false;
        let n = self.curves.len();
        if n == 0 {
            return;
        }
        let k = if self.curves[0].smooth {
            smooth_join
        } else {
            Continuity::Positional
        };
        let out0 = self.curves[0].continuity_out;
        set_ends(&mut self.curves, 0, Some(k), out0);
        let ghost mid = self.curves@;
        proof {
            lemma_curve_views(mid);
        }
        let in_last = self.curves[n - 1].continuity_in;
        set_ends(&mut self.curves, n - 1, in_last, Some(k));
        proof {
            lemma_curve_views(self.curves@);
            assert(curve_views(self.curves@) =~= closed_curves(
                curve_views(old(self).curves@),
                smooth_join,
            ));
        }
    }

    /// Reverses the direction of the contour: the curves in reverse order,
    /// the points of each in reverse order.
    pub fn reverse_direction(&mut self)
        ensures
            final(self).open_view() == old(self).open_view(),
            is_reversal(old(self).curves_view(), final(self).curves_view()),
    {
        let mut rest: Vec<Bezier> = Vec::new();
        std::mem::swap(&mut rest, &mut self.curves);
        let ghost orig = rest@;
        let n = rest.len();
        while rest.len() > 0
            invariant
                self.open == old(self).open,
                orig == old(self).curves@,
                n == orig.len(),
                rest@ == orig.subrange(0, rest@.len() as int),
                self.curves@.len() + rest@.len() == n,
                forall|i: int|
                    0 <= i < self.curves@.len() ==> #[trigger] self.curves@[i]@ == reversed_curve(
                        orig[n - 1 - i]@,
                    ),
            decreases rest@.len(),
        {
            let c = rest.pop().unwrap();
            let points = reversed_points(&c.points);
            let r = Bezier {
                smooth: c.smooth,
                continuity_in: c.continuity_in,
                continuity_out: c.continuity_out,
                points,
            };
            self.curves.push(r);
            proof {
                assert(rest@ =~= orig.subrange(0, rest@.len() as int));
            }
        }
        proof {
            lemma_curve_views(self.curves@);
            lemma_curve_views(orig);
        }
    }

    /// Recomputes the continuity of every join, cyclically, also that
    /// from the last curve to the first: `joins[i]` is the smooth
    /// continuity computed by the caller for the join after curve `i`, and
    /// holds there when the curve after it is smooth; other joins are
    /// positional.
    pub fn recalc_continuities(&mut self, joins: &Vec<Continuity>)
        requires
            joins@.len() == old(self).curves_view().len(),
        ensures
            final(self).open_view() == old(self).open_view(),
            recalculated(old(self).curves_view(), joins@, final(self).curves_view()),
    {
        let n = self.curves.len();
        proof {
            lemma_curve_views(self.curves@);
        }
        let ghost cs = curve_views(self.curves@);
        let mut ks: Vec<Continuity> = Vec::new();
        let mut i: usize = 0;
        while i < n
            invariant
                self.open == old(self).open,
                n == cs.len(),
                n == self.curves@.len(),
                cs == curve_views(self.curves@),
                joins@.len() == n,
                i <= n,
                ks@.len() == i,
                forall|j: int| 0 <= j < i ==> #[trigger] ks@[j] == join_after(cs, joins@, j),
            decreases n - i,
        {
            let next = if i + 1 == n {
                0
            } else {
                i + 1
            };
            proof {
                lemma_curve_views(self.curves@);
                lemma_cyclic_neighbours(i as int, n as int);
            }
            let k = if self.curves[next].smooth {
                joins[i]
            } else {
                Continuity::Positional
            };
            ks.push(k);
            i = i + 1;
        }
        let mut i: usize = 0;
        while i < n
            invariant
                self.open == old(self).open,
                n == cs.len(),
                ks@.len() == n,
                forall|j: int| 0 <= j < n ==> #[trigger] ks@[j] == join_after(cs, joins@, j),
                i <= n,
                curve_views(self.curves@).len() == n,
                forall|j: int|
                    0 <= j < i ==> #[trigger] curve_views(self.curves@)[j] == with_ends(
                        cs[j],
                        Some(join_after(cs, joins@, (j + n - 1) % (n as int))),
                        Some(join_after(cs, joins@, j)),
                    ),
                forall|j: int| i <= j < n ==> #[trigger] curve_views(self.curves@)[j] == cs[j],
            decreases n - i,
        {
            let prev = if i == 0 {
                n - 1
            } else {
                i - 1
            };
            proof {
                lemma_cyclic_neighbours(i as int, n as int);
                lemma_curve_views(self.curves@);
            }
            let ghost before = self.curves@;
            assert(curve_views(before)[i as int] == cs[i as int]);
            assert(before[i as int]@ == cs[i as int]);
            assert(ks@[prev as int] == join_after(cs, joins@, prev as int));
            set_ends(&mut self.curves, i, Some(ks[prev]), Some(ks[i]));
            assert(curve_views(self.curves@)[i as int] == with_ends(
                cs[i as int],
                Some(join_after(cs, joins@, (i + n - 1) % (n as int))),
                Some(join_after(cs, joins@, i as int)),
            ));
            i = i + 1;
        }
    }

    /// The control points next to the on-curve point `idx` where two curves
    /// join: before it, the handle of the curve that ends there, when the
    /// join is not positional; after it, the handle of the curve that
    /// starts there; at the end of an open contour no curve starts there,
    /// and the second is `None`. `(None, None)` when `idx` names no such
    /// point, or the first point of an open contour.
    pub fn get_control_point(&self, idx: GlyphPointIndex) -> (ret: (
        Option<GlyphPointIndex>,
        Option<GlyphPointIndex>,
    ))
        ensures
            ret == control_points_spec(self.curves_view(), self.open_view(), idx),
    {
        proof {
            lemma_curve_views(self.curves@);
        }
        let ci = idx.curve_index;
        let c = idx.contour_index;
        let n = self.curves.len();
        if ci >= n {
            return (None, None);
        }
        let points = &self.curves[ci].points;
        let m = points.len();
        assert(curve_views(self.curves@)[ci as int].points == points@);
        let k = match find_join_point_exec(points, idx.uuid) {
            None => return (None, None),
            Some(k) => k,
        };
        let smooth = match points[k].continuity {
            Some(Continuity::Positional) => false,
            _ => true,
        };
        if ci + 1 == n && k + 1 == m && !self.open {
            let prev = if k > 1 && smooth {
                point_index_exec(c, ci, points, k - 1)
            } else {
                None
            };
            assert(curve_views(self.curves@)[0].points == self.curves@[0].points@);
            (prev, point_index_exec(c, 0, &self.curves[0].points, 1))
        } else if ci == 0 && k == 0 && !self.open {
            let last = &self.curves[n - 1].points;
            assert(curve_views(self.curves@)[n - 1].points == last@);
            let prev = if smooth && last.len() >= 2 {
                point_index_exec(c, n - 1, last, last.len() - 2)
            } else {
                None
            };
            (prev, point_index_exec(c, ci, points, 1))
        } else if ci == 0 && k == 0 && self.open {
            (None, None)
        } else if k + 1 == m {
            let prev = if k > 1 && smooth {
                point_index_exec(c, ci, points, m - 2)
            } else {
                None
            };
            let next = if ci + 1 < n {
                assert(curve_views(self.curves@)[ci + 1].points == self.curves@[ci + 1].points@);
                point_index_exec(c, ci + 1, &self.curves[ci + 1].points, 1)
            } else {
                None
            };
            (prev, next)
        } else if k == 0 {
            let before = &self.curves[ci - 1].points;
            assert(curve_views(self.curves@)[ci - 1].points == before@);
            let prev = if smooth && before.len() >= 2 {
                point_index_exec(c, ci - 1, before, before.len() - 2)
            } else {
                None
            };
            (prev, point_index_exec(c, ci, points, 1))
        } else {
            let prev = if k > 1 && smooth {
                point_index_exec(c, ci, points, k - 1)
            } else {
                None
            };
            let next = if ci + 1 < n {
                assert(curve_views(self.curves@)[ci + 1].points == self.curves@[ci + 1].points@);
                point_index_exec(c, ci + 1, &self.curves[ci + 1].points, 1)
            } else {
                None
            };
            (prev, next)
        }
    }

    /// Sets the continuity at the point `idx` to `continuity`, on both
    /// curves of the join, and returns the continuity it had; `None` when
    /// `idx` names no point of the contour. The point must carry a
    /// continuity.
    pub fn change_continuity(&mut self, idx: GlyphPointIndex, continuity: Continuity) -> (ret: Option<
        Continuity,
    >)
        requires
            names_point(old(self).curves_view(), idx) ==> continuity_at(
                old(self).curves_view(),
                idx,
            ) is Some,
        ensures
            final(self).open_view() == old(self).open_view(),
            ret == continuity_at(old(self).curves_view(), idx),
            final(self).curves_view() == (if names_point(old(self).curves_view(), idx)
                && continuity_at(old(self).curves_view(), idx) != Some(continuity) {
                changed_continuity(old(self).curves_view(), idx, continuity)
            } else {
                old(self).curves_view()
            }),
    {
        proof {
            lemma_curve_views(self.curves@);
        }
        let ghost cs = curve_views(self.curves@);
        let ci = idx.curve_index;
        let n = self.curves.len();
        if ci >= n {
            return None;
        }
        assert(cs[ci as int].points == self.curves@[ci as int].points@);
        let k = match find_point_exec(&self.curves[ci].points, idx.uuid) {
            None => return None,
            Some(k) => k,
        };
        let at_end = match self.curves[ci].points[k].degree {
            Some(d) => d == k,
            None => false,
        };
        let prev_value = if at_end {
            self.curves[ci].continuity_out
        } else {
            self.curves[ci].continuity_in
        };
        let old_k = prev_value.unwrap();
        if old_k == continuity {
            return prev_value;
        }
        let before = if ci == 0 {
            n - 1
        } else {
            ci - 1
        };
        if at_end {
            let cin = self.curves[ci].continuity_in;
            set_ends(&mut self.curves, ci, cin, Some(continuity));
            proof {
                lemma_curve_views(self.curves@);
            }
            let bout = self.curves[before].continuity_out;
            set_ends(&mut self.curves, before, Some(continuity), bout);
        } else {
            let cout = self.curves[ci].continuity_out;
            set_ends(&mut self.curves, ci, Some(continuity), cout);
            proof {
                lemma_curve_views(self.curves@);
            }
            let bin = self.curves[before].continuity_in;
            set_ends(&mut self.curves, before, bin, Some(continuity));
        }
        proof {
            lemma_curve_views(self.curves@);
            assert(curve_views(self.curves@) =~= changed_continuity(cs, idx, continuity));
        }
        prev_value
    }

    /// The plan for transforming the selected points `idxs` of this
    /// contour, the contour number `contour_index` of its glyph: which
    /// points move, in order, and how (see `transform_plan`). Indices of
    /// other contours are ignored.
    pub fn transform_points(&self, contour_index: usize, idxs: &Vec<GlyphPointIndex>) -> (ret: Vec<
        PointEdit,
    >)
        requires
            !transform_plan(self.curves_view(), !self.open_view(), contour_index, idxs@).failed,
        ensures
            ret@ == transform_plan(self.curves_view(), !self.open_view(), contour_index, idxs@).edits,
    {
        plan_transform(&self.curves, self.open, contour_index, idxs)
    }

    /// The point that `idx` names: in curve `idx.curve_index`, the first
    /// with its identifier; `None` when there is none.
    pub fn get_point(&self, idx: GlyphPointIndex) -> (ret: Option<CurvePoint>)
        ensures
            ret == (if names_point(self.curves_view(), idx) {
                Some(
                    self.curves_view()[idx.curve_index as int].points[find_point(
                        self.curves_view()[idx.curve_index as int].points,
                        idx.uuid,
                    )->0],
                )
            } else {
                None
            }),
    {
        proof {
            lemma_curve_views(self.curves@);
        }
        let ci = idx.curve_index;
        if ci >= self.curves.len() {
            return None;
        }
        assert(curve_views(self.curves@)[ci as int].points == self.curves@[ci as int].points@);
        match find_point_exec(&self.curves[ci].points, idx.uuid) {
            Some(k) => Some(self.curves[ci].points[k]),
            None => None,
        }
    }

    /// Removes the last curve and returns it; `None` when there is none.
    pub fn pop_curve(&mut self) -> (ret: Option<Bezier>)
        ensures
            final(self).open_view() == old(self).open_view(),
            old(self).curves_view().len() == 0 ==> ret is None && final(self).curves_view()
                == old(self).curves_view(),
            old(self).curves_view().len() > 0 ==> (ret matches Some(c) && c@ == old(
                self,
            ).curves_view().last()) && final(self).curves_view() == old(
                self,
            ).curves_view().drop_last(),
    {
        let ret = self.curves.pop();
        proof {
            lemma_curve_views(self.curves@);
            lemma_curve_views(old(self).curves@);
            if old(self).curves@.len() > 0 {
                assert(curve_views(self.curves@) =~= curve_views(old(self).curves@).drop_last());
            }
        }
        ret
    }
}

/// Reversing the direction of a contour twice gives back the contour.
pub proof fn law_reverse_direction_twice(cs: Seq<BezierView>, once: Seq<BezierView>, twice: Seq<BezierView>)
    requires
        is_reversal(cs, once),
        is_reversal(once, twice),
    ensures
        twice == cs,
{
    assert forall|i: int| 0 <= i < cs.len() implies #[trigger] twice[i] == cs[i] by {
        let j = cs.len() - 1 - i;
        assert(once[j] == reversed_curve(cs[i]));
        assert(cs[i].points.reverse().reverse() =~= cs[i].points);
    }
    assert(twice =~= cs);
}

/// Popping the curve that was just pushed gives it back, with the
/// continuity of its new join at its start, and leaves the other curves as
/// they were but for the continuity at the end of the one it joined.
pub proof fn law_pop_after_push(cs: Seq<BezierView>, c: BezierView, smooth_join: Continuity)
    requires
        c.points.len() > 0,
    ensures
        ({
            let pushed = pushed_curves(cs, c, smooth_join);
            let k = join_continuity(c, smooth_join);
            &&& pushed.len() == cs.len() + 1
            &&& pushed.last() == (if cs.len() == 0 { c } else { with_in(c, k) })
            &&& pushed.drop_last() == (if cs.len() == 0 {
                cs
            } else {
                cs.update(cs.len() - 1, with_out(cs.last(), k))
            })
        }),
{
    let pushed = pushed_curves(cs, c, smooth_join);
    if cs.len() == 0 {
        assert(pushed.drop_last() =~= cs);
    } else {
        let k = join_continuity(c, smooth_join);
        assert(pushed.drop_last() =~= cs.update(cs.len() - 1, with_out(cs.last(), k)));
    }
}

/// After the continuities are recomputed, both sides of every join agree:
/// each curve ends with the continuity that the next one, cyclically,
/// starts with.
pub proof fn law_recalculated_joins_agree(cs: Seq<BezierView>, joins: Seq<Continuity>, new: Seq<BezierView>, i: int)
    requires
        recalculated(cs, joins, new),
        0 <= i < cs.len(),
    ensures
        new[i].continuity_out == new[(i + 1) % (cs.len() as int)].continuity_in,
        new[i].continuity_out is Some,
{
    let n = cs.len() as int;
    lemma_cyclic_neighbours(i, n);
    let j = (i + 1) % n;
    lemma_cyclic_neighbours(j, n);
    assert(new[j] == with_ends(
        cs[j],
        Some(join_after(cs, joins, (j + n - 1) % n)),
        Some(join_after(cs, joins, j)),
    ));
}

} // verus!
