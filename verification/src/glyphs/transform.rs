//! Which points move when selected points of a contour are transformed.
//!
//! A selected on-curve point drags the handles next to it, and the matching
//! end of the neighbouring curve; a selected handle at a smooth join drags
//! the handle across the join, mirrored (velocity continuity) or along the
//! same line (tangent continuity). Positions stay with the caller: the
//! plan lists, in order, which point gets which new position, and from
//! which points that position is computed.
use vstd::prelude::*;

use crate::glyphs::contours::{Bezier, BezierView, Continuity, curve_views, lemma_curve_views};
use crate::glyphs::GlyphPointIndex;

verus! {

/// A point of a contour: its index, and where it stands in its curve.
#[derive(Debug, Clone, Copy, PartialEq, Eq, Structural)]
pub struct PointRef {
    pub index: GlyphPointIndex,
    pub point: usize,
}

/// A change of position of one point.
#[derive(Debug, Clone, Copy, PartialEq, Eq, Structural)]
pub enum PointEdit {
    /// The point is moved by the transformation.
    Transform { target: PointRef },
    /// The point is put at the mirror image of `of` around `around`.
    Mirror { target: PointRef, of: PointRef, around: PointRef },
    /// The point is put on the line from `handle` through `center`, across
    /// `center`, at the distance from it of `handle` divided by the ratio
    /// whose bits `beta_bits` hold: `2·center − ((handle − center)/β + center)`.
    TangentBefore { target: PointRef, handle: PointRef, center: PointRef, beta_bits: u64 },
    /// The point is put at `2·center − (β·(from − to) + center)`.
    TangentAfter { target: PointRef, center: PointRef, from: PointRef, to: PointRef, beta_bits: u64 },
}

/// The state of a plan as it is built: the edits so far, the points
/// already moved or selected (curve and identifier), and whether the
/// contour is one the plan cannot be made for (a neighbouring curve with
/// no points, or a handle at a join that has no continuity or that ends
/// an open contour).
pub struct PlanState {
    pub edits: Seq<PointEdit>,
    pub moved: Seq<(usize, u128)>,
    pub failed: bool,
}

/// Point `p` of curve `c` of `cs` in contour `contour`.
pub open spec fn point_ref(cs: Seq<BezierView>, contour: usize, c: int, p: int) -> PointRef {
    PointRef {
        index: GlyphPointIndex {
            contour_index: contour,
            curve_index: c as usize,
            uuid: cs[c].points[p].uuid,
        },
        point: p as usize,
    }
}

/// Records the edit `e` of point `p` of curve `c`.
pub open spec fn with_edit(cs: Seq<BezierView>, st: PlanState, c: int, p: int, e: PointEdit) -> PlanState {
    PlanState {
        edits: st.edits.push(e),
        moved: st.moved.push((c as usize, cs[c].points[p].uuid)),
        failed: st.failed,
    }
}

/// Moves point `p` of curve `c` by the transformation.
pub open spec fn with_transform(cs: Seq<BezierView>, contour: usize, st: PlanState, c: int, p: int) -> PlanState {
    with_edit(cs, st, c, p, PointEdit::Transform { target: point_ref(cs, contour, c, p) })
}

/// Point `p` of curve `c` has been moved or selected.
pub open spec fn was_moved(cs: Seq<BezierView>, st: PlanState, c: int, p: int) -> bool {
    st.moved.contains((c as usize, cs[c].points[p].uuid))
}

/// Moves point `p` of curve `c` by the transformation unless it has been
/// moved or selected already.
pub open spec fn with_transform_once(cs: Seq<BezierView>, contour: usize, st: PlanState, c: int, p: int) -> PlanState {
    if was_moved(cs, st, c, p) {
        st
    } else {
        with_transform(cs, contour, st, c, p)
    }
}

/// The plan stops.
pub open spec fn failed(st: PlanState) -> PlanState {
    PlanState { failed: true, ..st }
}

/// The continuity after curve `c`, as a handle at that join reads it; the
/// plan stops when the join has none, or when it is the first or last
/// curve of an open contour.
pub open spec fn join_for_handle(cs: Seq<BezierView>, closed: bool, c: int) -> Option<Continuity> {
    if (c + 1 == cs.len() || c == 0) && !closed {
        None
    } else {
        cs[c].continuity_out
    }
}

/// The edits for selected point `i` of curve `ci`.
pub open spec fn point_step(
    cs: Seq<BezierView>,
    closed: bool,
    contour: usize,
    ci: int,
    i: int,
    st: PlanState,
) -> PlanState {
    if st.failed {
        st
    } else {
        let n = cs.len() as int;
        let m = cs[ci].points.len() as int;
        let prev = if ci == 0 { n - 1 } else { ci - 1 };
        let next = if ci + 1 == n { 0 } else { ci + 1 };
        let st1 = with_transform(cs, contour, st, ci, i);
        if i == 0 {
            let st2 = if m > 2 { with_transform_once(cs, contour, st1, ci, 1) } else { st1 };
            if closed || ci + 1 != n {
                let pl = cs[prev].points.len() as int;
                if pl == 0 {
                    failed(st2)
                } else {
                    let st3 = with_transform_once(cs, contour, st2, prev, pl - 1);
                    if pl > 2 { with_transform_once(cs, contour, st3, prev, pl - 2) } else { st3 }
                }
            } else {
                st2
            }
        } else if i + 1 == m {
            let st2 = if m > 2 { with_transform_once(cs, contour, st1, ci, i - 1) } else { st1 };
            if closed || ci + 1 != n {
                let pl = cs[next].points.len() as int;
                if pl == 0 {
                    failed(st2)
                } else {
                    let st3 = with_transform_once(cs, contour, st2, next, 0);
                    if pl > 2 { with_transform_once(cs, contour, st3, next, 1) } else { st3 }
                }
            } else {
                st2
            }
        } else if closed || (next != 0 && ci + 1 != n) {
            if i == 1 {
                let pl = cs[prev].points.len() as int;
                if pl == 0 {
                    failed(st1)
                } else if pl > 2 && !was_moved(cs, st1, prev, pl - 2) {
                    match join_for_handle(cs, closed, prev) {
                        None => failed(st1),
                        Some(Continuity::Positional) => st1,
                        Some(Continuity::Velocity) => with_edit(
                            cs,
                            st1,
                            prev,
                            pl - 2,
                            PointEdit::Mirror {
                                target: point_ref(cs, contour, prev, pl - 2),
                                of: point_ref(cs, contour, ci, 1),
                                around: point_ref(cs, contour, ci, 0),
                            },
                        ),
                        Some(Continuity::Tangent { beta_bits }) => with_edit(
                            cs,
                            st1,
                            prev,
                            pl - 2,
                            PointEdit::TangentBefore {
                                target: point_ref(cs, contour, prev, pl - 2),
                                handle: point_ref(cs, contour, ci, 1),
                                center: point_ref(cs, contour, prev, pl - 1),
                                beta_bits,
                            },
                        ),
                    }
                } else {
                    st1
                }
            } else {
                let pl = cs[next].points.len() as int;
                if pl == 0 {
                    failed(st1)
                } else if pl > 2 && !was_moved(cs, st1, next, 1) {
                    match join_for_handle(cs, closed, ci) {
                        None => failed(st1),
                        Some(Continuity::Positional) => st1,
                        Some(Continuity::Velocity) => with_edit(
                            cs,
                            st1,
                            next,
                            1,
                            PointEdit::Mirror {
                                target: point_ref(cs, contour, next, 1),
                                of: point_ref(cs, contour, ci, i),
                                around: point_ref(cs, contour, ci, i + 1),
                            },
                        ),
                        Some(Continuity::Tangent { beta_bits }) => with_edit(
                            cs,
                            st1,
                            next,
                            1,
                            PointEdit::TangentAfter {
                                target: point_ref(cs, contour, next, 1),
                                center: point_ref(cs, contour, next, 0),
                                from: point_ref(cs, contour, ci, i),
                                to: point_ref(cs, contour, ci, i + 1),
                                beta_bits,
                            },
                        ),
                    }
                } else {
                    st1
                }
            }
        } else {
            st1
        }
    }
}

/// The selected points: each `(curve, identifier)` of the indices `idxs`
/// that belong to contour `contour`, in order.
pub open spec fn selected_pairs(idxs: Seq<GlyphPointIndex>, contour: usize) -> Seq<(usize, u128)>
    decreases idxs.len(),
{
    if idxs.len() == 0 {
        Seq::empty()
    } else {
        let rest = selected_pairs(idxs.drop_last(), contour);
        if idxs.last().contour_index == contour {
            rest.push((idxs.last().curve_index, idxs.last().uuid))
        } else {
            rest
        }
    }
}

/// The edits for the selected points of curve `ci` from point `k` on.
pub open spec fn points_steps(
    cs: Seq<BezierView>,
    closed: bool,
    contour: usize,
    sel: Seq<(usize, u128)>,
    ci: int,
    k: int,
    st: PlanState,
) -> PlanState
    decreases cs[ci].points.len() - k,
{
    if k < 0 || k >= cs[ci].points.len() {
        st
    } else {
        let st2 = if sel.contains((ci as usize, cs[ci].points[k].uuid)) {
            point_step(cs, closed, contour, ci, k, st)
        } else {
            st
        };
        points_steps(cs, closed, contour, sel, ci, k + 1, st2)
    }
}

/// The edits for the selected points of the curves from `ci` on.
pub open spec fn curves_steps(
    cs: Seq<BezierView>,
    closed: bool,
    contour: usize,
    sel: Seq<(usize, u128)>,
    ci: int,
    st: PlanState,
) -> PlanState
    decreases cs.len() - ci,
{
    if ci < 0 || ci >= cs.len() {
        st
    } else {
        curves_steps(cs, closed, contour, sel, ci + 1, points_steps(cs, closed, contour, sel, ci, 0, st))
    }
}

/// The plan for transforming the points `idxs` of contour `contour`: the
/// curves in order, and in each the selected points in order.
pub open spec fn transform_plan(cs: Seq<BezierView>, closed: bool, contour: usize, idxs: Seq<GlyphPointIndex>) -> PlanState {
    let sel = selected_pairs(idxs, contour);
    curves_steps(cs, closed, contour, sel, 0, PlanState { edits: Seq::empty(), moved: sel, failed: false })
}

/// The point that an edit moves: its curve and identifier.
pub open spec fn edit_key(e: PointEdit) -> (usize, u128) {
    match e {
        PointEdit::Transform { target } => (target.index.curve_index, target.index.uuid),
        PointEdit::Mirror { target, .. } => (target.index.curve_index, target.index.uuid),
        PointEdit::TangentBefore { target, .. } => (target.index.curve_index, target.index.uuid),
        PointEdit::TangentAfter { target, .. } => (target.index.curve_index, target.index.uuid),
    }
}

/// No two edits move the same point.
pub open spec fn keys_distinct(edits: Seq<PointEdit>) -> bool {
    forall|i: int, j: int| 0 <= i < j < edits.len() ==> #[trigger] edit_key(edits[i]) != #[trigger] edit_key(edits[j])
}

/// Within each curve, no two points share an identifier.
pub open spec fn ids_unique(cs: Seq<BezierView>) -> bool {
    forall|c: int, p: int, q: int|
        0 <= c < cs.len() && 0 <= p < q < cs[c].points.len() ==> #[trigger] cs[c].points[p].uuid
            != #[trigger] cs[c].points[q].uuid
}

/// The point `key` comes before position `k` of curve `ci`.
pub open spec fn key_before(cs: Seq<BezierView>, key: (usize, u128), ci: int, k: int) -> bool {
    key.0 < ci || (key.0 == ci && exists|p: int| 0 <= p < k && #[trigger] cs[ci].points[p].uuid == key.1)
}

/// What holds of a plan before position `k` of curve `ci` is read.
pub open spec fn plan_inv(cs: Seq<BezierView>, sel: Seq<(usize, u128)>, st: PlanState, ci: int, k: int) -> bool {
    &&& keys_distinct(st.edits)
    &&& forall|j: int| 0 <= j < st.edits.len() ==> st.moved.contains(#[trigger] edit_key(st.edits[j]))
    &&& forall|x: (usize, u128)| sel.contains(x) ==> #[trigger] st.moved.contains(x)
    &&& forall|j: int|
        0 <= j < st.edits.len() && sel.contains(#[trigger] edit_key(st.edits[j])) ==> key_before(
            cs,
            edit_key(st.edits[j]),
            ci,
            k,
        )
}

proof fn lemma_guarded_edit(
    cs: Seq<BezierView>,
    sel: Seq<(usize, u128)>,
    st: PlanState,
    ci: int,
    k: int,
    c: int,
    p: int,
    e: PointEdit,
)
    requires
        plan_inv(cs, sel, st, ci, k),
        0 <= c < cs.len(),
        0 <= p < cs[c].points.len(),
        !was_moved(cs, st, c, p),
        edit_key(e) == (c as usize, cs[c].points[p].uuid),
    ensures
        plan_inv(cs, sel, with_edit(cs, st, c, p, e), ci, k),
        with_edit(cs, st, c, p, e).failed == st.failed,
{
    let st2 = with_edit(cs, st, c, p, e);
    let key = edit_key(e);
    assert(!sel.contains(key));
    assert forall|j: int| 0 <= j < st2.edits.len() implies st2.moved.contains(#[trigger] edit_key(st2.edits[j])) by {
        if j < st.edits.len() {
            assert(st2.edits[j] == st.edits[j]);
            assert(st.moved.contains(edit_key(st.edits[j])));
            let w = choose|w: int| 0 <= w < st.moved.len() && st.moved[w] == edit_key(st.edits[j]);
            assert(st2.moved[w] == st.moved[w]);
        } else {
            assert(st2.moved[st.moved.len() as int] == key);
        }
    }
    assert forall|x: (usize, u128)| sel.contains(x) implies #[trigger] st2.moved.contains(x) by {
        assert(st.moved.contains(x));
        let w = choose|w: int| 0 <= w < st.moved.len() && st.moved[w] == x;
        assert(st2.moved[w] == st.moved[w]);
    }
    assert forall|i: int, j: int| 0 <= i < j < st2.edits.len() implies #[trigger] edit_key(st2.edits[i])
        != #[trigger] edit_key(st2.edits[j]) by {
        if j < st.edits.len() {
            assert(st2.edits[i] == st.edits[i] && st2.edits[j] == st.edits[j]);
        } else {
            assert(st2.edits[i] == st.edits[i]);
            assert(st.moved.contains(edit_key(st.edits[i])));
        }
    }
    assert forall|j: int|
        0 <= j < st2.edits.len() && sel.contains(#[trigger] edit_key(st2.edits[j])) implies key_before(
        cs,
        edit_key(st2.edits[j]),
        ci,
        k,
    ) by {
        if j < st.edits.len() {
            assert(st2.edits[j] == st.edits[j]);
        }
    }
}

proof fn lemma_transform_once_inv(
    cs: Seq<BezierView>,
    sel: Seq<(usize, u128)>,
    contour: usize,
    st: PlanState,
    ci: int,
    k: int,
    c: int,
    p: int,
)
    requires
        plan_inv(cs, sel, st, ci, k),
        0 <= c < cs.len(),
        0 <= p < cs[c].points.len(),
    ensures
        plan_inv(cs, sel, with_transform_once(cs, contour, st, c, p), ci, k),
        with_transform_once(cs, contour, st, c, p).failed == st.failed,
{
    if !was_moved(cs, st, c, p) {
        lemma_guarded_edit(
            cs,
            sel,
            st,
            ci,
            k,
            c,
            p,
            PointEdit::Transform { target: point_ref(cs, contour, c, p) },
        );
    }
}

proof fn lemma_selected_edit_inv(
    cs: Seq<BezierView>,
    sel: Seq<(usize, u128)>,
    contour: usize,
    st: PlanState,
    ci: int,
    k: int,
)
    requires
        plan_inv(cs, sel, st, ci, k),
        ids_unique(cs),
        cs.len() <= usize::MAX,
        0 <= ci < cs.len(),
        0 <= k < cs[ci].points.len(),
        sel.contains((ci as usize, cs[ci].points[k].uuid)),
    ensures
        plan_inv(cs, sel, with_transform(cs, contour, st, ci, k), ci, k + 1),
{
    let st2 = with_transform(cs, contour, st, ci, k);
    let key = (ci as usize, cs[ci].points[k].uuid);
    assert(edit_key(st2.edits.last()) == key);
    assert forall|j: int| 0 <= j < st2.edits.len() implies st2.moved.contains(#[trigger] edit_key(st2.edits[j])) by {
        if j < st.edits.len() {
            assert(st2.edits[j] == st.edits[j]);
            assert(st.moved.contains(edit_key(st.edits[j])));
            let w = choose|w: int| 0 <= w < st.moved.len() && st.moved[w] == edit_key(st.edits[j]);
            assert(st2.moved[w] == st.moved[w]);
        } else {
            assert(st2.moved[st.moved.len() as int] == key);
        }
    }
    assert forall|x: (usize, u128)| sel.contains(x) implies #[trigger] st2.moved.contains(x) by {
        assert(st.moved.contains(x));
        let w = choose|w: int| 0 <= w < st.moved.len() && st.moved[w] == x;
        assert(st2.moved[w] == st.moved[w]);
    }
    assert forall|i: int, j: int| 0 <= i < j < st2.edits.len() implies #[trigger] edit_key(st2.edits[i])
        != #[trigger] edit_key(st2.edits[j]) by {
        if j < st.edits.len() {
            assert(st2.edits[i] == st.edits[i] && st2.edits[j] == st.edits[j]);
        } else {
            assert(st2.edits[i] == st.edits[i]);
            if edit_key(st.edits[i]) == key {
                assert(sel.contains(edit_key(st.edits[i])));
                assert(key_before(cs, key, ci, k));
                let p = choose|p: int| 0 <= p < k && #[trigger] cs[ci].points[p].uuid == key.1;
                assert(cs[ci].points[p].uuid != cs[ci].points[k].uuid);
            }
        }
    }
    assert forall|j: int|
        0 <= j < st2.edits.len() && sel.contains(#[trigger] edit_key(st2.edits[j])) implies key_before(
        cs,
        edit_key(st2.edits[j]),
        ci,
        k + 1,
    ) by {
        if j < st.edits.len() {
            assert(st2.edits[j] == st.edits[j]);
            if edit_key(st.edits[j]).0 == ci {
                let p = choose|p: int| 0 <= p < k && #[trigger] cs[ci].points[p].uuid == edit_key(st.edits[j]).1;
                assert(0 <= p < k + 1);
            }
        } else {
            assert(cs[ci].points[k].uuid == key.1);
        }
    }
}

proof fn lemma_point_step_inv(
    cs: Seq<BezierView>,
    closed: bool,
    contour: usize,
    sel: Seq<(usize, u128)>,
    st: PlanState,
    ci: int,
    i: int,
)
    requires
        plan_inv(cs, sel, st, ci, i),
        ids_unique(cs),
        cs.len() <= usize::MAX,
        0 <= ci < cs.len(),
        0 <= i < cs[ci].points.len(),
        sel.contains((ci as usize, cs[ci].points[i].uuid)),
    ensures
        plan_inv(cs, sel, point_step(cs, closed, contour, ci, i, st), ci, i + 1),
{
    if st.failed {
        assert(plan_inv(cs, sel, st, ci, i + 1)) by {
            assert forall|j: int|
                0 <= j < st.edits.len() && sel.contains(#[trigger] edit_key(st.edits[j])) implies key_before(
                cs,
                edit_key(st.edits[j]),
                ci,
                i + 1,
            ) by {
                if edit_key(st.edits[j]).0 == ci {
                    let p = choose|p: int| 0 <= p < i && #[trigger] cs[ci].points[p].uuid == edit_key(st.edits[j]).1;
                    assert(0 <= p < i + 1);
                }
            }
        }
        return;
    }
    let n = cs.len() as int;
    let m = cs[ci].points.len() as int;
    let prev = if ci == 0 { n - 1 } else { ci - 1 };
    let next = if ci + 1 == n { 0 } else { ci + 1 };
    let k = i + 1;
    lemma_selected_edit_inv(cs, sel, contour, st, ci, i);
    let st1 = with_transform(cs, contour, st, ci, i);
    if i == 0 {
        if m > 2 {
            lemma_transform_once_inv(cs, sel, contour, st1, ci, k, ci, 1);
        }
        let st2 = if m > 2 { with_transform_once(cs, contour, st1, ci, 1) } else { st1 };
        if closed || ci + 1 != n {
            let pl = cs[prev].points.len() as int;
            if pl != 0 {
                lemma_transform_once_inv(cs, sel, contour, st2, ci, k, prev, pl - 1);
                let st3 = with_transform_once(cs, contour, st2, prev, pl - 1);
                if pl > 2 {
                    lemma_transform_once_inv(cs, sel, contour, st3, ci, k, prev, pl - 2);
                }
            }
        }
    } else if i + 1 == m {
        if m > 2 {
            lemma_transform_once_inv(cs, sel, contour, st1, ci, k, ci, i - 1);
        }
        let st2 = if m > 2 { with_transform_once(cs, contour, st1, ci, i - 1) } else { st1 };
        if closed || ci + 1 != n {
            let pl = cs[next].points.len() as int;
            if pl != 0 {
                lemma_transform_once_inv(cs, sel, contour, st2, ci, k, next, 0);
                let st3 = with_transform_once(cs, contour, st2, next, 0);
                if pl > 2 {
                    lemma_transform_once_inv(cs, sel, contour, st3, ci, k, next, 1);
                }
            }
        }
    } else if closed || (next != 0 && ci + 1 != n) {
        if i == 1 {
            let pl = cs[prev].points.len() as int;
            if pl > 2 && !was_moved(cs, st1, prev, pl - 2) {
                match join_for_handle(cs, closed, prev) {
                    Some(Continuity::Velocity) => {
                        lemma_guarded_edit(
                            cs,
                            sel,
                            st1,
                            ci,
                            k,
                            prev,
                            pl - 2,
                            PointEdit::Mirror {
                                target: point_ref(cs, contour, prev, pl - 2),
                                of: point_ref(cs, contour, ci, 1),
                                around: point_ref(cs, contour, ci, 0),
                            },
                        );
                    },
                    Some(Continuity::Tangent { beta_bits }) => {
                        lemma_guarded_edit(
                            cs,
                            sel,
                            st1,
                            ci,
                            k,
                            prev,
                            pl - 2,
                            PointEdit::TangentBefore {
                                target: point_ref(cs, contour, prev, pl - 2),
                                handle: point_ref(cs, contour, ci, 1),
                                center: point_ref(cs, contour, prev, pl - 1),
                                beta_bits,
                            },
                        );
                    },
                    _ => {},
                }
            }
        } else {
            let pl = cs[next].points.len() as int;
            if pl > 2 && !was_moved(cs, st1, next, 1) {
                match join_for_handle(cs, closed, ci) {
                    Some(Continuity::Velocity) => {
                        lemma_guarded_edit(
                            cs,
                            sel,
                            st1,
                            ci,
                            k,
                            next,
                            1,
                            PointEdit::Mirror {
                                target: point_ref(cs, contour, next, 1),
                                of: point_ref(cs, contour, ci, i),
                                around: point_ref(cs, contour, ci, i + 1),
                            },
                        );
                    },
                    Some(Continuity::Tangent { beta_bits }) => {
                        lemma_guarded_edit(
                            cs,
                            sel,
                            st1,
                            ci,
                            k,
                            next,
                            1,
                            PointEdit::TangentAfter {
                                target: point_ref(cs, contour, next, 1),
                                center: point_ref(cs, contour, next, 0),
                                from: point_ref(cs, contour, ci, i),
                                to: point_ref(cs, contour, ci, i + 1),
                                beta_bits,
                            },
                        );
                    },
                    _ => {},
                }
            }
        }
    }
}

proof fn lemma_plan_inv_later(
    cs: Seq<BezierView>,
    sel: Seq<(usize, u128)>,
    st: PlanState,
    ci: int,
    k: int,
    ci2: int,
    k2: int,
)
    requires
        plan_inv(cs, sel, st, ci, k),
        0 <= ci < cs.len(),
        0 <= k <= cs[ci].points.len(),
        (ci2 == ci && k <= k2) || (ci2 == ci + 1 && k2 == 0 && k == cs[ci].points.len()),
    ensures
        plan_inv(cs, sel, st, ci2, k2),
{
    assert forall|j: int|
        0 <= j < st.edits.len() && sel.contains(#[trigger] edit_key(st.edits[j])) implies key_before(
        cs,
        edit_key(st.edits[j]),
        ci2,
        k2,
    ) by {
        let key = edit_key(st.edits[j]);
        assert(key_before(cs, key, ci, k));
        if key.0 == ci {
            let p = choose|p: int| 0 <= p < k && #[trigger] cs[ci].points[p].uuid == key.1;
            if ci2 == ci {
                assert(0 <= p < k2);
            }
        }
    }
}

proof fn lemma_points_steps_inv(
    cs: Seq<BezierView>,
    closed: bool,
    contour: usize,
    sel: Seq<(usize, u128)>,
    ci: int,
    k: int,
    st: PlanState,
)
    requires
        plan_inv(cs, sel, st, ci, k),
        ids_unique(cs),
        cs.len() <= usize::MAX,
        0 <= ci < cs.len(),
        0 <= k <= cs[ci].points.len(),
    ensures
        plan_inv(cs, sel, points_steps(cs, closed, contour, sel, ci, k, st), ci + 1, 0),
    decreases cs[ci].points.len() - k,
{
    if k >= cs[ci].points.len() {
        lemma_plan_inv_later(cs, sel, st, ci, k, ci + 1, 0);
    } else {
        let st2 = if sel.contains((ci as usize, cs[ci].points[k].uuid)) {
            lemma_point_step_inv(cs, closed, contour, sel, st, ci, k);
            point_step(cs, closed, contour, ci, k, st)
        } else {
            lemma_plan_inv_later(cs, sel, st, ci, k, ci, k + 1);
            st
        };
        lemma_points_steps_inv(cs, closed, contour, sel, ci, k + 1, st2);
    }
}

proof fn lemma_curves_steps_inv(
    cs: Seq<BezierView>,
    closed: bool,
    contour: usize,
    sel: Seq<(usize, u128)>,
    ci: int,
    st: PlanState,
)
    requires
        plan_inv(cs, sel, st, ci, 0),
        ids_unique(cs),
        cs.len() <= usize::MAX,
        0 <= ci <= cs.len(),
    ensures
        keys_distinct(curves_steps(cs, closed, contour, sel, ci, st).edits),
    decreases cs.len() - ci,
{
    if ci < cs.len() {
        lemma_points_steps_inv(cs, closed, contour, sel, ci, 0, st);
        lemma_curves_steps_inv(
            cs,
            closed,
            contour,
            sel,
            ci + 1,
            points_steps(cs, closed, contour, sel, ci, 0, st),
        );
    }
}

/// A transformation moves each point at most once: when no two points of a
/// curve share an identifier, no two edits of the plan have the same
/// target.
pub proof fn law_plan_moves_each_point_once(
    cs: Seq<BezierView>,
    closed: bool,
    contour: usize,
    idxs: Seq<GlyphPointIndex>,
)
    requires
        ids_unique(cs),
        cs.len() <= usize::MAX,
    ensures
        keys_distinct(transform_plan(cs, closed, contour, idxs).edits),
{
    let sel = selected_pairs(idxs, contour);
    let st = PlanState { edits: Seq::empty(), moved: sel, failed: false };
    assert(plan_inv(cs, sel, st, 0, 0));
    lemma_curves_steps_inv(cs, closed, contour, sel, 0, st);
}

/// The curve and identifier of point `p` of curve `c`.
pub open spec fn pos_key(cs: Seq<BezierView>, c: int, p: int) -> (usize, u128) {
    (c as usize, cs[c].points[p].uuid)
}

/// Point `p` of curve `c` exists.
pub open spec fn valid_pos(cs: Seq<BezierView>, c: int, p: int) -> bool {
    0 <= c < cs.len() && 0 <= p < cs[c].points.len()
}

/// Point `p` of curve `c` is an end of its curve.
pub open spec fn is_end(cs: Seq<BezierView>, c: int, p: int) -> bool {
    p == 0 || p == cs[c].points.len() - 1
}

/// The curve before curve `c`, cyclically.
pub open spec fn prev_curve(n: int, c: int) -> int {
    if c == 0 { n - 1 } else { c - 1 }
}

/// The curve after curve `c`, cyclically.
pub open spec fn next_curve(n: int, c: int) -> int {
    if c + 1 == n { 0 } else { c + 1 }
}

/// The other end of the join at the end point `p` of curve `c`, the curves
/// taken cyclically: the last point of the curve before, for a first
/// point; the first point of the curve after, for a last point.
pub open spec fn join_partner(cs: Seq<BezierView>, c: int, p: int) -> (int, int) {
    let n = cs.len() as int;
    if p == 0 {
        let q = prev_curve(n, c);
        (q, cs[q].points.len() - 1)
    } else {
        (next_curve(n, c), 0)
    }
}

/// Point `p` of curve `c` is selected.
pub open spec fn sel_pos(cs: Seq<BezierView>, sel: Seq<(usize, u128)>, c: int, p: int) -> bool {
    sel.contains(pos_key(cs, c, p))
}

/// The plan moves point `key` by the transformation.
pub open spec fn transforms(edits: Seq<PointEdit>, key: (usize, u128)) -> bool {
    exists|j: int| 0 <= j < edits.len() && (#[trigger] edits[j]) is Transform && edit_key(edits[j]) == key
}

/// Edit `e` puts point `p` of curve `c`, which exists; the transformation
/// moves an end of a curve only when it or the other end of its join is
/// selected, and the other edits put no end of a curve.
pub open spec fn edit_ok_at(cs: Seq<BezierView>, sel: Seq<(usize, u128)>, e: PointEdit, c: int, p: int) -> bool {
    &&& valid_pos(cs, c, p)
    &&& edit_key(e) == pos_key(cs, c, p)
    &&& e is Transform ==> sel_pos(cs, sel, c, p) || !is_end(cs, c, p) || sel_pos(
        cs,
        sel,
        join_partner(cs, c, p).0,
        join_partner(cs, c, p).1,
    )
    &&& !(e is Transform) ==> !is_end(cs, c, p)
}

/// Edit `e` of a plan is one that [`edit_ok_at`] allows, at some point.
pub open spec fn edit_ok(cs: Seq<BezierView>, sel: Seq<(usize, u128)>, e: PointEdit) -> bool {
    exists|c: int, p: int| #[trigger] edit_ok_at(cs, sel, e, c, p)
}

/// Position `(c, p)` comes before position `k` of curve `ci`.
pub open spec fn pos_before(c: int, p: int, ci: int, k: int) -> bool {
    c < ci || (c == ci && p < k)
}

/// What holds of a plan before position `k` of curve `ci` is read. An end
/// of the last curve of an open contour has no join to follow.
pub open spec fn join_inv(cs: Seq<BezierView>, closed: bool, sel: Seq<(usize, u128)>, st: PlanState, ci: int, k: int) -> bool {
    &&& forall|j: int| 0 <= j < st.edits.len() ==> edit_ok(cs, sel, #[trigger] st.edits[j])
    &&& forall|x: (usize, u128)|
        #[trigger] st.moved.contains(x) ==> sel.contains(x) || exists|j: int|
            0 <= j < st.edits.len() && edit_key(#[trigger] st.edits[j]) == x
    &&& forall|c: int, p: int|
        valid_pos(cs, c, p) && pos_before(c, p, ci, k) && #[trigger] sel_pos(cs, sel, c, p) ==> transforms(
            st.edits,
            pos_key(cs, c, p),
        )
    &&& forall|c: int, p: int|
        valid_pos(cs, c, p) && pos_before(c, p, ci, k) && #[trigger] sel_pos(cs, sel, c, p) && is_end(
            cs,
            c,
            p,
        ) && (closed || c + 1 != cs.len()) ==> st.moved.contains(
            pos_key(cs, join_partner(cs, c, p).0, join_partner(cs, c, p).1),
        )
}

/// Every curve has at least two points.
pub open spec fn curves_have_ends(cs: Seq<BezierView>) -> bool {
    forall|c: int| 0 <= c < cs.len() ==> #[trigger] cs[c].points.len() >= 2
}

proof fn lemma_join_push(
    cs: Seq<BezierView>,
    closed: bool,
    sel: Seq<(usize, u128)>,
    st: PlanState,
    ci: int,
    k: int,
    c: int,
    p: int,
    e: PointEdit,
)
    requires
        join_inv(cs, closed, sel, st, ci, k),
        edit_ok_at(cs, sel, e, c, p),
    ensures
        join_inv(cs, closed, sel, with_edit(cs, st, c, p, e), ci, k),
        with_edit(cs, st, c, p, e).moved.contains(pos_key(cs, c, p)),
        with_edit(cs, st, c, p, e).failed == st.failed,
{
    let st2 = with_edit(cs, st, c, p, e);
    let n = st.edits.len();
    assert(edit_ok(cs, sel, e));
    assert(st2.moved.last() == pos_key(cs, c, p));
    assert forall|j: int| 0 <= j < st2.edits.len() implies edit_ok(cs, sel, #[trigger] st2.edits[j]) by {
        if j < n {
            assert(st2.edits[j] == st.edits[j]);
        }
    }
    assert forall|x: (usize, u128)| #[trigger] st2.moved.contains(x) implies sel.contains(x) || exists|j: int|
        0 <= j < st2.edits.len() && edit_key(#[trigger] st2.edits[j]) == x by {
        let w = choose|w: int| 0 <= w < st2.moved.len() && st2.moved[w] == x;
        if w < st.moved.len() {
            assert(st.moved[w] == x);
            assert(st.moved.contains(x));
            if !sel.contains(x) {
                let j = choose|j: int| 0 <= j < st.edits.len() && edit_key(#[trigger] st.edits[j]) == x;
                assert(st2.edits[j] == st.edits[j]);
            }
        } else {
            assert(st2.edits[n as int] == e);
        }
    }
    assert forall|c2: int, p2: int|
        valid_pos(cs, c2, p2) && pos_before(c2, p2, ci, k) && #[trigger] sel_pos(cs, sel, c2, p2) implies transforms(
        st2.edits,
        pos_key(cs, c2, p2),
    ) by {
        let j = choose|j: int|
            0 <= j < st.edits.len() && (#[trigger] st.edits[j]) is Transform && edit_key(st.edits[j])
                == pos_key(cs, c2, p2);
        assert(st2.edits[j] == st.edits[j]);
    }
    assert forall|c2: int, p2: int|
        valid_pos(cs, c2, p2) && pos_before(c2, p2, ci, k) && #[trigger] sel_pos(cs, sel, c2, p2) && is_end(
            cs,
            c2,
            p2,
        ) && (closed || c2 + 1 != cs.len()) implies st2.moved.contains(
        pos_key(cs, join_partner(cs, c2, p2).0, join_partner(cs, c2, p2).1),
    ) by {
        let x = pos_key(cs, join_partner(cs, c2, p2).0, join_partner(cs, c2, p2).1);
        assert(st.moved.contains(x));
        let w = choose|w: int| 0 <= w < st.moved.len() && st.moved[w] == x;
        assert(st2.moved[w] == x);
    }
}

proof fn lemma_join_transform_once(
    cs: Seq<BezierView>,
    closed: bool,
    contour: usize,
    sel: Seq<(usize, u128)>,
    st: PlanState,
    ci: int,
    k: int,
    c: int,
    p: int,
)
    requires
        join_inv(cs, closed, sel, st, ci, k),
        valid_pos(cs, c, p),
        sel_pos(cs, sel, c, p) || !is_end(cs, c, p) || sel_pos(
            cs,
            sel,
            join_partner(cs, c, p).0,
            join_partner(cs, c, p).1,
        ),
    ensures
        join_inv(cs, closed, sel, with_transform_once(cs, contour, st, c, p), ci, k),
        with_transform_once(cs, contour, st, c, p).moved.contains(pos_key(cs, c, p)),
        with_transform_once(cs, contour, st, c, p).failed == st.failed,
        with_transform_once(cs, contour, st, c, p).edits.len() >= st.edits.len(),
        forall|j: int|
            0 <= j < st.edits.len() ==> #[trigger] with_transform_once(cs, contour, st, c, p).edits[j]
                == st.edits[j],
        forall|x: (usize, u128)|
            st.moved.contains(x) ==> #[trigger] with_transform_once(cs, contour, st, c, p).moved.contains(x),
{
    if !was_moved(cs, st, c, p) {
        let e = PointEdit::Transform { target: point_ref(cs, contour, c, p) };
        lemma_join_push(cs, closed, sel, st, ci, k, c, p, e);
        let st2 = with_edit(cs, st, c, p, e);
        assert forall|x: (usize, u128)| st.moved.contains(x) implies #[trigger] st2.moved.contains(x) by {
            let w = choose|w: int| 0 <= w < st.moved.len() && st.moved[w] == x;
            assert(st2.moved[w] == x);
        }
    }
}

proof fn lemma_join_point_step(
    cs: Seq<BezierView>,
    closed: bool,
    contour: usize,
    sel: Seq<(usize, u128)>,
    st: PlanState,
    ci: int,
    i: int,
)
    requires
        join_inv(cs, closed, sel, st, ci, i),
        !st.failed,
        ids_unique(cs),
        curves_have_ends(cs),
        cs.len() <= usize::MAX,
        valid_pos(cs, ci, i),
        sel_pos(cs, sel, ci, i),
    ensures
        join_inv(cs, closed, sel, point_step(cs, closed, contour, ci, i, st), ci, i + 1),
{
    let n = cs.len() as int;
    let m = cs[ci].points.len() as int;
    let prev = if ci == 0 { n - 1 } else { ci - 1 };
    let next = if ci + 1 == n { 0 } else { ci + 1 };
    assert(cs[prev].points.len() >= 2);
    assert(cs[next].points.len() >= 2);
    let e0 = PointEdit::Transform { target: point_ref(cs, contour, ci, i) };
    lemma_join_push(cs, closed, sel, st, ci, i, ci, i, e0);
    let st1 = with_transform(cs, contour, st, ci, i);
    let j0 = st.edits.len() as int;
    assert(st1.edits[j0] == e0);
    let fin = point_step(cs, closed, contour, ci, i, st);
    if i == 0 {
        let st2 = if m > 2 {
            lemma_join_transform_once(cs, closed, contour, sel, st1, ci, i, ci, 1);
            with_transform_once(cs, contour, st1, ci, 1)
        } else {
            st1
        };
        if closed || ci + 1 != n {
            let pl = cs[prev].points.len() as int;
            assert(join_partner(cs, prev, pl - 1) == (ci, 0int));
            lemma_join_transform_once(cs, closed, contour, sel, st2, ci, i, prev, pl - 1);
            let st3 = with_transform_once(cs, contour, st2, prev, pl - 1);
            let st4 = if pl > 2 {
                lemma_join_transform_once(cs, closed, contour, sel, st3, ci, i, prev, pl - 2);
                with_transform_once(cs, contour, st3, prev, pl - 2)
            } else {
                st3
            };
            assert(fin == st4);
            assert(join_partner(cs, ci, 0) == (prev, pl - 1));
            assert(fin.moved.contains(pos_key(cs, prev, pl - 1)));
        } else {
            assert(fin == st2);
        }
        assert(fin.edits[j0] == e0);
        lemma_join_advance(cs, closed, sel, fin, ci, i, j0);
    } else if i + 1 == m {
        let st2 = if m > 2 {
            lemma_join_transform_once(cs, closed, contour, sel, st1, ci, i, ci, i - 1);
            with_transform_once(cs, contour, st1, ci, i - 1)
        } else {
            st1
        };
        if closed || ci + 1 != n {
            let pl = cs[next].points.len() as int;
            assert(join_partner(cs, next, 0) == (ci, m - 1));
            lemma_join_transform_once(cs, closed, contour, sel, st2, ci, i, next, 0);
            let st3 = with_transform_once(cs, contour, st2, next, 0);
            let st4 = if pl > 2 {
                lemma_join_transform_once(cs, closed, contour, sel, st3, ci, i, next, 1);
                with_transform_once(cs, contour, st3, next, 1)
            } else {
                st3
            };
            assert(fin == st4);
            assert(join_partner(cs, ci, i) == (next, 0int));
            assert(fin.moved.contains(pos_key(cs, next, 0)));
        } else {
            assert(fin == st2);
        }
        assert(fin.edits[j0] == e0);
        lemma_join_advance(cs, closed, sel, fin, ci, i, j0);
    } else if !(closed || (next != 0 && ci + 1 != n)) {
        assert(fin == st1);
        assert(fin.edits[j0] == e0);
        lemma_join_advance(cs, closed, sel, fin, ci, i, j0);
    } else {
        if i == 1 {
            let pl = cs[prev].points.len() as int;
            if pl > 2 && !was_moved(cs, st1, prev, pl - 2) {
                match join_for_handle(cs, closed, prev) {
                    Some(Continuity::Velocity) => {
                        let e = PointEdit::Mirror {
                            target: point_ref(cs, contour, prev, pl - 2),
                            of: point_ref(cs, contour, ci, 1),
                            around: point_ref(cs, contour, ci, 0),
                        };
                        lemma_join_push(cs, closed, sel, st1, ci, i, prev, pl - 2, e);
                    },
                    Some(Continuity::Tangent { beta_bits }) => {
                        let e = PointEdit::TangentBefore {
                            target: point_ref(cs, contour, prev, pl - 2),
                            handle: point_ref(cs, contour, ci, 1),
                            center: point_ref(cs, contour, prev, pl - 1),
                            beta_bits,
                        };
                        lemma_join_push(cs, closed, sel, st1, ci, i, prev, pl - 2, e);
                    },
                    _ => {},
                }
            }
        } else {
            let pl = cs[next].points.len() as int;
            if pl > 2 && !was_moved(cs, st1, next, 1) {
                match join_for_handle(cs, closed, ci) {
                    Some(Continuity::Velocity) => {
                        let e = PointEdit::Mirror {
                            target: point_ref(cs, contour, next, 1),
                            of: point_ref(cs, contour, ci, i),
                            around: point_ref(cs, contour, ci, i + 1),
                        };
                        lemma_join_push(cs, closed, sel, st1, ci, i, next, 1, e);
                    },
                    Some(Continuity::Tangent { beta_bits }) => {
                        let e = PointEdit::TangentAfter {
                            target: point_ref(cs, contour, next, 1),
                            center: point_ref(cs, contour, next, 0),
                            from: point_ref(cs, contour, ci, i),
                            to: point_ref(cs, contour, ci, i + 1),
                            beta_bits,
                        };
                        lemma_join_push(cs, closed, sel, st1, ci, i, next, 1, e);
                    },
                    _ => {},
                }
            }
        }
        assert(join_inv(cs, closed, sel, fin, ci, i));
        assert(fin.edits[j0] == e0);
        lemma_join_advance(cs, closed, sel, fin, ci, i, j0);
    }
}

proof fn lemma_join_advance(cs: Seq<BezierView>, closed: bool, sel: Seq<(usize, u128)>, st: PlanState, ci: int, i: int, j0: int)
    requires
        join_inv(cs, closed, sel, st, ci, i),
        valid_pos(cs, ci, i),
        0 <= j0 < st.edits.len(),
        st.edits[j0] is Transform,
        edit_key(st.edits[j0]) == pos_key(cs, ci, i),
        sel_pos(cs, sel, ci, i) && is_end(cs, ci, i) && (closed || ci + 1 != cs.len()) ==> st.moved.contains(
            pos_key(cs, join_partner(cs, ci, i).0, join_partner(cs, ci, i).1),
        ),
    ensures
        join_inv(cs, closed, sel, st, ci, i + 1),
{
    assert forall|c: int, p: int|
        valid_pos(cs, c, p) && pos_before(c, p, ci, i + 1) && #[trigger] sel_pos(cs, sel, c, p) implies transforms(
        st.edits,
        pos_key(cs, c, p),
    ) by {
        if !pos_before(c, p, ci, i) {
            assert(c == ci && p == i);
            assert(st.edits[j0] is Transform);
        }
    }
}

proof fn lemma_join_points_steps(
    cs: Seq<BezierView>,
    closed: bool,
    contour: usize,
    sel: Seq<(usize, u128)>,
    ci: int,
    k: int,
    st: PlanState,
)
    requires
        join_inv(cs, closed, sel, st, ci, k),
        !points_steps(cs, closed, contour, sel, ci, k, st).failed,
        ids_unique(cs),
        curves_have_ends(cs),
        cs.len() <= usize::MAX,
        0 <= ci < cs.len(),
        0 <= k <= cs[ci].points.len(),
    ensures
        join_inv(cs, closed, sel, points_steps(cs, closed, contour, sel, ci, k, st), ci + 1, 0),
    decreases cs[ci].points.len() - k,
{
    if k >= cs[ci].points.len() {
        assert forall|c: int, p: int|
            valid_pos(cs, c, p) && pos_before(c, p, ci + 1, 0) && #[trigger] sel_pos(cs, sel, c, p) implies transforms(
            st.edits,
            pos_key(cs, c, p),
        ) by {
            assert(pos_before(c, p, ci, k));
        }
    } else {
        if st.failed {
            lemma_points_steps_keep_failure(cs, closed, contour, sel, ci, k, st);
        }
        let st2 = if sel.contains((ci as usize, cs[ci].points[k].uuid)) {
            assert(sel_pos(cs, sel, ci, k));
            lemma_join_point_step(cs, closed, contour, sel, st, ci, k);
            point_step(cs, closed, contour, ci, k, st)
        } else {
            assert forall|c: int, p: int|
                valid_pos(cs, c, p) && pos_before(c, p, ci, k + 1) && #[trigger] sel_pos(cs, sel, c, p) implies transforms(
                st.edits,
                pos_key(cs, c, p),
            ) by {
                if !pos_before(c, p, ci, k) {
                    assert(c == ci && p == k);
                }
            }
            st
        };
        lemma_join_points_steps(cs, closed, contour, sel, ci, k + 1, st2);
    }
}

proof fn lemma_join_curves_steps(
    cs: Seq<BezierView>,
    closed: bool,
    contour: usize,
    sel: Seq<(usize, u128)>,
    ci: int,
    st: PlanState,
)
    requires
        join_inv(cs, closed, sel, st, ci, 0),
        !curves_steps(cs, closed, contour, sel, ci, st).failed,
        ids_unique(cs),
        curves_have_ends(cs),
        cs.len() <= usize::MAX,
        0 <= ci <= cs.len(),
    ensures
        join_inv(cs, closed, sel, curves_steps(cs, closed, contour, sel, ci, st), cs.len() as int, 0),
    decreases cs.len() - ci,
{
    if ci < cs.len() {
        let st2 = points_steps(cs, closed, contour, sel, ci, 0, st);
        if st2.failed {
            lemma_curves_steps_keep_failure(cs, closed, contour, sel, ci + 1, st2);
        }
        lemma_join_points_steps(cs, closed, contour, sel, ci, 0, st);
        lemma_join_curves_steps(cs, closed, contour, sel, ci + 1, st2);
    }
}

/// An allowed edit whose key is that of point `p` of curve `c` is allowed
/// at that point.
proof fn lemma_edit_at_key(cs: Seq<BezierView>, sel: Seq<(usize, u128)>, e: PointEdit, c: int, p: int)
    requires
        edit_ok(cs, sel, e),
        ids_unique(cs),
        cs.len() <= usize::MAX,
        valid_pos(cs, c, p),
        edit_key(e) == pos_key(cs, c, p),
    ensures
        edit_ok_at(cs, sel, e, c, p),
{
    let (c2, p2) = choose|c2: int, p2: int| #[trigger] edit_ok_at(cs, sel, e, c2, p2);
    assert(c2 == c);
    if p2 < p {
        assert(cs[c].points[p2].uuid != cs[c].points[p].uuid);
    } else if p < p2 {
        assert(cs[c].points[p].uuid != cs[c].points[p2].uuid);
    }
}

proof fn lemma_end_transformed_iff(
    cs: Seq<BezierView>,
    closed: bool,
    sel: Seq<(usize, u128)>,
    st: PlanState,
    c: int,
    p: int,
)
    requires
        join_inv(cs, closed, sel, st, cs.len() as int, 0),
        ids_unique(cs),
        curves_have_ends(cs),
        cs.len() <= usize::MAX,
        valid_pos(cs, c, p),
        is_end(cs, c, p),
        valid_pos(cs, join_partner(cs, c, p).0, join_partner(cs, c, p).1),
        is_end(cs, join_partner(cs, c, p).0, join_partner(cs, c, p).1),
        join_partner(cs, join_partner(cs, c, p).0, join_partner(cs, c, p).1) == (c, p),
    ensures
        transforms(st.edits, pos_key(cs, c, p)) ==> (sel_pos(cs, sel, c, p) || sel_pos(
            cs,
            sel,
            join_partner(cs, c, p).0,
            join_partner(cs, c, p).1,
        )),
        sel_pos(cs, sel, c, p) ==> transforms(st.edits, pos_key(cs, c, p)),
        sel_pos(cs, sel, join_partner(cs, c, p).0, join_partner(cs, c, p).1) && (closed
            || join_partner(cs, c, p).0 + 1 != cs.len()) ==> transforms(st.edits, pos_key(cs, c, p)),
{
    let (pc, pp) = join_partner(cs, c, p);
    let key = pos_key(cs, c, p);
    if transforms(st.edits, key) {
        let j = choose|j: int| 0 <= j < st.edits.len() && (#[trigger] st.edits[j]) is Transform && edit_key(st.edits[j]) == key;
        let e = st.edits[j];
        lemma_edit_at_key(cs, sel, e, c, p);
    }
    if sel_pos(cs, sel, c, p) {
        assert(pos_before(c, p, cs.len() as int, 0));
    }
    if sel_pos(cs, sel, pc, pp) && (closed || pc + 1 != cs.len()) {
        assert(pos_before(pc, pp, cs.len() as int, 0));
        assert(st.moved.contains(key));
        if !sel.contains(key) {
            let j = choose|j: int| 0 <= j < st.edits.len() && edit_key(#[trigger] st.edits[j]) == key;
            let e = st.edits[j];
            lemma_edit_at_key(cs, sel, e, c, p);
            assert(e is Transform);
        } else {
            assert(sel_pos(cs, sel, c, p));
        }
    }
}

/// In a closed contour whose curves each have two points or more, with no
/// two points of a curve sharing an identifier, a plan moves both ends of
/// every join alike: it moves the last point of a curve by the
/// transformation exactly when it so moves the first point of the next
/// curve (the first curve after the last), and no other kind of edit puts
/// either of them. So a join whose ends stand together still does after
/// the transformation.
pub proof fn law_plan_moves_both_ends_of_each_join(
    cs: Seq<BezierView>,
    contour: usize,
    idxs: Seq<GlyphPointIndex>,
    k: int,
)
    requires
        ids_unique(cs),
        curves_have_ends(cs),
        cs.len() <= usize::MAX,
        0 <= k < cs.len(),
        !transform_plan(cs, true, contour, idxs).failed,
    ensures
        transforms(
            transform_plan(cs, true, contour, idxs).edits,
            pos_key(cs, k, cs[k].points.len() - 1),
        ) <==> transforms(
            transform_plan(cs, true, contour, idxs).edits,
            pos_key(cs, next_curve(cs.len() as int, k), 0),
        ),
        forall|j: int|
            0 <= j < transform_plan(cs, true, contour, idxs).edits.len() && (edit_key(
                #[trigger] transform_plan(cs, true, contour, idxs).edits[j],
            ) == pos_key(cs, k, cs[k].points.len() - 1) || edit_key(
                transform_plan(cs, true, contour, idxs).edits[j],
            ) == pos_key(cs, next_curve(cs.len() as int, k), 0)) ==> transform_plan(
                cs,
                true,
                contour,
                idxs,
            ).edits[j] is Transform,
{
    let n = cs.len() as int;
    let sel = selected_pairs(idxs, contour);
    let st = PlanState { edits: Seq::empty(), moved: sel, failed: false };
    assert(join_inv(cs, true, sel, st, 0, 0));
    lemma_join_curves_steps(cs, true, contour, sel, 0, st);
    let fin = transform_plan(cs, true, contour, idxs);
    let m = cs[k].points.len() as int;
    let nx = next_curve(n, k);
    assert(cs[nx].points.len() >= 2);
    assert(join_partner(cs, k, m - 1) == (nx, 0int));
    assert(prev_curve(n, nx) == k);
    assert(join_partner(cs, nx, 0) == (k, m - 1));
    lemma_end_transformed_iff(cs, true, sel, fin, k, m - 1);
    lemma_end_transformed_iff(cs, true, sel, fin, nx, 0);
    assert forall|j: int|
        0 <= j < fin.edits.len() && (edit_key(#[trigger] fin.edits[j]) == pos_key(cs, k, m - 1) || edit_key(
            fin.edits[j],
        ) == pos_key(cs, nx, 0)) implies fin.edits[j] is Transform by {
        assert(edit_ok(cs, sel, fin.edits[j]));
        if edit_key(fin.edits[j]) == pos_key(cs, k, m - 1) {
            lemma_edit_at_key(cs, sel, fin.edits[j], k, m - 1);
        } else {
            lemma_edit_at_key(cs, sel, fin.edits[j], nx, 0);
        }
    }
}

/// In an open contour whose curves each have two points or more, with no
/// two points of a curve sharing an identifier, a plan that moves the last
/// point of a curve by the transformation so moves the first point of the
/// next curve, and no other kind of edit puts either of them. The converse
/// holds at every join but one case: a selected first point of the last
/// curve does not drag the last point of the curve before it, when that
/// point is not selected itself.
pub proof fn law_plan_moves_both_ends_of_each_open_join(
    cs: Seq<BezierView>,
    contour: usize,
    idxs: Seq<GlyphPointIndex>,
    k: int,
)
    requires
        ids_unique(cs),
        curves_have_ends(cs),
        cs.len() <= usize::MAX,
        0 <= k,
        k + 1 < cs.len(),
        !transform_plan(cs, false, contour, idxs).failed,
    ensures
        transforms(transform_plan(cs, false, contour, idxs).edits, pos_key(cs, k, cs[k].points.len() - 1))
            ==> transforms(transform_plan(cs, false, contour, idxs).edits, pos_key(cs, k + 1, 0)),
        k + 2 < cs.len() || !sel_pos(cs, selected_pairs(idxs, contour), k + 1, 0) || sel_pos(
            cs,
            selected_pairs(idxs, contour),
            k,
            cs[k].points.len() - 1,
        ) ==> (transforms(transform_plan(cs, false, contour, idxs).edits, pos_key(cs, k + 1, 0))
            ==> transforms(
            transform_plan(cs, false, contour, idxs).edits,
            pos_key(cs, k, cs[k].points.len() - 1),
        )),
        forall|j: int|
            0 <= j < transform_plan(cs, false, contour, idxs).edits.len() && (edit_key(
                #[trigger] transform_plan(cs, false, contour, idxs).edits[j],
            ) == pos_key(cs, k, cs[k].points.len() - 1) || edit_key(
                transform_plan(cs, false, contour, idxs).edits[j],
            ) == pos_key(cs, k + 1, 0)) ==> transform_plan(cs, false, contour, idxs).edits[j] is Transform,
{
    let n = cs.len() as int;
    let sel = selected_pairs(idxs, contour);
    let st = PlanState { edits: Seq::empty(), moved: sel, failed: false };
    assert(join_inv(cs, false, sel, st, 0, 0));
    lemma_join_curves_steps(cs, false, contour, sel, 0, st);
    let fin = transform_plan(cs, false, contour, idxs);
    let m = cs[k].points.len() as int;
    assert(cs[k + 1].points.len() >= 2);
    assert(join_partner(cs, k, m - 1) == (k + 1, 0int));
    assert(join_partner(cs, k + 1, 0) == (k, m - 1));
    lemma_end_transformed_iff(cs, false, sel, fin, k, m - 1);
    lemma_end_transformed_iff(cs, false, sel, fin, k + 1, 0);
    assert forall|j: int|
        0 <= j < fin.edits.len() && (edit_key(#[trigger] fin.edits[j]) == pos_key(cs, k, m - 1) || edit_key(
            fin.edits[j],
        ) == pos_key(cs, k + 1, 0)) implies fin.edits[j] is Transform by {
        assert(edit_ok(cs, sel, fin.edits[j]));
        if edit_key(fin.edits[j]) == pos_key(cs, k, m - 1) {
            lemma_edit_at_key(cs, sel, fin.edits[j], k, m - 1);
        } else {
            lemma_edit_at_key(cs, sel, fin.edits[j], k + 1, 0);
        }
    }
}

/// A selected first handle of a curve (its point 1, not its end) drags the
/// last handle of the curve before it, across their join, unless that
/// handle is selected or already moved: mirrored around the join point at
/// a velocity join, along the tangent with the join's ratio at a tangent
/// join, and not at all at a positional join. The handle itself is moved by
/// the transformation. The plan stops at a join with no continuity, and at
/// the first join of an open contour; a handle of the last curve of an
/// open contour drags nothing.
pub proof fn law_first_handle_drags_the_handle_across_its_join(
    cs: Seq<BezierView>,
    closed: bool,
    contour: usize,
    ci: int,
    st: PlanState,
)
    requires
        !st.failed,
        0 <= ci < cs.len(),
        cs[ci].points.len() > 2,
        cs[prev_curve(cs.len() as int, ci)].points.len() > 2,
        !was_moved(cs, st, prev_curve(cs.len() as int, ci), cs[prev_curve(cs.len() as int, ci)].points.len() - 2),
        pos_key(cs, prev_curve(cs.len() as int, ci), cs[prev_curve(cs.len() as int, ci)].points.len() - 2)
            != pos_key(cs, ci, 1),
    ensures
        ({
            let n = cs.len() as int;
            let fin = point_step(cs, closed, contour, ci, 1, st);
            let prev = prev_curve(n, ci);
            let pl = cs[prev].points.len() as int;
            let opposite = point_ref(cs, contour, prev, pl - 2);
            &&& !fin.failed ==> fin.edits.len() > st.edits.len() && fin.edits[st.edits.len() as int]
                == PointEdit::Transform { target: point_ref(cs, contour, ci, 1) }
            &&& !closed && ci + 1 == n ==> !fin.failed && fin.edits.len() == st.edits.len() + 1
            &&& !closed && ci + 1 < n && (prev == 0 || prev + 1 == n) ==> fin.failed
            &&& closed || (ci + 1 < n && prev != 0 && prev + 1 != n) ==> match cs[prev].continuity_out {
                None => fin.failed,
                Some(Continuity::Positional) => !fin.failed && fin.edits.len() == st.edits.len() + 1,
                Some(Continuity::Velocity) => !fin.failed && exists|j: int|
                    0 <= j < fin.edits.len() && #[trigger] fin.edits[j] == PointEdit::Mirror {
                        target: opposite,
                        of: point_ref(cs, contour, ci, 1),
                        around: point_ref(cs, contour, ci, 0),
                    },
                Some(Continuity::Tangent { beta_bits }) => !fin.failed && exists|j: int|
                    0 <= j < fin.edits.len() && #[trigger] fin.edits[j] == PointEdit::TangentBefore {
                        target: opposite,
                        handle: point_ref(cs, contour, ci, 1),
                        center: point_ref(cs, contour, prev, pl - 1),
                        beta_bits,
                    },
            }
        }),
{
    let n = cs.len() as int;
    let prev = prev_curve(n, ci);
    let pl = cs[prev].points.len() as int;
    let st1 = with_transform(cs, contour, st, ci, 1);
    let key = pos_key(cs, prev, pl - 2);
    assert(!was_moved(cs, st1, prev, pl - 2)) by {
        if st1.moved.contains(key) {
            let w = choose|w: int| 0 <= w < st1.moved.len() && st1.moved[w] == key;
            if w < st.moved.len() {
                assert(st.moved[w] == key);
            }
        }
    }
    let fin = point_step(cs, closed, contour, ci, 1, st);
    let j = st1.edits.len() as int;
    assert(st1.edits[st.edits.len() as int] == PointEdit::Transform { target: point_ref(cs, contour, ci, 1) });
    if !fin.failed && fin.edits.len() > j {
        assert(fin.edits[st.edits.len() as int] == st1.edits[st.edits.len() as int]);
        assert(fin.edits[j] == fin.edits.last());
    }
}

/// A selected later handle of a curve (a point after its first handle and
/// before its end) drags the first handle of the next curve, across their
/// join, unless that handle is selected or already moved: mirrored around
/// the join point at a velocity join, along the tangent with the join's
/// ratio at a tangent join, and not at all at a positional join. The handle
/// itself is moved by the transformation. The plan stops at a join with no
/// continuity, and at the joins after the first curve of an open contour;
/// a handle of the last curve of an open contour drags nothing.
pub proof fn law_later_handle_drags_the_handle_across_its_join(
    cs: Seq<BezierView>,
    closed: bool,
    contour: usize,
    ci: int,
    i: int,
    st: PlanState,
)
    requires
        !st.failed,
        0 <= ci < cs.len(),
        2 <= i,
        i + 1 < cs[ci].points.len(),
        cs[next_curve(cs.len() as int, ci)].points.len() > 2,
        !was_moved(cs, st, next_curve(cs.len() as int, ci), 1),
        pos_key(cs, next_curve(cs.len() as int, ci), 1) != pos_key(cs, ci, i),
    ensures
        ({
            let n = cs.len() as int;
            let fin = point_step(cs, closed, contour, ci, i, st);
            let next = next_curve(n, ci);
            let opposite = point_ref(cs, contour, next, 1);
            &&& !fin.failed ==> fin.edits.len() > st.edits.len() && fin.edits[st.edits.len() as int]
                == PointEdit::Transform { target: point_ref(cs, contour, ci, i) }
            &&& !closed && ci + 1 == n ==> !fin.failed && fin.edits.len() == st.edits.len() + 1
            &&& !closed && ci + 1 < n && ci == 0 ==> fin.failed
            &&& closed || (ci + 1 < n && ci != 0) ==> match cs[ci].continuity_out {
                None => fin.failed,
                Some(Continuity::Positional) => !fin.failed && fin.edits.len() == st.edits.len() + 1,
                Some(Continuity::Velocity) => !fin.failed && exists|j: int|
                    0 <= j < fin.edits.len() && #[trigger] fin.edits[j] == PointEdit::Mirror {
                        target: opposite,
                        of: point_ref(cs, contour, ci, i),
                        around: point_ref(cs, contour, ci, i + 1),
                    },
                Some(Continuity::Tangent { beta_bits }) => !fin.failed && exists|j: int|
                    0 <= j < fin.edits.len() && #[trigger] fin.edits[j] == PointEdit::TangentAfter {
                        target: opposite,
                        center: point_ref(cs, contour, next, 0),
                        from: point_ref(cs, contour, ci, i),
                        to: point_ref(cs, contour, ci, i + 1),
                        beta_bits,
                    },
            }
        }),
{
    let n = cs.len() as int;
    let next = next_curve(n, ci);
    let st1 = with_transform(cs, contour, st, ci, i);
    let key = pos_key(cs, next, 1);
    assert(!was_moved(cs, st1, next, 1)) by {
        if st1.moved.contains(key) {
            let w = choose|w: int| 0 <= w < st1.moved.len() && st1.moved[w] == key;
            if w < st.moved.len() {
                assert(st.moved[w] == key);
            }
        }
    }
    let fin = point_step(cs, closed, contour, ci, i, st);
    let j = st1.edits.len() as int;
    assert(st1.edits[st.edits.len() as int] == PointEdit::Transform { target: point_ref(cs, contour, ci, i) });
    if !fin.failed && fin.edits.len() > j {
        assert(fin.edits[st.edits.len() as int] == st1.edits[st.edits.len() as int]);
        assert(fin.edits[j] == fin.edits.last());
    }
}

proof fn lemma_points_steps_keep_failure(
    cs: Seq<BezierView>,
    closed: bool,
    contour: usize,
    sel: Seq<(usize, u128)>,
    ci: int,
    k: int,
    st: PlanState,
)
    requires
        st.failed,
    ensures
        points_steps(cs, closed, contour, sel, ci, k, st).failed,
    decreases cs[ci].points.len() - k,
{
    if 0 <= k < cs[ci].points.len() {
        lemma_points_steps_keep_failure(cs, closed, contour, sel, ci, k + 1, st);
    }
}

proof fn lemma_curves_steps_keep_failure(
    cs: Seq<BezierView>,
    closed: bool,
    contour: usize,
    sel: Seq<(usize, u128)>,
    ci: int,
    st: PlanState,
)
    requires
        st.failed,
    ensures
        curves_steps(cs, closed, contour, sel, ci, st).failed,
    decreases cs.len() - ci,
{
    if 0 <= ci < cs.len() {
        lemma_points_steps_keep_failure(cs, closed, contour, sel, ci, 0, st);
        lemma_curves_steps_keep_failure(
            cs,
            closed,
            contour,
            sel,
            ci + 1,
            points_steps(cs, closed, contour, sel, ci, 0, st),
        );
    }
}

/// The plan state that `edits` and `moved` hold.
pub open spec fn state_of(edits: Seq<PointEdit>, moved: Seq<(usize, u128)>) -> PlanState {
    PlanState { edits, moved, failed: false }
}

fn pref(curves: &Vec<Bezier>, contour: usize, c: usize, p: usize) -> (ret: PointRef)
    requires
        c < curves@.len(),
        p < curves@[c as int].points@.len(),
    ensures
        ret == point_ref(curve_views(curves@), contour, c as int, p as int),
{
    proof {
        lemma_curve_views(curves@);
    }
    PointRef {
        index: GlyphPointIndex {
            contour_index: contour,
            curve_index: c,
            uuid: curves[c].points[p].uuid,
        },
        point: p,
    }
}

fn contains_pair(v: &Vec<(usize, u128)>, x: (usize, u128)) -> (ret: bool)
    ensures
        ret == v@.contains(x),
{
    let mut i: usize = 0;
    while i < v.len()
        invariant
            i <= v@.len(),
            forall|k: int| 0 <= k < i ==> v@[k] != x,
        decreases v@.len() - i,
    {
        if v[i].0 == x.0 && v[i].1 == x.1 {
            assert(v@[i as int] == x);
            return true;
        }
        i = i + 1;
    }
    false
}

fn push_edit(
    curves: &Vec<Bezier>,
    edits: &mut Vec<PointEdit>,
    moved: &mut Vec<(usize, u128)>,
    c: usize,
    p: usize,
    e: PointEdit,
)
    requires
        c < curves@.len(),
        p < curves@[c as int].points@.len(),
    ensures
        state_of(final(edits)@, final(moved)@) == with_edit(
            curve_views(curves@),
            state_of(old(edits)@, old(moved)@),
            c as int,
            p as int,
            e,
        ),
{
    proof {
        lemma_curve_views(curves@);
    }
    edits.push(e);
    moved.push((c, curves[c].points[p].uuid));
}

fn transform_once(
    curves: &Vec<Bezier>,
    contour: usize,
    edits: &mut Vec<PointEdit>,
    moved: &mut Vec<(usize, u128)>,
    c: usize,
    p: usize,
)
    requires
        c < curves@.len(),
        p < curves@[c as int].points@.len(),
    ensures
        state_of(final(edits)@, final(moved)@) == with_transform_once(
            curve_views(curves@),
            contour,
            state_of(old(edits)@, old(moved)@),
            c as int,
            p as int,
        ),
{
    proof {
        lemma_curve_views(curves@);
    }
    if !contains_pair(moved, (c, curves[c].points[p].uuid)) {
        let r = pref(curves, contour, c, p);
        push_edit(curves, edits, moved, c, p, PointEdit::Transform { target: r });
    }
}

fn point_step_exec(
    curves: &Vec<Bezier>,
    closed: bool,
    contour: usize,
    ci: usize,
    i: usize,
    edits: &mut Vec<PointEdit>,
    moved: &mut Vec<(usize, u128)>,
)
    requires
        ci < curves@.len(),
        i < curves@[ci as int].points@.len(),
        !point_step(
            curve_views(curves@),
            closed,
            contour,
            ci as int,
            i as int,
            state_of(old(edits)@, old(moved)@),
        ).failed,
    ensures
        state_of(final(edits)@, final(moved)@) == point_step(
            curve_views(curves@),
            closed,
            contour,
            ci as int,
            i as int,
            state_of(old(edits)@, old(moved)@),
        ),
{
    proof {
        lemma_curve_views(curves@);
    }
    let ghost cs = curve_views(curves@);
    let n = curves.len();
    let m = curves[ci].points.len();
    let prev = if ci == 0 {
        n - 1
    } else {
        ci - 1
    };
    let next = if ci + 1 == n {
        0
    } else {
        ci + 1
    };
    let r = pref(curves, contour, ci, i);
    push_edit(curves, edits, moved, ci, i, PointEdit::Transform { target: r });
    if i == 0 {
        if m > 2 {
            transform_once(curves, contour, edits, moved, ci, 1);
        }
        if closed || ci + 1 != n {
            let pl = curves[prev].points.len();
            transform_once(curves, contour, edits, moved, prev, pl - 1);
            if pl > 2 {
                transform_once(curves, contour, edits, moved, prev, pl - 2);
            }
        }
    } else if i + 1 == m {
        if m > 2 {
            transform_once(curves, contour, edits, moved, ci, i - 1);
        }
        if closed || ci + 1 != n {
            let pl = curves[next].points.len();
            transform_once(curves, contour, edits, moved, next, 0);
            if pl > 2 {
                transform_once(curves, contour, edits, moved, next, 1);
            }
        }
    } else if closed || (next != 0 && ci + 1 != n) {
        if i == 1 {
            let pl = curves[prev].points.len();
            if pl > 2 && !contains_pair(moved, (prev, curves[prev].points[pl - 2].uuid)) {
                let k = curves[prev].continuity_out.unwrap();
                match k {
                    Continuity::Positional => {},
                    Continuity::Velocity => {
                        let e = PointEdit::Mirror {
                            target: pref(curves, contour, prev, pl - 2),
                            of: pref(curves, contour, ci, 1),
                            around: pref(curves, contour, ci, 0),
                        };
                        push_edit(curves, edits, moved, prev, pl - 2, e);
                    },
                    Continuity::Tangent { beta_bits } => {
                        let e = PointEdit::TangentBefore {
                            target: pref(curves, contour, prev, pl - 2),
                            handle: pref(curves, contour, ci, 1),
                            center: pref(curves, contour, prev, pl - 1),
                            beta_bits,
                        };
                        push_edit(curves, edits, moved, prev, pl - 2, e);
                    },
                }
            }
        } else {
            let pl = curves[next].points.len();
            if pl > 2 && !contains_pair(moved, (next, curves[next].points[1].uuid)) {
                let k = curves[ci].continuity_out.unwrap();
                match k {
                    Continuity::Positional => {},
                    Continuity::Velocity => {
                        let e = PointEdit::Mirror {
                            target: pref(curves, contour, next, 1),
                            of: pref(curves, contour, ci, i),
                            around: pref(curves, contour, ci, i + 1),
                        };
                        push_edit(curves, edits, moved, next, 1, e);
                    },
                    Continuity::Tangent { beta_bits } => {
                        let e = PointEdit::TangentAfter {
                            target: pref(curves, contour, next, 1),
                            center: pref(curves, contour, next, 0),
                            from: pref(curves, contour, ci, i),
                            to: pref(curves, contour, ci, i + 1),
                            beta_bits,
                        };
                        push_edit(curves, edits, moved, next, 1, e);
                    },
                }
            }
        }
    }
}

fn selected_pairs_exec(idxs: &Vec<GlyphPointIndex>, contour: usize) -> (ret: Vec<(usize, u128)>)
    ensures
        ret@ == selected_pairs(idxs@, contour),
{
    let mut ret: Vec<(usize, u128)> = Vec::new();
    let mut i: usize = 0;
    while i < idxs.len()
        invariant
            i <= idxs@.len(),
            ret@ == selected_pairs(idxs@.take(i as int), contour),
        decreases idxs@.len() - i,
    {
        let x = idxs[i];
        if x.contour_index == contour {
            ret.push((x.curve_index, x.uuid));
        }
        proof {
            assert(idxs@.take(i + 1).drop_last() =~= idxs@.take(i as int));
        }
        i = i + 1;
    }
    assert(idxs@.take(i as int) =~= idxs@);
    ret
}

/// The plan for transforming the points `idxs` of contour `contour`, whose
/// curves are `curves`: see `transform_plan`.
pub fn plan_transform(curves: &Vec<Bezier>, open: bool, contour: usize, idxs: &Vec<GlyphPointIndex>) -> (ret: Vec<PointEdit>)
    requires
        !transform_plan(curve_views(curves@), !open, contour, idxs@).failed,
    ensures
        ret@ == transform_plan(curve_views(curves@), !open, contour, idxs@).edits,
{
    proof {
        lemma_curve_views(curves@);
    }
    let ghost cs = curve_views(curves@);
    let closed = !open;
    let sel = selected_pairs_exec(idxs, contour);
    let ghost target = transform_plan(cs, closed, contour, idxs@);
    let mut edits: Vec<PointEdit> = Vec::new();
    let mut moved: Vec<(usize, u128)> = selected_pairs_exec(idxs, contour);
    let n = curves.len();
    let mut ci: usize = 0;
    while ci < n
        invariant
            n == curves@.len(),
            n == cs.len(),
            cs == curve_views(curves@),
            forall|c: int| 0 <= c < n ==> #[trigger] cs[c] == curves@[c]@,
            ci <= n,
            target == curves_steps(cs, closed, contour, sel@, ci as int, state_of(edits@, moved@)),
            !target.failed,
        decreases n - ci,
    {
        let m = curves[ci].points.len();
        assert(cs[ci as int].points == curves@[ci as int].points@);
        let mut k: usize = 0;
        while k < m
            invariant
                n == curves@.len(),
                n == cs.len(),
                cs == curve_views(curves@),
                forall|c: int| 0 <= c < n ==> #[trigger] cs[c] == curves@[c]@,
                ci < n,
                m == cs[ci as int].points.len(),
                k <= m,
                target == curves_steps(
                    cs,
                    closed,
                    contour,
                    sel@,
                    ci + 1,
                    points_steps(cs, closed, contour, sel@, ci as int, k as int, state_of(edits@, moved@)),
                ),
                !target.failed,
            decreases m - k,
        {
            let u = curves[ci].points[k].uuid;
            assert(u == cs[ci as int].points[k as int].uuid);
            if contains_pair(&sel, (ci, u)) {
                proof {
                    let st = state_of(edits@, moved@);
                    let st2 = point_step(cs, closed, contour, ci as int, k as int, st);
                    if st2.failed {
                        lemma_points_steps_keep_failure(cs, closed, contour, sel@, ci as int, k + 1, st2);
                        lemma_curves_steps_keep_failure(
                            cs,
                            closed,
                            contour,
                            sel@,
                            ci + 1,
                            points_steps(cs, closed, contour, sel@, ci as int, k + 1, st2),
                        );
                    }
                }
                point_step_exec(curves, closed, contour, ci, k, &mut edits, &mut moved);
            }
            k = k + 1;
        }
        ci = ci + 1;
    }
    edits
}

} // verus!
