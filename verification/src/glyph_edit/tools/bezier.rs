//! The Bézier pen tool: how clicks, releases and pointer moves draw a
//! contour, curve by curve.
//!
//! A press starts a contour at the pointer. Dragging sets the first handle;
//! the release puts down the handle and the end of the curve. A second
//! drag sets the handle of the next curve, which the tool mirrors onto the
//! end of the previous one unless the handles are unlinked; the release
//! starts the next curve. Releasing near the first point closes the
//! contour; the drag that follows sets the closing handle, and the release
//! ends the drawing. Positions stay with the caller: the tool carries them
//! as the bits of their coordinates and tells the caller which points to
//! put where.
use vstd::prelude::*;

verus! {

/// A position, as the bits of its two floating-point coordinates.
#[derive(Debug, Clone, Copy, PartialEq, Eq, Structural)]
pub struct PointBits {
    pub x: u64,
    pub y: u64,
}

/// Where the tool is in drawing a curve.
#[derive(Debug, Clone, Copy, PartialEq, Eq, Structural)]
pub enum Phase {
    /// Nothing drawn yet.
    Empty,
    /// The first handle of a curve is being dragged.
    FirstHandle { handle: PointBits, unlinked: bool, snap_to_angle: bool },
    /// The end of the current curve follows the pointer.
    OnCurve,
    /// The handle of the next curve is being dragged.
    SecondHandle { handle: PointBits, unlinked: bool, snap_to_angle: bool },
    /// The contour is closed and its closing handle is being dragged.
    ClosingHandle { handle: PointBits, unlinked: bool, snap_to_angle: bool },
}

/// The state of the tool: its phase, whether a contour is being drawn,
/// where it started, and the index of the curve being drawn.
#[derive(Debug, Clone, Copy, PartialEq, Eq, Structural)]
pub struct BezierToolState {
    pub phase: Phase,
    pub drawing: bool,
    pub first_point: PointBits,
    pub curve_index: usize,
}

/// What the caller does to the contour being drawn.
#[derive(Debug, Clone, Copy, PartialEq, Eq, Structural)]
pub enum BezierStep {
    /// Starts a contour of one smooth curve whose first point is `at`, and
    /// records it in the undo history.
    StartContour { at: PointBits },
    /// Appends to the current curve the point `handle`, then `at` twice:
    /// the last handle and the end of the curve.
    AddSegmentPoints { handle: PointBits, at: PointBits },
    /// Closes the contour.
    CloseContour,
    /// Moves the last handle of the current curve to `handle`, and pushes
    /// that curve again so that the closed contour ends with it.
    FinishClosing { handle: PointBits },
    /// Ends the current curve and starts the next, a smooth curve whose
    /// first point is the end of the current one.
    StartNextCurve,
    /// Stops drawing: the tool lets go of the contour.
    EndDrawing,
    /// Marks the current curve smooth or not.
    SetSmooth { smooth: bool },
    /// Puts the last handle of the previous curve at the mirror image of
    /// `handle` around the end of that curve.
    MirrorPreviousHandle { handle: PointBits },
    /// Puts the last handle of the current curve at the mirror image of
    /// `handle` around the end of that curve.
    MirrorCurrentHandle { handle: PointBits },
    /// Puts the last handle of the current curve at `handle`, and, when
    /// `mirror_first`, the first handle of the first curve at its mirror
    /// image around the first point.
    MoveClosingHandle { handle: PointBits, mirror_first: bool },
    /// Moves the end of the current curve, with its handle, to `to` (when
    /// it is not already within a tenth of a unit of it).
    MoveOnCurve { to: PointBits },
}

/// The state and steps after a point is put down at `point`; `near_first`
/// tells whether it is close enough to the first point to close the
/// contour. See `BezierToolInner::insert_point`.
pub open spec fn insert_spec(st: BezierToolState, point: PointBits, near_first: bool) -> (
    BezierToolState,
    Seq<BezierStep>,
) {
    match st.phase {
        Phase::FirstHandle { handle, .. } => (
            BezierToolState { phase: Phase::OnCurve, ..st },
            seq![BezierStep::AddSegmentPoints { handle, at: point }],
        ),
        Phase::OnCurve => if near_first {
            (
                BezierToolState {
                    phase: Phase::ClosingHandle {
                        handle: st.first_point,
                        unlinked: false,
                        snap_to_angle: false,
                    },
                    ..st
                },
                seq![BezierStep::CloseContour],
            )
        } else {
            (
                BezierToolState {
                    phase: Phase::SecondHandle { handle: point, unlinked: false, snap_to_angle: false },
                    ..st
                },
                Seq::empty(),
            )
        },
        Phase::ClosingHandle { handle, .. } => (
            BezierToolState { drawing: false, ..st },
            seq![BezierStep::FinishClosing { handle }, BezierStep::EndDrawing],
        ),
        Phase::SecondHandle { handle, .. } => (
            BezierToolState { phase: Phase::OnCurve, curve_index: (st.curve_index + 1) as usize, ..st },
            seq![BezierStep::StartNextCurve, BezierStep::AddSegmentPoints { handle, at: handle }],
        ),
        Phase::Empty => (st, Seq::empty()),
    }
}

/// The state, steps, and whether the event was taken, after a button
/// press at `point`. See `BezierToolInner::on_button_press_event`.
pub open spec fn press_spec(
    st: BezierToolState,
    primary: bool,
    secondary: bool,
    point: PointBits,
    near_first: bool,
) -> (BezierToolState, Seq<BezierStep>, bool) {
    if primary {
        if !st.drawing {
            (
                BezierToolState {
                    phase: Phase::FirstHandle { handle: point, unlinked: false, snap_to_angle: false },
                    drawing: true,
                    first_point: point,
                    curve_index: 0,
                },
                seq![BezierStep::StartContour { at: point }],
                true,
            )
        } else if st.phase is OnCurve || st.phase is SecondHandle {
            let (s2, steps) = insert_spec(st, point, near_first);
            (s2, steps, true)
        } else {
            (st, Seq::empty(), false)
        }
    } else if secondary {
        if !st.drawing {
            (st, Seq::empty(), false)
        } else if st.phase is ClosingHandle {
            let (s2, steps) = insert_spec(st, point, near_first);
            (s2, steps, true)
        } else {
            (BezierToolState { drawing: false, ..st }, seq![BezierStep::EndDrawing], true)
        }
    } else {
        (st, Seq::empty(), false)
    }
}

/// The state, steps, and whether the event was taken, after a button
/// release at `point`. See `BezierToolInner::on_button_release_event`.
pub open spec fn release_spec(st: BezierToolState, primary: bool, point: PointBits, near_first: bool) -> (
    BezierToolState,
    Seq<BezierStep>,
    bool,
) {
    if !primary {
        (st, Seq::empty(), false)
    } else if st.phase is Empty {
        (st, Seq::empty(), true)
    } else if !st.drawing {
        (st, Seq::empty(), false)
    } else {
        let (s2, steps) = insert_spec(st, point, near_first);
        (s2, steps, true)
    }
}

/// The phase after the modifier keys of a pointer move are read: Shift
/// toggles snapping to angles, Control alone toggles unlinked handles.
pub open spec fn toggled_phase(p: Phase, shift: bool, control: bool) -> Phase {
    match p {
        Phase::FirstHandle { handle, unlinked, snap_to_angle } => if shift {
            Phase::FirstHandle { handle, unlinked, snap_to_angle: !snap_to_angle }
        } else if control {
            Phase::FirstHandle { handle, unlinked: !unlinked, snap_to_angle }
        } else {
            p
        },
        Phase::SecondHandle { handle, unlinked, snap_to_angle } => if shift {
            Phase::SecondHandle { handle, unlinked, snap_to_angle: !snap_to_angle }
        } else if control {
            Phase::SecondHandle { handle, unlinked: !unlinked, snap_to_angle }
        } else {
            p
        },
        Phase::ClosingHandle { handle, unlinked, snap_to_angle } => if shift {
            Phase::ClosingHandle { handle, unlinked, snap_to_angle: !snap_to_angle }
        } else if control {
            Phase::ClosingHandle { handle, unlinked: !unlinked, snap_to_angle }
        } else {
            p
        },
        _ => p,
    }
}

/// Whether the handles were unlinked before the move, for the phases that
/// drag a handle.
pub open spec fn was_unlinked(p: Phase) -> bool {
    match p {
        Phase::FirstHandle { unlinked, .. } => unlinked,
        Phase::SecondHandle { unlinked, .. } => unlinked,
        Phase::ClosingHandle { unlinked, .. } => unlinked,
        _ => false,
    }
}

/// The state, steps, and whether the event was taken, after the pointer
/// moves to `pointer` with Shift and Control held or not. See
/// `BezierToolInner::on_motion_notify_event`.
pub open spec fn motion_spec(st: BezierToolState, shift: bool, control: bool, pointer: PointBits) -> (
    BezierToolState,
    Seq<BezierStep>,
    bool,
) {
    if !st.drawing {
        (st, Seq::empty(), false)
    } else {
        let p = toggled_phase(st.phase, shift, control);
        let handle_phase = st.phase is FirstHandle || st.phase is SecondHandle || st.phase is ClosingHandle;
        let first: Seq<BezierStep> = if handle_phase && !shift && control {
            seq![BezierStep::SetSmooth { smooth: was_unlinked(st.phase) }]
        } else {
            Seq::empty()
        };
        match p {
            Phase::Empty => (BezierToolState { phase: p, ..st }, first, false),
            Phase::FirstHandle { handle: _, unlinked, snap_to_angle } => (
                BezierToolState {
                    phase: Phase::FirstHandle { handle: pointer, unlinked, snap_to_angle },
                    ..st
                },
                if !unlinked && st.curve_index != 0 {
                    first.push(BezierStep::MirrorPreviousHandle { handle: pointer })
                } else {
                    first
                },
                true,
            ),
            Phase::SecondHandle { handle: _, unlinked, snap_to_angle } => (
                BezierToolState {
                    phase: Phase::SecondHandle { handle: pointer, unlinked, snap_to_angle },
                    ..st
                },
                if !unlinked {
                    first.push(BezierStep::MirrorCurrentHandle { handle: pointer })
                } else {
                    first
                },
                true,
            ),
            Phase::ClosingHandle { handle: _, unlinked, snap_to_angle } => (
                BezierToolState {
                    phase: Phase::ClosingHandle { handle: pointer, unlinked, snap_to_angle },
                    ..st
                },
                first.push(BezierStep::MoveClosingHandle { handle: pointer, mirror_first: !unlinked }),
                true,
            ),
            Phase::OnCurve => (
                BezierToolState { phase: p, ..st },
                first.push(BezierStep::MoveOnCurve { to: pointer }),
                true,
            ),
        }
    }
}

/// While a contour is drawn, each release moves the tool along its
/// cycle: a first handle puts down the end of the curve; at the end of a
/// curve, a release near the first point closes the contour and any other
/// starts the next handle; the next handle starts the next curve; and the
/// closing handle ends the drawing. Pointer moves never change the phase,
/// nor end the drawing.
pub proof fn law_release_follows_the_drawing_cycle(
    st: BezierToolState,
    point: PointBits,
    near_first: bool,
    shift: bool,
    control: bool,
)
    requires
        st.drawing,
        st.curve_index < usize::MAX,
    ensures
        ({
            let (s2, _, taken) = release_spec(st, true, point, near_first);
            &&& taken
            &&& st.phase is FirstHandle ==> s2.phase is OnCurve && s2.drawing
            &&& st.phase is OnCurve ==> s2.drawing && (if near_first {
                s2.phase is ClosingHandle
            } else {
                s2.phase is SecondHandle
            })
            &&& st.phase is SecondHandle ==> s2.phase is OnCurve && s2.drawing && s2.curve_index
                == st.curve_index + 1
            &&& st.phase is ClosingHandle ==> !s2.drawing
        }),
        ({
            let (s3, _, _) = motion_spec(st, shift, control, point);
            &&& s3.drawing
            &&& (s3.phase is Empty) == (st.phase is Empty)
            &&& (s3.phase is FirstHandle) == (st.phase is FirstHandle)
            &&& (s3.phase is OnCurve) == (st.phase is OnCurve)
            &&& (s3.phase is SecondHandle) == (st.phase is SecondHandle)
            &&& (s3.phase is ClosingHandle) == (st.phase is ClosingHandle)
            &&& s3.curve_index == st.curve_index
        }),
{
}

/// Whether the handles are unlinked after a pointer move, in a phase that
/// drags a handle whose handles were `unlinked` before: Control alone flips
/// it.
pub open spec fn unlinked_after(unlinked: bool, shift: bool, control: bool) -> bool {
    if !shift && control { !unlinked } else { unlinked }
}

/// Whether the steps hold one of the given kind.
pub open spec fn has_step(steps: Seq<BezierStep>, f: spec_fn(BezierStep) -> bool) -> bool {
    exists|i: int| 0 <= i < steps.len() && #[trigger] f(steps[i])
}

/// While a handle is dragged, the handle across the join follows it only
/// when the handles are linked: in the phase of the next curve's handle a
/// move mirrors the current curve's last handle (to the pointer) exactly
/// when the handles are linked after the move; in the phase of a curve's
/// first handle it mirrors the previous curve's last handle exactly when
/// they are linked and there is a previous curve; in the closing phase it
/// mirrors the first handle exactly when they are linked. Control alone
/// flips the link and marks the curve smooth exactly when it becomes
/// linked; no other move marks the curve.
pub proof fn law_dragged_handle_mirrors_only_when_linked(
    st: BezierToolState,
    shift: bool,
    control: bool,
    pointer: PointBits,
)
    requires
        st.drawing,
    ensures
        ({
            let (s2, steps, taken) = motion_spec(st, shift, control, pointer);
            let mirror_current = |b: BezierStep| b is MirrorCurrentHandle;
            let mirror_previous = |b: BezierStep| b is MirrorPreviousHandle;
            let set_smooth = |b: BezierStep| b is SetSmooth;
            &&& taken == !(st.phase is Empty)
            &&& (forall|i: int| 0 <= i < steps.len() && #[trigger] steps[i] is MirrorCurrentHandle ==> steps[i]
                == BezierStep::MirrorCurrentHandle { handle: pointer })
            &&& (forall|i: int| 0 <= i < steps.len() && #[trigger] steps[i] is MirrorPreviousHandle ==> steps[i]
                == BezierStep::MirrorPreviousHandle { handle: pointer })
            &&& (st.phase matches Phase::SecondHandle { unlinked, .. } ==> {
                &&& !shift && control ==> steps[0] == BezierStep::SetSmooth {
                    smooth: !unlinked_after(unlinked, shift, control),
                }
                &&& s2.phase matches Phase::SecondHandle { handle, unlinked: u2, .. } && handle == pointer
                    && u2 == unlinked_after(unlinked, shift, control)
                &&& has_step(steps, mirror_current) == !unlinked_after(unlinked, shift, control)
                &&& !has_step(steps, mirror_previous)
            })
            &&& (st.phase matches Phase::FirstHandle { unlinked, .. } ==> {
                &&& !shift && control ==> steps[0] == BezierStep::SetSmooth {
                    smooth: !unlinked_after(unlinked, shift, control),
                }
                &&& s2.phase matches Phase::FirstHandle { handle, unlinked: u2, .. } && handle == pointer
                    && u2 == unlinked_after(unlinked, shift, control)
                &&& has_step(steps, mirror_previous) == (!unlinked_after(unlinked, shift, control)
                    && st.curve_index != 0)
                &&& !has_step(steps, mirror_current)
            })
            &&& (st.phase matches Phase::ClosingHandle { unlinked, .. } ==> {
                &&& !shift && control ==> steps[0] == BezierStep::SetSmooth {
                    smooth: !unlinked_after(unlinked, shift, control),
                }
                &&& s2.phase matches Phase::ClosingHandle { handle, unlinked: u2, .. } && handle == pointer
                    && u2 == unlinked_after(unlinked, shift, control)
                &&& steps.last() == BezierStep::MoveClosingHandle {
                    handle: pointer,
                    mirror_first: !unlinked_after(unlinked, shift, control),
                }
                &&& !has_step(steps, mirror_current) && !has_step(steps, mirror_previous)
            })
            &&& (st.phase is OnCurve || st.phase is Empty) ==> !has_step(steps, mirror_current)
                && !has_step(steps, mirror_previous) && !has_step(steps, set_smooth)
            &&& (st.phase is FirstHandle || st.phase is SecondHandle || st.phase is ClosingHandle) ==> {
                &&& has_step(steps, set_smooth) == (!shift && control)
            }
        }),
{
    let (s2, steps, taken) = motion_spec(st, shift, control, pointer);
    let mirror_current = |b: BezierStep| b is MirrorCurrentHandle;
    let mirror_previous = |b: BezierStep| b is MirrorPreviousHandle;
    let set_smooth = |b: BezierStep| b is SetSmooth;
    if steps.len() > 0 {
        let l = steps.len() - 1;
        assert(mirror_current(steps[l]) == steps[l] is MirrorCurrentHandle);
        assert(mirror_previous(steps[l]) == steps[l] is MirrorPreviousHandle);
        assert(set_smooth(steps[0]) == steps[0] is SetSmooth);
    }
}

/// The Bézier pen tool.
#[derive(Debug)]
pub struct BezierToolInner {
    state: BezierToolState,
}

impl View for BezierToolInner {
    type V = BezierToolState;

    closed spec fn view(&self) -> BezierToolState {
        self.state
    }
}

impl BezierToolInner {
    /// A tool that has drawn nothing.
    pub fn new() -> (ret: Self)
        ensures
            ret@ == (BezierToolState {
                phase: Phase::Empty,
                drawing: false,
                first_point: PointBits { x: 0, y: 0 },
                curve_index: 0,
            }),
    {
        BezierToolInner {
            state: BezierToolState {
                phase: Phase::Empty,
                drawing: false,
                first_point: PointBits { x: 0, y: 0 },
                curve_index: 0,
            },
        }
    }

    /// The state of the tool.
    pub fn state(&self) -> (ret: BezierToolState)
        ensures
            ret == self@,
    {
        self.state
    }

    fn insert_point(&mut self, point: PointBits, near_first: bool, steps: &mut Vec<BezierStep>)
        requires
            old(self)@.curve_index < usize::MAX,
        ensures
            (final(self)@, final(steps)@) == ({
                let (s2, new_steps) = insert_spec(old(self)@, point, near_first);
                (s2, old(steps)@ + new_steps)
            }),
    {
        let st = self.state;
        match st.phase {
            Phase::FirstHandle { handle, .. } => {
                steps.push(BezierStep::AddSegmentPoints { handle, at: point });
                self.state = BezierToolState { phase: Phase::OnCurve, ..st };
            },
            Phase::OnCurve => {
                if near_first {
                    steps.push(BezierStep::CloseContour);
                    self.state = BezierToolState {
                        phase: Phase::ClosingHandle {
                            handle: st.first_point,
                            unlinked: false,
                            snap_to_angle: false,
                        },
                        ..st
                    };
                } else {
                    self.state = BezierToolState {
                        phase: Phase::SecondHandle { handle: point, unlinked: false, snap_to_angle: false },
                        ..st
                    };
                }
            },
            Phase::ClosingHandle { handle, .. } => {
                steps.push(BezierStep::FinishClosing { handle });
                steps.push(BezierStep::EndDrawing);
                self.state = BezierToolState { drawing: false, ..st };
            },
            Phase::SecondHandle { handle, .. } => {
                steps.push(BezierStep::StartNextCurve);
                self.state = BezierToolState {
                    phase: Phase::FirstHandle { handle, unlinked: false, snap_to_angle: false },
                    curve_index: st.curve_index + 1,
                    ..st
                };
                steps.push(BezierStep::AddSegmentPoints { handle, at: handle });
                self.state = BezierToolState { phase: Phase::OnCurve, ..self.state };
            },
            Phase::Empty => {},
        }
        proof {
            let (s2, new_steps) = insert_spec(old(self)@, point, near_first);
            assert(steps@ =~= old(steps)@ + new_steps);
        }
    }

    /// A button press at `point`: the primary button starts a contour, or
    /// puts down a point while the end of a curve or the next handle is
    /// being dragged; the secondary button ends the drawing, putting down
    /// the closing handle if there is one. `near_first` tells whether the
    /// point is close to the first point of the contour. Returns the steps
    /// for the caller and whether the event was taken.
    pub fn on_button_press_event(
        &mut self,
        primary: bool,
        secondary: bool,
        point: PointBits,
        near_first: bool,
    ) -> (ret: (Vec<BezierStep>, bool))
        requires
            old(self)@.curve_index < usize::MAX,
        ensures
            (final(self)@, ret.0@, ret.1) == press_spec(old(self)@, primary, secondary, point, near_first),
    {
        let mut steps: Vec<BezierStep> = Vec::new();
        let st = self.state;
        if primary {
            if !st.drawing {
                steps.push(BezierStep::StartContour { at: point });
                self.state = BezierToolState {
                    phase: Phase::FirstHandle { handle: point, unlinked: false, snap_to_angle: false },
                    drawing: true,
                    first_point: point,
                    curve_index: 0,
                };
                return (steps, true);
            }
            match st.phase {
                Phase::OnCurve | Phase::SecondHandle { .. } => {
                    self.insert_point(point, near_first, &mut steps);
                    proof {
                        assert(steps@ =~= Seq::<BezierStep>::empty() + steps@);
                    }
                    (steps, true)
                },
                _ => (steps, false),
            }
        } else if secondary {
            if !st.drawing {
                return (steps, false);
            }
            match st.phase {
                Phase::ClosingHandle { .. } => {
                    self.insert_point(point, near_first, &mut steps);
                    (steps, true)
                },
                _ => {
                    steps.push(BezierStep::EndDrawing);
                    self.state = BezierToolState { drawing: false, ..st };
                    (steps, true)
                },
            }
        } else {
            (steps, false)
        }
    }

    /// A button release at `point`: with the primary button, while
    /// drawing, puts down the point that the phase calls for.
    pub fn on_button_release_event(&mut self, primary: bool, point: PointBits, near_first: bool) -> (ret: (
        Vec<BezierStep>,
        bool,
    ))
        requires
            old(self)@.curve_index < usize::MAX,
        ensures
            (final(self)@, ret.0@, ret.1) == release_spec(old(self)@, primary, point, near_first),
    {
        let mut steps: Vec<BezierStep> = Vec::new();
        if !primary {
            return (steps, false);
        }
        if matches!(self.state.phase, Phase::Empty) {
            return (steps, true);
        }
        if !self.state.drawing {
            return (steps, false);
        }
        self.insert_point(point, near_first, &mut steps);
        (steps, true)
    }

    /// A pointer move to `pointer`: first the modifier keys toggle snapping
    /// (Shift) or unlinked handles (Control alone, which also marks the
    /// current curve smooth as the handles were linked or not); then the
    /// handle or end being dragged follows the pointer.
    pub fn on_motion_notify_event(&mut self, shift: bool, control: bool, pointer: PointBits) -> (ret: (
        Vec<BezierStep>,
        bool,
    ))
        ensures
            (final(self)@, ret.0@, ret.1) == motion_spec(old(self)@, shift, control, pointer),
    {
        let mut steps: Vec<BezierStep> = Vec::new();
        let st = self.state;
        if !st.drawing {
            return (steps, false);
        }
        let p = match st.phase {
            Phase::FirstHandle { handle, unlinked, snap_to_angle } => if shift {
                Phase::FirstHandle { handle, unlinked, snap_to_angle: !snap_to_angle }
            } else if control {
                steps.push(BezierStep::SetSmooth { smooth: unlinked });
                Phase::FirstHandle { handle, unlinked: !unlinked, snap_to_angle }
            } else {
                st.phase
            },
            Phase::SecondHandle { handle, unlinked, snap_to_angle } => if shift {
                Phase::SecondHandle { handle, unlinked, snap_to_angle: !snap_to_angle }
            } else if control {
                steps.push(BezierStep::SetSmooth { smooth: unlinked });
                Phase::SecondHandle { handle, unlinked: !unlinked, snap_to_angle }
            } else {
                st.phase
            },
            Phase::ClosingHandle { handle, unlinked, snap_to_angle } => if shift {
                Phase::ClosingHandle { handle, unlinked, snap_to_angle: !snap_to_angle }
            } else if control {
                steps.push(BezierStep::SetSmooth { smooth: unlinked });
                Phase::ClosingHandle { handle, unlinked: !unlinked, snap_to_angle }
            } else {
                st.phase
            },
            _ => st.phase,
        };
        let ghost first = steps@;
        match p {
            Phase::Empty => {
                self.state = BezierToolState { phase: p, ..st };
                (steps, false)
            },
            Phase::FirstHandle { handle: _, unlinked, snap_to_angle } => {
                if !unlinked && st.curve_index != 0 {
                    steps.push(BezierStep::MirrorPreviousHandle { handle: pointer });
                }
                self.state = BezierToolState {
                    phase: Phase::FirstHandle { handle: pointer, unlinked, snap_to_angle },
                    ..st
                };
                (steps, true)
            },
            Phase::SecondHandle { handle: _, unlinked, snap_to_angle } => {
                if !unlinked {
                    steps.push(BezierStep::MirrorCurrentHandle { handle: pointer });
                }
                self.state = BezierToolState {
                    phase: Phase::SecondHandle { handle: pointer, unlinked, snap_to_angle },
                    ..st
                };
                (steps, true)
            },
            Phase::ClosingHandle { handle: _, unlinked, snap_to_angle } => {
                steps.push(BezierStep::MoveClosingHandle { handle: pointer, mirror_first: !unlinked });
                self.state = BezierToolState {
                    phase: Phase::ClosingHandle { handle: pointer, unlinked, snap_to_angle },
                    ..st
                };
                (steps, true)
            },
            Phase::OnCurve => {
                steps.push(BezierStep::MoveOnCurve { to: pointer });
                self.state = BezierToolState { phase: p, ..st };
                (steps, true)
            },
        }
    }
}

} // verus!
