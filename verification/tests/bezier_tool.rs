use gerb::glyph_edit::tools::bezier::{BezierStep, BezierToolInner, Phase, PointBits};

fn pt(x: f64, y: f64) -> PointBits {
    PointBits { x: x.to_bits(), y: y.to_bits() }
}

#[test]
fn drawing_a_closed_contour() {
    let mut t = BezierToolInner::new();
    let (steps, taken) = t.on_motion_notify_event(false, false, pt(1.0, 1.0));
    assert!(steps.is_empty() && !taken);

    let (steps, taken) = t.on_button_press_event(true, false, pt(0.0, 0.0), false);
    assert!(taken);
    assert_eq!(steps, vec![BezierStep::StartContour { at: pt(0.0, 0.0) }]);

    let (steps, _) = t.on_motion_notify_event(false, false, pt(5.0, 5.0));
    assert!(steps.is_empty());
    let (steps, taken) = t.on_button_release_event(true, pt(10.0, 0.0), false);
    assert!(taken);
    assert_eq!(
        steps,
        vec![BezierStep::AddSegmentPoints { handle: pt(5.0, 5.0), at: pt(10.0, 0.0) }]
    );
    assert_eq!(t.state().phase, Phase::OnCurve);

    let (steps, _) = t.on_motion_notify_event(false, false, pt(11.0, 0.0));
    assert_eq!(steps, vec![BezierStep::MoveOnCurve { to: pt(11.0, 0.0) }]);

    let (steps, taken) = t.on_button_press_event(true, false, pt(12.0, 0.0), false);
    assert!(taken && steps.is_empty());
    let (steps, _) = t.on_motion_notify_event(false, false, pt(15.0, -5.0));
    assert_eq!(steps, vec![BezierStep::MirrorCurrentHandle { handle: pt(15.0, -5.0) }]);
    let (steps, _) = t.on_button_release_event(true, pt(15.0, -5.0), false);
    assert_eq!(
        steps,
        vec![
            BezierStep::StartNextCurve,
            BezierStep::AddSegmentPoints { handle: pt(15.0, -5.0), at: pt(15.0, -5.0) },
        ]
    );
    assert_eq!(t.state().curve_index, 1);

    let (steps, taken) = t.on_button_release_event(true, pt(0.5, 0.5), true);
    assert!(taken);
    assert_eq!(steps, vec![BezierStep::CloseContour]);
    assert!(matches!(t.state().phase, Phase::ClosingHandle { .. }));

    let (steps, _) = t.on_motion_notify_event(false, false, pt(-3.0, 2.0));
    assert_eq!(
        steps,
        vec![BezierStep::MoveClosingHandle { handle: pt(-3.0, 2.0), mirror_first: true }]
    );
    let (steps, _) = t.on_button_release_event(true, pt(-3.0, 2.0), false);
    assert_eq!(
        steps,
        vec![BezierStep::FinishClosing { handle: pt(-3.0, 2.0) }, BezierStep::EndDrawing]
    );
    assert!(!t.state().drawing);
}

#[test]
fn modifier_keys_toggle_snapping_and_linking() {
    let mut t = BezierToolInner::new();
    t.on_button_press_event(true, false, pt(0.0, 0.0), false);
    t.on_motion_notify_event(true, false, pt(1.0, 1.0));
    assert_eq!(
        t.state().phase,
        Phase::FirstHandle { handle: pt(1.0, 1.0), unlinked: false, snap_to_angle: true }
    );
    let (steps, _) = t.on_motion_notify_event(false, true, pt(2.0, 2.0));
    assert_eq!(steps, vec![BezierStep::SetSmooth { smooth: false }]);
    assert_eq!(
        t.state().phase,
        Phase::FirstHandle { handle: pt(2.0, 2.0), unlinked: true, snap_to_angle: true }
    );
    let (steps, taken) = t.on_button_press_event(false, true, pt(0.0, 0.0), false);
    assert!(taken);
    assert_eq!(steps, vec![BezierStep::EndDrawing]);
    let (steps, taken) = t.on_button_press_event(false, true, pt(0.0, 0.0), false);
    assert!(!taken && steps.is_empty());
}
