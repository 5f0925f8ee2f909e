use gerb::editor::tools::constraints::{
    lock_axis_action, lock_option_action, snap_toggle_action, Lock, Precision, Snap,
};
use gerb::editor::tools::SelectionModifier;
use gerb::glyph_edit::tools::constraints as ge;

#[test]
fn lock_axis_toggles_and_replaces_the_other_axis() {
    let l = lock_axis_action(Lock::empty(), Lock::x(), Lock::y());
    assert_eq!(l.bits(), 1);
    assert_eq!(l.as_str(), "Locked X axis.");
    let l = lock_axis_action(l, Lock::y(), Lock::x());
    assert_eq!(l.bits(), 2);
    assert_eq!(l.as_str(), "Locked Y axis.");
    let l = lock_axis_action(l, Lock::y(), Lock::x());
    assert!(l.is_empty());
    assert_eq!(l.as_str(), "");
}

#[test]
fn lock_options_toggle_only_without_an_axis() {
    let l = lock_option_action(Lock::empty(), Lock::local());
    assert_eq!(l.as_str(), "Local coordinates.");
    let l = lock_option_action(l, Lock::controls());
    assert_eq!(l.as_str(), "Control point axis coordinates.");
    let l = lock_axis_action(l, Lock::x(), Lock::y());
    assert_eq!(l.as_str(), "Locked X axis. | Control point axis coordinates.");
    let same = lock_option_action(l, Lock::local());
    assert_eq!(same.bits(), l.bits());
    let l = lock_option_action(Lock::local(), Lock::local());
    assert!(l.is_empty());
}

#[test]
fn lock_bits_round_trip() {
    for b in 0u32..16 {
        assert_eq!(Lock::from_bits(b).unwrap().bits(), b);
    }
    assert!(Lock::from_bits(16).is_none());
}

#[test]
fn precision_and_snap_texts() {
    assert_eq!(Precision::step_05().as_str(), ".5");
    assert_eq!(Precision::step_1().as_str(), "1.");
    assert_eq!(Snap::empty().as_str(), "");
    let s = snap_toggle_action(Snap::empty(), Snap::grid());
    assert_eq!(s.bits(), Snap::grid().bits());
    let s = snap_toggle_action(s, Snap::grid());
    assert!(s.bits() == 0);
    let both = Snap::angle().union(Snap::grid());
    assert_eq!(both.as_str(), "Snap to angles, grid.");
}

#[test]
fn selection_modifier_from_keys() {
    assert_eq!(SelectionModifier::from_modifier_state(false, false), SelectionModifier::Replace);
    assert_eq!(SelectionModifier::from_modifier_state(false, true), SelectionModifier::Replace);
    assert_eq!(SelectionModifier::from_modifier_state(true, false), SelectionModifier::Add);
    assert_eq!(SelectionModifier::from_modifier_state(true, true), SelectionModifier::Remove);
}

#[test]
fn glyph_edit_lock_texts() {
    let l = ge::lock_axis_action(ge::Lock::empty(), ge::Lock::x(), ge::Lock::y());
    assert_eq!(l.bits(), ge::Lock::x().bits());
    assert!(ge::Lock::from_bits(ge::Lock::x().bits()).is_some());
}
