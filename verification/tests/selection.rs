use gerb::editor::selection::Selection;
use gerb::editor::tools::SelectionModifier;
use gerb::glyphs::GlyphPointIndex;

fn p(curve_index: usize, uuid: u128) -> GlyphPointIndex {
    GlyphPointIndex { contour_index: 0, curve_index, uuid }
}

fn set_of(s: &Selection) -> Vec<u128> {
    let mut v: Vec<u128> = s.get_selection_set().iter().copied().collect();
    v.sort();
    v
}

#[test]
fn replace_add_remove() {
    let mut s = Selection::new();
    s.set_selection(&vec![p(0, 1), p(0, 2)], SelectionModifier::Replace);
    assert_eq!(s.get_selection(), &vec![p(0, 1), p(0, 2)]);
    assert_eq!(set_of(&s), vec![1, 2]);
    s.set_selection(&vec![p(1, 3)], SelectionModifier::Add);
    assert_eq!(s.get_selection(), &vec![p(0, 1), p(0, 2), p(1, 3)]);
    assert_eq!(set_of(&s), vec![1, 2, 3]);
    s.set_selection(&vec![p(0, 2)], SelectionModifier::Remove);
    assert_eq!(s.get_selection(), &vec![p(0, 1), p(1, 3)]);
    assert_eq!(set_of(&s), vec![1, 3]);
    s.set_selection(&vec![p(5, 9)], SelectionModifier::Replace);
    assert_eq!(s.get_selection(), &vec![p(5, 9)]);
    assert_eq!(set_of(&s), vec![9]);
}

#[test]
fn editor_changes_and_their_undo() {
    let mut s = Selection::new();
    assert!(s.apply_editor_selection(&vec![], SelectionModifier::Replace).is_none());
    let old = s.apply_editor_selection(&vec![p(0, 1)], SelectionModifier::Replace).unwrap();
    assert!(old.is_empty());
    assert!(s.apply_editor_selection(&vec![p(0, 1)], SelectionModifier::Add).is_none());
    let old = s.apply_editor_selection(&vec![p(0, 1), p(0, 2)], SelectionModifier::Add).unwrap();
    assert_eq!(old, vec![p(0, 1)]);
    assert_eq!(s.get_selection(), &vec![p(0, 1), p(0, 2)]);
    assert!(s.apply_editor_selection(&vec![p(0, 7)], SelectionModifier::Remove).is_none());
    let before = s.get_selection().clone();
    let old = s.apply_editor_selection(&vec![p(0, 1)], SelectionModifier::Remove).unwrap();
    assert_eq!(s.get_selection(), &vec![p(0, 2)]);
    s.restore(&old);
    assert_eq!(s.get_selection(), &before);
    assert_eq!(set_of(&s), vec![1, 2]);
}
