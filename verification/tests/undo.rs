use gerb::undo::{Action, EventStamp, UndoDatabase};

fn action(property: &str, id: u8, compress: bool) -> Action {
    Action {
        stamp: EventStamp {
            t: "Editor".to_string(),
            property: property.to_string(),
            id: vec![id],
        },
        compress,
    }
}

#[test]
fn undo_and_redo_step_over_single_events() {
    let mut db = UndoDatabase::new();
    assert!(!db.can_undo());
    assert!(!db.can_redo());
    assert_eq!(db.event(action("a", 1, false)), 0);
    assert_eq!(db.event(action("b", 2, false)), 1);
    assert_eq!(db.cursor(), 2);
    assert!(db.can_undo());
    assert_eq!(db.undo(), vec![1]);
    assert_eq!(db.cursor(), 1);
    assert!(db.can_redo());
    assert_eq!(db.redo(), vec![1]);
    assert_eq!(db.cursor(), 2);
    assert_eq!(db.redo(), Vec::<usize>::new());
}

#[test]
fn compressed_events_of_one_stamp_are_undone_together() {
    let mut db = UndoDatabase::new();
    db.event(action("select", 1, false));
    db.event(action("move", 7, true));
    db.event(action("move", 7, true));
    db.event(action("move", 7, true));
    assert_eq!(db.undo(), vec![3, 2, 1]);
    assert_eq!(db.cursor(), 1);
    assert_eq!(db.undo(), vec![0]);
    assert_eq!(db.cursor(), 0);
    assert_eq!(db.undo(), Vec::<usize>::new());
    assert_eq!(db.redo(), vec![0]);
    assert_eq!(db.redo(), vec![1, 2, 3]);
    assert_eq!(db.cursor(), 4);
}

#[test]
fn events_of_different_stamps_are_not_merged() {
    let mut db = UndoDatabase::new();
    db.event(action("move", 7, true));
    db.event(action("move", 8, true));
    assert_eq!(db.undo(), vec![1]);
    assert_eq!(db.undo(), vec![0]);
}

#[test]
fn a_new_event_drops_the_undone_ones() {
    let mut db = UndoDatabase::new();
    db.event(action("a", 1, false));
    db.event(action("b", 2, false));
    db.event(action("c", 3, false));
    db.undo();
    db.undo();
    assert_eq!(db.event(action("d", 4, false)), 1);
    assert_eq!(db.database().len(), 2);
    assert_eq!(db.database()[1].action.stamp.property, "d");
    assert!(!db.can_redo());
    let ts: Vec<u64> = db.database().iter().map(|e| e.timestamp).collect();
    assert_eq!(ts, vec![0, 3]);
}

#[test]
fn undo_then_redo_returns_to_the_same_cursor() {
    let mut db = UndoDatabase::new();
    db.event(action("a", 1, true));
    db.event(action("a", 1, true));
    db.event(action("b", 2, false));
    let before = db.cursor();
    let undone = db.undo();
    let redone = db.redo();
    assert_eq!(db.cursor(), before);
    let mut r = redone.clone();
    r.reverse();
    assert_eq!(undone, r);
}
