use rustyproject::history::UndoRedo;

#[test]
fn undo_and_redo_restore_state_in_order() {
    let mut history = UndoRedo::default();
    history.push("one");
    history.push("two");
    history.push("three");

    let current = "four";
    let current = history.undo(current).expect("undo one");
    assert_eq!(current, "three");

    let current = history.undo(current).expect("undo two");
    assert_eq!(current, "two");

    let current = history.redo(current).expect("redo one");
    assert_eq!(current, "three");
}

#[test]
fn push_clears_redo_branch() {
    let mut history = UndoRedo::default();
    history.push(1);
    history.push(2);
    let current = history.undo(3).expect("undo");
    assert_eq!(current, 2);

    history.push(4);
    assert!(!history.can_redo());
}

#[test]
fn empty_history_has_nothing_to_undo_or_redo() {
    let mut history: UndoRedo<u32> = UndoRedo::new();
    assert!(!history.can_undo());
    assert!(!history.can_redo());
    assert_eq!(history.undo(7), None);
    assert_eq!(history.redo(7), None);
    assert!(!history.can_undo());
    assert!(!history.can_redo());
}

#[test]
fn redo_right_after_undo_gives_back_the_current_state() {
    let mut history = UndoRedo::new();
    history.push(10);
    history.push(20);
    let previous = history.undo(30).expect("undo");
    assert_eq!(previous, 20);
    assert!(history.can_redo());
    let restored = history.redo(previous).expect("redo");
    assert_eq!(restored, 30);
    assert!(!history.can_redo());
    assert!(history.can_undo());
    assert_eq!(history.undo(restored), Some(20));
}

#[test]
fn undo_right_after_redo_gives_back_the_current_state() {
    let mut history = UndoRedo::new();
    history.push(1);
    let previous = history.undo(2).expect("undo");
    assert_eq!(previous, 1);
    let next = history.redo(previous).expect("redo");
    assert_eq!(next, 2);
    let back = history.undo(next).expect("undo again");
    assert_eq!(back, 1);
}

#[test]
fn undo_returns_the_last_pushed_state() {
    let mut history = UndoRedo::new();
    history.push("a");
    history.push("b");
    assert_eq!(history.undo("c"), Some("b"));
    assert_eq!(history.undo("b"), Some("a"));
    assert_eq!(history.undo("a"), None);
}
