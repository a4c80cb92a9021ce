use plan::Stack;

#[test]
fn undo_after_push_restores_previous() {
    let mut stack = Stack::new(1);
    stack.push(2);
    assert_eq!(*stack.current(), 2);
    assert!(stack.can_undo());
    assert!(!stack.can_redo());
    assert_eq!(stack.undo(), Some(&1));
    assert_eq!(*stack.current(), 1);
    assert!(stack.can_redo());
    assert_eq!(stack.redo(), Some(&2));
}

#[test]
fn new_stack_has_nothing_to_undo_or_redo() {
    let mut stack = Stack::new("a");
    assert!(!stack.can_undo());
    assert!(!stack.can_redo());
    assert_eq!(stack.undo(), Some(&"a"));
    assert_eq!(stack.redo(), Some(&"a"));
    assert_eq!(*stack.current(), "a");
}

#[test]
fn push_drops_redo_branch() {
    let mut stack = Stack::new(0);
    stack.push(1);
    stack.push(2);
    stack.undo();
    stack.undo();
    assert_eq!(*stack.current(), 0);
    stack.push(3);
    assert!(!stack.can_redo());
    assert_eq!(stack.redo(), Some(&3));
    assert_eq!(stack.undo(), Some(&0));
    assert_eq!(stack.undo(), Some(&0));
}

#[test]
fn redo_undoes_undo() {
    let mut stack = Stack::new(10);
    stack.push(20);
    stack.push(30);
    assert_eq!(stack.undo(), Some(&20));
    assert_eq!(stack.redo(), Some(&30));
    assert_eq!(stack.redo(), Some(&30));
    assert!(!stack.can_redo());
}

#[test]
fn frame_recorded_only_when_dirty_and_changed() {
    let mut stack = Stack::new(1);
    stack.record_frame(false, true, 2);
    assert_eq!(*stack.current(), 1);
    stack.record_frame(true, false, 2);
    assert_eq!(*stack.current(), 1);
    assert!(!stack.can_undo());
    stack.record_frame(true, true, 2);
    assert_eq!(*stack.current(), 2);
    assert_eq!(stack.undo(), Some(&1));
}
