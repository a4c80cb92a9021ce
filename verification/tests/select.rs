use plan::{DragMode, DragState, Selection, SelectionState};

fn sorted(sel: &Selection) -> Vec<u128> {
    let mut ids = sel.iter().to_vec();
    ids.sort();
    ids
}

#[test]
fn replace_append_clear() {
    let mut sel = Selection::new();
    sel.replace(&[3, 1, 3]);
    assert_eq!(sorted(&sel), vec![1, 3]);
    sel.append(&[2, 3]);
    assert_eq!(sorted(&sel), vec![1, 2, 3]);
    assert!(sel.contains(2));
    assert!(!sel.contains(4));
    sel.clear();
    assert!(sorted(&sel).is_empty());
}

#[test]
fn single_only_with_one_selected() {
    let mut sel = Selection::default();
    assert_eq!(sel.single(), None);
    sel.replace(&[7]);
    assert_eq!(sel.single(), Some(7));
    sel.append(&[8]);
    assert_eq!(sel.single(), None);
}

#[test]
fn toggle_twice_with_append_restores() {
    let mut sel = Selection::new();
    sel.replace(&[1, 2]);
    sel.toggle(3, true);
    assert_eq!(sorted(&sel), vec![1, 2, 3]);
    sel.toggle(3, true);
    assert_eq!(sorted(&sel), vec![1, 2]);
    sel.toggle(1, true);
    assert_eq!(sorted(&sel), vec![2]);
}

#[test]
fn plain_toggle_of_selected_clears_everything() {
    let mut sel = Selection::new();
    sel.replace(&[1, 2]);
    sel.toggle(1, false);
    assert!(sorted(&sel).is_empty());
    sel.toggle(5, false);
    assert_eq!(sorted(&sel), vec![5]);
    sel.append(&[6]);
    sel.toggle(7, false);
    assert_eq!(sorted(&sel), vec![7]);
}

#[test]
fn click_on_nothing_clears() {
    let mut sel = Selection::new();
    sel.replace(&[1, 2]);
    sel.click(&[], true);
    assert!(sorted(&sel).is_empty());
}

#[test]
fn click_on_overlapping_objects_toggles_each() {
    let mut sel = Selection::new();
    sel.click(&[4, 5], true);
    assert_eq!(sorted(&sel), vec![4, 5]);
    // Without shift, the second toggle replaces the first.
    sel.clear();
    sel.click(&[4, 5], false);
    assert_eq!(sorted(&sel), vec![5]);
}

#[test]
fn drag_starts_on_box_press_and_ends_on_release() {
    let mut state = SelectionState::new();
    assert!(!state.is_dragging());
    assert_eq!(state.update_drag(false, false, false, false), (None, DragState::Idle));
    assert_eq!(
        state.update_drag(false, false, true, false),
        (Some(DragMode::Moving), DragState::Dragging)
    );
    assert!(state.is_dragging());
    // A press on a handle while moving keeps moving.
    assert_eq!(
        state.update_drag(true, true, false, false),
        (Some(DragMode::Moving), DragState::Dragging)
    );
    assert_eq!(
        state.update_drag(false, false, false, true),
        (Some(DragMode::Moving), DragState::Done)
    );
    assert!(!state.is_dragging());
}

#[test]
fn handles_take_precedence_over_box() {
    let mut state = SelectionState::default();
    assert_eq!(
        state.update_drag(true, true, true, false),
        (Some(DragMode::Resizing), DragState::Dragging)
    );
    let mut state = SelectionState::default();
    assert_eq!(
        state.update_drag(false, true, true, true),
        (Some(DragMode::Scaling), DragState::Done)
    );
    assert!(!state.is_dragging());
    assert!(state.selection.iter().is_empty());
}
