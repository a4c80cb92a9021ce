use plan::{
    box_select_step, finish_box_select, trims_to_empty, typing_click, typing_commit, typing_escape,
    Selection, Tool, TypingCommit, TypingState,
};

type TestTool = Tool<(), (i32, i32), ()>;

#[test]
fn selection_and_dragging_permissions() {
    let tools: [(TestTool, bool, bool); 5] = [
        (Tool::Moving, true, true),
        (Tool::Typing(()), false, true),
        (Tool::BoxSelect(None), true, false),
        (Tool::BoxSelect(Some((0, 0))), false, false),
        (Tool::Placing(()), false, true),
    ];
    for (tool, select, drag) in tools {
        assert_eq!(tool.allow_selection(), select);
        assert_eq!(tool.allow_dragging(), drag);
    }
}

#[test]
fn typing_commits() {
    assert_eq!(typing_commit(Some(4), true, ""), TypingCommit::Update(4));
    assert_eq!(typing_commit(Some(4), false, "hi"), TypingCommit::Insert);
    assert_eq!(typing_commit(None, false, " \t\n\u{3000}"), TypingCommit::Discard);
    assert_eq!(typing_commit(None, true, "  x "), TypingCommit::Insert);
    assert_eq!(typing_commit(None, false, ""), TypingCommit::Discard);
}

#[test]
fn blank_text() {
    assert!(trims_to_empty(""));
    assert!(trims_to_empty(" \u{a0}\u{2028}"));
    assert!(!trims_to_empty(" a"));
}

#[test]
fn box_select_replaces_or_appends() {
    let mut sel = Selection::new();
    sel.replace(&[1]);
    finish_box_select(&mut sel, &[2, 3], true);
    let mut ids = sel.iter().to_vec();
    ids.sort();
    assert_eq!(ids, vec![1, 2, 3]);
    finish_box_select(&mut sel, &[4], false);
    assert_eq!(sel.iter(), &[4]);
}

fn fresh_typing() -> TypingState<(i32, i32), u8> {
    TypingState { placed: None, text: String::new(), editing: None, style: 1 }
}

#[test]
fn typing_click_places_or_takes_up_a_text() {
    let mut state = fresh_typing();
    typing_click(&mut state, None, (3, 4));
    assert_eq!(state.placed, Some((3, 4)));
    assert_eq!(state.text, "");
    assert_eq!(state.editing, None);

    typing_click(&mut state, Some((9, (7, 8), "old".to_string(), 2)), (0, 0));
    assert_eq!(state.placed, Some((7, 8)));
    assert_eq!(state.text, "old");
    assert_eq!(state.editing, Some(9));
    assert_eq!(state.style, 2);
}

#[test]
fn escape_finishes_a_placed_text() {
    let mut state = fresh_typing();
    // Nothing placed: escape changes nothing.
    assert_eq!(typing_escape(&mut state, true, false), None);
    assert_eq!(state.placed, None);

    typing_click(&mut state, None, (1, 1));
    state.text.push_str("hello");
    // No escape pressed: nothing happens.
    assert_eq!(typing_escape(&mut state, false, false), None);
    assert_eq!(state.text, "hello");

    assert_eq!(
        typing_escape(&mut state, true, false),
        Some((TypingCommit::Insert, "hello".to_string()))
    );
    assert_eq!(state.placed, None);
    assert_eq!(state.text, "");
    assert_eq!(state.editing, None);
    assert_eq!(state.style, 1);
}

#[test]
fn escape_updates_or_discards_an_edited_text() {
    let mut state = fresh_typing();
    typing_click(&mut state, Some((5, (0, 0), "abc".to_string(), 3)), (0, 0));
    assert_eq!(
        typing_escape(&mut state, true, true),
        Some((TypingCommit::Update(5), "abc".to_string()))
    );
    assert_eq!(state.style, 3);

    typing_click(&mut state, None, (2, 2));
    state.text.push_str("  ");
    assert_eq!(
        typing_escape(&mut state, true, false),
        Some((TypingCommit::Discard, "  ".to_string()))
    );
}

#[test]
fn box_select_press_drag_release() {
    // A press starts the rectangle at the press origin.
    let (rect, done) = box_select_step(None, true, Some((1, 1)), true, None, false);
    assert_eq!((rect, done), (Some(((1, 1), (1, 1))), None));
    // Holding the button moves its end.
    let (rect, done) = box_select_step(rect, true, None, true, Some((5, 6)), false);
    assert_eq!((rect, done), (Some(((1, 1), (5, 6))), None));
    // Moving without the button held keeps it.
    let (rect, done) = box_select_step(rect, true, None, false, Some((9, 9)), false);
    assert_eq!((rect, done), (Some(((1, 1), (5, 6))), None));
    // A release finishes it.
    let (rect, done) = box_select_step(rect, true, None, false, None, true);
    assert_eq!((rect, done), (None, Some(((1, 1), (5, 6)))));
}

#[test]
fn box_select_idle_without_drag() {
    let kept = Some(((0, 0), (2, 2)));
    assert_eq!(box_select_step(kept, false, Some((7, 7)), true, Some((8, 8)), true), (kept, None));
    assert_eq!(box_select_step::<(i32, i32)>(None, true, None, true, Some((3, 3)), true), (None, None));
    // Press and release in one frame finish a rectangle from the origin.
    assert_eq!(
        box_select_step(None, true, Some((2, 2)), true, Some((4, 3)), true),
        (None, Some(((2, 2), (4, 3))))
    );
}
