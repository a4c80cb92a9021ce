use std::collections::BTreeMap;

use plan::{handle_input, Keys, Selection, Stack, Tool};

type TestTool = Tool<String, (i32, i32), ()>;

fn keys() -> Keys {
    Keys {
        quit: false,
        delete: false,
        undo: false,
        redo: false,
        escape: false,
        launch: false,
        edit: false,
        save: false,
    }
}

fn doc() -> BTreeMap<u128, &'static str> {
    let mut objects = BTreeMap::new();
    objects.insert(1, "one");
    objects.insert(2, "two");
    objects.insert(3, "three");
    objects
}

#[test]
fn delete_removes_selected_and_undo_restores() {
    let mut objects = doc();
    let mut stack = Stack::new(objects.clone());
    let mut selection = Selection::new();
    selection.replace(&[1, 3]);
    let mut tool: TestTool = Tool::Moving;

    let out = handle_input(&Keys { delete: true, ..keys() }, &mut objects, &mut selection, &mut stack, &mut tool);
    assert!(out.changed);
    assert_eq!(objects.keys().copied().collect::<Vec<_>>(), vec![2]);
    assert!(selection.iter().is_empty());

    // The canvas records the change, as it does after a frame that changed it.
    stack.push(objects.clone());

    let out = handle_input(&Keys { undo: true, ..keys() }, &mut objects, &mut selection, &mut stack, &mut tool);
    assert!(!out.changed);
    assert_eq!(objects, doc());

    let out = handle_input(&Keys { redo: true, ..keys() }, &mut objects, &mut selection, &mut stack, &mut tool);
    assert!(!out.changed);
    assert_eq!(objects.keys().copied().collect::<Vec<_>>(), vec![2]);
}

#[test]
fn launch_and_edit_need_exactly_one_selected_object() {
    let mut objects = doc();
    let mut stack = Stack::new(objects.clone());
    let mut selection = Selection::new();
    let mut tool: TestTool = Tool::Moving;
    let both = Keys { launch: true, edit: true, ..keys() };

    let out = handle_input(&both, &mut objects, &mut selection, &mut stack, &mut tool);
    assert_eq!((out.launch, out.edit), (None, None));

    selection.replace(&[2]);
    let out = handle_input(&both, &mut objects, &mut selection, &mut stack, &mut tool);
    assert_eq!((out.launch, out.edit), (Some(2), Some(2)));

    selection.replace(&[9]);
    let out = handle_input(&both, &mut objects, &mut selection, &mut stack, &mut tool);
    assert_eq!((out.launch, out.edit), (None, None));

    selection.replace(&[1, 2]);
    let out = handle_input(&Keys { launch: true, ..keys() }, &mut objects, &mut selection, &mut stack, &mut tool);
    assert_eq!(out.launch, None);
}

#[test]
fn escape_resets_tool_and_flags_pass_through() {
    let mut objects = doc();
    let mut stack = Stack::new(objects.clone());
    let mut selection = Selection::new();
    let mut tool: TestTool = Tool::Typing("draft".to_string());
    let out = handle_input(
        &Keys { escape: true, quit: true, save: true, ..keys() },
        &mut objects,
        &mut selection,
        &mut stack,
        &mut tool,
    );
    assert!(matches!(tool, Tool::Moving));
    assert!(out.quit && out.save && !out.changed);
    assert_eq!(objects, doc());

    let mut tool: TestTool = Tool::BoxSelect(None);
    handle_input(&keys(), &mut objects, &mut selection, &mut stack, &mut tool);
    assert!(matches!(tool, Tool::BoxSelect(None)));
}
