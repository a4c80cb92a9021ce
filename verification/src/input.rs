//! What the keyboard shortcuts of the canvas do.
use vstd::prelude::*;
use std::collections::BTreeMap;
use crate::select::Selection;
use crate::stack::{History, Stack};
use crate::tools::Tool;

verus! {


/// The shortcut keys released this frame (with the modifiers each needs).
#[derive(Clone, Copy, Debug, PartialEq, Eq)]
pub struct Keys {
    /// Ctrl+Shift+Q: quit.
    pub quit: bool,
    /// X: delete the selected objects.
    pub delete: bool,
    /// Z: undo.
    pub undo: bool,
    /// R: redo.
    pub redo: bool,
    /// Escape: back to the moving tool.
    pub escape: bool,
    /// L: launch the selected object (play a video).
    pub launch: bool,
    /// C: edit the selected object.
    pub edit: bool,
    /// Ctrl+S: save.
    pub save: bool,
}

/// What is left to do after the shortcuts have changed the document.
#[derive(Clone, Copy, Debug, PartialEq, Eq)]
pub struct InputOutcome {
    /// The objects changed in a way the undo history should record.
    pub changed: bool,
    /// Close the window.
    pub quit: bool,
    /// Launch this object.
    pub launch: Option<u128>,
    /// Start editing this object.
    pub edit: Option<u128>,
    /// Save the document.
    pub save: bool,
}

/// The object the shortcuts that act on one object act on: the one
/// selected object, when exactly one is selected and it is on the canvas.
pub open spec fn target<O>(selected: Set<u128>, objects: Map<u128, O>) -> Option<u128> {
    if selected.len() == 1 && objects.dom().contains(selected.choose()) {
        Some(selected.choose())
    } else {
        None
    }
}

/// The objects, selection and history after the shortcuts in `keys`, in
/// the order they are handled: delete, undo, redo.
pub open spec fn after_keys<O>(
    keys: Keys,
    objects: Map<u128, O>,
    selected: Set<u128>,
    history: History<Map<u128, O>>,
) -> (Map<u128, O>, Set<u128>, History<Map<u128, O>>) {
    let objects1 = if keys.delete { objects.remove_keys(selected) } else { objects };
    let selected1 = if keys.delete { Set::empty() } else { selected };
    let history1 = if keys.undo { history.undone() } else { history };
    let objects2 = if keys.undo { history1.current() } else { objects1 };
    let history2 = if keys.redo { history1.redone() } else { history1 };
    let objects3 = if keys.redo { history2.current() } else { objects2 };
    (objects3, selected1, history2)
}

/// The view of every snapshot of a history of object maps.
pub open spec fn history_view<O>(stack: &Stack<BTreeMap<u128, O>>) -> History<Map<u128, O>> {
    History {
        snapshots: stack.history().snapshots.map_values(|s: BTreeMap<u128, O>| s@),
        position: stack.history().position,
    }
}

/// Applies the shortcuts in `keys` to the document: see [`after_keys`].
/// Escape puts the moving tool back. Launching and editing act on the
/// [`target`] after the other shortcuts.
pub fn handle_input<O: Clone, T, R, P>(
    keys: &Keys,
    objects: &mut BTreeMap<u128, O>,
    selection: &mut Selection,
    stack: &mut Stack<BTreeMap<u128, O>>,
    tool: &mut Tool<T, R, P>,
) -> (res: InputOutcome)
    ensures
        ({
            let (objects_after, selected_after, history_after) = after_keys(
                *keys,
                old(objects)@,
                old(selection)@,
                history_view(old(stack)),
            );
            &&& final(objects)@ == objects_after
            &&& final(selection)@ == selected_after
            &&& history_view(final(stack)) == history_after
            &&& final(stack).history().snapshots == old(stack).history().snapshots
        }),
        keys.escape ==> *final(tool) is Moving,
        !keys.escape ==> *final(tool) == *old(tool),
        res.changed == keys.delete,
        res.quit == keys.quit,
        res.save == keys.save,
        res.launch == if keys.launch { target(final(selection)@, final(objects)@) } else { None },
        res.edit == if keys.edit { target(final(selection)@, final(objects)@) } else { None },
{
    let ghost start = objects@;
    let mut changed = false;
    if keys.delete {
        let ids = selection.iter();
        let mut i: usize = 0;
        while i < ids.len()
            invariant
                0 <= i <= ids.len(),
                objects@ == start.remove_keys(ids@.take(i as int).to_set()),
            decreases ids.len() - i,
        {
            let id = ids[i];
            objects.remove(&id);
            proof {
                ids@.take(i as int).lemma_push_to_set_commute(id);
                assert(ids@.take(i + 1) =~= ids@.take(i as int).push(id));
            }
            assert(objects@ =~= start.remove_keys(ids@.take(i + 1).to_set()));
            i = i + 1;
        }
        assert(ids@.take(ids.len() as int) =~= ids@);
        selection.clear();
        changed = true;
    }
    if keys.undo {
        match stack.undo() {
            Some(state) => {
                *objects = state.clone();
            },
            None => {},
        }
    }
    if keys.redo {
        match stack.redo() {
            Some(state) => {
                *objects = state.clone();
            },
            None => {},
        }
    }
    if keys.escape {
        *tool = Tool::Moving;
    }
    let single = selection.single();
    let target = match single {
        Some(id) => if objects.contains_key(&id) {
            Some(id)
        } else {
            None
        },
        None => None,
    };
    proof {
        if let Some(id) = single {
            assert(set![id].len() == 1);
            assert(set![id].choose() == id) by {
                assert(set![id].contains(set![id].choose()));
            }
        }
    }
    InputOutcome {
        changed,
        quit: keys.quit,
        launch: if keys.launch { target } else { None },
        edit: if keys.edit { target } else { None },
        save: keys.save,
    }
}

/// Only the delete shortcut.
pub open spec fn delete_key() -> Keys {
    Keys { quit: false, delete: true, undo: false, redo: false, escape: false, launch: false, edit: false, save: false }
}

/// Only the undo shortcut.
pub open spec fn undo_key() -> Keys {
    Keys { quit: false, delete: false, undo: true, redo: false, escape: false, launch: false, edit: false, save: false }
}

/// Deleting the selection, recording the result, and undoing brings back
/// every deleted object: the objects are those before the delete.
pub proof fn lemma_undo_restores_deleted<O>(
    objects: Map<u128, O>,
    selected: Set<u128>,
    history: History<Map<u128, O>>,
)
    requires
        history.wf(),
        history.current() == objects,
    ensures
        ({
            let (deleted, selected1, history1) = after_keys(delete_key(), objects, selected, history);
            let recorded = history1.pushed(deleted);
            let (restored, _, _) = after_keys(undo_key(), deleted, selected1, recorded);
            &&& deleted == objects.remove_keys(selected)
            &&& restored == objects
        }),
{
}

} // verus!
