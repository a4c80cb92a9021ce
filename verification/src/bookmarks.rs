//! Saved views of the canvas.
use vstd::prelude::*;

verus! {

/// A saved view: a label, and the canvas transform `T` to go back to.
pub struct Bookmark<T> {
    pub label: String,
    pub transform: T,
}

/// What the user did in the bookmarks list this frame.
#[derive(Clone, Copy, Debug, PartialEq, Eq)]
pub enum BookmarkAction {
    /// Save the current view as a new bookmark.
    Add,
    /// Go to the view of the bookmark at this index.
    GoTo(usize),
    /// Save the current view into the bookmark at this index.
    SetView(usize),
    /// Delete the bookmark at this index.
    Delete(usize),
}

/// The label of a new bookmark.
pub open spec fn new_bookmark_label() -> Seq<char> {
    "New bookmark"@
}

/// The label of a new bookmark.
pub fn new_bookmark_label_string() -> (s: String)
    ensures
        s@ == new_bookmark_label(),
{
    String::from_str("New bookmark")
}

/// The index an action names, if any.
pub open spec fn action_index(action: BookmarkAction) -> Option<usize> {
    match action {
        BookmarkAction::Add => None,
        BookmarkAction::GoTo(i) => Some(i),
        BookmarkAction::SetView(i) => Some(i),
        BookmarkAction::Delete(i) => Some(i),
    }
}

/// The bookmark list and current view after `action`: adding appends a
/// bookmark of the current view labelled [`new_bookmark_label`] (`label` is
/// the string made for it); going to a bookmark takes its view; setting a
/// bookmark stores the current view in it; deleting removes it.
pub open spec fn after_action<T>(
    bookmarks: Seq<Bookmark<T>>,
    current: T,
    action: BookmarkAction,
    label: String,
) -> (Seq<Bookmark<T>>, T) {
    match action {
        BookmarkAction::Add => (bookmarks.push(Bookmark { label, transform: current }), current),
        BookmarkAction::GoTo(i) => (bookmarks, bookmarks[i as int].transform),
        BookmarkAction::SetView(i) => (
            bookmarks.update(
                i as int,
                Bookmark { label: bookmarks[i as int].label, transform: current },
            ),
            current,
        ),
        BookmarkAction::Delete(i) => (bookmarks.remove(i as int), current),
    }
}

/// Carries out `action` on the bookmark list and the current view: see
/// [`after_action`].
pub fn apply_bookmark_action<T: Copy>(
    bookmarks: &mut Vec<Bookmark<T>>,
    current: &mut T,
    action: BookmarkAction,
)
    requires
        action_index(action) matches Some(i) ==> i < old(bookmarks).len(),
    ensures
        exists|label: String|
            label@ == new_bookmark_label() && (final(bookmarks)@, *final(current)) == after_action(
                old(bookmarks)@,
                *old(current),
                action,
                label,
            ),
{
    let label = new_bookmark_label_string();
    let ghost made = label;
    match action {
        BookmarkAction::Add => {
            bookmarks.push(Bookmark { label, transform: *current });
        },
        BookmarkAction::GoTo(i) => {
            *current = bookmarks[i].transform;
        },
        BookmarkAction::SetView(i) => {
            bookmarks[i].transform = *current;
        },
        BookmarkAction::Delete(i) => {
            bookmarks.remove(i);
        },
    }
    assert((bookmarks@, *current) == after_action(old(bookmarks)@, *old(current), action, made));
}

/// Saving the view into a bookmark and going to it, from whatever view,
/// comes back to the saved view; the list keeps its length and labels.
pub proof fn lemma_go_to_saved_view<T>(
    bookmarks: Seq<Bookmark<T>>,
    saved: T,
    elsewhere: T,
    i: usize,
    label: String,
)
    requires
        i < bookmarks.len(),
    ensures
        ({
            let (set, _) = after_action(bookmarks, saved, BookmarkAction::SetView(i), label);
            let (after, view) = after_action(set, elsewhere, BookmarkAction::GoTo(i), label);
            &&& view == saved
            &&& after.len() == bookmarks.len()
            &&& forall|j: int| 0 <= j < bookmarks.len() ==> #[trigger] after[j].label == bookmarks[j].label
        }),
{
}

/// Adding a bookmark and deleting it again gives back the list.
pub proof fn lemma_delete_added<T>(bookmarks: Seq<Bookmark<T>>, current: T, label: String)
    requires
        bookmarks.len() <= usize::MAX,
    ensures
        ({
            let (added, view) = after_action(bookmarks, current, BookmarkAction::Add, label);
            let (after, _) = after_action(added, view, BookmarkAction::Delete(bookmarks.len() as usize), label);
            after == bookmarks
        }),
{
    let (added, view) = after_action(bookmarks, current, BookmarkAction::Add, label);
    assert(added.remove(bookmarks.len() as int) =~= bookmarks);
}

/// Deleting the bookmark at `i` removes exactly that one: the list is one
/// shorter, the bookmarks before it stay where they were, those after it
/// move up by one in the same order, and the view is kept.
pub proof fn lemma_delete_keeps_order<T>(bookmarks: Seq<Bookmark<T>>, current: T, i: usize, label: String)
    requires
        i < bookmarks.len(),
    ensures
        ({
            let (after, view) = after_action(bookmarks, current, BookmarkAction::Delete(i), label);
            &&& after.len() == bookmarks.len() - 1
            &&& forall|j: int| 0 <= j < i ==> #[trigger] after[j] == bookmarks[j]
            &&& forall|j: int| i <= j < after.len() ==> #[trigger] after[j] == bookmarks[j + 1]
            &&& view == current
        }),
{
}

/// Adding puts a bookmark of the current view at the end, after all the
/// others; setting a bookmark's view changes only that bookmark's view,
/// keeping its label and every other bookmark; going to a bookmark changes
/// only the view, to the one it holds.
pub proof fn lemma_actions_touch_only_their_bookmark<T>(
    bookmarks: Seq<Bookmark<T>>,
    current: T,
    i: usize,
    label: String,
)
    requires
        i < bookmarks.len(),
    ensures
        ({
            let (added, view) = after_action(bookmarks, current, BookmarkAction::Add, label);
            &&& added.len() == bookmarks.len() + 1
            &&& added.take(bookmarks.len() as int) == bookmarks
            &&& added.last().transform == current && added.last().label == label
            &&& view == current
        }),
        ({
            let (set, view) = after_action(bookmarks, current, BookmarkAction::SetView(i), label);
            &&& set.len() == bookmarks.len()
            &&& set[i as int].transform == current && set[i as int].label == bookmarks[i as int].label
            &&& forall|j: int| 0 <= j < bookmarks.len() && j != i ==> #[trigger] set[j] == bookmarks[j]
            &&& view == current
        }),
        after_action(bookmarks, current, BookmarkAction::GoTo(i), label) == (
            bookmarks,
            bookmarks[i as int].transform,
        ),
{
    let (added, _) = after_action(bookmarks, current, BookmarkAction::Add, label);
    assert(added.take(bookmarks.len() as int) =~= bookmarks);
}

} // verus!
