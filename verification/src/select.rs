use vstd::prelude::*;

verus! {

/// The selection after toggling `id`: a selected id is dropped (and, unless
/// appending, the rest of the selection with it); an unselected id is added
/// (or, unless appending, becomes the whole selection).
pub open spec fn toggled(sel: Set<u128>, id: u128, append: bool) -> Set<u128> {
    if sel.contains(id) {
        if append {
            sel.remove(id)
        } else {
            Set::empty()
        }
    } else {
        if append {
            sel.insert(id)
        } else {
            set![id]
        }
    }
}

/// The selection after toggling each of `hits` in turn.
pub open spec fn toggled_all(sel: Set<u128>, hits: Seq<u128>, append: bool) -> Set<u128>
    decreases hits.len(),
{
    if hits.len() == 0 {
        sel
    } else {
        toggled(toggled_all(sel, hits.drop_last(), append), hits.last(), append)
    }
}

/// The selection after a click that landed on the objects `hits` (in the
/// order they are listed): each is toggled, and a click on empty canvas
/// clears the selection.
pub open spec fn clicked(sel: Set<u128>, hits: Seq<u128>, append: bool) -> Set<u128> {
    if hits.len() == 0 {
        Set::empty()
    } else {
        toggled_all(sel, hits, append)
    }
}

/// A set of selected object ids, each listed once.
pub struct Selection {
    ids: Vec<u128>,
}

impl View for Selection {
    type V = Set<u128>;

    closed spec fn view(&self) -> Set<u128> {
        self.ids@.to_set()
    }
}

/// `ids` with one occurrence of `id` removed, when it occurs.
fn remove_id(ids: &mut Vec<u128>, id: u128)
    requires
        old(ids)@.no_duplicates(),
    ensures
        final(ids)@.no_duplicates(),
        final(ids)@.to_set() == old(ids)@.to_set().remove(id),
{
    let mut i: usize = 0;
    while i < ids.len()
        invariant
            0 <= i <= ids.len(),
            ids@ == old(ids)@,
            ids@.no_duplicates(),
            forall|j: int| 0 <= j < i ==> ids@[j] != id,
        decreases ids.len() - i,
    {
        if ids[i] == id {
            let ghost before = ids@;
            ids.remove(i);
            assert(ids@.to_set() =~= before.to_set().remove(id)) by {
                assert forall|x: u128| ids@.to_set().contains(x) <==> before.to_set().remove(id).contains(x) by {
                    if before.contains(x) && x != id {
                        let k = choose|k: int| 0 <= k < before.len() && before[k] == x;
                        if k < i {
                            assert(ids@[k] == x);
                        } else {
                            assert(k != i);
                            assert(ids@[k - 1] == x);
                        }
                    }
                    if ids@.contains(x) {
                        let k = choose|k: int| 0 <= k < ids@.len() && ids@[k] == x;
                        if k < i {
                            assert(before[k] == x);
                        } else {
                            assert(before[k + 1] == x);
                        }
                    }
                }
            }
            return;
        }
        i = i + 1;
    }
    assert(ids@.to_set() =~= ids@.to_set().remove(id));
}

/// Adds `id` to `ids` unless it is already there.
fn insert_id(ids: &mut Vec<u128>, id: u128)
    requires
        old(ids)@.no_duplicates(),
    ensures
        final(ids)@.no_duplicates(),
        final(ids)@.to_set() == old(ids)@.to_set().insert(id),
{
    let mut i: usize = 0;
    while i < ids.len()
        invariant
            0 <= i <= ids.len(),
            ids@ == old(ids)@,
            ids@.no_duplicates(),
            forall|j: int| 0 <= j < i ==> ids@[j] != id,
        decreases ids.len() - i,
    {
        if ids[i] == id {
            assert(ids@.to_set() =~= ids@.to_set().insert(id));
            return;
        }
        i = i + 1;
    }
    let ghost before = ids@;
    ids.push(id);
    assert(ids@.to_set() =~= before.to_set().insert(id)) by {
        assert forall|x: u128| ids@.to_set().contains(x) implies before.to_set().insert(id).contains(x) by {
            let k = choose|k: int| 0 <= k < ids@.len() && ids@[k] == x;
            if k < before.len() {
                assert(before[k] == x);
            }
        }
        assert forall|x: u128| before.to_set().contains(x) implies ids@.to_set().contains(x) by {
            let k = choose|k: int| 0 <= k < before.len() && before[k] == x;
            assert(ids@[k] == x);
        }
        assert(ids@[before.len() as int] == id);
    }
}

impl Selection {
    /// No id is listed twice.
    #[verifier::type_invariant]
    spec fn ids_distinct(self) -> bool {
        self.ids@.no_duplicates()
    }

    /// The empty selection.
    pub fn new() -> (s: Self)
        ensures
            s@ == Set::<u128>::empty(),
    {
        let s = Selection { ids: Vec::new() };
        assert(s.ids@.to_set() =~= Set::<u128>::empty());
        s
    }

    /// Makes the selection exactly the ids in `ids`.
    pub fn replace(&mut self, ids: &[u128])
        ensures
            final(self)@ == ids@.to_set(),
    {
        self.clear();
        self.append(ids);
        assert(Set::<u128>::empty().union(ids@.to_set()) =~= ids@.to_set());
    }

    /// Adds the ids in `ids` to the selection.
    pub fn append(&mut self, ids: &[u128])
        ensures
            final(self)@ == old(self)@.union(ids@.to_set()),
    {
        proof {
            use_type_invariant(&*self);
        }
        let ghost start = self@;
        let mut held: Vec<u128> = Vec::new();
        std::mem::swap(&mut held, &mut self.ids);
        let mut i: usize = 0;
        while i < ids.len()
            invariant
                0 <= i <= ids.len(),
                held@.no_duplicates(),
                held@.to_set() == start.union(ids@.take(i as int).to_set()),
            decreases ids.len() - i,
        {
            insert_id(&mut held, ids[i]);
            assert(ids@.take(i + 1).to_set() =~= ids@.take(i as int).to_set().insert(ids@[i as int])) by {
                assert(ids@.take(i + 1) =~= ids@.take(i as int).push(ids@[i as int]));
                ids@.take(i as int).lemma_push_to_set_commute(ids@[i as int]);
            }
            assert(held@.to_set() =~= start.union(ids@.take(i + 1).to_set()));
            i = i + 1;
        }
        assert(ids@.take(ids.len() as int) =~= ids@);
        self.ids = held;
    }

    /// Deselects everything.
    pub fn clear(&mut self)
        ensures
            final(self)@ == Set::<u128>::empty(),
    {
        self.ids = Vec::new();
        assert(self.ids@.to_set() =~= Set::<u128>::empty());
    }

    /// The selected id, when exactly one is selected.
    pub fn single(&self) -> (res: Option<u128>)
        ensures
            match res {
                Some(id) => self@ == set![id],
                None => self@.len() != 1,
            },
    {
        proof {
            use_type_invariant(self);
            self.ids@.unique_seq_to_set();
        }
        if self.ids.len() == 1 {
            let id = self.ids[0];
            assert(self.ids@ =~= seq![id]);
            assert(self@ =~= set![id]) by {
                assert(seq![id].to_set() =~= set![id]) by {
                    assert forall|x: u128| seq![id].to_set().contains(x) implies x == id by {
                        let k = choose|k: int| 0 <= k < 1 && seq![id][k] == x;
                    }
                    assert(seq![id][0] == id);
                }
            }
            Some(id)
        } else {
            None
        }
    }

    /// The selected ids, each listed once, in no particular order.
    pub fn iter(&self) -> (ids: &[u128])
        ensures
            ids@.no_duplicates(),
            ids@.to_set() == self@,
    {
        proof {
            use_type_invariant(self);
        }
        self.ids.as_slice()
    }

    /// Whether `id` is selected.
    pub fn contains(&self, id: u128) -> (res: bool)
        ensures
            res == self@.contains(id),
    {
        let mut i: usize = 0;
        while i < self.ids.len()
            invariant
                0 <= i <= self.ids.len(),
                forall|j: int| 0 <= j < i ==> self.ids@[j] != id,
            decreases self.ids.len() - i,
        {
            if self.ids[i] == id {
                assert(self.ids@[i as int] == id);
                return true;
            }
            i = i + 1;
        }
        false
    }

    /// Toggles `id`: see [`toggled`].
    pub fn toggle(&mut self, id: u128, append: bool)
        ensures
            final(self)@ == toggled(old(self)@, id, append),
    {
        let selected = self.contains(id);
        if !append {
            self.clear();
        }
        proof {
            use_type_invariant(&*self);
        }
        let mut held: Vec<u128> = Vec::new();
        std::mem::swap(&mut held, &mut self.ids);
        if selected {
            remove_id(&mut held, id);
            assert(Set::<u128>::empty().remove(id) =~= Set::<u128>::empty());
        } else {
            insert_id(&mut held, id);
            assert(Set::<u128>::empty().insert(id) =~= set![id]);
        }
        self.ids = held;
    }

    /// Applies a click that landed on the objects `hits`: see [`clicked`].
    pub fn click(&mut self, hits: &[u128], append: bool)
        ensures
            final(self)@ == clicked(old(self)@, hits@, append),
    {
        let ghost start = self@;
        let mut i: usize = 0;
        while i < hits.len()
            invariant
                0 <= i <= hits.len(),
                self@ == toggled_all(start, hits@.take(i as int), append),
            decreases hits.len() - i,
        {
            self.toggle(hits[i], append);
            assert(hits@.take(i + 1).drop_last() =~= hits@.take(i as int));
            i = i + 1;
        }
        assert(hits@.take(hits.len() as int) =~= hits@);
        if hits.len() == 0 {
            self.clear();
        }
    }
}

impl Default for Selection {
    /// The empty selection.
    fn default() -> (s: Self)
        ensures
            s@ == Set::<u128>::empty(),
    {
        Selection::new()
    }
}

/// Which way a drag of the selection changes the selected objects.
#[derive(Clone, Copy, Debug, PartialEq, Eq)]
pub enum DragMode {
    Moving,
    Resizing,
    Scaling,
}

/// What a frame of selection handling did about dragging.
#[derive(Clone, Copy, Debug, PartialEq, Eq)]
pub enum DragState {
    Idle,
    Dragging,
    Done,
}

/// One frame of the drag state machine. From the drag mode at the start of
/// the frame and the frame's pointer events, it gives the mode at the end of
/// the frame, the mode whose effect the frame applies to the selected
/// objects, and the frame's drag state.
///
/// A press on the resize handle starts resizing and a press on the scale
/// handle starts scaling, the resize handle first; otherwise a press inside
/// the selection box starts moving. A drag in progress keeps its mode until
/// the pointer is released, which ends it.
pub open spec fn drag_step(
    mode: Option<DragMode>,
    resize_pressed: bool,
    scale_pressed: bool,
    box_pressed: bool,
    pointer_up: bool,
) -> (Option<DragMode>, Option<DragMode>, DragState) {
    let applied = if mode is Some {
        mode
    } else if resize_pressed {
        Some(DragMode::Resizing)
    } else if scale_pressed {
        Some(DragMode::Scaling)
    } else if box_pressed {
        Some(DragMode::Moving)
    } else {
        None
    };
    if applied is Some && pointer_up {
        (None, applied, DragState::Done)
    } else if applied is Some {
        (applied, applied, DragState::Dragging)
    } else {
        (None, None, DragState::Idle)
    }
}

/// The selection together with the drag that may be under way on it.
pub struct SelectionState {
    pub selection: Selection,
    pub drag_mode: Option<DragMode>,
}

impl SelectionState {
    /// An empty selection with no drag under way.
    pub fn new() -> (s: Self)
        ensures
            s.selection@ == Set::<u128>::empty(),
            s.drag_mode is None,
    {
        SelectionState { selection: Selection::new(), drag_mode: None }
    }

    /// Whether a drag of the selection is under way.
    pub fn is_dragging(&self) -> (res: bool)
        ensures
            res == self.drag_mode is Some,
    {
        self.drag_mode.is_some()
    }

    /// Runs one frame of the drag state machine (see [`drag_step`]) and
    /// returns the mode to apply to the selected objects this frame, and the
    /// frame's drag state. The selection itself is left as it is.
    pub fn update_drag(
        &mut self,
        resize_pressed: bool,
        scale_pressed: bool,
        box_pressed: bool,
        pointer_up: bool,
    ) -> (res: (Option<DragMode>, DragState))
        ensures
            final(self).selection == old(self).selection,
            ({
                let (next, applied, state) = drag_step(
                    old(self).drag_mode,
                    resize_pressed,
                    scale_pressed,
                    box_pressed,
                    pointer_up,
                );
                &&& final(self).drag_mode == next
                &&& res.0 == applied
                &&& res.1 == state
            }),
    {
        // Pressing a handle of the selection box starts resizing or scaling.
        if resize_pressed && self.drag_mode.is_none() {
            self.drag_mode = Some(DragMode::Resizing);
        }
        if scale_pressed && self.drag_mode.is_none() {
            self.drag_mode = Some(DragMode::Scaling);
        }
        // A press inside the selection box starts moving.
        let mut dragging = DragState::Idle;
        if self.drag_mode.is_none() && box_pressed {
            self.drag_mode = Some(DragMode::Moving);
            dragging = DragState::Dragging;
        }
        let applied = self.drag_mode;
        if applied.is_some() {
            dragging = DragState::Dragging;
        }
        if self.drag_mode.is_some() && pointer_up {
            self.drag_mode = None;
            (applied, DragState::Done)
        } else {
            (applied, dragging)
        }
    }
}

impl Default for SelectionState {
    /// An empty selection with no drag under way.
    fn default() -> (s: Self)
        ensures
            s.selection@ == Set::<u128>::empty(),
            s.drag_mode is None,
    {
        SelectionState::new()
    }
}

/// Toggling an id twice while appending gives back the selection it started
/// from.
pub proof fn lemma_toggle_twice(sel: Set<u128>, id: u128)
    ensures
        toggled(toggled(sel, id, true), id, true) == sel,
{
    if sel.contains(id) {
        assert(sel.remove(id).insert(id) =~= sel);
    } else {
        assert(sel.insert(id).remove(id) =~= sel);
    }
}

/// Without appending, a click on an unselected object selects it alone, and
/// a click on a selected object clears the whole selection.
pub proof fn lemma_plain_click_on_one(sel: Set<u128>, id: u128)
    ensures
        clicked(sel, seq![id], false) == if sel.contains(id) {
            Set::<u128>::empty()
        } else {
            set![id]
        },
{
    assert(seq![id].drop_last() =~= Seq::<u128>::empty());
    assert(toggled_all(sel, seq![id].drop_last(), false) == sel);
    assert(seq![id].last() == id);
}

/// A click that hits nothing clears the selection.
pub proof fn lemma_click_on_nothing(sel: Set<u128>, append: bool)
    ensures
        clicked(sel, Seq::empty(), append) == Set::<u128>::empty(),
{
}

/// Appending a click on an object changes only that object's membership.
pub proof fn lemma_append_click_is_local(sel: Set<u128>, id: u128, other: u128)
    requires
        other != id,
    ensures
        toggled(sel, id, true).contains(other) == sel.contains(other),
        toggled(sel, id, true).contains(id) == !sel.contains(id),
{
}

/// A drag under way keeps its mode, whatever is pressed, until the pointer
/// is released; the release ends the drag in the same frame, after the mode
/// has been applied once more.
pub proof fn lemma_drag_mode_is_kept(
    mode: DragMode,
    resize_pressed: bool,
    scale_pressed: bool,
    box_pressed: bool,
    pointer_up: bool,
)
    ensures
        ({
            let (next, applied, state) = drag_step(
                Some(mode),
                resize_pressed,
                scale_pressed,
                box_pressed,
                pointer_up,
            );
            &&& applied == Some(mode)
            &&& pointer_up ==> next is None && state == DragState::Done
            &&& !pointer_up ==> next == Some(mode) && state == DragState::Dragging
        }),
{
}

/// With no drag under way and nothing pressed, a frame does nothing.
pub proof fn lemma_idle_without_press(pointer_up: bool)
    ensures
        drag_step(None, false, false, false, pointer_up) == (
            None::<DragMode>,
            None::<DragMode>,
            DragState::Idle,
        ),
{
}

/// With no drag under way, a press on the resize handle starts resizing,
/// whatever else is pressed; without it, a press on the scale handle starts
/// scaling; without either, a press in the box starts moving. The drag
/// started is applied this frame, and it goes on unless the pointer is
/// released in the same frame.
pub proof fn lemma_press_starts_drag(
    resize_pressed: bool,
    scale_pressed: bool,
    box_pressed: bool,
    pointer_up: bool,
)
    ensures
        ({
            let (next, applied, state) = drag_step(
                None,
                resize_pressed,
                scale_pressed,
                box_pressed,
                pointer_up,
            );
            let started = if resize_pressed {
                Some(DragMode::Resizing)
            } else if scale_pressed {
                Some(DragMode::Scaling)
            } else if box_pressed {
                Some(DragMode::Moving)
            } else {
                None
            };
            &&& resize_pressed ==> applied == Some(DragMode::Resizing)
            &&& !resize_pressed && scale_pressed ==> applied == Some(DragMode::Scaling)
            &&& !resize_pressed && !scale_pressed && box_pressed ==> applied == Some(DragMode::Moving)
            &&& applied == started
            &&& started is Some && !pointer_up ==> next == started && state == DragState::Dragging
            &&& started is Some && pointer_up ==> next is None && state == DragState::Done
        }),
{
}

} // verus!
