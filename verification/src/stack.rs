use vstd::prelude::*;

verus! {

/// The abstract value of an undo history: every snapshot kept, and the
/// index of the one the document currently shows.
pub struct History<T> {
    pub snapshots: Seq<T>,
    pub position: int,
}

impl<T> History<T> {
    /// A history is well formed when it holds at least one snapshot and its
    /// position points at one of them.
    pub open spec fn wf(self) -> bool {
        0 <= self.position < self.snapshots.len()
    }

    /// The history that starts from a single snapshot.
    pub open spec fn initial(snapshot: T) -> History<T> {
        History { snapshots: seq![snapshot], position: 0 }
    }

    /// The snapshot the document currently shows.
    pub open spec fn current(self) -> T {
        self.snapshots[self.position]
    }

    /// Recording a new snapshot drops every snapshot after the current one
    /// (the redo branch) and moves to the new snapshot.
    pub open spec fn pushed(self, snapshot: T) -> History<T> {
        History {
            snapshots: self.snapshots.take(self.position + 1).push(snapshot),
            position: self.position + 1,
        }
    }

    /// Undo steps one snapshot back, staying at the first one.
    pub open spec fn undone(self) -> History<T> {
        History {
            snapshots: self.snapshots,
            position: if self.position > 0 { self.position - 1 } else { 0 },
        }
    }

    /// Redo steps one snapshot forward, staying at the last one.
    pub open spec fn redone(self) -> History<T> {
        History {
            snapshots: self.snapshots,
            position: if self.position + 1 < self.snapshots.len() {
                self.position + 1
            } else {
                self.snapshots.len() - 1
            },
        }
    }

    pub open spec fn can_undo(self) -> bool {
        self.position > 0
    }

    pub open spec fn can_redo(self) -> bool {
        self.position < self.snapshots.len() - 1
    }
}

/// Recording, undoing and redoing keep a history well formed.
pub proof fn lemma_history_operations_keep_wf<T>(h: History<T>, snapshot: T)
    requires
        h.wf(),
    ensures
        h.pushed(snapshot).wf(),
        h.undone().wf(),
        h.redone().wf(),
        History::initial(snapshot).wf(),
{
}

/// After recording a snapshot, it is the current one, nothing can be
/// redone, and undo brings back exactly the snapshot that was current
/// before.
pub proof fn lemma_undo_after_push<T>(h: History<T>, snapshot: T)
    requires
        h.wf(),
    ensures
        h.pushed(snapshot).current() == snapshot,
        !h.pushed(snapshot).can_redo(),
        h.pushed(snapshot).can_undo(),
        h.pushed(snapshot).undone().current() == h.current(),
{
}

/// Redo undoes an undo: when there is something to undo, undoing and then
/// redoing gives back the same history.
pub proof fn lemma_redo_after_undo<T>(h: History<T>)
    requires
        h.wf(),
        h.can_undo(),
    ensures
        h.undone().can_redo(),
        h.undone().redone() == h,
{
}

/// Undo undoes a redo: when there is something to redo, redoing and then
/// undoing gives back the same history.
pub proof fn lemma_undo_after_redo<T>(h: History<T>)
    requires
        h.wf(),
        h.can_redo(),
    ensures
        h.redone().can_undo(),
        h.redone().undone() == h,
{
}

/// Undo at the first snapshot and redo at the last change nothing.
pub proof fn lemma_undo_redo_at_ends<T>(h: History<T>)
    requires
        h.wf(),
    ensures
        !h.can_undo() ==> h.undone() == h,
        !h.can_redo() ==> h.redone() == h,
{
}

/// Undo and redo never drop or change a snapshot; only recording does.
pub proof fn lemma_undo_redo_keep_snapshots<T>(h: History<T>)
    requires
        h.wf(),
    ensures
        h.undone().snapshots == h.snapshots,
        h.redone().snapshots == h.snapshots,
{
}

/// An undo/redo stack of document snapshots: the first snapshot, the
/// snapshots recorded after it, and how many of those the document is past.
pub struct Stack<T> {
    first: T,
    later: Vec<T>,
    position: usize,
}

impl<T> Stack<T> {
    /// The history this stack holds.
    pub closed spec fn history(self) -> History<T> {
        History { snapshots: seq![self.first] + self.later@, position: self.position as int }
    }

    /// The history of a stack is always well formed.
    #[verifier::type_invariant]
    spec fn history_wf(self) -> bool {
        self.history().wf()
    }

    /// A stack whose only snapshot is `snapshot`.
    pub fn new(snapshot: T) -> (s: Self)
        ensures
            s.history() == History::initial(snapshot),
    {
        let s = Stack { first: snapshot, later: Vec::new(), position: 0 };
        assert(s.history().snapshots =~= seq![snapshot]);
        s
    }

    /// Records `snapshot` after the current one, discarding the redo branch.
    pub fn push(&mut self, snapshot: T)
        ensures
            final(self).history() == old(self).history().pushed(snapshot),
    {
        proof {
            use_type_invariant(&*self);
        }
        let position = self.position;
        self.position = 0;
        let mut later: Vec<T> = Vec::new();
        std::mem::swap(&mut later, &mut self.later);
        later.truncate(position);
        later.push(snapshot);
        let len = later.len();
        self.later = later;
        self.position = len;
        assert(self.history().snapshots =~= old(self).history().snapshots.take(position + 1).push(snapshot));
    }

    /// Steps back one snapshot (staying at the first) and returns the
    /// snapshot now current.
    pub fn undo(&mut self) -> (res: Option<&T>)
        ensures
            final(self).history() == old(self).history().undone(),
            res == Some(&final(self).history().current()),
            final(self).history().wf(),
    {
        proof {
            use_type_invariant(&*self);
        }
        if self.position > 0 {
            self.position = self.position - 1;
        }
        Some(self.current())
    }

    /// Steps forward one snapshot (staying at the last) and returns the
    /// snapshot now current.
    pub fn redo(&mut self) -> (res: Option<&T>)
        ensures
            final(self).history() == old(self).history().redone(),
            res == Some(&final(self).history().current()),
            final(self).history().wf(),
    {
        proof {
            use_type_invariant(&*self);
        }
        if self.position < self.later.len() {
            self.position = self.position + 1;
        }
        Some(self.current())
    }

    /// The snapshot the document currently shows.
    pub fn current(&self) -> (res: &T)
        ensures
            *res == self.history().current(),
    {
        proof {
            use_type_invariant(self);
        }
        if self.position == 0 {
            &self.first
        } else {
            &self.later[self.position - 1]
        }
    }

    pub fn can_undo(&self) -> (res: bool)
        ensures
            res == self.history().can_undo(),
    {
        self.position > 0
    }

    pub fn can_redo(&self) -> (res: bool)
        ensures
            res == self.history().can_redo(),
    {
        proof {
            use_type_invariant(self);
        }
        self.position < self.later.len()
    }

    /// Ends a frame of editing: when the frame changed the objects
    /// (`dirty`) and they now differ from the current snapshot (`differs`),
    /// records `snapshot`; otherwise leaves the history as it is.
    pub fn record_frame(&mut self, dirty: bool, differs: bool, snapshot: T)
        ensures
            final(self).history() == if dirty && differs {
                old(self).history().pushed(snapshot)
            } else {
                old(self).history()
            },
    {
        if dirty && differs {
            self.push(snapshot);
        }
    }
}

} // verus!
