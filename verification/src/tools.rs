//! The editing tools and the decisions they make.
use vstd::prelude::*;
use crate::select::Selection;
use crate::text::{is_blank, trims_to_empty};

verus! {

/// The active editing tool. The state each tool keeps while it works is
/// carried as it is: `T` while typing a text, `R` for the rectangle being
/// dragged out by box selection, `P` while placing images.
pub enum Tool<T, R, P> {
    /// Moving and selecting objects.
    Moving,
    /// Typing a new text, or editing an existing one.
    Typing(T),
    /// Dragging out a rectangle that selects the objects inside it.
    BoxSelect(Option<R>),
    /// Picking image files to place where the canvas was clicked.
    Placing(P),
}

impl<T, R, P> Tool<T, R, P> {
    /// Whether other parts of the canvas may change the selection while
    /// this tool is active: only while moving, or in box selection before a
    /// rectangle has been started.
    pub fn allow_selection(&self) -> (res: bool)
        ensures
            res == (self is Moving || self matches Tool::BoxSelect(None)),
    {
        match self {
            Tool::Moving => true,
            Tool::BoxSelect(None) => true,
            _ => false,
        }
    }

    /// Whether other parts of the canvas may use drags while this tool is
    /// active: always but in box selection.
    pub fn allow_dragging(&self) -> (res: bool)
        ensures
            res == !(self is BoxSelect),
    {
        match self {
            Tool::BoxSelect(_) => false,
            _ => true,
        }
    }
}

/// What finishing a text does to the objects.
#[derive(Clone, Copy, Debug, PartialEq, Eq)]
pub enum TypingCommit {
    /// Write the text into the existing object with this id (when that
    /// object is a text).
    Update(u128),
    /// Insert the text as a new object.
    Insert,
    /// Drop the text.
    Discard,
}

/// What finishing a text does: a text being edited goes back into its
/// object while that object exists; otherwise a text goes onto the canvas as
/// a new object unless it is all whitespace.
pub open spec fn spec_typing_commit(editing: Option<u128>, target_exists: bool, text: Seq<char>) -> TypingCommit {
    match editing {
        Some(id) if target_exists => TypingCommit::Update(id),
        _ => if is_blank(text) {
            TypingCommit::Discard
        } else {
            TypingCommit::Insert
        },
    }
}

/// Decides what finishing a text does: see [`spec_typing_commit`].
/// `target_exists` tells whether the object `editing` names is still on the
/// canvas.
pub fn typing_commit(editing: Option<u128>, target_exists: bool, text: &str) -> (res: TypingCommit)
    ensures
        res == spec_typing_commit(editing, target_exists, text@),
{
    match editing {
        Some(id) if target_exists => TypingCommit::Update(id),
        _ => {
            if trims_to_empty(text) {
                TypingCommit::Discard
            } else {
                TypingCommit::Insert
            }
        },
    }
}

/// What the typing tool keeps while a text is typed: where the text is
/// placed (`G`, once the canvas was clicked), the text typed, the object
/// being edited (if an existing text is edited), and how the text is styled
/// (`S`).
pub struct TypingState<G, S> {
    pub placed: Option<G>,
    pub text: String,
    pub editing: Option<u128>,
    pub style: S,
}

/// A click while typing: on an existing text (`hit`: its id, placement,
/// text and style), that text is taken up for editing; elsewhere, the text
/// typed is placed at `fresh`, the click's place.
pub fn typing_click<G, S>(state: &mut TypingState<G, S>, hit: Option<(u128, G, String, S)>, fresh: G)
    ensures
        match hit {
            Some((id, placed, text, style)) => *final(state) == (TypingState {
                placed: Some(placed),
                text,
                editing: Some(id),
                style,
            }),
            None => *final(state) == (TypingState {
                placed: Some(fresh),
                text: old(state).text,
                editing: old(state).editing,
                style: old(state).style,
            }),
        },
{
    match hit {
        Some((id, placed, text, style)) => {
            state.placed = Some(placed);
            state.text = text;
            state.editing = Some(id);
            state.style = style;
        },
        None => {
            state.placed = Some(fresh);
        },
    }
}

/// Escape while a text is placed finishes it: gives what finishing does
/// (see [`spec_typing_commit`]; `target_exists` tells whether the object
/// being edited is still on the canvas) with the text typed, and resets the
/// tool (nothing placed, no text, nothing edited). Otherwise nothing
/// happens. The objects changed exactly when something is given.
pub fn typing_escape<G, S>(state: &mut TypingState<G, S>, escape: bool, target_exists: bool) -> (res:
    Option<(TypingCommit, String)>)
    ensures
        if escape && old(state).placed is Some {
            &&& res matches Some((commit, text)) && commit == spec_typing_commit(
                old(state).editing,
                target_exists,
                old(state).text@,
            ) && text@ == old(state).text@
            &&& final(state).placed is None
            &&& final(state).text@ == Seq::<char>::empty()
            &&& final(state).editing is None
            &&& final(state).style == old(state).style
        } else {
            &&& res is None
            &&& *final(state) == *old(state)
        },
{
    if escape && state.placed.is_some() {
        let commit = typing_commit(state.editing, target_exists, state.text.as_str());
        let mut text = String::new();
        std::mem::swap(&mut text, &mut state.text);
        state.placed = None;
        state.editing = None;
        Some((commit, text))
    } else {
        None
    }
}

/// One frame of box selection, from the rectangle being dragged out
/// (`rect`, from its start to its end) and the frame's pointer: while the
/// pointer is decidedly dragging (and no other drag holds it), a press
/// restarts the rectangle at the press origin, a held button moves its end
/// to the latest pointer position, and a release finishes it. Gives the
/// rectangle kept and the rectangle finished this frame.
pub open spec fn spec_box_select_step<Pt>(
    rect: Option<(Pt, Pt)>,
    dragging: bool,
    press_origin: Option<Pt>,
    primary_down: bool,
    latest: Option<Pt>,
    released: bool,
) -> (Option<(Pt, Pt)>, Option<(Pt, Pt)>) {
    if !dragging {
        (rect, None)
    } else {
        let started = match press_origin {
            Some(p) => Some((p, p)),
            None => rect,
        };
        let moved = match (started, latest) {
            (Some((start, _)), Some(p)) if primary_down => Some((start, p)),
            _ => started,
        };
        if released && moved is Some {
            (None, moved)
        } else {
            (moved, None)
        }
    }
}

/// Runs one frame of box selection: see [`spec_box_select_step`].
pub fn box_select_step<Pt: Copy>(
    rect: Option<(Pt, Pt)>,
    dragging: bool,
    press_origin: Option<Pt>,
    primary_down: bool,
    latest: Option<Pt>,
    released: bool,
) -> (res: (Option<(Pt, Pt)>, Option<(Pt, Pt)>))
    ensures
        res == spec_box_select_step(rect, dragging, press_origin, primary_down, latest, released),
{
    if !dragging {
        return (rect, None);
    }
    let mut current = rect;
    if let Some(p) = press_origin {
        current = Some((p, p));
    }
    if let Some((start, _)) = current {
        if primary_down {
            if let Some(p) = latest {
                current = Some((start, p));
            }
        }
    }
    match current {
        Some(finished) => {
            if released {
                (None, Some(finished))
            } else {
                (current, None)
            }
        },
        None => (None, None),
    }
}

/// A release while dragging finishes the rectangle from where the press
/// began to the latest pointer position (or to the press origin, when there
/// is no latest position), and keeps no rectangle; without a drag, nothing
/// is finished and the rectangle stays.
pub proof fn lemma_box_select_release<Pt>(
    rect: Option<(Pt, Pt)>,
    origin: Pt,
    latest: Option<Pt>,
)
    ensures
        spec_box_select_step(rect, true, Some(origin), true, latest, true) == (
            None::<(Pt, Pt)>,
            Some(
                match latest {
                    Some(p) => (origin, p),
                    None => (origin, origin),
                },
            ),
        ),
        spec_box_select_step(rect, false, Some(origin), true, latest, true) == (rect, None::<(Pt, Pt)>),
{
}

/// Finishes a box selection over the objects `inside` the rectangle: they
/// join the selection when appending, and replace it otherwise.
pub fn finish_box_select(selection: &mut Selection, inside: &[u128], append: bool)
    ensures
        final(selection)@ == if append {
            old(selection)@.union(inside@.to_set())
        } else {
            inside@.to_set()
        },
{
    if append {
        selection.append(inside);
    } else {
        selection.replace(inside);
    }
}

/// While a box is being dragged out with the button held, its end follows
/// the pointer: it runs from where the press began (the press origin when
/// one is reported, else the start kept) to the latest position, and a
/// release in that frame finishes exactly that rectangle.
pub proof fn lemma_box_end_follows_pointer<Pt>(
    rect: Option<(Pt, Pt)>,
    origin: Option<Pt>,
    latest: Pt,
    start: Pt,
)
    requires
        match origin {
            Some(o) => start == o,
            None => rect matches Some((s, _)) && s == start,
        },
    ensures
        spec_box_select_step(rect, true, origin, true, Some(latest), false) == (
            Some((start, latest)),
            None::<(Pt, Pt)>,
        ),
        spec_box_select_step(rect, true, origin, true, Some(latest), true) == (
            None::<(Pt, Pt)>,
            Some((start, latest)),
        ),
{
}

/// Without a drag, a frame keeps the rectangle and finishes nothing,
/// whatever the pointer does; while dragging with the button up, the
/// rectangle's end stays where it was (or at the press origin, where one is
/// reported).
pub proof fn lemma_box_idle_or_held<Pt>(
    rect: Option<(Pt, Pt)>,
    origin: Option<Pt>,
    primary_down: bool,
    latest: Option<Pt>,
    released: bool,
)
    ensures
        spec_box_select_step(rect, false, origin, primary_down, latest, released) == (rect, None::<(Pt, Pt)>),
        spec_box_select_step(rect, true, None, false, latest, false) == (rect, None::<(Pt, Pt)>),
        origin matches Some(o) ==> spec_box_select_step(rect, true, origin, false, latest, false) == (
            Some((o, o)),
            None::<(Pt, Pt)>,
        ),
{
}

} // verus!
