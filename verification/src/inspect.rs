//! The inspector panel: bookmarks, and a searchable list of labels.
use vstd::prelude::*;
use crate::text::{contains_text, spec_to_lowercase, text_contains, to_lowercase};

verus! {

/// The pages of the inspector.
#[derive(Clone, Copy, Debug, PartialEq, Eq)]
pub enum Tab {
    Bookmarks,
    Labels,
}

/// State of the inspector panel: the page shown, whether the panel is
/// open, and the search query of the labels page.
pub struct Inspector {
    tab: Tab,
    open: bool,
    query: String,
}

/// Whether a label is listed under `query`: the query occurs in the label
/// lowercased (the query itself is taken as typed).
pub open spec fn label_listed(label: Seq<char>, query: Seq<char>) -> bool {
    contains_text(spec_to_lowercase(label), query)
}

/// The indices of the labels listed under `query`, in order.
pub open spec fn listed_indices(labels: Seq<Seq<char>>, query: Seq<char>) -> Seq<usize>
    decreases labels.len(),
{
    if labels.len() == 0 {
        Seq::empty()
    } else {
        let rest = listed_indices(labels.drop_last(), query);
        if label_listed(labels.last(), query) {
            rest.push((labels.len() - 1) as usize)
        } else {
            rest
        }
    }
}

impl Inspector {
    pub closed spec fn spec_tab(&self) -> Tab {
        self.tab
    }

    pub closed spec fn spec_open(&self) -> bool {
        self.open
    }

    pub closed spec fn spec_query(&self) -> Seq<char> {
        self.query@
    }

    /// The page shown, or nothing while the panel is folded.
    pub fn shown(&self) -> (res: Option<Tab>)
        ensures
            res == if self.spec_open() { Some(self.spec_tab()) } else { None },
    {
        if self.open {
            Some(self.tab)
        } else {
            None
        }
    }

    /// Whether the panel is open.
    pub fn is_open(&self) -> (res: bool)
        ensures
            res == self.spec_open(),
    {
        self.open
    }

    /// The page selected, shown or not.
    pub fn tab(&self) -> (res: Tab)
        ensures
            res == self.spec_tab(),
    {
        self.tab
    }

    /// Opens a folded panel, and folds an open one.
    pub fn toggle_open(&mut self)
        ensures
            final(self).spec_open() == !old(self).spec_open(),
            final(self).spec_tab() == old(self).spec_tab(),
            final(self).spec_query() == old(self).spec_query(),
    {
        self.open = !self.open;
    }

    /// Switches to page `tab`.
    pub fn select_tab(&mut self, tab: Tab)
        ensures
            final(self).spec_tab() == tab,
            final(self).spec_open() == old(self).spec_open(),
            final(self).spec_query() == old(self).spec_query(),
    {
        self.tab = tab;
    }

    /// The search query of the labels page.
    pub fn query(&self) -> (res: &str)
        ensures
            res@ == self.spec_query(),
    {
        self.query.as_str()
    }

    /// Replaces the search query of the labels page.
    pub fn set_query(&mut self, query: String)
        ensures
            final(self).spec_query() == query@,
            final(self).spec_tab() == old(self).spec_tab(),
            final(self).spec_open() == old(self).spec_open(),
    {
        self.query = query;
    }

    /// Whether `label` is listed under the current query.
    pub fn label_matches(&self, label: &str) -> (res: bool)
        ensures
            res == label_listed(label@, self.spec_query()),
    {
        let lower = to_lowercase(label);
        text_contains(lower.as_str(), self.query.as_str())
    }

    /// The indices of the labels listed under the current query, in order.
    pub fn matching_labels(&self, labels: &[&str]) -> (res: Vec<usize>)
        ensures
            res@ == listed_indices(labels@.map_values(|l: &str| l@), self.spec_query()),
    {
        let ghost views = labels@.map_values(|l: &str| l@);
        let mut res: Vec<usize> = Vec::new();
        let mut i: usize = 0;
        while i < labels.len()
            invariant
                0 <= i <= labels.len(),
                views == labels@.map_values(|l: &str| l@),
                res@ == listed_indices(views.take(i as int), self.spec_query()),
            decreases labels.len() - i,
        {
            assert(views.take(i + 1).drop_last() =~= views.take(i as int));
            assert(views.take(i + 1).last() == labels@[i as int]@);
            if self.label_matches(labels[i]) {
                res.push(i);
            }
            i = i + 1;
        }
        assert(views.take(labels.len() as int) =~= views);
        res
    }
}

impl Default for Inspector {
    /// The bookmarks page, open, with an empty query.
    fn default() -> (res: Self)
        ensures
            res.spec_tab() == Tab::Bookmarks,
            res.spec_open(),
            res.spec_query() == Seq::<char>::empty(),
    {
        Inspector { tab: Tab::Bookmarks, open: true, query: String::new() }
    }
}

/// The empty query lists every label.
pub proof fn lemma_empty_query_lists_all(label: Seq<char>)
    ensures
        label_listed(label, Seq::empty()),
{
    assert(spec_to_lowercase(label).subrange(0, 0) =~= Seq::<char>::empty());
    assert(crate::text::occurs_at(spec_to_lowercase(label), Seq::empty(), 0));
}

} // verus!
