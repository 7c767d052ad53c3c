//! The navigation state: the page that is shown and the page that was shown
//! before it.

use crate::page::{canonical_text, PageId, Pages};
use vstd::prelude::*;

verus! {

/// The navigation state as a mathematical value.
pub struct Navigation {
    /// The page that is shown.
    pub current: PageId,
    /// The page that was shown before it, if another page ever was.
    pub previous: Option<PageId>,
}

impl Navigation {
    /// The state at start: the main page, with nothing before it.
    pub open spec fn initial() -> Navigation {
        Navigation { current: PageId::MainPage, previous: None }
    }

    /// A state never remembers the page it shows as the one before it.
    pub open spec fn wf(self) -> bool {
        self.previous != Some(self.current)
    }

    /// Whether `page` is the page that is shown.
    pub open spec fn is_active(self, page: PageId) -> bool {
        page == self.current
    }

    /// The state after `page` is activated: the page shown so far becomes
    /// the previous one, unless `page` is already shown, which changes
    /// nothing.
    pub open spec fn activate(self, page: PageId) -> Navigation {
        if page == self.current {
            self
        } else {
            Navigation { current: page, previous: Some(self.current) }
        }
    }

    /// The state after the pages of `pages` are activated one after another.
    pub open spec fn activate_all(self, pages: Seq<PageId>) -> Navigation
        decreases pages.len(),
    {
        if pages.len() == 0 {
            self
        } else {
            self.activate_all(pages.drop_last()).activate(pages.last())
        }
    }

    /// The state after one step back: the previous page is activated, if
    /// there is one.
    pub open spec fn go_back(self) -> Navigation {
        match self.previous {
            Some(page) => self.activate(page),
            None => self,
        }
    }

    /// The text that marks the shown page on the transition group.
    pub open spec fn selected_marker(self) -> Seq<char> {
        canonical_text(self.current)
    }

    /// The text that marks the previous page on the transition group; empty
    /// while there is no previous page.
    pub open spec fn previous_marker(self) -> Seq<char> {
        match self.previous {
            Some(page) => canonical_text(page),
            None => Seq::empty(),
        }
    }
}

/// Activation keeps a state well formed, whatever the state was.
pub proof fn lemma_activate_wf(state: Navigation, page: PageId)
    ensures
        state.activate(page).current == page,
        state.wf() ==> state.activate(page).wf(),
        page != state.current ==> state.activate(page).wf(),
{
}

/// After each call in any sequence of activations, the shown page is the
/// page just activated, and the previous page is the page shown just before
/// the call; only a call for the page already shown leaves the previous
/// page as it was.
pub proof fn lemma_activate_sequence(start: Navigation, pages: Seq<PageId>, k: int)
    requires
        0 <= k < pages.len(),
    ensures
        ({
            let before = start.activate_all(pages.take(k));
            let after = start.activate_all(pages.take(k + 1));
            &&& after == before.activate(pages[k])
            &&& after.current == pages[k]
            &&& pages[k] == before.current ==> after.previous == before.previous
            &&& pages[k] != before.current ==> after.previous == Some(before.current)
        }),
{
    let upto = pages.take(k + 1);
    assert(upto.drop_last() =~= pages.take(k));
    assert(upto.last() == pages[k]);
}

/// Every state reached from a well-formed one by activations is well formed.
pub proof fn lemma_activate_all_wf(start: Navigation, pages: Seq<PageId>)
    requires
        start.wf(),
    ensures
        start.activate_all(pages).wf(),
    decreases pages.len(),
{
    if pages.len() > 0 {
        lemma_activate_all_wf(start, pages.drop_last());
    }
}

/// Activating a page twice in a row gives the state that activating it once
/// gives.
pub proof fn lemma_activate_idempotent(state: Navigation, page: PageId)
    ensures
        state.activate(page).activate(page) == state.activate(page),
{
}

/// From a first page with nothing before it, going to a second page and
/// back again ends on the first page, with the second one before it.
pub proof fn lemma_back_and_forth(a: PageId, b: PageId)
    requires
        a != b,
    ensures
        ({
            let start = Navigation { current: a, previous: None };
            &&& start.activate(b) == Navigation { current: b, previous: Some(a) }
            &&& start.activate(b).activate(a) == Navigation { current: a, previous: Some(b) }
        }),
{
}

/// One step back swaps the shown page with the previous one, so two steps
/// back change nothing.
pub proof fn lemma_go_back_swaps(state: Navigation)
    requires
        state.wf(),
        state.previous is Some,
    ensures
        state.go_back() == (Navigation {
            current: state.previous->0,
            previous: Some(state.current),
        }),
        state.go_back().wf(),
        state.go_back().go_back() == state,
{
}

/// The navigation state of the application. One value of it is shared by
/// everything that shows or switches pages.
#[derive(Debug)]
pub struct NavigationState {
    current: Pages,
    previous: Option<Pages>,
}

impl View for NavigationState {
    type V = Navigation;

    closed spec fn view(&self) -> Navigation {
        Navigation {
            current: self.current@,
            previous: match self.previous {
                Some(page) => Some(page@),
                None => None,
            },
        }
    }
}

impl NavigationState {
    #[verifier::type_invariant]
    spec fn inv(&self) -> bool {
        self@.wf()
    }

    /// The state at start.
    pub fn new() -> (state: NavigationState)
        ensures
            state@ == Navigation::initial(),
    {
        NavigationState { current: Pages::MainPage, previous: None }
    }

    /// The page that is shown.
    pub fn current(&self) -> (page: &Pages)
        ensures
            page@ == self@.current,
            self@.wf(),
    {
        proof {
            use_type_invariant(self);
        }
        &self.current
    }

    /// The page that was shown before the current one.
    pub fn previous(&self) -> (page: Option<&Pages>)
        ensures
            page is Some <==> self@.previous is Some,
            page matches Some(p) ==> Some(p@) == self@.previous,
            self@.wf(),
    {
        proof {
            use_type_invariant(self);
        }
        self.previous.as_ref()
    }

    /// Whether `page` is the page that is shown.
    pub fn is_active(&self, page: &Pages) -> (active: bool)
        ensures
            active == self@.is_active(page@),
    {
        self.current == *page
    }

    /// Shows `page`. The page shown so far becomes the previous one, unless
    /// `page` is already shown: then nothing changes.
    pub fn activate(&mut self, page: Pages)
        ensures
            final(self)@ == old(self)@.activate(page@),
            final(self)@.wf(),
    {
        proof {
            use_type_invariant(&*self);
        }
        if self.current != page {
            let mut before = NavigationState { current: page, previous: None };
            std::mem::swap(self, &mut before);
            self.previous = Some(before.current);
        }
    }

    /// Goes one step back: shows the previous page, if there is one. Returns
    /// whether there was one.
    pub fn go_back(&mut self) -> (moved: bool)
        ensures
            final(self)@ == old(self)@.go_back(),
            moved == old(self)@.previous is Some,
            final(self)@.wf(),
    {
        proof {
            use_type_invariant(&*self);
        }
        let mut before = NavigationState::new();
        std::mem::swap(self, &mut before);
        let NavigationState { current, previous } = before;
        match previous {
            Some(page) => {
                *self = NavigationState { current: page, previous: Some(current) };
                true
            },
            None => {
                *self = NavigationState { current, previous: None };
                false
            },
        }
    }

    /// The text that marks the shown page on the transition group.
    pub fn selected_marker(&self) -> (marker: String)
        ensures
            marker@ == self@.selected_marker(),
    {
        self.current.to_string()
    }

    /// The text that marks the previous page on the transition group; empty
    /// while there is no previous page.
    pub fn previous_marker(&self) -> (marker: String)
        ensures
            marker@ == self@.previous_marker(),
    {
        match &self.previous {
            Some(page) => page.to_string(),
            None => String::new(),
        }
    }
}

} // verus!
