//! Navigation state: the page on screen and whether it changed since the
//! frame loop last looked.
use vstd::prelude::*;
use crate::pages::Page;

verus! {

/// The current page and the "page changed" flag.
///
/// Shared between input handlers and the frame loop by its owner
/// (for instance behind a lock); every operation here is a single step.
pub struct NavState {
    page: Page,
    dirty: bool,
}

impl View for NavState {
    /// (current page, dirty flag)
    type V = (Page, bool);

    closed spec fn view(&self) -> (Page, bool) {
        (self.page, self.dirty)
    }
}

/// The state after navigating to `page`: that page is current, and the
/// flag is raised when it differs from the page shown before.
pub open spec fn spec_navigate(s: (Page, bool), page: Page) -> (Page, bool) {
    (page, s.1 || s.0 != page)
}

/// The state after taking the flag: same page, flag lowered.
pub open spec fn spec_take_dirty(s: (Page, bool)) -> (Page, bool) {
    (s.0, false)
}

impl NavState {
    /// Start on the overview page with no pending change.
    pub fn new() -> (s: Self)
        ensures
            s@ == (Page::Overview, false),
    {
        NavState { page: Page::Overview, dirty: false }
    }

    /// The page currently shown.
    pub fn current(&self) -> (p: Page)
        ensures
            p == self@.0,
    {
        self.page
    }

    /// Switch to `page`; raises the flag if the page actually changed.
    pub fn navigate(&mut self, page: Page)
        ensures
            final(self)@ == spec_navigate(old(self)@, page),
    {
        let prev = self.page;
        self.page = page;
        if prev != page {
            self.dirty = true;
        }
    }

    /// Whether a page change is pending (the flag is left as it is).
    pub fn is_dirty(&self) -> (d: bool)
        ensures
            d == self@.1,
    {
        self.dirty
    }

    /// Report and clear the pending-change flag: true once per change.
    pub fn take_dirty(&mut self) -> (d: bool)
        ensures
            d == old(self)@.1,
            final(self)@ == spec_take_dirty(old(self)@),
    {
        let d = self.dirty;
        self.dirty = false;
        d
    }
}

/// After navigating to a page, that page is the current one.
pub proof fn lemma_navigate_sets_current(s: (Page, bool), page: Page)
    ensures
        spec_navigate(s, page).0 == page,
{
}

/// Navigating to the page already shown changes nothing.
pub proof fn lemma_navigate_same_page_is_noop(s: (Page, bool))
    ensures
        spec_navigate(s, s.0) == s,
{
}

/// A change of page is reported exactly once: the first take after it
/// gives true, the next take gives false and the page stays.
pub proof fn lemma_change_reported_once(s: (Page, bool), page: Page)
    requires
        page != s.0,
    ensures
        spec_navigate(s, page).1,
        !spec_take_dirty(spec_navigate(s, page)).1,
        spec_take_dirty(spec_navigate(s, page)).0 == page,
{
}

/// Taking the flag twice in a row: the second take reports nothing.
pub proof fn lemma_take_dirty_idempotent(s: (Page, bool))
    ensures
        spec_take_dirty(spec_take_dirty(s)) == spec_take_dirty(s),
        !spec_take_dirty(s).1,
{
}

/// A pending change stays pending across further navigation, even back
/// to the page it started from.
pub proof fn lemma_pending_change_persists(s: (Page, bool), page: Page)
    requires
        s.1,
    ensures
        spec_navigate(s, page).1,
{
}

} // verus!
