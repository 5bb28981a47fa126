//! Tab items and the navigation rules of a tab bar.

use vstd::prelude::*;

verus! {

/// Items that can be shown in a tab bar.
pub trait TabItem {
    /// The display title of this tab.
    fn title(&self) -> &str;

    /// Whether this tab has unsaved changes; the tab bar then appends
    /// `" *"` to the title.
    fn is_dirty(&self) -> (b: bool)
        default_ensures
            !b,
    {
        false
    }

    /// An optional tooltip for this tab.
    fn tooltip(&self) -> (t: Option<&str>)
        default_ensures
            t is None,
    {
        None
    }
}

/// A simple tab item for basic use cases.
#[derive(Debug, Clone)]
pub struct SimpleTab {
    /// Tab title.
    pub title: String,
    /// Whether the tab has unsaved changes.
    pub dirty: bool,
}

impl SimpleTab {
    /// Creates a new, clean tab with the given title.
    pub fn new(title: &str) -> (t: SimpleTab)
        ensures
            t.title@ == title@,
            !t.dirty,
    {
        SimpleTab { title: title.to_owned(), dirty: false }
    }

    /// Sets the dirty state.
    pub fn dirty(self, dirty: bool) -> (t: SimpleTab)
        ensures
            t.title@ == self.title@,
            t.dirty == dirty,
    {
        SimpleTab { dirty, ..self }
    }
}

impl TabItem for SimpleTab {
    fn title(&self) -> (t: &str)
        ensures
            t@ == self.title@,
    {
        self.title.as_str()
    }

    fn is_dirty(&self) -> (b: bool)
        ensures
            b == self.dirty,
    {
        self.dirty
    }
}

/// The title a tab bar shows: the title, followed by `" *"` when the tab
/// has unsaved changes.
pub fn display_title(title: &str, dirty: bool) -> (s: String)
    ensures
        s@ == (if dirty { title@ + " *"@ } else { title@ }),
{
    let mut s = String::from_str(title);
    if dirty {
        s.append(" *");
    }
    s
}

/// Whether a tab bar whose active tab is `active_index` can move to the
/// previous tab.
pub fn can_go_prev(active_index: usize) -> (b: bool)
    ensures
        b == (active_index > 0),
{
    active_index > 0
}

/// Whether a tab bar with `tab_count` tabs whose active tab is
/// `active_index` can move to the next tab.
pub fn can_go_next(active_index: usize, tab_count: usize) -> (b: bool)
    ensures
        b == (tab_count > 0 && active_index + 1 < tab_count),
{
    tab_count > 0 && active_index < tab_count - 1
}

} // verus!
