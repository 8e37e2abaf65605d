//! What a key press asks of the session loop.

use vstd::prelude::*;

verus! {

/// The outcome of handling one key press.
#[derive(Debug, Clone, Copy, PartialEq, Eq, Structural)]
pub enum Request {
    /// Nothing further to do.
    Noop,
    /// Reload the active view before the next paint.
    Refresh,
    /// Leave the session loop.
    Exit,
}

/// The tabs of the session, in the order in which they are shown.
#[derive(Debug, Clone, Copy, PartialEq, Eq, Structural)]
pub enum MainTab {
    Dashboard,
    StreamsBrowser,
    Projections,
    PersistentSubscriptions,
}

/// Number of tabs of the session.
pub const TAB_COUNT: usize = 4;

impl MainTab {
    /// Position of the tab in the tab bar.
    pub open spec fn spec_index(self) -> int {
        match self {
            MainTab::Dashboard => 0,
            MainTab::StreamsBrowser => 1,
            MainTab::Projections => 2,
            MainTab::PersistentSubscriptions => 3,
        }
    }

    /// Position of the tab in the tab bar.
    pub fn index(self) -> (i: usize)
        ensures
            i == self.spec_index(),
            i < TAB_COUNT,
    {
        match self {
            MainTab::Dashboard => 0,
            MainTab::StreamsBrowser => 1,
            MainTab::Projections => 2,
            MainTab::PersistentSubscriptions => 3,
        }
    }

    /// The title of the tab.
    pub open spec fn spec_title(self) -> &'static str {
        match self {
            MainTab::Dashboard => "Dashboard",
            MainTab::StreamsBrowser => "Streams Browser",
            MainTab::Projections => "Projections",
            MainTab::PersistentSubscriptions => "Persistent Subscriptions",
        }
    }

    /// The title of the tab.
    pub fn title(self) -> (t: &'static str)
        ensures
            t == self.spec_title(),
    {
        match self {
            MainTab::Dashboard => "Dashboard",
            MainTab::StreamsBrowser => "Streams Browser",
            MainTab::Projections => "Projections",
            MainTab::PersistentSubscriptions => "Persistent Subscriptions",
        }
    }

    /// The tab at a position of the tab bar, if there is one.
    pub fn from_index(i: usize) -> (tab: Option<MainTab>)
        ensures
            i < TAB_COUNT <==> tab is Some,
            tab is Some ==> tab->0.spec_index() == i,
    {
        if i == 0 {
            Some(MainTab::Dashboard)
        } else if i == 1 {
            Some(MainTab::StreamsBrowser)
        } else if i == 2 {
            Some(MainTab::Projections)
        } else if i == 3 {
            Some(MainTab::PersistentSubscriptions)
        } else {
            None
        }
    }
}

} // verus!
