//! The state of a session: its tabs and the operations under way.

use vstd::prelude::*;
use crate::tracker::Tracker;

verus! {

/// A directory that is being browsed, with the listing last read from it.
#[derive(Debug, PartialEq, Eq)]
pub struct Tab {
    /// The directory.
    pub path: String,
    /// The names listed, as last read.
    pub listing: Vec<String>,
}

/// The state of a session.
#[verifier::reject_recursive_types(P)]
pub struct Context<H, P> {
    /// Set by a command to end the session.
    pub exit: bool,
    /// The open tabs.
    pub tabs: Vec<Tab>,
    /// The tab on the screen.
    pub curr_tab_index: usize,
    /// The background operations under way.
    pub threads: Tracker<H, P>,
}

/// The tab that is active once the tab at `closed` has left `count` tabs of which
/// `active` was the active one: the same tab as before where it is still open, else
/// the tab that took its place, else the last one.
pub open spec fn active_after_close(count: int, active: int, closed: int) -> int {
    if closed < active {
        active - 1
    } else if active < count - 1 {
        active
    } else if count - 1 > 0 {
        count - 2
    } else {
        0
    }
}

impl<H, P> Context<H, P> {
    /// Where there are tabs, one of them is the active one.
    pub open spec fn wf(self) -> bool {
        self.tabs@.len() > 0 ==> self.curr_tab_index < self.tabs@.len()
    }

    /// A session with no tab yet and nothing under way.
    pub fn new() -> (context: Self)
        ensures
            !context.exit,
            context.tabs@.len() == 0,
            context.curr_tab_index == 0,
            context.threads.operations@.len() == 0,
            context.wf(),
    {
        Context { exit: false, tabs: Vec::new(), curr_tab_index: 0, threads: Tracker::new() }
    }

    /// Asks the main loop to end.
    pub fn quit(&mut self)
        ensures
            final(self).exit,
            final(self).tabs == old(self).tabs,
            final(self).curr_tab_index == old(self).curr_tab_index,
            final(self).threads == old(self).threads,
            final(self).wf() == old(self).wf(),
    {
        self.exit = true;
    }

    /// Opens a tab behind the others and makes it the active one.
    pub fn push_tab(&mut self, tab: Tab)
        ensures
            final(self).tabs@ == old(self).tabs@.push(tab),
            final(self).curr_tab_index == old(self).tabs@.len(),
            final(self).exit == old(self).exit,
            final(self).threads == old(self).threads,
            final(self).wf(),
    {
        self.tabs.push(tab);
        self.curr_tab_index = self.tabs.len() - 1;
    }

    /// Makes the tab at `index` the active one.
    pub fn switch_tab(&mut self, index: usize)
        requires
            index < old(self).tabs@.len(),
        ensures
            final(self).curr_tab_index == index,
            final(self).tabs == old(self).tabs,
            final(self).exit == old(self).exit,
            final(self).threads == old(self).threads,
            final(self).wf(),
    {
        self.curr_tab_index = index;
    }

    /// Closes the tab at `index` and hands it back. The tabs behind it move up by
    /// one place.
    pub fn close_tab(&mut self, index: usize) -> (tab: Tab)
        requires
            old(self).wf(),
            index < old(self).tabs@.len(),
        ensures
            tab == old(self).tabs@[index as int],
            final(self).tabs@ == old(self).tabs@.remove(index as int),
            final(self).curr_tab_index == active_after_close(
                old(self).tabs@.len() as int,
                old(self).curr_tab_index as int,
                index as int,
            ),
            final(self).exit == old(self).exit,
            final(self).threads == old(self).threads,
            final(self).wf(),
    {
        let tab = self.tabs.remove(index);
        let count = self.tabs.len();
        if index < self.curr_tab_index {
            self.curr_tab_index = self.curr_tab_index - 1;
        } else if self.curr_tab_index >= count {
            self.curr_tab_index = if count > 0 {
                count - 1
            } else {
                0
            };
        }
        tab
    }
}

} // verus!
