//! What the decisions of this crate ask the main loop to do.

use vstd::prelude::*;

verus! {

/// One thing to do: a call on the screen, or a poll pass. The caller carries the
/// requests out in the order given.
#[derive(Debug, PartialEq, Eq)]
pub enum Request {
    /// Work out anew, from the size of the terminal, where every panel stands.
    ResizePanels,
    /// Draw the bar that lists the tabs.
    RedrawTabBar,
    /// Draw the cached listing of this tab in the listing panels.
    RefreshTab(usize),
    /// Erase the bottom panel.
    ClearStatus,
    /// Show one line of text in the bottom panel.
    ShowError(String),
    /// Bring the terminal up to date with what was drawn.
    Commit,
    /// Run one poll pass of the tracker, and see to what it reports.
    PollOperations,
}

impl Request {
    /// Whether the request is to show `text` in the bottom panel.
    pub open spec fn shows(self, text: Seq<char>) -> bool {
        self matches Request::ShowError(message) && message@ == text
    }
}

} // verus!
