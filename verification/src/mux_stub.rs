//! What stands in for the session multiplexer in a build without it.
//!
//! A terminal is then opened locally, and there are no sessions or panes of a
//! daemon to keep track of.

use vstd::prelude::*;

use crate::zetta::Zetta;

verus! {

/// What is said where a terminal is asked of the multiplexer all the same.
pub const DISABLED_MUX_ERROR: &'static str =
    "session multiplexer support is disabled in this build";

/// The panes of the daemon: none.
#[derive(Clone, Copy, Debug, PartialEq, Eq, Structural)]
pub struct MuxPanes;

impl MuxPanes {
    /// No tab shows panes of another machine.
    pub fn is_remote_tab(&self, _tab_id: u64) -> (result: bool)
        ensures
            !result,
    {
        false
    }

    /// No tab has a session.
    pub fn session_id(&self, _tab_id: u64) -> (result: Option<u64>)
        ensures
            result is None,
    {
        None
    }

    /// No session is held.
    pub fn holds_session(&self, _session_id: u64) -> (result: bool)
        ensures
            !result,
    {
        false
    }

    /// There is no pane to forget.
    pub fn forget_pane(&mut self, _pane_id: u64)
        ensures
            *final(self) == *old(self),
    {
    }

    /// There is no tab to forget.
    pub fn forget_tab(&mut self, _tab_id: u64)
        ensures
            *final(self) == *old(self),
    {
    }
}

impl Zetta {
    /// No tab is shared with another window.
    pub fn has_shared_tab_binding(&self, _tab_id: u64) -> (result: bool)
        ensures
            !result,
    {
        false
    }

    /// No other window has to be asked before a pane is closed.
    pub fn request_shared_pane_close(&mut self, _tab_id: u64, _pane_id: u64) -> (result: bool)
        ensures
            !result,
            *final(self) == *old(self),
    {
        false
    }

    /// There is no shared pane to forget.
    pub fn forget_shared_pane_mapping(&mut self, _tab_id: u64, _pane_id: u64)
        ensures
            *final(self) == *old(self),
    {
    }

    /// No shared pane is being closed.
    pub fn shared_pane_is_closing(&self, _pane_id: u64) -> (result: bool)
        ensures
            !result,
    {
        false
    }

    /// There is no shared tab to leave.
    pub fn leave_shared_tab(&mut self, _tab_id: u64)
        ensures
            *final(self) == *old(self),
    {
    }
}

} // verus!
