//! Commands that wait for other panes' commands.

use vstd::prelude::*;

verus! {

/// The pane that a wait belongs to.
#[derive(Clone, Copy, Debug, PartialEq, Eq, Structural)]
pub struct RunPaneIdentity {
    pub attention_id: u64,
    pub routing_id: u64,
}

impl RunPaneIdentity {
    /// The pane of a tab, by its routing number.
    pub fn new(attention_id: u64, routing_id: u64) -> (result: RunPaneIdentity)
        ensures
            result == (RunPaneIdentity { attention_id, routing_id }),
    {
        RunPaneIdentity { attention_id, routing_id }
    }
}

/// A command that runs once others are done.
#[derive(Debug, PartialEq, Eq)]
pub struct RunWaitRequest {
    pub owner: RunPaneIdentity,
    pub dependencies: Vec<String>,
    pub allow_failure: bool,
    pub command: Vec<String>,
}

/// How a wait ended.
#[derive(Clone, Copy, Debug, PartialEq, Eq, Structural)]
pub enum RunResolution {
    Ready,
    Failed,
}

/// How a wait ended, and what there is to say about it.
#[derive(Debug, PartialEq, Eq)]
pub struct RunResolutionMessage {
    pub resolution: RunResolution,
    pub message: Option<String>,
}

} // verus!
