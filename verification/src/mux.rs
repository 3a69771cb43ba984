//! The application's connection to the session multiplexer.
//!
//! Every pane's process belongs to the multiplexer: that is what lets a session
//! outlive the window it was started in. A tab is a session: panes spawned into
//! the same tab have to join the same session, which is what [`MuxSession`]
//! tracks.

use vstd::prelude::*;
use std::collections::HashMap;

use crate::id_map::IdMap;
use crate::text::{clone_optional, joined, optional_text};

pub mod recovery;

verus! {

/// How much of a detached session the multiplexer keeps.
#[derive(Clone, Copy, Debug, PartialEq, Eq, Structural)]
pub enum Retention {
    Memory { bytes: u64 },
    Disk,
}

/// What is kept, and what was asked for.
#[derive(Debug, PartialEq, Eq)]
pub struct MuxRetentionState {
    /// The policy selected in configuration, which stays disk while a temporary
    /// recipient lookup has degraded the daemon to memory.
    pub requested: Retention,
    /// What the daemon is actually using right now.
    pub effective: Retention,
    pub degraded_reason: Option<String>,
}

impl MuxRetentionState {
    /// A policy that is followed as it was asked for.
    pub fn exact(retention: Retention) -> (result: MuxRetentionState)
        ensures
            result == (MuxRetentionState {
                requested: retention,
                effective: retention,
                degraded_reason: None,
            }),
    {
        MuxRetentionState { requested: retention, effective: retention, degraded_reason: None }
    }
}

/// The connection shared by every pane in this process. It is told from other
/// connections by the number of its client.
#[derive(Debug, PartialEq, Eq)]
pub struct MuxRuntime {
    pub client: u64,
    pub retention_state: MuxRetentionState,
}

impl MuxRuntime {
    /// A connection whose daemon follows the policy that was asked for.
    pub fn connected(client: u64, retention: Retention) -> (result: MuxRuntime)
        ensures
            result.client == client,
            result.retention_state == (MuxRetentionState {
                requested: retention,
                effective: retention,
                degraded_reason: None,
            }),
    {
        MuxRuntime { client, retention_state: MuxRetentionState::exact(retention) }
    }

    /// A connection whose daemon answered with a policy of its own.
    pub fn connected_with(client: u64, retention_state: MuxRetentionState) -> (result: MuxRuntime)
        ensures
            result == (MuxRuntime { client, retention_state }),
    {
        MuxRuntime { client, retention_state }
    }

    pub fn retention(&self) -> (result: Retention)
        ensures
            result == self.retention_state.effective,
    {
        self.retention_state.effective
    }

    pub fn requested_retention(&self) -> (result: Retention)
        ensures
            result == self.retention_state.requested,
    {
        self.retention_state.requested
    }

    pub fn degraded_reason(&self) -> (result: Option<String>)
        ensures
            optional_text(result) == optional_text(self.retention_state.degraded_reason),
    {
        clone_optional(&self.retention_state.degraded_reason)
    }

    pub fn is_degraded(&self) -> (result: bool)
        ensures
            result == (self.retention_state.degraded_reason is Some),
    {
        self.retention_state.degraded_reason.is_some()
    }

    /// Takes over what the daemon answered.
    pub fn apply_retention_configuration(&mut self, configuration: MuxRetentionState)
        ensures
            *final(self) == (MuxRuntime { retention_state: configuration, ..*old(self) }),
    {
        self.retention_state = configuration;
    }

    /// Asks the daemon for another policy, to which it answered as given. The
    /// local view follows only a confirmed answer.
    pub fn reconfigure(&mut self, answer: Result<MuxRetentionState, String>) -> (result: Result<
        (),
        String,
    >)
        ensures
            match answer {
                Ok(configuration) => {
                    &&& result == Ok::<(), String>(())
                    &&& *final(self) == (MuxRuntime {
                        retention_state: configuration,
                        ..*old(self)
                    })
                },
                Err(error) => result == Err::<(), String>(error) && *final(self) == *old(self),
            },
    {
        match answer {
            Ok(configuration) => {
                self.apply_retention_configuration(configuration);
                Ok(())
            },
            Err(error) => Err(error),
        }
    }
}

/// The retention that is used where the disk cannot be.
pub fn retention_fallback(ring_bytes: u64) -> (result: Retention)
    ensures
        result == (Retention::Memory { bytes: ring_bytes }),
{
    Retention::Memory { bytes: ring_bytes }
}

/// The multiplexer session a tab's panes belong to.
///
/// Shared between a tab's panes: the first to spawn creates the session and
/// records its identifier, and the rest join it. The identifier stands in a
/// cell of the registry, so that whoever holds the session sees it.
#[derive(Clone, Copy, Debug, PartialEq, Eq, Structural)]
pub struct MuxSession {
    pub cell: usize,
}

/// Where each visible pane's terminal lives in the multiplexer.
///
/// Kept beside the tabs rather than inside them because a pane's identity in
/// the multiplexer outlives the pane that displays it.
pub struct MuxPanes {
    pub panes: HashMap<u64, u64>,
    /// The sessions of the tabs.
    pub sessions: IdMap<MuxSession>,
    /// The identifiers of the sessions that have one.
    pub cells: Vec<Option<u64>>,
}

impl MuxPanes {
    /// Each session of a tab has its cell.
    pub open spec fn wf(self) -> bool {
        forall|tab_id: u64|
            (#[trigger] self.sessions.value_of(tab_id)) matches Some(session) ==> session.cell
                < self.cells@.len()
    }

    /// The session of a tab, if it has one.
    pub open spec fn session_of(self, tab_id: u64) -> Option<MuxSession> {
        self.sessions.value_of(tab_id)
    }

    /// The identifier of a tab's session, if it has one.
    pub open spec fn identifier_of(self, tab_id: u64) -> Option<u64> {
        match self.session_of(tab_id) {
            Some(session) => self.cells@[session.cell as int],
            None => None,
        }
    }

    /// No panes and no sessions.
    pub fn new() -> (result: MuxPanes)
        ensures
            result.wf(),
            result.panes@ == Map::<u64, u64>::empty(),
            result.cells@.len() == 0,
            forall|tab_id: u64| result.session_of(tab_id) is None,
    {
        broadcast use vstd::std_specs::hash::group_hash_axioms;

        MuxPanes { panes: HashMap::new(), sessions: IdMap::new(), cells: Vec::new() }
    }

    fn add_session(&mut self, tab_id: u64, identifier: Option<u64>) -> (result: MuxSession)
        requires
            old(self).wf(),
        ensures
            final(self).wf(),
            final(self).panes == old(self).panes,
            final(self).cells@ == old(self).cells@.push(identifier),
            result.cell == old(self).cells@.len(),
            final(self).session_of(tab_id) == Some(result),
            final(self).identifier_of(tab_id) == identifier,
            forall|other: u64|
                other != tab_id ==> #[trigger] final(self).session_of(other) == old(
                    self,
                ).session_of(other),
            forall|other: u64|
                other != tab_id ==> #[trigger] final(self).identifier_of(other) == old(
                    self,
                ).identifier_of(other),
    {
        let ghost before = *self;
        let session = MuxSession { cell: self.cells.len() };
        self.cells.push(identifier);
        self.sessions.insert(tab_id, session);
        proof {
            assert forall|other: u64| other != tab_id implies #[trigger] self.session_of(other)
                == before.session_of(other) by {
                assert(self.sessions.value_of(other) == before.sessions.value_of(other));
            }
            assert forall|other: u64| other != tab_id implies #[trigger] self.identifier_of(other)
                == before.identifier_of(other) by {
                assert(self.session_of(other) == before.session_of(other));
            }
        }
        session
    }

    /// The session a tab's panes belong to, with a new one if this is the
    /// tab's first pane.
    pub fn session_for_tab(&mut self, tab_id: u64) -> (result: MuxSession)
        requires
            old(self).wf(),
        ensures
            final(self).wf(),
            final(self).panes == old(self).panes,
            final(self).session_of(tab_id) == Some(result),
            result.cell < final(self).cells@.len(),
            old(self).session_of(tab_id) is Some ==> *final(self) == *old(self),
            old(self).session_of(tab_id) is None ==> final(self).identifier_of(tab_id) is None
                && result.cell == old(self).cells@.len() && final(self).cells@ == old(
                self,
            ).cells@.push(None),
            forall|other: u64|
                other != tab_id ==> final(self).session_of(other) == old(self).session_of(other)
                    && final(self).identifier_of(other) == old(self).identifier_of(other),
    {
        match self.sessions.get(tab_id) {
            Some(session) => *session,
            None => self.add_session(tab_id, None),
        }
    }

    /// Gives a tab a new session of an identifier, in place of any it had. A
    /// session that was given out before keeps its identifier.
    pub fn adopt_session(&mut self, tab_id: u64, session_id: u64)
        requires
            old(self).wf(),
        ensures
            final(self).wf(),
            final(self).panes == old(self).panes,
            final(self).cells@ == old(self).cells@.push(Some(session_id)),
            final(self).session_of(tab_id) matches Some(session) && session.cell == old(
                self,
            ).cells@.len(),
            final(self).identifier_of(tab_id) == Some(session_id),
            forall|other: u64|
                other != tab_id ==> final(self).session_of(other) == old(self).session_of(other)
                    && final(self).identifier_of(other) == old(self).identifier_of(other),
    {
        self.add_session(tab_id, Some(session_id));
    }

    /// The identifier of a tab's session, if it has one.
    pub fn session_id(&self, tab_id: u64) -> (result: Option<u64>)
        requires
            self.wf(),
        ensures
            result == self.identifier_of(tab_id),
    {
        match self.sessions.get(tab_id) {
            Some(session) => {
                proof {
                    assert(self.session_of(tab_id) == Some(*session));
                }
                self.cells[session.cell]
            },
            None => None,
        }
    }

    /// Whether a tab in this window is already showing this session.
    ///
    /// Attaching a session that the same process already holds is not a join:
    /// it would open a second tab that reads the same terminal as the first.
    pub fn holds_session(&self, session_id: u64) -> (result: bool)
        requires
            self.wf(),
        ensures
            result == exists|tab_id: u64| #[trigger] self.identifier_of(tab_id) == Some(session_id),
    {
        let tabs = self.sessions.ids();
        let mut index: usize = 0;
        while index < tabs.len()
            invariant
                index <= tabs@.len(),
                self.wf(),
                forall|i: int|
                    0 <= i < index ==> self.identifier_of(#[trigger] tabs@[i]) != Some(session_id),
            decreases tabs@.len() - index,
        {
            if let Some(id) = self.session_id(tabs[index]) {
                if id == session_id {
                    proof {
                        assert(self.identifier_of(tabs@[index as int]) == Some(session_id));
                    }
                    return true;
                }
            }
            index = index + 1;
        }
        proof {
            assert forall|tab_id: u64| #[trigger] self.identifier_of(tab_id) != Some(
                session_id,
            ) by {
                if self.session_of(tab_id) is Some {
                    assert(tabs@.contains(tab_id));
                    let i = choose|i: int| 0 <= i < tabs@.len() && tabs@[i] == tab_id;
                    assert(self.identifier_of(tabs@[i]) != Some(session_id));
                }
            }
        }
        false
    }

    /// Notes where a pane's terminal lives.
    pub fn record(&mut self, pane_id: u64, mux_pane_id: u64)
        ensures
            final(self).panes@ == old(self).panes@.insert(pane_id, mux_pane_id),
            final(self).sessions == old(self).sessions,
            final(self).cells == old(self).cells,
    {
        broadcast use vstd::std_specs::hash::group_hash_axioms;

        self.panes.insert(pane_id, mux_pane_id);
    }

    /// Where a pane's terminal lives, if it lives in the multiplexer.
    pub fn mux_pane_id(&self, pane_id: u64) -> (result: Option<u64>)
        ensures
            result == if self.panes@.contains_key(pane_id) {
                Some(self.panes@[pane_id])
            } else {
                None
            },
    {
        broadcast use vstd::std_specs::hash::group_hash_axioms;

        match self.panes.get(&pane_id) {
            Some(mux_pane_id) => Some(*mux_pane_id),
            None => None,
        }
    }

    pub fn ids(&self) -> (result: &HashMap<u64, u64>)
        ensures
            *result == self.panes,
    {
        &self.panes
    }

    pub fn forget_pane(&mut self, pane_id: u64)
        ensures
            final(self).panes@ == old(self).panes@.remove(pane_id),
            final(self).sessions == old(self).sessions,
            final(self).cells == old(self).cells,
    {
        broadcast use vstd::std_specs::hash::group_hash_axioms;

        self.panes.remove(&pane_id);
    }

    /// Forgets the session of a tab. Whoever holds the session keeps it.
    pub fn forget_tab(&mut self, tab_id: u64)
        requires
            old(self).wf(),
        ensures
            final(self).wf(),
            final(self).panes == old(self).panes,
            final(self).cells == old(self).cells,
            final(self).session_of(tab_id) is None,
            forall|other: u64|
                other != tab_id ==> final(self).session_of(other) == old(self).session_of(other)
                    && final(self).identifier_of(other) == old(self).identifier_of(other),
    {
        let ghost before = *self;
        self.sessions.remove(tab_id);
        proof {
            assert forall|other: u64| other != tab_id implies self.session_of(other)
                == before.session_of(other) && self.identifier_of(other)
                == before.identifier_of(other) by {
                assert(self.sessions.value_of(other) == before.sessions.value_of(other));
            }
        }
    }
}

impl MuxSession {
    /// The identifier of the session, once a pane was spawned into it.
    pub fn id(&self, panes: &MuxPanes) -> (result: Option<u64>)
        requires
            self.cell < panes.cells@.len(),
        ensures
            result == panes.cells@[self.cell as int],
    {
        panes.cells[self.cell]
    }

    /// Records the identifier of the session, for whoever holds it.
    pub fn set_id(&self, panes: &mut MuxPanes, session_id: u64)
        requires
            old(panes).wf(),
            self.cell < old(panes).cells@.len(),
        ensures
            final(panes).wf(),
            final(panes).panes == old(panes).panes,
            final(panes).sessions == old(panes).sessions,
            final(panes).cells@ == old(panes).cells@.update(self.cell as int, Some(session_id)),
            forall|tab_id: u64| #[trigger]
                final(panes).identifier_of(tab_id) == if old(panes).session_of(tab_id) == Some(
                    *self,
                ) {
                    Some(session_id)
                } else {
                    old(panes).identifier_of(tab_id)
                },
    {
        let ghost before = *panes;
        panes.cells.set(self.cell, Some(session_id));
        proof {
            assert forall|tab_id: u64| #[trigger] panes.identifier_of(tab_id)
                == if before.session_of(tab_id) == Some(*self) {
                Some(session_id)
            } else {
                before.identifier_of(tab_id)
            } by {
            }
        }
    }

    /// A session of a known identifier, in a cell of its own.
    pub fn from_id(panes: &mut MuxPanes, session_id: u64) -> (result: MuxSession)
        requires
            old(panes).wf(),
        ensures
            final(panes).wf(),
            final(panes).panes == old(panes).panes,
            final(panes).sessions == old(panes).sessions,
            final(panes).cells@ == old(panes).cells@.push(Some(session_id)),
            result.cell == old(panes).cells@.len(),
    {
        let session = MuxSession { cell: panes.cells.len() };
        panes.cells.push(Some(session_id));
        session
    }
}

/// What the multiplexer created for a pane.
#[derive(Clone, Copy, Debug, PartialEq, Eq, Structural)]
pub struct OpenedPane {
    pub session_id: u64,
    pub pane_id: u64,
}

/// The size that a pane's terminal starts with. The real one is applied as
/// soon as the pane is laid out; a conventional one keeps a program that
/// inspects it before then from seeing something impossible.
#[derive(Clone, Copy, Debug, PartialEq, Eq, Structural)]
pub struct TerminalSize {
    pub columns: u16,
    pub lines: u16,
    pub cell_width: u16,
    pub cell_height: u16,
}

/// The size that a pane's terminal starts with.
pub fn initial_terminal_size() -> (result: TerminalSize)
    ensures
        result == (TerminalSize { columns: 80, lines: 24, cell_width: 0, cell_height: 0 }),
{
    TerminalSize { columns: 80, lines: 24, cell_width: 0, cell_height: 0 }
}

/// Opens one pane's terminal through the multiplexer.
///
/// Per pane rather than per tab because the caller needs to know which
/// terminal the multiplexer created.
#[derive(Debug, PartialEq, Eq)]
pub struct MuxPtyProvider {
    pub session: MuxSession,
    pub opened: Option<OpenedPane>,
    /// A disk snapshot belongs to one fresh shell. It is taken only after the
    /// daemon has handed over the new terminal.
    pub restore_replay: Option<Vec<u8>>,
}

impl MuxPtyProvider {
    /// A provider for one pane of `session`.
    pub fn provider_with_restore_replay(session: MuxSession, replay: Option<Vec<u8>>) -> (result:
        MuxPtyProvider)
        ensures
            result == (MuxPtyProvider { session, opened: None, restore_replay: replay }),
    {
        MuxPtyProvider { session, opened: None, restore_replay: replay }
    }

    /// Takes what the multiplexer created, with the output that it replays, and
    /// gives the output that the terminal starts from: the snapshot, the first
    /// time, where there is one.
    pub fn open(&mut self, panes: &mut MuxPanes, pane: OpenedPane, replay: Vec<u8>) -> (result: Vec<
        u8,
    >)
        requires
            old(panes).wf(),
            old(self).session.cell < old(panes).cells@.len(),
        ensures
            final(panes).wf(),
            final(panes).panes == old(panes).panes,
            final(panes).sessions == old(panes).sessions,
            final(panes).cells@ == old(panes).cells@.update(
                old(self).session.cell as int,
                Some(pane.session_id),
            ),
            *final(self) == (MuxPtyProvider {
                session: old(self).session,
                opened: Some(pane),
                restore_replay: None,
            }),
            result == match old(self).restore_replay {
                Some(snapshot) => snapshot,
                None => replay,
            },
    {
        let session = self.session;
        session.set_id(panes, pane.session_id);
        self.opened = Some(pane);
        match self.restore_replay.take() {
            Some(snapshot) => snapshot,
            None => replay,
        }
    }
}

/// How a terminal comes to its provider.
#[derive(Clone, Copy, Debug, PartialEq, Eq, Structural)]
pub enum ProviderStep {
    /// The terminal is opened without the multiplexer, as the user asked.
    Local,
    /// The multiplexer has to be reached first.
    Connect,
    /// The multiplexer opens the terminal.
    Provide,
}

/// How a terminal comes to its provider. Only the explicit mode without the
/// multiplexer has none: a terminal cannot silently escape the daemon.
pub fn mux_provider_for_tab(no_mux: bool, connected: bool) -> (result: ProviderStep)
    ensures
        result == if no_mux {
            ProviderStep::Local
        } else if connected {
            ProviderStep::Provide
        } else {
            ProviderStep::Connect
        },
{
    if no_mux {
        ProviderStep::Local
    } else if connected {
        ProviderStep::Provide
    } else {
        ProviderStep::Connect
    }
}

/// What is said where the multiplexer could not be reached.
pub fn unreachable_mux_error(error: &str) -> (result: String)
    ensures
        result@
            == "Could not reach the session multiplexer, so this terminal cannot be backgrounded: "@
            + error@,
{
    joined(
        "Could not reach the session multiplexer, so this terminal cannot be backgrounded: ",
        error,
    )
}

/// What is said of a terminal that was opened without the multiplexer after
/// all.
pub fn outside_mux_error(error: &str) -> (result: String)
    ensures
        result@
            == "This terminal is running outside the session multiplexer, so it cannot be backgrounded: "@
            + error@,
{
    joined(
        "This terminal is running outside the session multiplexer, so it cannot be backgrounded: ",
        error,
    )
}

/// Records what the multiplexer created for a pane. Without a provider, or
/// where it opened nothing, there is nothing to record.
pub fn adopt_mux_pane(
    panes: &mut MuxPanes,
    tab_id: u64,
    pane_id: u64,
    provider: Option<&MuxPtyProvider>,
) -> (result: Option<OpenedPane>)
    requires
        old(panes).wf(),
    ensures
        final(panes).wf(),
        result == match provider {
            Some(provider) => provider.opened,
            None => None,
        },
        match result {
            Some(opened) => {
                &&& final(panes).identifier_of(tab_id) == Some(opened.session_id)
                &&& final(panes).cells@ == old(panes).cells@.push(Some(opened.session_id))
                &&& final(panes).session_of(tab_id) matches Some(session) && session.cell == old(
                    panes,
                ).cells@.len()
                &&& final(panes).panes@ == old(panes).panes@.insert(pane_id, opened.pane_id)
                &&& forall|other: u64|
                    other != tab_id ==> #[trigger] final(panes).session_of(other) == old(
                        panes,
                    ).session_of(other)
                &&& forall|other: u64|
                    other != tab_id ==> final(panes).identifier_of(other) == old(
                        panes,
                    ).identifier_of(other)
            },
            None => *final(panes) == *old(panes),
        },
{
    let provider = match provider {
        Some(provider) => provider,
        None => {
            return None;
        },
    };
    let opened = match provider.opened {
        Some(opened) => opened,
        None => {
            return None;
        },
    };
    panes.adopt_session(tab_id, opened.session_id);
    let ghost adopted = *panes;
    panes.record(pane_id, opened.pane_id);
    proof {
        assert(panes.identifier_of(tab_id) == adopted.identifier_of(tab_id));
        assert forall|other: u64| other != tab_id implies panes.identifier_of(other) == old(
            panes,
        ).identifier_of(other) by {
            assert(panes.identifier_of(other) == adopted.identifier_of(other));
        }
    }
    Some(opened)
}

/// What is left to do for a pane that is handed back.
#[derive(Clone, Copy, Debug, PartialEq, Eq, Structural)]
pub struct PaneRelease {
    /// The pane whose reporters are forgotten, where there is a connection.
    pub forget_reporters: Option<u64>,
    /// The session and the pane that the multiplexer is told to close.
    pub close: Option<OpenedPane>,
}

/// Hands a closed pane back to the multiplexer.
///
/// Dropping the terminal tells the multiplexer nothing: the pane would stay
/// marked as taken, nothing would drain it, and its program would block. Saying
/// so explicitly is what stops a closed pane from leaving a wedged shell
/// behind.
pub fn release_mux_pane(panes: &mut MuxPanes, tab_id: u64, pane_id: u64, connected: bool) -> (result:
    PaneRelease)
    requires
        old(panes).wf(),
    ensures
        final(panes).wf(),
        final(panes).panes@ == old(panes).panes@.remove(pane_id),
        final(panes).sessions == old(panes).sessions,
        final(panes).cells == old(panes).cells,
        result.forget_reporters == if connected && old(panes).panes@.contains_key(pane_id) {
            Some(old(panes).panes@[pane_id])
        } else {
            None
        },
        result.close == match (result.forget_reporters, old(panes).identifier_of(tab_id)) {
            (Some(mux_pane_id), Some(session_id)) => Some(
                OpenedPane { session_id, pane_id: mux_pane_id },
            ),
            _ => None,
        },
{
    let mux_pane_id = match panes.mux_pane_id(pane_id) {
        Some(mux_pane_id) => mux_pane_id,
        None => {
            proof {
                assert(panes.panes@.remove(pane_id) =~= panes.panes@);
            }
            return PaneRelease { forget_reporters: None, close: None };
        },
    };
    panes.forget_pane(pane_id);
    proof {
        assert(panes.identifier_of(tab_id) == old(panes).identifier_of(tab_id));
    }
    if !connected {
        return PaneRelease { forget_reporters: None, close: None };
    }
    let close = match panes.session_id(tab_id) {
        Some(session_id) => Some(OpenedPane { session_id, pane_id: mux_pane_id }),
        None => None,
    };
    PaneRelease { forget_reporters: Some(mux_pane_id), close }
}

/// Panes that are spawned into the same tab join the same session: once one of
/// them was opened, the next finds its identifier. `first` and `second` are the
/// registry before and after the first was opened.
pub proof fn law_tab_is_one_session(
    first: MuxPanes,
    second: MuxPanes,
    tab_id: u64,
    session: MuxSession,
    session_id: u64,
)
    requires
        first.wf(),
        first.session_of(tab_id) == Some(session),
        second.sessions == first.sessions,
        second.cells@ == first.cells@.update(session.cell as int, Some(session_id)),
    ensures
        second.session_of(tab_id) == Some(session),
        second.identifier_of(tab_id) == Some(session_id),
{
}

} // verus!
