//! A pane's stack: the command terminals that share its layout region.
//!
//! One entry is the base terminal the pane was created with; the rest are
//! stacked commands. Selection is what the pane shows, and it has to stay
//! valid as entries are pushed, removed, and exit — which is what
//! `repair_selection` and `select_after_base_exit` are for.

use vstd::prelude::*;

use crate::pane::MAX_PANES_PER_TAB;
use crate::profile::Profile;

verus! {

#[derive(Clone, Copy, Debug, PartialEq, Eq, Structural, Hash)]
pub enum PaneStackSelection {
    Base,
    Stacked(u64),
}

#[derive(Clone, Copy, Debug, PartialEq, Eq, Structural)]
pub enum StackedPaneState {
    Starting,
    Running,
    Completed,
    Failed,
}

/// One stacked command. Its terminal and its view go by their handles.
#[derive(Debug, PartialEq, Eq)]
pub struct StackedPane {
    pub id: u64,
    /// Stable subprocess routing identity, which a renumbering leaves alone.
    pub routing_id: u64,
    pub command: String,
    pub profile: Profile,
    pub theme_override: Option<String>,
    pub terminal: Option<u64>,
    pub view: Option<u64>,
    pub state: StackedPaneState,
    pub exit_code: Option<i32>,
    pub error: Option<String>,
    pub working_directory: Option<String>,
    pub wsl_directory: Option<String>,
}

impl StackedPane {
    /// A stacked command that is about to start.
    pub fn new(
        id: u64,
        command: String,
        profile: Profile,
        working_directory: Option<String>,
        wsl_directory: Option<String>,
    ) -> (result: StackedPane)
        ensures
            result == (StackedPane {
                id,
                routing_id: id,
                command,
                profile,
                theme_override: None,
                terminal: None,
                view: None,
                state: StackedPaneState::Starting,
                exit_code: None,
                error: None,
                working_directory,
                wsl_directory,
            }),
    {
        StackedPane {
            id,
            routing_id: id,
            command,
            profile,
            theme_override: None,
            terminal: None,
            view: None,
            state: StackedPaneState::Starting,
            exit_code: None,
            error: None,
            working_directory,
            wsl_directory,
        }
    }
}

/// The command entries associated with one interactive terminal pane.
#[derive(Debug, PartialEq, Eq)]
pub struct PaneStack {
    pub entries: Vec<StackedPane>,
    pub selected: PaneStackSelection,
}

/// The ids of stack entries.
pub open spec fn entry_ids(entries: Seq<StackedPane>) -> Seq<u64> {
    entries.map_values(|entry: StackedPane| entry.id)
}

/// Whether a selection shows something that is there.
pub open spec fn selects_among(ids: Seq<u64>, selection: PaneStackSelection) -> bool {
    match selection {
        PaneStackSelection::Base => true,
        PaneStackSelection::Stacked(id) => ids.contains(id),
    }
}

/// Where the id stands first, if it does.
pub open spec fn position_of(ids: Seq<u64>, id: u64) -> Option<int> {
    if ids.contains(id) {
        Some(first_index(ids, id))
    } else {
        None
    }
}

/// The first position of an id that is there.
pub open spec fn first_index(ids: Seq<u64>, id: u64) -> int
    decreases ids.len(),
{
    if ids.len() == 0 || ids.first() == id {
        0
    } else {
        1 + first_index(ids.drop_first(), id)
    }
}

/// The first position of an id has the id, and none before it does.
pub proof fn lemma_first_index(ids: Seq<u64>, id: u64, at: int)
    requires
        0 <= at < ids.len(),
        ids[at] == id,
        forall|i: int| 0 <= i < at ==> ids[i] != id,
    ensures
        ids.contains(id),
        first_index(ids, id) == at,
    decreases at,
{
    assert(ids.contains(id));
    if at > 0 {
        assert(ids[0] != id);
        let rest = ids.drop_first();
        assert(rest[at - 1] == ids[at]);
        assert forall|i: int| 0 <= i < at - 1 implies rest[i] != id by {
            assert(rest[i] == ids[i + 1]);
        }
        lemma_first_index(rest, id, at - 1);
    }
}

/// The first position of an id that is there.
pub proof fn lemma_first_index_found(ids: Seq<u64>, id: u64)
    requires
        ids.contains(id),
    ensures
        0 <= first_index(ids, id) < ids.len(),
        ids[first_index(ids, id)] == id,
        forall|i: int| 0 <= i < first_index(ids, id) ==> ids[i] != id,
    decreases ids.len(),
{
    if ids[0] != id {
        let rest = ids.drop_first();
        let at = choose|i: int| 0 <= i < ids.len() && ids[i] == id;
        assert(rest[at - 1] == id);
        lemma_first_index_found(rest, id);
        assert(ids[first_index(ids, id)] == rest[first_index(rest, id)]);
        assert forall|i: int| 0 <= i < first_index(ids, id) implies ids[i] != id by {
            if i > 0 {
                assert(rest[i - 1] != id);
            }
        }
    }
}

/// The rank of a selection in the cycle through the base and the entries: the
/// base, and whatever is not there, comes first.
pub open spec fn cycle_rank(ids: Seq<u64>, selection: PaneStackSelection) -> int {
    match selection {
        PaneStackSelection::Base => 0,
        PaneStackSelection::Stacked(id) => match position_of(ids, id) {
            Some(index) => index + 1,
            None => 0,
        },
    }
}

/// The selection of a rank in the cycle.
pub open spec fn cycle_selection(ids: Seq<u64>, rank: int) -> PaneStackSelection {
    if rank == 0 {
        PaneStackSelection::Base
    } else {
        PaneStackSelection::Stacked(ids[rank - 1])
    }
}

/// The next selection in the cycle through the base and the entries.
pub open spec fn cycled(ids: Seq<u64>, selection: PaneStackSelection, forward: bool) -> PaneStackSelection {
    let step: int = if forward {
        1
    } else {
        -1
    };
    cycle_selection(ids, (cycle_rank(ids, selection) + step) % (ids.len() as int + 1))
}

/// The next entry in the cycle through the entries alone. From elsewhere it
/// leads to the first, or backwards to the last.
pub open spec fn cycled_entry(ids: Seq<u64>, selection: PaneStackSelection, forward: bool) -> u64 {
    let current = match selection {
        PaneStackSelection::Base => None,
        PaneStackSelection::Stacked(id) => position_of(ids, id),
    };
    match current {
        Some(index) => ids[(index + if forward {
            1int
        } else {
            -1int
        }) % (ids.len() as int)],
        None => if forward {
            ids.first()
        } else {
            ids.last()
        },
    }
}

/// What is shown once the entry at `index` is gone, if it was shown before:
/// the entry that takes its place, or else the one before it, or the base.
pub open spec fn neighbour(rest: Seq<u64>, index: int) -> PaneStackSelection {
    if index < rest.len() {
        PaneStackSelection::Stacked(rest[index])
    } else if rest.len() > 0 {
        PaneStackSelection::Stacked(rest.last())
    } else {
        PaneStackSelection::Base
    }
}

/// What is selected once the entry `id` has left from `index` and `rest` is left:
/// a neighbour of the entry where it was selected itself.
pub open spec fn selected_without(
    rest: Seq<u64>,
    index: int,
    id: u64,
    selected: PaneStackSelection,
) -> PaneStackSelection {
    if selected == PaneStackSelection::Stacked(id) {
        neighbour(rest, index)
    } else if selects_among(rest, selected) {
        selected
    } else {
        PaneStackSelection::Base
    }
}

/// What is selected once the pane's own terminal has ended: what was, where that
/// is an entry, else the first entry.
pub open spec fn selected_after_base(
    ids: Seq<u64>,
    selected: PaneStackSelection,
) -> PaneStackSelection {
    match selected {
        PaneStackSelection::Stacked(id) if ids.contains(id) => selected,
        _ => if ids.len() > 0 {
            PaneStackSelection::Stacked(ids.first())
        } else {
            PaneStackSelection::Base
        },
    }
}

/// What is selected among entries: what was, where it is there, else the last
/// entry.
pub open spec fn selected_among(
    ids: Seq<u64>,
    selected: PaneStackSelection,
) -> PaneStackSelection {
    if selects_among(ids, selected) {
        selected
    } else if ids.len() > 0 {
        PaneStackSelection::Stacked(ids.last())
    } else {
        PaneStackSelection::Base
    }
}

impl PaneStack {
    /// The ids of the entries.
    pub open spec fn ids(self) -> Seq<u64> {
        entry_ids(self.entries@)
    }

    /// What is selected is there.
    pub open spec fn wf(self) -> bool {
        selects_among(self.ids(), self.selected)
    }

    /// A stack without entries.
    pub fn new() -> (result: PaneStack)
        ensures
            result.entries@.len() == 0,
            result.selected == PaneStackSelection::Base,
            result.wf(),
    {
        PaneStack { entries: Vec::new(), selected: PaneStackSelection::Base }
    }

    /// Whether there are no entries.
    pub fn is_empty(&self) -> (result: bool)
        ensures
            result == (self.entries@.len() == 0),
    {
        self.entries.len() == 0
    }

    /// Whether the base is selected.
    pub fn selected_is_base(&self) -> (result: bool)
        ensures
            result == (self.selected is Base),
    {
        match self.selected {
            PaneStackSelection::Base => true,
            PaneStackSelection::Stacked(_) => false,
        }
    }

    /// Where the first entry with the id stands.
    pub fn position(&self, id: u64) -> (result: Option<usize>)
        ensures
            match result {
                Some(index) => position_of(self.ids(), id) == Some(index as int) && index
                    < self.entries@.len() && self.entries@[index as int].id == id,
                None => !self.ids().contains(id),
            },
    {
        let mut index: usize = 0;
        while index < self.entries.len()
            invariant
                index <= self.entries@.len(),
                forall|i: int| 0 <= i < index ==> self.ids()[i] != id,
            decreases self.entries@.len() - index,
        {
            if self.entries[index].id == id {
                proof {
                    assert(self.ids()[index as int] == id);
                    lemma_first_index(self.ids(), id, index as int);
                }
                return Some(index);
            }
            index = index + 1;
        }
        None
    }

    /// Selects what is left to show when the base has exited: the selected
    /// entry, or else the first.
    pub fn select_after_base_exit(&mut self)
        ensures
            final(self).entries == old(self).entries,
            final(self).selected == selected_after_base(old(self).ids(), old(self).selected),
            final(self).wf(),
    {
        let selected_is_valid = match self.selected {
            PaneStackSelection::Base => false,
            PaneStackSelection::Stacked(id) => self.position(id).is_some(),
        };
        if !selected_is_valid {
            self.selected = if self.entries.len() > 0 {
                proof {
                    assert(self.ids()[0] == self.entries@[0].id);
                    assert(self.ids().contains(self.entries@[0].id));
                }
                PaneStackSelection::Stacked(self.entries[0].id)
            } else {
                PaneStackSelection::Base
            };
        }
    }

    /// The selected entry, where one is.
    pub fn selected_entry(&self) -> (result: Option<&StackedPane>)
        ensures
            match result {
                Some(entry) => self.selected matches PaneStackSelection::Stacked(id) && {
                    &&& self.ids().contains(id)
                    &&& *entry == self.entries@[first_index(self.ids(), id)]
                },
                None => match self.selected {
                    PaneStackSelection::Base => true,
                    PaneStackSelection::Stacked(id) => !self.ids().contains(id),
                },
            },
    {
        match self.selected {
            PaneStackSelection::Base => None,
            PaneStackSelection::Stacked(id) => match self.position(id) {
                Some(index) => Some(&self.entries[index]),
                None => None,
            },
        }
    }

    /// The handle that the selection shows: that of the selected entry, or the
    /// base's where the base is selected.
    pub open spec fn shown(
        self,
        base: Option<u64>,
        handle: spec_fn(StackedPane) -> Option<u64>,
    ) -> Option<u64> {
        match self.selected {
            PaneStackSelection::Base => base,
            PaneStackSelection::Stacked(id) => if self.ids().contains(id) {
                handle(self.entries@[first_index(self.ids(), id)])
            } else {
                None
            },
        }
    }

    /// The view that the selection shows.
    pub fn selected_view(&self, base: Option<u64>) -> (result: Option<u64>)
        ensures
            result == self.shown(base, |entry: StackedPane| entry.view),
    {
        match self.selected_entry() {
            Some(entry) => entry.view,
            None => if self.selected_is_base() {
                base
            } else {
                None
            },
        }
    }

    /// The terminal that the selection shows.
    pub fn selected_terminal(&self, base: Option<u64>) -> (result: Option<u64>)
        ensures
            result == self.shown(base, |entry: StackedPane| entry.terminal),
    {
        match self.selected_entry() {
            Some(entry) => entry.terminal,
            None => if self.selected_is_base() {
                base
            } else {
                None
            },
        }
    }

    /// Selects what is there. Returns whether it is.
    pub fn select(&mut self, selection: PaneStackSelection) -> (result: bool)
        ensures
            result == selects_among(old(self).ids(), selection),
            final(self).entries == old(self).entries,
            final(self).selected == if result {
                selection
            } else {
                old(self).selected
            },
            old(self).wf() ==> final(self).wf(),
    {
        let valid = match selection {
            PaneStackSelection::Base => true,
            PaneStackSelection::Stacked(id) => self.position(id).is_some(),
        };
        if valid {
            self.selected = selection;
        }
        valid
    }

    /// Selects the next one in the cycle through the base and the entries.
    pub fn cycle(&mut self, forward: bool) -> (result: Option<PaneStackSelection>)
        ensures
            final(self).entries == old(self).entries,
            if old(self).entries@.len() == 0 {
                result is None && final(self).selected == PaneStackSelection::Base
            } else {
                &&& final(self).selected == cycled(old(self).ids(), old(self).selected, forward)
                &&& result == Some(final(self).selected)
            },
            final(self).wf(),
    {
        if self.entries.len() == 0 {
            self.selected = PaneStackSelection::Base;
            return None;
        }
        let count: usize = self.entries.len();
        let current: usize = match self.selected {
            PaneStackSelection::Base => 0,
            PaneStackSelection::Stacked(id) => match self.position(id) {
                Some(index) => index + 1,
                None => 0,
            },
        };
        let next: usize = if forward {
            if current == count {
                0
            } else {
                current + 1
            }
        } else if current == 0 {
            count
        } else {
            current - 1
        };
        proof {
            let ranks = count as int + 1;
            assert(current == cycle_rank(self.ids(), self.selected));
            if forward && current == count {
                assert((current + 1) as int % ranks == 0) by (nonlinear_arith)
                    requires
                        current + 1 == ranks,
                        ranks > 0,
                ;
            } else if !forward && current == 0 {
                assert((current - 1) as int % ranks == ranks - 1) by {
                    vstd::arithmetic::div_mod::lemma_fundamental_div_mod_converse(
                        -1,
                        ranks,
                        -1,
                        ranks - 1,
                    );
                }
            } else {
                vstd::arithmetic::div_mod::lemma_small_mod(next as nat, ranks as nat);
            }
            if next > 0 {
                assert(self.ids()[next - 1] == self.entries@[next - 1].id);
                assert(self.ids().contains(self.entries@[next - 1].id));
            }
        }
        self.selected = if next == 0 {
            PaneStackSelection::Base
        } else {
            PaneStackSelection::Stacked(self.entries[next - 1].id)
        };
        Some(self.selected)
    }

    /// Selects the next one in the cycle through the entries alone.
    pub fn cycle_without_base(&mut self, forward: bool) -> (result: Option<PaneStackSelection>)
        ensures
            final(self).entries == old(self).entries,
            if old(self).entries@.len() == 0 {
                result is None && final(self).selected == PaneStackSelection::Base
            } else {
                &&& final(self).selected == PaneStackSelection::Stacked(
                    cycled_entry(old(self).ids(), old(self).selected, forward),
                )
                &&& result == Some(final(self).selected)
            },
            final(self).wf(),
    {
        if self.entries.len() == 0 {
            self.selected = PaneStackSelection::Base;
            return None;
        }
        let count: usize = self.entries.len();
        let current = match self.selected {
            PaneStackSelection::Base => None,
            PaneStackSelection::Stacked(id) => self.position(id),
        };
        let next: usize = match current {
            Some(index) => if forward {
                if index + 1 == count {
                    0
                } else {
                    index + 1
                }
            } else if index == 0 {
                count - 1
            } else {
                index - 1
            },
            None => if forward {
                0
            } else {
                count - 1
            },
        };
        proof {
            let n = count as int;
            match current {
                Some(index) => {
                    if forward && index + 1 == count {
                        assert((index + 1) as int % n == 0) by (nonlinear_arith)
                            requires
                                index + 1 == n,
                                n > 0,
                        ;
                    } else if !forward && index == 0 {
                        vstd::arithmetic::div_mod::lemma_fundamental_div_mod_converse(
                            -1,
                            n,
                            -1,
                            n - 1,
                        );
                    } else {
                        vstd::arithmetic::div_mod::lemma_small_mod(next as nat, n as nat);
                    }
                },
                None => {},
            }
            assert(self.ids()[next as int] == self.entries@[next as int].id);
            assert(self.ids().contains(self.entries@[next as int].id));
        }
        self.selected = PaneStackSelection::Stacked(self.entries[next].id);
        Some(self.selected)
    }

    /// Adds an entry and selects it, unless the stack is full. Returns whether
    /// it was added.
    pub fn push(&mut self, entry: StackedPane) -> (result: bool)
        ensures
            result == (old(self).entries@.len() < MAX_PANES_PER_TAB - 1),
            if result {
                &&& final(self).entries@ == old(self).entries@.push(entry)
                &&& final(self).selected == PaneStackSelection::Stacked(entry.id)
            } else {
                *final(self) == *old(self)
            },
            old(self).wf() ==> final(self).wf(),
    {
        if self.entries.len() >= MAX_PANES_PER_TAB - 1 {
            return false;
        }
        let id = entry.id;
        self.entries.push(entry);
        self.selected = PaneStackSelection::Stacked(id);
        proof {
            assert(self.ids()[self.entries@.len() - 1] == id);
        }
        true
    }

    /// Removes the entry with the id. If it was selected, the entry that takes
    /// its place is, or else the one before it, or the base.
    pub fn remove(&mut self, id: u64) -> (result: Option<StackedPane>)
        ensures
            match position_of(old(self).ids(), id) {
                Some(index) => {
                    let rest = old(self).ids().remove(index);
                    &&& result == Some(old(self).entries@[index])
                    &&& final(self).entries@ == old(self).entries@.remove(index)
                    &&& final(self).selected == selected_without(
                        rest,
                        index,
                        id,
                        old(self).selected,
                    )
                    &&& final(self).wf()
                },
                None => result is None && *final(self) == *old(self),
            },
    {
        let index: usize = match self.position(id) {
            Some(index) => index,
            None => {
                return None;
            },
        };
        let was_selected = self.selected == PaneStackSelection::Stacked(id);
        let ghost rest = self.ids().remove(index as int);
        let entry = self.entries.remove(index);
        proof {
            assert(self.ids() =~= rest);
        }
        if was_selected {
            self.selected = if index < self.entries.len() {
                proof {
                    assert(self.ids()[index as int] == self.entries@[index as int].id);
                }
                PaneStackSelection::Stacked(self.entries[index].id)
            } else if self.entries.len() > 0 {
                proof {
                    assert(self.ids()[index - 1] == self.entries@[index - 1].id);
                }
                PaneStackSelection::Stacked(self.entries[self.entries.len() - 1].id)
            } else {
                PaneStackSelection::Base
            };
        } else {
            match self.selected {
                PaneStackSelection::Base => {},
                PaneStackSelection::Stacked(selected) => {
                    if self.position(selected).is_none() {
                        self.selected = PaneStackSelection::Base;
                    }
                },
            }
        }
        Some(entry)
    }

    /// Selects the last entry, or the base, where what was selected is gone.
    pub fn repair_selection(&mut self)
        ensures
            final(self).entries == old(self).entries,
            final(self).selected == selected_among(old(self).ids(), old(self).selected),
            final(self).wf(),
    {
        match self.selected {
            PaneStackSelection::Base => {},
            PaneStackSelection::Stacked(id) => {
                if self.position(id).is_none() {
                    let count: usize = self.entries.len();
                    self.selected = if count > 0 {
                        proof {
                            assert(self.ids()[count - 1] == self.entries@[count - 1].id);
                            assert(self.ids().contains(self.entries@[count - 1].id));
                        }
                        PaneStackSelection::Stacked(self.entries[count - 1].id)
                    } else {
                        PaneStackSelection::Base
                    };
                }
            },
        }
    }
}

/// Cycling one way and then the other comes back to where it began, where
/// entries have distinct ids.
pub proof fn law_cycle_is_undone(ids: Seq<u64>, selection: PaneStackSelection, forward: bool)
    requires
        ids.no_duplicates(),
        selects_among(ids, selection),
    ensures
        cycled(ids, cycled(ids, selection, forward), !forward) == selection,
{
    let n = ids.len() as int + 1;
    let rank = cycle_rank(ids, selection);
    let step: int = if forward {
        1
    } else {
        -1
    };
    match selection {
        PaneStackSelection::Base => {},
        PaneStackSelection::Stacked(id) => {
            lemma_first_index_found(ids, id);
        },
    }
    let next = (rank + step) % n;
    assert(0 <= next < n) by {
        vstd::arithmetic::div_mod::lemma_mod_bound(rank + step, n);
    }
    let there = cycled(ids, selection, forward);
    if next > 0 {
        lemma_first_index(ids, ids[next - 1], next - 1);
    }
    assert(cycle_rank(ids, there) == next);
    assert((next - step) % n == rank) by {
        let q = (rank + step) / n;
        vstd::arithmetic::div_mod::lemma_fundamental_div_mod(rank + step, n);
        assert(next - step == (-q) * n + rank) by (nonlinear_arith)
            requires
                rank + step == n * q + next,
        ;
        vstd::arithmetic::div_mod::lemma_fundamental_div_mod_converse(next - step, n, -q, rank);
    }
}

} // verus!
