//! Per-viewer permission for reading the host clipboard from a remote pane.

use vstd::prelude::*;

use crate::pane::TerminalPane;
use crate::project_context::window::{find_tab, tab_position};
use crate::zetta::Zetta;

verus! {

broadcast use vstd::std_specs::hash::group_hash_axioms;

/// The terminals of panes.
pub open spec fn panes_terminals(panes: Seq<TerminalPane>) -> Seq<u64>
    decreases panes.len(),
{
    if panes.len() == 0 {
        Seq::empty()
    } else {
        panes_terminals(panes.drop_last()) + panes.last().terminals()
    }
}

/// The tabs with the permission, once one was toggled.
pub open spec fn toggled(tabs: Set<u64>, tab_id: u64) -> Set<u64> {
    if tabs.contains(tab_id) {
        tabs.remove(tab_id)
    } else {
        tabs.insert(tab_id)
    }
}

/// The terminals that a permission is set for, and whether it is granted.
#[derive(Debug, PartialEq, Eq)]
pub struct ClipboardPermission {
    pub terminals: Vec<u64>,
    pub allowed: bool,
}

impl Zetta {
    /// The terminals of a tab.
    pub open spec fn terminals_of_tab(self, tab_id: u64) -> Seq<u64> {
        match tab_position(self.tabs@, tab_id) {
            Some(index) => panes_terminals(self.tabs@[index].panes@),
            None => Seq::empty(),
        }
    }

    /// Grants or takes back the permission of the active tab's panes.
    pub fn toggle_remote_clipboard_paste(&mut self) -> (result: Option<ClipboardPermission>)
        ensures
            *final(self) == (Zetta {
                remote_clipboard_paste_tabs: final(self).remote_clipboard_paste_tabs,
                ..*old(self)
            }),
            if old(self).has_active() {
                let tab_id = old(self).active().id;
                let before = old(self).remote_clipboard_paste_tabs@;
                &&& result matches Some(permission) && {
                    &&& permission.allowed == !before.contains(tab_id)
                    &&& permission.terminals@ == old(self).terminals_of_tab(tab_id)
                }
                &&& final(self).remote_clipboard_paste_tabs@ == toggled(before, tab_id)
            } else {
                result is None && final(self).remote_clipboard_paste_tabs@ == old(
                    self,
                ).remote_clipboard_paste_tabs@
            },
    {
        if self.active_tab >= self.tabs.len() {
            return None;
        }
        let tab_id = self.tabs[self.active_tab].id;
        let allowed = self.remote_clipboard_paste_tabs.insert(tab_id);
        if !allowed {
            self.remote_clipboard_paste_tabs.remove(&tab_id);
        }
        Some(self.set_tab_remote_clipboard_paste(tab_id, allowed))
    }

    /// The permission of a tab's panes, as their terminals are told of it.
    pub fn set_tab_remote_clipboard_paste(&self, tab_id: u64, allowed: bool) -> (result:
        ClipboardPermission)
        ensures
            result.allowed == allowed,
            result.terminals@ == self.terminals_of_tab(tab_id),
    {
        let mut terminals: Vec<u64> = Vec::new();
        if let Some(index) = find_tab(&self.tabs, tab_id) {
            let tab = &self.tabs[index];
            let mut position: usize = 0;
            proof {
                assert(tab.panes@.take(0) == Seq::<TerminalPane>::empty());
            }
            while position < tab.panes.len()
                invariant
                    position <= tab.panes@.len(),
                    terminals@ == panes_terminals(tab.panes@.take(position as int)),
                decreases tab.panes@.len() - position,
            {
                let mut more = tab.panes[position].all_terminals();
                proof {
                    let longer = tab.panes@.take(position + 1);
                    assert(longer.drop_last() == tab.panes@.take(position as int));
                    assert(longer.last() == tab.panes@[position as int]);
                }
                terminals.append(&mut more);
                position = position + 1;
            }
            proof {
                assert(tab.panes@.take(position as int) == tab.panes@);
            }
        }
        ClipboardPermission { terminals, allowed }
    }
}

/// Asking twice leaves every tab with the permission that it had.
pub proof fn law_toggling_twice_changes_nothing(tabs: Set<u64>, tab_id: u64)
    ensures
        toggled(toggled(tabs, tab_id), tab_id) == tabs,
        toggled(tabs, tab_id).contains(tab_id) == !tabs.contains(tab_id),
{
    assert(toggled(toggled(tabs, tab_id), tab_id) =~= tabs);
}

/// Toggling turns the tab's own permission round and leaves those of other tabs alone.
pub proof fn law_toggling_is_about_one_tab(tabs: Set<u64>, tab_id: u64, other: u64)
    ensures
        toggled(tabs, tab_id).contains(tab_id) == !tabs.contains(tab_id),
        other != tab_id ==> toggled(tabs, tab_id).contains(other) == tabs.contains(other),
{
}

/// The terminals of panes are those of each, pane after pane.
pub proof fn law_terminals_of_all_panes(panes: Seq<TerminalPane>, pane: TerminalPane)
    ensures
        panes_terminals(panes.push(pane)) == panes_terminals(panes) + pane.terminals(),
        panes_terminals(Seq::empty()).len() == 0,
{
    assert(panes.push(pane).drop_last() =~= panes);
}

/// The terminals of a tab are those of the tab with the id, and a tab that is not there
/// has none.
pub proof fn law_terminals_are_the_tabs_own(window: Zetta, at: int)
    requires
        0 <= at < window.tabs@.len(),
        forall|i: int| 0 <= i < at ==> (#[trigger] window.tabs@[i]).id != window.tabs@[at].id,
    ensures
        window.terminals_of_tab(window.tabs@[at].id) == panes_terminals(window.tabs@[at].panes@),
{
    crate::project_context::laws::law_tab_is_found_by_id(window.tabs@, window.tabs@[at].id);
}

} // verus!
