//! A tab: the panes it holds, which one is active, and what it shows.
//!
//! Maximize, minimize and the focus that follows a close are the tab's, not
//! the layout's: they change which panes are visible without changing the
//! layout tree, so the tree stays the thing a restore returns to.

use std::collections::{HashMap, HashSet};

use vstd::prelude::*;

use crate::local_sessions::auth::SessionAuthentication;
use crate::pane::layout::{lemma_layout_has_a_pane, PaneLayout};
use crate::pane::layout_laws::law_removal_of_absent_panes_is_nothing;
use crate::pane::overlay::OverlayStylePicker;
use crate::pane::stack::{
    first_index, lemma_first_index, lemma_first_index_found, selects_among, PaneStack,
    PaneStackSelection, StackedPane,
};
use crate::pane::TerminalPane;
use crate::profile::Profile;
use crate::text::{clone_optional, optional_text};

verus! {

/// What becomes of a tab's session when the tab closes.
pub enum TabClosePolicy {
    Close,
    Background { authentication: Option<SessionAuthentication> },
}

impl TabClosePolicy {
    /// The protection of the session that goes on in the background, if it
    /// does.
    pub fn background_authentication(&self) -> (result: Option<Option<SessionAuthentication>>)
        ensures
            result == match *self {
                TabClosePolicy::Close => None,
                TabClosePolicy::Background { authentication } => Some(authentication),
            },
    {
        match self {
            TabClosePolicy::Close => None,
            TabClosePolicy::Background { authentication } => Some(
                match authentication {
                    Some(authentication) => Some(authentication.duplicate()),
                    None => None,
                },
            ),
        }
    }
}

/// A call for attention from a tab that is not in front.
#[derive(Debug, PartialEq, Eq)]
pub struct TabAttention {
    pub summary: String,
    pub body: Option<String>,
}

impl TabAttention {
    /// What the tooltip says: the summary, and the body on a line of its own.
    pub fn tooltip_text(&self) -> (result: String)
        ensures
            result@ == match self.body {
                Some(body) if body@.len() > 0 => self.summary@ + "\n"@ + body@,
                _ => self.summary@,
            },
    {
        let mut text = self.summary.clone();
        if let Some(body) = &self.body {
            if !body.as_str().is_empty() {
                text.push_str("\n");
                text.push_str(body.as_str());
            }
        }
        text
    }
}

/// An icon of the icon set, by its number there.
#[derive(Clone, Copy, Debug, PartialEq, Eq, Structural)]
pub struct IconName {
    pub number: u32,
}

/// The user-selected tab icon, kept separate from the tab's icon, which is the
/// currently effective icon after project/default resolution.
#[derive(Clone, Copy, Debug, PartialEq, Eq, Structural)]
pub enum TabIconOverride {
    /// No user choice: the active project or the configured default may supply
    /// the effective icon.
    Unset,
    /// A user-selected icon that takes precedence over project/default values.
    Icon(IconName),
    /// A user-selected absence of an icon, which must not be confused with no
    /// override at all.
    Hidden,
}

impl TabIconOverride {
    /// A user's choice of an icon, or of none.
    pub fn from_icon(icon: Option<IconName>) -> (result: TabIconOverride)
        ensures
            result == match icon {
                Some(icon) => TabIconOverride::Icon(icon),
                None => TabIconOverride::Hidden,
            },
    {
        match icon {
            Some(icon) => TabIconOverride::Icon(icon),
            None => TabIconOverride::Hidden,
        }
    }
}

/// A text under edit: the text, how it shows with a caret in it, and whether
/// all of it is selected.
#[derive(Debug, PartialEq, Eq)]
pub struct TextField {
    pub text: String,
    pub marked: String,
    pub select_all: bool,
}

pub struct Tab {
    pub id: u64,
    /// Stable within this Zetta process. Unlike `id`, this survives moving a
    /// tab between visible and background storage and any pane/tab ID remap.
    pub attention_id: u64,
    pub attention: Option<TabAttention>,
    pub panes: Vec<TerminalPane>,
    pub pane_indices: HashMap<u64, usize>,
    pub next_pane_label: usize,
    /// A session-scoped theme shared by this tab's terminal content and tab
    /// chrome. Pane overrides take precedence over this value for terminal
    /// content, but never change it.
    pub theme_override: Option<String>,
    pub layout: PaneLayout,
    pub active_pane: u64,
    pub focus_history: Vec<u64>,
    pub maximized_pane: Option<u64>,
    pub minimized_panes: Vec<u64>,
    pub selected_minimized_pane: Option<u64>,
    pub broadcast_input: bool,
    pub silent_mode: bool,
    pub close_policy: TabClosePolicy,
    /// Whether this tab's session is offered to other Zetta windows, so one of
    /// them can join it and both then drive the same panes.
    ///
    /// Separate from `close_policy`: sharing says who may see the session now,
    /// and a shared tab is handed back to the multiplexer when its last viewer
    /// closes.
    pub shared: bool,
    /// A title entered through the tab rename UI. This is the highest-priority
    /// title source and is intentionally separate from process/worktree state.
    pub custom_title: Option<String>,
    /// A worktree title supplied by `wt new`. CWD detection may provide a
    /// fresher title, but terminal-side title updates can never replace this
    /// seed; `wt done` and `wt abort` explicitly clear it.
    pub worktree_seed_title: Option<String>,
    /// A lower-priority title supplied by process control. It remains
    /// available outside a worktree, but is masked by the active worktree
    /// title.
    pub process_title: Option<String>,
    pub icon: Option<IconName>,
    /// Explicit per-tab icon choice. `icon` remains the effective value so
    /// rendering does not need to know whether it came from this override or
    /// from project/default resolution.
    pub icon_override: TabIconOverride,
    /// Session-only visual pinning. Pinned tabs stay in the leading tab-bar
    /// prefix and are independent from the keep-running close policy.
    pub pinned: bool,
    pub renaming_pane: Option<u64>,
    pub rename_buffer: Option<TextField>,
    pub editing_overlay_pane: Option<u64>,
    pub overlay_buffer: Option<TextField>,
    /// Live overlay-style selector, opened right after the overlay's text is
    /// entered from the command palette. Combines font size, colour, and
    /// opacity.
    pub overlay_style_picker: Option<OverlayStylePicker>,
}

/// The ids of panes.
pub open spec fn pane_ids(panes: Seq<TerminalPane>) -> Seq<u64> {
    panes.map_values(|pane: TerminalPane| pane.id)
}

/// Whether the index tells of each pane where it stands, and of nothing else.
pub open spec fn index_matches(panes: Seq<TerminalPane>, indices: Map<u64, usize>) -> bool {
    &&& forall|i: int|
        0 <= i < panes.len() ==> {
            let pane = #[trigger] panes[i];
            indices.contains_key(pane.id) && indices[pane.id] == i
        }
    &&& forall|id: u64| #[trigger]
        indices.contains_key(id) ==> indices[id] < panes.len() && panes[indices[id] as int].id == id
}

impl Tab {
    /// The ids of the tab's panes.
    pub open spec fn ids(self) -> Seq<u64> {
        pane_ids(self.panes@)
    }

    /// The index tells of each pane where it stands.
    pub open spec fn indexed(self) -> bool {
        index_matches(self.panes@, self.pane_indices@)
    }

    /// Where the pane stands, if the tab has it.
    pub open spec fn index_of(self, id: u64) -> Option<int> {
        if self.pane_indices@.contains_key(id) {
            Some(self.pane_indices@[id] as int)
        } else {
            None
        }
    }

    /// Applies a user choice to both the effective icon and its precedence
    /// marker. Project resolution must never be able to replace this choice.
    pub fn set_icon_override(&mut self, icon: Option<IconName>)
        ensures
            *final(self) == (Tab {
                icon,
                icon_override: match icon {
                    Some(icon) => TabIconOverride::Icon(icon),
                    None => TabIconOverride::Hidden,
                },
                ..*old(self)
            }),
    {
        self.icon = icon;
        self.icon_override = TabIconOverride::from_icon(icon);
    }

    /// The pane with the id.
    pub fn pane(&self, id: u64) -> (result: Option<&TerminalPane>)
        requires
            self.indexed(),
        ensures
            match self.index_of(id) {
                Some(index) => result == Some(&self.panes@[index]) && self.panes@[index].id == id,
                None => result is None,
            },
    {
        broadcast use vstd::std_specs::hash::group_hash_axioms;

        match self.pane_indices.get(&id) {
            Some(index) => Some(&self.panes[*index]),
            None => None,
        }
    }

    /// The pane with the id, to change it.
    pub fn pane_mut(&mut self, id: u64) -> (result: Option<&mut TerminalPane>)
        requires
            old(self).indexed(),
        ensures
            match old(self).index_of(id) {
                Some(index) => result matches Some(pane) && {
                    &&& *pane == old(self).panes@[index]
                    &&& pane.id == id
                    &&& *final(self) == (Tab { panes: final(self).panes, ..*old(self) })
                    &&& final(self).panes@ == old(self).panes@.update(index, *final(pane))
                },
                None => result is None && *final(self) == *old(self),
            },
    {
        broadcast use vstd::std_specs::hash::group_hash_axioms;

        match self.pane_indices.get(&id) {
            Some(index) => {
                let index: usize = *index;
                Some(&mut self.panes[index])
            },
            None => None,
        }
    }
}

/// A list without an id.
pub open spec fn without_id(list: Seq<u64>, id: u64) -> Seq<u64> {
    list.filter(|other: u64| other != id)
}

/// A history without the closed pane and without panes that are gone.
pub open spec fn surviving(history: Seq<u64>, ids: Seq<u64>, closed: u64) -> Seq<u64> {
    history.filter(|id: u64| id != closed && ids.contains(id))
}

/// Which panes a tab shows and which has the focus.
pub ghost struct FocusState {
    pub active: u64,
    pub history: Seq<u64>,
    pub maximized: Option<u64>,
    pub minimized: Seq<u64>,
    pub selected: Option<u64>,
}

/// The selection among minimized panes, moved to the last one where what was
/// selected is not there.
pub open spec fn repaired(minimized: Seq<u64>, selected: Option<u64>) -> Option<u64> {
    match selected {
        Some(id) if minimized.contains(id) => selected,
        _ => if minimized.len() > 0 {
            Some(minimized.last())
        } else {
            None
        },
    }
}

/// The last id of `history` that is not minimized, nor the excluded one.
pub open spec fn latest_visible(
    history: Seq<u64>,
    minimized: Seq<u64>,
    excluded: Option<u64>,
) -> Option<u64>
    decreases history.len(),
{
    if history.len() == 0 {
        None
    } else if !minimized.contains(history.last()) && Some(history.last()) != excluded {
        Some(history.last())
    } else {
        latest_visible(history.drop_last(), minimized, excluded)
    }
}

/// The first of `ids` that is not minimized.
pub open spec fn first_visible(ids: Seq<u64>, minimized: Seq<u64>) -> Option<u64>
    decreases ids.len(),
{
    if ids.len() == 0 {
        None
    } else if !minimized.contains(ids.first()) {
        Some(ids.first())
    } else {
        first_visible(ids.drop_first(), minimized)
    }
}

/// Whether two lists have the same members.
pub open spec fn same_members(left: Seq<u64>, right: Seq<u64>) -> bool {
    forall|id: u64| #[trigger] left.contains(id) <==> right.contains(id)
}

impl FocusState {
    /// What is shown and focused is in order: minimized panes are distinct
    /// panes of the tab and not all of them, one of them is selected if there
    /// are any, what is maximized and what has the focus are not minimized, and
    /// the history names panes of the tab.
    pub open spec fn wf(self, ids: Seq<u64>) -> bool {
        &&& self.minimized.no_duplicates()
        &&& forall|id: u64| #[trigger] self.minimized.contains(id) ==> ids.contains(id)
        &&& self.minimized.len() < ids.len()
        &&& self.maximized matches Some(id) ==> ids.contains(id) && !self.minimized.contains(id)
        &&& match self.selected {
            Some(id) => self.minimized.contains(id),
            None => self.minimized.len() == 0,
        }
        &&& ids.contains(self.active)
        &&& !self.minimized.contains(self.active)
        &&& forall|id: u64| #[trigger] self.history.contains(id) ==> ids.contains(id)
    }

    /// The state with a pane of the tab activated.
    pub open spec fn activated(self, ids: Seq<u64>, id: u64) -> FocusState {
        if ids.contains(id) {
            FocusState { active: id, history: without_id(self.history, id).push(id), ..self }
        } else {
            self
        }
    }

    /// The pane that gets the focus when `id` is minimized.
    pub open spec fn focus_after_minimizing(self, layout_ids: Seq<u64>, id: u64) -> Option<u64> {
        match latest_visible(self.history, self.minimized.push(id), Some(id)) {
            Some(next) => Some(next),
            None => first_visible(layout_ids, self.minimized.push(id)),
        }
    }

    /// The state with a pane maximized, or no longer where it was, and with the
    /// focus on it.
    pub open spec fn maximize_toggled(self, ids: Seq<u64>, id: u64) -> FocusState {
        let minimized = without_id(self.minimized, id);
        FocusState {
            minimized,
            selected: repaired(minimized, self.selected),
            maximized: if self.maximized == Some(id) {
                None
            } else {
                Some(id)
            },
            ..self
        }.activated(ids, id)
    }

    /// The state with a pane minimized and the focus on another.
    pub open spec fn minimized_with(
        self,
        ids: Seq<u64>,
        layout_ids: Seq<u64>,
        id: u64,
    ) -> FocusState {
        FocusState {
            maximized: None,
            minimized: self.minimized.push(id),
            selected: Some(id),
            ..self
        }.activated(ids, self.focus_after_minimizing(layout_ids, id)->0)
    }

    /// The position to restore next in the list of minimized panes.
    pub open spec fn adjacent_minimized(self, forward: bool) -> Option<u64> {
        let count = self.minimized.len() as int;
        if count == 0 {
            None
        } else {
            let found = self.selected matches Some(id) && self.minimized.contains(id);
            let at: int = if found {
                let index = first_index(self.minimized, self.selected->0);
                (if forward {
                    index + 1
                } else {
                    index - 1
                }) % count
            } else if forward {
                0
            } else {
                count - 1
            };
            Some(self.minimized[at])
        }
    }

    /// The state with a minimized pane back in place.
    pub open spec fn restored(self, ids: Seq<u64>, id: u64) -> FocusState {
        let index = first_index(self.minimized, id);
        let rest = self.minimized.remove(index);
        let selected = if self.selected == Some(id) {
            if rest.len() == 0 {
                None
            } else {
                Some(rest[index % (rest.len() as int)])
            }
        } else {
            repaired(rest, self.selected)
        };
        FocusState { minimized: rest, selected, maximized: None, ..self }.activated(ids, id)
    }

    /// The state once the pane `closed` is gone from the tab, before the focus
    /// is looked for. A tab never hides all of its panes: where only minimized
    /// ones are left, the last of them comes back.
    pub open spec fn after_removal(self, ids: Seq<u64>, closed: u64) -> FocusState {
        let maximized = if self.maximized == Some(closed) {
            None
        } else {
            self.maximized
        };
        let minimized = without_id(self.minimized, closed);
        let kept = FocusState { maximized, minimized, ..self };
        let shown = if ids.len() > 0 && ids.len() == minimized.len() {
            FocusState { minimized: minimized.drop_last(), ..kept }.activated(
                ids,
                minimized.last(),
            )
        } else {
            kept
        };
        FocusState {
            selected: repaired(shown.minimized, shown.selected),
            maximized: if ids.len() == 1 {
                None
            } else {
                shown.maximized
            },
            history: surviving(shown.history, ids, closed),
            ..shown
        }
    }

    /// The first pane of what is visible.
    pub open spec fn first_shown(self, ids: Seq<u64>, layout: PaneLayout) -> Option<u64> {
        match self.maximized {
            Some(id) => if ids.contains(id) {
                Some(id)
            } else {
                None
            },
            None => match layout.removed(self.minimized.to_set()) {
                Some(visible) => Some(visible.ids().first()),
                None => None,
            },
        }
    }

    /// The pane that gets the focus after a close.
    pub open spec fn focus_after_close(
        self,
        ids: Seq<u64>,
        layout: PaneLayout,
        fallback: u64,
    ) -> u64 {
        match latest_visible(self.history, self.minimized, None) {
            Some(id) => id,
            None => match self.first_shown(ids, layout) {
                Some(id) => id,
                None => match self.selected {
                    Some(id) => id,
                    None => if ids.len() > 0 {
                        ids.first()
                    } else {
                        fallback
                    },
                },
            },
        }
    }

    /// The state once the pane `closed` is gone from the tab and the focus has
    /// found its place.
    pub open spec fn after_close(
        self,
        ids: Seq<u64>,
        layout: PaneLayout,
        closed: u64,
        fallback: u64,
    ) -> FocusState {
        let left = self.after_removal(ids, closed);
        if left.active != closed && ids.contains(left.active) && !left.minimized.contains(
            left.active,
        ) {
            left
        } else {
            left.activated(ids, left.focus_after_close(ids, layout, fallback))
        }
    }
}

fn list_has(list: &Vec<u64>, id: u64) -> (result: bool)
    ensures
        result == list@.contains(id),
{
    let mut index: usize = 0;
    while index < list.len()
        invariant
            index <= list@.len(),
            forall|i: int| 0 <= i < index ==> list@[i] != id,
        decreases list@.len() - index,
    {
        if list[index] == id {
            proof {
                assert(list@[index as int] == id);
            }
            return true;
        }
        index = index + 1;
    }
    false
}

fn position_in(list: &Vec<u64>, id: u64) -> (result: Option<usize>)
    ensures
        match result {
            Some(index) => list@.contains(id) && index == first_index(list@, id) && index
                < list@.len(),
            None => !list@.contains(id),
        },
{
    let mut index: usize = 0;
    while index < list.len()
        invariant
            index <= list@.len(),
            forall|i: int| 0 <= i < index ==> list@[i] != id,
        decreases list@.len() - index,
    {
        if list[index] == id {
            proof {
                lemma_first_index(list@, id, index as int);
            }
            return Some(index);
        }
        index = index + 1;
    }
    None
}

fn drop_id(list: &mut Vec<u64>, id: u64)
    ensures
        final(list)@ == without_id(old(list)@, id),
{
    let mut kept: Vec<u64> = Vec::new();
    let mut index: usize = 0;
    proof {
        reveal(Seq::filter);
        assert(list@.take(0).filter(|other: u64| other != id) == Seq::<u64>::empty());
    }
    while index < list.len()
        invariant
            index <= list@.len(),
            list@ == old(list)@,
            kept@ == without_id(list@.take(index as int), id),
        decreases list@.len() - index,
    {
        proof {
            reveal(Seq::filter);
            let longer = list@.take(index + 1);
            assert(longer.drop_last() == list@.take(index as int));
            assert(longer.last() == list@[index as int]);
        }
        if list[index] != id {
            kept.push(list[index]);
        }
        index = index + 1;
    }
    proof {
        assert(list@.take(index as int) == list@);
    }
    *list = kept;
}

impl Tab {
    /// Which panes the tab shows and which has the focus.
    pub open spec fn focus(self) -> FocusState {
        FocusState {
            active: self.active_pane,
            history: self.focus_history@,
            maximized: self.maximized_pane,
            minimized: self.minimized_panes@,
            selected: self.selected_minimized_pane,
        }
    }

    /// Whether two states of a tab differ in nothing but what is shown and
    /// what has the focus.
    pub open spec fn same_besides_focus(self, other: Tab) -> bool {
        self == (Tab {
            active_pane: self.active_pane,
            focus_history: self.focus_history,
            maximized_pane: self.maximized_pane,
            minimized_panes: self.minimized_panes,
            selected_minimized_pane: self.selected_minimized_pane,
            ..other
        })
    }

    /// Whether the index finds exactly the panes of the tab.
    pub proof fn lemma_index_of(self, id: u64)
        requires
            self.indexed(),
        ensures
            self.pane_indices@.contains_key(id) == self.ids().contains(id),
            self.ids().no_duplicates(),
    {
        if self.pane_indices@.contains_key(id) {
            let index = self.pane_indices@[id] as int;
            assert(self.ids()[index] == id);
        }
        if self.ids().contains(id) {
            let index = choose|i: int| 0 <= i < self.ids().len() && self.ids()[i] == id;
            assert(self.panes@[index].id == id);
        }
        assert forall|i: int, j: int| 0 <= i < self.ids().len() && 0 <= j < self.ids().len() && i
            != j implies self.ids()[i] != self.ids()[j] by {
            assert(self.panes@[i].id == self.ids()[i]);
            assert(self.panes@[j].id == self.ids()[j]);
        }
    }

    /// Gives a pane the focus.
    pub fn activate_pane(&mut self, id: u64)
        requires
            old(self).indexed(),
        ensures
            final(self).same_besides_focus(*old(self)),
            final(self).focus() == old(self).focus().activated(old(self).ids(), id),
    {
        proof {
            self.lemma_index_of(id);
        }
        if self.pane(id).is_none() {
            return;
        }
        drop_id(&mut self.focus_history, id);
        self.focus_history.push(id);
        self.active_pane = id;
    }

    /// Selects an entry of a pane's stack and gives the pane the focus.
    pub fn activate_stack_entry(&mut self, pane_id: u64, entry: PaneStackSelection)
        requires
            old(self).indexed(),
        ensures
            final(self).indexed(),
            match old(self).index_of(pane_id) {
                Some(index) if selects_among(old(self).panes@[index].stack.ids(), entry) => {
                    let pane = old(self).panes@[index];
                    &&& final(self).panes@ == old(self).panes@.update(
                        index,
                        TerminalPane {
                            stack: PaneStack { selected: entry, ..pane.stack },
                            ..pane
                        },
                    )
                    &&& final(self).same_besides_focus(
                        Tab { panes: final(self).panes, ..*old(self) },
                    )
                    &&& final(self).focus() == old(self).focus().activated(
                        old(self).ids(),
                        pane_id,
                    )
                },
                _ => final(self).panes@ == old(self).panes@ && *final(self) == (Tab {
                    panes: final(self).panes,
                    ..*old(self)
                }),
            },
    {
        let ghost before = *self;
        match self.pane_mut(pane_id) {
            None => {
                return;
            },
            Some(pane) => {
                if !pane.stack.select(entry) {
                    proof {
                        assert(before.panes@.update(before.index_of(pane_id)->0, *pane)
                            == before.panes@);
                    }
                    return;
                }
            },
        }
        proof {
            assert(self.ids() =~= before.ids());
        }
        self.activate_pane(pane_id);
    }

    fn repair_minimized_selection(&mut self)
        ensures
            *final(self) == (Tab {
                selected_minimized_pane: repaired(
                    old(self).minimized_panes@,
                    old(self).selected_minimized_pane,
                ),
                ..*old(self)
            }),
    {
        let valid = match self.selected_minimized_pane {
            Some(id) => list_has(&self.minimized_panes, id),
            None => false,
        };
        if !valid {
            let count: usize = self.minimized_panes.len();
            self.selected_minimized_pane = if count > 0 {
                Some(self.minimized_panes[count - 1])
            } else {
                None
            };
        }
    }

    /// How many panes are not minimized.
    pub open spec fn visible_count(self) -> int {
        let count = self.panes@.len() - self.minimized_panes@.len();
        if count < 0 {
            0
        } else {
            count
        }
    }

    /// Maximizes a pane, or undoes that. A pane that is alone already cannot
    /// be maximized. Returns whether anything changed.
    pub fn toggle_maximize(&mut self, pane_id: u64) -> (result: bool)
        requires
            old(self).indexed(),
        ensures
            ({
                let was_minimized: int = if old(self).minimized_panes@.contains(pane_id) {
                    1
                } else {
                    0
                };
                result == (old(self).ids().contains(pane_id) && (old(self).maximized_pane == Some(
                    pane_id,
                ) || old(self).visible_count() + was_minimized >= 2))
            }),
            final(self).same_besides_focus(*old(self)),
            final(self).focus() == if result {
                old(self).focus().maximize_toggled(old(self).ids(), pane_id)
            } else {
                old(self).focus()
            },
            old(self).wf() ==> final(self).wf(),
    {
        proof {
            self.lemma_index_of(pane_id);
            if self.wf() && self.ids().contains(pane_id) {
                lemma_maximizing_keeps_order(self.focus(), self.ids(), pane_id);
            }
        }
        if self.pane(pane_id).is_none() {
            return false;
        }
        let pane_was_minimized = list_has(&self.minimized_panes, pane_id);
        let pane_count: usize = self.panes.len();
        let minimized_count: usize = self.minimized_panes.len();
        let is_maximized = match self.maximized_pane {
            Some(id) => id == pane_id,
            None => false,
        };
        let still_visible: usize = if pane_count > minimized_count {
            pane_count - minimized_count
        } else {
            0
        };
        let enough = still_visible >= 2 || (still_visible == 1 && pane_was_minimized);
        if !is_maximized && !enough {
            return false;
        }
        drop_id(&mut self.minimized_panes, pane_id);
        self.repair_minimized_selection();
        self.maximized_pane = if is_maximized {
            None
        } else {
            Some(pane_id)
        };
        self.activate_pane(pane_id);
        true
    }

    /// The tab is in order: every pane of the layout is one of the tab's, and
    /// the other way round, and what is shown and focused is in order too.
    pub open spec fn wf(self) -> bool {
        &&& self.indexed()
        &&& same_members(self.layout.ids(), self.ids())
        &&& self.focus().wf(self.ids())
    }

    /// Minimizes a pane, unless it is the last visible one. Returns whether it
    /// did.
    pub fn minimize(&mut self, pane_id: u64) -> (result: bool)
        requires
            old(self).wf(),
        ensures
            result == (old(self).ids().contains(pane_id) && !old(
                self,
            ).minimized_panes@.contains(pane_id) && old(self).visible_count() > 1),
            final(self).same_besides_focus(*old(self)),
            final(self).focus() == if result {
                old(self).focus().minimized_with(
                    old(self).ids(),
                    old(self).layout.ids(),
                    pane_id,
                )
            } else {
                old(self).focus()
            },
            result ==> old(self).focus().focus_after_minimizing(
                old(self).layout.ids(),
                pane_id,
            ) is Some,
            final(self).wf(),
    {
        proof {
            self.lemma_index_of(pane_id);
        }
        if self.pane(pane_id).is_none() || list_has(&self.minimized_panes, pane_id)
            || self.panes.len() - self.minimized_panes.len() <= 1 {
            return false;
        }
        let ghost before = *self;
        self.maximized_pane = None;
        self.minimized_panes.push(pane_id);
        self.selected_minimized_pane = Some(pane_id);
        let latest = latest_not_minimized(&self.focus_history, &self.minimized_panes, Some(pane_id));
        let fallback: u64 = match latest {
            Some(id) => id,
            None => {
                let ids = self.layout.pane_ids();
                proof {
                    lemma_some_pane_visible(before, pane_id);
                }
                match first_not_minimized(&ids, &self.minimized_panes) {
                    Some(id) => id,
                    None => pane_id,
                }
            },
        };
        proof {
            lemma_minimizing_keeps_order(before, pane_id);
        }
        self.activate_pane(fallback);
        true
    }

    /// Brings a minimized pane back. Returns whether it was minimized.
    pub fn restore_minimized(&mut self, pane_id: u64) -> (result: bool)
        requires
            old(self).indexed(),
        ensures
            result == old(self).minimized_panes@.contains(pane_id),
            final(self).same_besides_focus(*old(self)),
            final(self).focus() == if result {
                old(self).focus().restored(old(self).ids(), pane_id)
            } else {
                old(self).focus()
            },
            old(self).wf() ==> final(self).wf(),
    {
        proof {
            if self.wf() && self.minimized_panes@.contains(pane_id) {
                lemma_restoring_keeps_order(self.focus(), self.ids(), pane_id);
            }
        }
        let index: usize = match position_in(&self.minimized_panes, pane_id) {
            Some(index) => index,
            None => {
                return false;
            },
        };
        self.minimized_panes.remove(index);
        let was_selected = match self.selected_minimized_pane {
            Some(id) => id == pane_id,
            None => false,
        };
        if was_selected {
            let count: usize = self.minimized_panes.len();
            self.selected_minimized_pane = if count == 0 {
                None
            } else {
                Some(self.minimized_panes[index % count])
            };
        } else {
            self.repair_minimized_selection();
        }
        self.maximized_pane = None;
        self.activate_pane(pane_id);
        true
    }

    /// Brings back the selected minimized pane, or else the last. Returns
    /// whether there was one.
    pub fn restore_last_minimized(&mut self) -> (result: bool)
        requires
            old(self).indexed(),
        ensures
            result == (old(self).minimized_panes@.len() > 0),
            final(self).same_besides_focus(*old(self)),
            final(self).focus() == if result {
                old(self).focus().restored(
                    old(self).ids(),
                    repaired(
                        old(self).minimized_panes@,
                        old(self).selected_minimized_pane,
                    )->0,
                )
            } else {
                old(self).focus()
            },
            old(self).wf() ==> final(self).wf(),
    {
        let count: usize = self.minimized_panes.len();
        if count == 0 {
            return false;
        }
        let pane_id: u64 = match self.selected_minimized_pane {
            Some(id) => if list_has(&self.minimized_panes, id) {
                id
            } else {
                self.minimized_panes[count - 1]
            },
            None => self.minimized_panes[count - 1],
        };
        proof {
            assert(self.minimized_panes@.contains(self.minimized_panes@[count - 1]));
        }
        self.restore_minimized(pane_id)
    }

    /// Selects the minimized pane before the selected one, going round.
    pub fn select_previous_minimized(&mut self) -> (result: bool)
        ensures
            result == (old(self).minimized_panes@.len() > 0),
            *final(self) == (Tab {
                selected_minimized_pane: old(self).focus().adjacent_minimized(false),
                ..*old(self)
            }),
    {
        self.select_adjacent_minimized(false)
    }

    /// Selects the minimized pane after the selected one, going round.
    pub fn select_next_minimized(&mut self) -> (result: bool)
        ensures
            result == (old(self).minimized_panes@.len() > 0),
            *final(self) == (Tab {
                selected_minimized_pane: old(self).focus().adjacent_minimized(true),
                ..*old(self)
            }),
    {
        self.select_adjacent_minimized(true)
    }

    fn select_adjacent_minimized(&mut self, forward: bool) -> (result: bool)
        ensures
            result == (old(self).minimized_panes@.len() > 0),
            *final(self) == (Tab {
                selected_minimized_pane: old(self).focus().adjacent_minimized(forward),
                ..*old(self)
            }),
    {
        let count: usize = self.minimized_panes.len();
        if count == 0 {
            self.selected_minimized_pane = None;
            return false;
        }
        let current = match self.selected_minimized_pane {
            Some(id) => position_in(&self.minimized_panes, id),
            None => None,
        };
        let index: usize = match current {
            Some(index) => if forward {
                if index + 1 == count {
                    0
                } else {
                    index + 1
                }
            } else if index == 0 {
                count - 1
            } else {
                index - 1
            },
            None => if forward {
                0
            } else {
                count - 1
            },
        };
        proof {
            let n = count as int;
            if let Some(at) = current {
                if forward && at + 1 == count {
                    assert((at + 1) as int % n == 0) by (nonlinear_arith)
                        requires
                            at + 1 == n,
                            n > 0,
                    ;
                } else if !forward && at == 0 {
                    vstd::arithmetic::div_mod::lemma_fundamental_div_mod_converse(
                        -1,
                        n,
                        -1,
                        n - 1,
                    );
                } else {
                    vstd::arithmetic::div_mod::lemma_small_mod(index as nat, n as nat);
                }
            }
        }
        self.selected_minimized_pane = Some(self.minimized_panes[index]);
        true
    }

    /// The layout of what is visible.
    pub open spec fn shown_layout(self) -> Option<PaneLayout> {
        match self.maximized_pane {
            Some(id) => if self.ids().contains(id) {
                Some(PaneLayout::Pane(id))
            } else {
                None
            },
            None => if self.minimized_panes@.len() == 0 {
                Some(self.layout)
            } else {
                self.layout.removed(self.minimized_panes@.to_set())
            },
        }
    }

    /// The layout of what is visible: the maximized pane alone, or the panes
    /// that are not minimized.
    pub fn visible_layout(&self) -> (result: Option<PaneLayout>)
        requires
            self.indexed(),
        ensures
            result == self.shown_layout(),
    {
        broadcast use vstd::std_specs::hash::group_hash_axioms;

        if let Some(pane_id) = self.maximized_pane {
            proof {
                self.lemma_index_of(pane_id);
            }
            return match self.pane(pane_id) {
                Some(_) => Some(PaneLayout::Pane(pane_id)),
                None => None,
            };
        }
        if self.minimized_panes.len() == 0 {
            return Some(self.layout.duplicate());
        }
        let mut minimized: HashSet<u64> = HashSet::new();
        let mut index: usize = 0;
        proof {
            assert(minimized@ =~= self.minimized_panes@.take(0).to_set());
        }
        while index < self.minimized_panes.len()
            invariant
                index <= self.minimized_panes@.len(),
                minimized@ == self.minimized_panes@.take(index as int).to_set(),
            decreases self.minimized_panes@.len() - index,
        {
            let ghost before = self.minimized_panes@.take(index as int);
            minimized.insert(self.minimized_panes[index]);
            index = index + 1;
            proof {
                let longer = self.minimized_panes@.take(index as int);
                assert(longer == before.push(self.minimized_panes@[index - 1]));
                assert(longer.to_set() =~= before.to_set().insert(
                    self.minimized_panes@[index - 1],
                )) by {
                    assert forall|id: u64| longer.contains(id) == (before.contains(id) || id
                        == self.minimized_panes@[index - 1]) by {
                        if before.contains(id) {
                            let i = choose|i: int| 0 <= i < before.len() && before[i] == id;
                            assert(longer[i] == id);
                        }
                        if id == self.minimized_panes@[index - 1] {
                            assert(longer[index - 1] == id);
                        }
                        if longer.contains(id) {
                            let i = choose|i: int| 0 <= i < longer.len() && longer[i] == id;
                            if i < before.len() {
                                assert(before[i] == id);
                            }
                        }
                    }
                }
            }
        }
        proof {
            assert(self.minimized_panes@.take(index as int) == self.minimized_panes@);
        }
        self.layout.without_all(&minimized)
    }

    /// Whether the pane is visible: the maximized one, or any that is not
    /// minimized where none is maximized.
    pub fn pane_is_visible(&self, pane_id: u64) -> (result: bool)
        requires
            self.indexed(),
        ensures
            result == (self.ids().contains(pane_id) && match self.maximized_pane {
                Some(maximized) => maximized == pane_id,
                None => !self.minimized_panes@.contains(pane_id),
            }),
    {
        proof {
            self.lemma_index_of(pane_id);
        }
        self.pane(pane_id).is_some() && match self.maximized_pane {
            Some(maximized) => maximized == pane_id,
            None => !list_has(&self.minimized_panes, pane_id),
        }
    }
}

/// The last id of `history` that is not minimized, nor the excluded one.
fn latest_not_minimized(history: &Vec<u64>, minimized: &Vec<u64>, excluded: Option<u64>) -> (result:
    Option<u64>)
    ensures
        result == latest_visible(history@, minimized@, excluded),
{
    let mut index: usize = history.len();
    proof {
        assert(history@.take(index as int) == history@);
    }
    while index > 0
        invariant
            index <= history@.len(),
            latest_visible(history@, minimized@, excluded) == latest_visible(
                history@.take(index as int),
                minimized@,
                excluded,
            ),
        decreases index,
    {
        proof {
            assert(history@.take(index as int).drop_last() == history@.take(index - 1));
            assert(history@.take(index as int).last() == history@[index - 1]);
        }
        let id = history[index - 1];
        let is_excluded = match excluded {
            Some(other) => other == id,
            None => false,
        };
        if !is_excluded && !list_has(minimized, id) {
            return Some(id);
        }
        index = index - 1;
    }
    None
}

/// The first of `ids` that is not minimized.
fn first_not_minimized(ids: &Vec<u64>, minimized: &Vec<u64>) -> (result: Option<u64>)
    ensures
        result == first_visible(ids@, minimized@),
{
    let mut index: usize = 0;
    proof {
        assert(ids@.skip(0) == ids@);
    }
    while index < ids.len()
        invariant
            index <= ids@.len(),
            first_visible(ids@, minimized@) == first_visible(ids@.skip(index as int), minimized@),
        decreases ids@.len() - index,
    {
        proof {
            assert(ids@.skip(index as int).drop_first() == ids@.skip(index + 1));
            assert(ids@.skip(index as int).first() == ids@[index as int]);
        }
        if !list_has(minimized, ids[index]) {
            return Some(ids[index]);
        }
        index = index + 1;
    }
    None
}

/// An id that is not minimized is found.
proof fn lemma_first_visible_found(ids: Seq<u64>, minimized: Seq<u64>, id: u64)
    requires
        ids.contains(id),
        !minimized.contains(id),
    ensures
        first_visible(ids, minimized) matches Some(found) && ids.contains(found)
            && !minimized.contains(found),
    decreases ids.len(),
{
    if minimized.contains(ids.first()) {
        let rest = ids.drop_first();
        let at = choose|i: int| 0 <= i < ids.len() && ids[i] == id;
        assert(rest[at - 1] == id);
        lemma_first_visible_found(rest, minimized, id);
        let found = first_visible(rest, minimized)->0;
        let i = choose|i: int| 0 <= i < rest.len() && rest[i] == found;
        assert(ids[i + 1] == found);
    } else {
        assert(ids[0] == ids.first());
    }
}

/// Distinct ids that are all in a list are no more than the list has.
proof fn lemma_distinct_ids_fit(ids: Seq<u64>, list: Seq<u64>)
    requires
        ids.no_duplicates(),
        forall|id: u64| ids.contains(id) ==> list.contains(id),
    ensures
        ids.len() <= list.len(),
{
    ids.unique_seq_to_set();
    assert(ids.to_set().subset_of(list.to_set()));
    vstd::set_lib::lemma_len_subset(ids.to_set(), list.to_set());
    list.lemma_cardinality_of_set();
}

/// Where more than one pane is visible, minimizing one leaves another.
proof fn lemma_some_pane_visible(tab: Tab, pane_id: u64)
    requires
        tab.wf(),
        tab.visible_count() > 1,
    ensures
        first_visible(tab.layout.ids(), tab.minimized_panes@.push(pane_id)) matches Some(found)
            && tab.ids().contains(found) && !tab.minimized_panes@.push(pane_id).contains(found),
{
    let minimized = tab.minimized_panes@.push(pane_id);
    tab.lemma_index_of(pane_id);
    if forall|id: u64| #[trigger] tab.ids().contains(id) ==> minimized.contains(id) {
        lemma_distinct_ids_fit(tab.ids(), minimized);
        assert(false);
    }
    let id = choose|id: u64| #[trigger] tab.ids().contains(id) && !minimized.contains(id);
    assert(tab.layout.ids().contains(id));
    lemma_first_visible_found(tab.layout.ids(), minimized, id);
    let found = first_visible(tab.layout.ids(), minimized)->0;
    assert(tab.layout.ids().contains(found));
}

impl Tab {
    /// Adds a pane. One without a label number gets the next; numbers are not
    /// given twice.
    pub fn push_pane(&mut self, pane: TerminalPane)
        requires
            old(self).indexed(),
            !old(self).ids().contains(pane.id),
            pane.label_number < usize::MAX,
            old(self).next_pane_label < usize::MAX,
        ensures
            final(self).indexed(),
            ({
                let number = if pane.label_number == 0 {
                    old(self).next_pane_label
                } else {
                    pane.label_number
                };
                &&& final(self).panes@ == old(self).panes@.push(
                    TerminalPane { label_number: number, ..pane },
                )
                &&& final(self).next_pane_label == if number + 1 > old(self).next_pane_label {
                    (number + 1) as usize
                } else {
                    old(self).next_pane_label
                }
                &&& *final(self) == (Tab {
                    panes: final(self).panes,
                    pane_indices: final(self).pane_indices,
                    next_pane_label: final(self).next_pane_label,
                    ..*old(self)
                })
            }),
    {
        broadcast use vstd::std_specs::hash::group_hash_axioms;

        let ghost before = *self;
        proof {
            self.lemma_index_of(pane.id);
        }
        let mut pane = pane;
        if pane.label_number == 0 {
            pane.label_number = self.next_pane_label;
        }
        if pane.label_number + 1 > self.next_pane_label {
            self.next_pane_label = pane.label_number + 1;
        }
        let count: usize = self.panes.len();
        let id = pane.id;
        self.pane_indices.insert(id, count);
        self.panes.push(pane);
        proof {
            assert forall|i: int| 0 <= i < self.panes@.len() implies {
                let pane = #[trigger] self.panes@[i];
                self.pane_indices@.contains_key(pane.id) && self.pane_indices@[pane.id] == i
            } by {
                if i < count {
                    assert(self.panes@[i] == before.panes@[i]);
                    assert(before.ids()[i] == before.panes@[i].id);
                    assert(before.ids().contains(before.panes@[i].id));
                }
            }
            assert forall|other: u64| #[trigger]
                self.pane_indices@.contains_key(other) implies self.pane_indices@[other]
                < self.panes@.len() && self.panes@[self.pane_indices@[other] as int].id == other by {
                if other != id {
                    assert(before.pane_indices@.contains_key(other));
                }
            }
        }
    }

    /// Gives panes their generated labels. Panes that the tab does not have
    /// are passed over.
    pub fn apply_generated_labels(&mut self, pane_labels: Vec<(u64, Option<String>)>)
        requires
            old(self).indexed(),
        ensures
            final(self).indexed(),
            final(self).panes@.len() == old(self).panes@.len(),
            forall|i: int|
                0 <= i < old(self).panes@.len() ==> #[trigger] final(self).panes@[i] == (
                TerminalPane {
                    generated_label: latest_label(
                        pane_labels@,
                        old(self).panes@[i].id,
                        old(self).panes@[i].generated_label,
                    ),
                    ..old(self).panes@[i]
                }),
            *final(self) == (Tab { panes: final(self).panes, ..*old(self) }),
    {
        let ghost before = *self;
        let mut index: usize = 0;
        while index < pane_labels.len()
            invariant
                index <= pane_labels@.len(),
                before.indexed(),
                self.indexed(),
                before == *old(self),
                *self == (Tab { panes: self.panes, ..before }),
                self.panes@.len() == before.panes@.len(),
                forall|i: int|
                    0 <= i < before.panes@.len() ==> #[trigger] self.panes@[i] == (TerminalPane {
                        generated_label: latest_label(
                            pane_labels@.take(index as int),
                            before.panes@[i].id,
                            before.panes@[i].generated_label,
                        ),
                        ..before.panes@[i]
                    }),
            decreases pane_labels@.len() - index,
        {
            let ghost longer = pane_labels@.take(index + 1);
            let ghost current = *self;
            proof {
                assert(longer.drop_last() == pane_labels@.take(index as int));
                assert(longer.last() == pane_labels@[index as int]);
            }
            let label = clone_optional(&pane_labels[index].1);
            let pane_id = pane_labels[index].0;
            if let Some(pane) = self.pane_mut(pane_id) {
                pane.generated_label = label;
            }
            proof {
                assert forall|i: int| 0 <= i < self.panes@.len() implies (#[trigger]
                self.panes@[i]).id == before.panes@[i].id by {
                    assert(current.panes@[i].id == before.panes@[i].id);
                }
                assert(self.indexed()) by {
                    assert forall|i: int| 0 <= i < self.panes@.len() implies {
                        let pane = #[trigger] self.panes@[i];
                        self.pane_indices@.contains_key(pane.id) && self.pane_indices@[pane.id]
                            == i
                    } by {
                        assert(self.panes@[i].id == before.panes@[i].id);
                    }
                }
                assert forall|i: int| 0 <= i < before.panes@.len() implies #[trigger] self.panes@[i]
                    == (TerminalPane {
                    generated_label: latest_label(
                        longer,
                        before.panes@[i].id,
                        before.panes@[i].generated_label,
                    ),
                    ..before.panes@[i]
                }) by {
                    assert(current.panes@[i].id == before.panes@[i].id);
                }
            }
            index = index + 1;
        }
        proof {
            assert(pane_labels@.take(index as int) == pane_labels@);
        }
    }

    /// Removes a pane.
    pub fn remove_pane(&mut self, id: u64) -> (result: Option<TerminalPane>)
        requires
            old(self).indexed(),
        ensures
            final(self).indexed(),
            match old(self).index_of(id) {
                Some(index) => {
                    &&& result == Some(old(self).panes@[index])
                    &&& final(self).panes@ == old(self).panes@.remove(index)
                    &&& *final(self) == (Tab {
                        panes: final(self).panes,
                        pane_indices: final(self).pane_indices,
                        ..*old(self)
                    })
                },
                None => result is None && *final(self) == *old(self),
            },
    {
        broadcast use vstd::std_specs::hash::group_hash_axioms;

        let ghost before = *self;
        let removed: usize = match self.pane_indices.get(&id) {
            Some(index) => *index,
            None => {
                return None;
            },
        };
        self.pane_indices.remove(&id);
        let pane = self.panes.remove(removed);
        proof {
            before.lemma_index_of(id);
        }
        let mut index: usize = removed;
        while index < self.panes.len()
            invariant
                before == *old(self),
                before.indexed(),
                before.index_of(id) == Some(removed as int),
                removed < before.panes@.len(),
                removed <= index <= self.panes@.len(),
                self.panes@ == before.panes@.remove(removed as int),
                *self == (Tab {
                    panes: self.panes,
                    pane_indices: self.pane_indices,
                    ..before
                }),
                forall|other: u64| #[trigger]
                    self.pane_indices@.contains_key(other) <==> other != id
                        && before.pane_indices@.contains_key(other),
                forall|other: u64| #[trigger]
                    self.pane_indices@.contains_key(other) ==> {
                        let at = before.pane_indices@[other];
                        self.pane_indices@[other] == if removed < at <= index {
                            (at - 1) as usize
                        } else {
                            at
                        }
                    },
            decreases self.panes@.len() - index,
        {
            proof {
                assert(self.panes@[index as int] == before.panes@[index + 1]);
                assert(before.panes@[removed as int].id == id);
            }
            let ghost previous = self.pane_indices@;
            let moved = self.panes[index].id;
            self.pane_indices.insert(moved, index);
            proof {
                assert(before.pane_indices@[moved] == index + 1);
                assert(moved != id);
                assert forall|other: u64| #[trigger]
                    self.pane_indices@.contains_key(other) implies {
                    let at = before.pane_indices@[other];
                    self.pane_indices@[other] == if removed < at <= index + 1 {
                        (at - 1) as usize
                    } else {
                        at
                    }
                } by {
                    if other != moved {
                        assert(previous.contains_key(other));
                        let at = before.pane_indices@[other];
                        assert(before.panes@[at as int].id == other);
                        assert(at != index + 1);
                    }
                }
            }
            index = index + 1;
        }
        proof {
            assert forall|i: int| 0 <= i < self.panes@.len() implies {
                let pane = #[trigger] self.panes@[i];
                self.pane_indices@.contains_key(pane.id) && self.pane_indices@[pane.id] == i
            } by {
                let origin = if i < removed {
                    i
                } else {
                    i + 1
                };
                assert(self.panes@[i] == before.panes@[origin]);
                assert(before.pane_indices@[before.panes@[origin].id] == origin);
                assert(before.pane_indices@[id] == removed);
                assert(self.pane_indices@.contains_key(before.panes@[origin].id));
            }
            assert forall|other: u64| #[trigger]
                self.pane_indices@.contains_key(other) implies self.pane_indices@[other]
                < self.panes@.len() && self.panes@[self.pane_indices@[other] as int].id == other by {
                let at = before.pane_indices@[other] as int;
                assert(before.panes@[at].id == other);
                assert(at != removed);
            }
        }
        Some(pane)
    }

    /// The pane with the focus.
    pub fn active_pane(&self) -> (result: Option<&TerminalPane>)
        requires
            self.indexed(),
        ensures
            match self.index_of(self.active_pane) {
                Some(index) => result == Some(&self.panes@[index]),
                None => result is None,
            },
    {
        self.pane(self.active_pane)
    }

    /// The profile of the pane with the focus.
    pub fn active_profile(&self) -> (result: Option<&Profile>)
        requires
            self.indexed(),
        ensures
            match self.index_of(self.active_pane) {
                Some(index) => result == Some(&self.panes@[index].profile),
                None => result is None,
            },
    {
        match self.active_pane() {
            Some(pane) => Some(&pane.profile),
            None => None,
        }
    }

    /// The view that the pane with the focus shows.
    pub fn active_view(&self) -> (result: Option<u64>)
        requires
            self.indexed(),
        ensures
            match self.index_of(self.active_pane) {
                Some(index) => result == self.panes@[index].stack.shown(
                    self.panes@[index].view,
                    |entry: StackedPane| entry.view,
                ),
                None => result is None,
            },
    {
        match self.active_pane() {
            Some(pane) => pane.selected_view(),
            None => None,
        }
    }

    /// The terminal that the pane with the focus shows.
    pub fn active_terminal(&self) -> (result: Option<u64>)
        requires
            self.indexed(),
        ensures
            match self.index_of(self.active_pane) {
                Some(index) => result == self.panes@[index].stack.shown(
                    self.panes@[index].terminal,
                    |entry: StackedPane| entry.terminal,
                ),
                None => result is None,
            },
    {
        match self.active_pane() {
            Some(pane) => pane.selected_terminal(),
            None => None,
        }
    }

    /// Whether a text under edit is there and selected as a whole.
    pub open spec fn renaming_all(self) -> bool {
        self.rename_buffer matches Some(field) && field.select_all
    }

    fn rename_selected(&self) -> (result: bool)
        ensures
            result == self.renaming_all(),
    {
        match &self.rename_buffer {
            Some(field) => field.select_all,
            None => false,
        }
    }

    /// Whether `id` is the pane being renamed with its whole label selected.
    /// The pane's label carries the selection highlight, since the label is
    /// rendered as text rather than as a field.
    pub fn pane_rename_selected(&self, id: u64) -> (result: bool)
        ensures
            result == (self.renaming_pane == Some(id) && self.renaming_all()),
    {
        let renaming = match self.renaming_pane {
            Some(pane) => pane == id,
            None => false,
        };
        renaming && self.rename_selected()
    }

    /// The same for the tab title, which is renamed through the same buffer:
    /// `renaming_pane` is what distinguishes the two.
    pub fn tab_rename_selected(&self) -> (result: bool)
        ensures
            result == (self.renaming_pane is None && self.renaming_all()),
    {
        self.renaming_pane.is_none() && self.rename_selected()
    }

    /// The label that is shown for a pane: the one it goes by, or the text
    /// under edit while it is being renamed.
    pub open spec fn shown_label(self, id: u64) -> Option<Seq<char>> {
        match self.index_of(id) {
            None => None,
            Some(index) => if self.renaming_pane != Some(id) {
                Some(self.panes@[index].label_text())
            } else {
                match self.rename_buffer {
                    Some(field) => Some(field.marked@),
                    None => None,
                }
            },
        }
    }

    /// The label that is shown for a pane.
    pub fn displayed_pane_label(&self, id: u64) -> (result: Option<String>)
        requires
            self.indexed(),
        ensures
            optional_text(result) == self.shown_label(id),
    {
        match self.pane(id) {
            None => None,
            Some(pane) => {
                let renaming = match self.renaming_pane {
                    Some(pane) => pane == id,
                    None => false,
                };
                if !renaming {
                    return Some(pane.label());
                }
                match &self.rename_buffer {
                    Some(field) => Some(field.marked.clone()),
                    None => None,
                }
            },
        }
    }

    /// The overlay that is shown for a pane: its text, or the text under edit
    /// while it is being edited.
    pub open spec fn shown_overlay(self, id: u64) -> Option<Seq<char>> {
        match self.index_of(id) {
            None => None,
            Some(index) => if self.editing_overlay_pane != Some(id) {
                optional_text(self.panes@[index].overlay_text)
            } else {
                match self.overlay_buffer {
                    Some(field) => Some(field.marked@),
                    None => None,
                }
            },
        }
    }

    /// The pane's overlay text: the committed text normally, or the text under
    /// edit (with a cursor marker) while it is being edited. `None` means no
    /// overlay should be shown for this pane.
    pub fn displayed_pane_overlay(&self, id: u64) -> (result: Option<String>)
        requires
            self.indexed(),
        ensures
            optional_text(result) == self.shown_overlay(id),
    {
        match self.pane(id) {
            None => None,
            Some(pane) => {
                let editing = match self.editing_overlay_pane {
                    Some(pane) => pane == id,
                    None => false,
                };
                if !editing {
                    return clone_optional(&pane.overlay_text);
                }
                match &self.overlay_buffer {
                    Some(field) => Some(field.marked.clone()),
                    None => None,
                }
            },
        }
    }

    /// Puts the tab in order after the pane `closed` is gone from it: what was
    /// said of that pane is forgotten, something stays visible, and the focus
    /// finds a visible pane.
    pub fn restore_focus_after_close(&mut self, closed: u64, fallback: u64)
        requires
            old(self).indexed(),
        ensures
            ({
                let renaming_closed = old(self).renaming_pane == Some(closed);
                final(self).same_besides_focus(
                    Tab {
                        renaming_pane: if renaming_closed {
                            None
                        } else {
                            old(self).renaming_pane
                        },
                        rename_buffer: if renaming_closed {
                            None
                        } else {
                            old(self).rename_buffer
                        },
                        ..*old(self)
                    },
                )
            }),
            final(self).focus() == old(self).focus().after_close(
                old(self).ids(),
                old(self).layout,
                closed,
                fallback,
            ),
    {
        let ghost before = *self;
        let ghost left = before.focus().after_removal(before.ids(), closed);
        self.forget_closed(closed);
        let pane_count: usize = self.panes.len();
        let active = self.active_pane;
        proof {
            self.lemma_index_of(active);
        }
        if active != closed && self.pane(active).is_some() && !list_has(
            &self.minimized_panes,
            active,
        ) {
            return;
        }
        let next: u64 = match latest_not_minimized(
            &self.focus_history,
            &self.minimized_panes,
            None,
        ) {
            Some(id) => id,
            None => match self.visible_layout() {
                Some(layout) => {
                    proof {
                        lemma_layout_has_a_pane(layout);
                        if self.maximized_pane is None && self.minimized_panes@.len() == 0 {
                            assert forall|id: u64| self.minimized_panes@.to_set().contains(
                                id,
                            ) implies !self.layout.ids().contains(id) by {
                                assert(self.minimized_panes@.contains(id));
                            }
                            law_removal_of_absent_panes_is_nothing(
                                self.layout,
                                self.minimized_panes@.to_set(),
                            );
                        }
                        assert(Some(layout.ids().first()) == left.first_shown(
                            before.ids(),
                            before.layout,
                        ));
                    }
                    layout.first_pane()
                },
                None => match self.selected_minimized_pane {
                    Some(id) => id,
                    None => if pane_count > 0 {
                        self.panes[0].id
                    } else {
                        fallback
                    },
                },
            },
        };
        self.activate_pane(next);
    }

    /// Forgets what was said of a pane that is gone, and brings back the last
    /// minimized pane where nothing else is left.
    fn forget_closed(&mut self, closed: u64)
        requires
            old(self).indexed(),
        ensures
            ({
                let renaming_closed = old(self).renaming_pane == Some(closed);
                final(self).same_besides_focus(
                    Tab {
                        renaming_pane: if renaming_closed {
                            None
                        } else {
                            old(self).renaming_pane
                        },
                        rename_buffer: if renaming_closed {
                            None
                        } else {
                            old(self).rename_buffer
                        },
                        ..*old(self)
                    },
                )
            }),
            final(self).focus() == old(self).focus().after_removal(old(self).ids(), closed),
    {
        let ghost before = *self;
        if let Some(renaming) = self.renaming_pane {
            if renaming == closed {
                self.renaming_pane = None;
                self.rename_buffer = None;
            }
        }
        if let Some(maximized) = self.maximized_pane {
            if maximized == closed {
                self.maximized_pane = None;
            }
        }
        drop_id(&mut self.minimized_panes, closed);
        let pane_count: usize = self.panes.len();
        proof {
            assert(before.ids().len() == pane_count);
        }
        if pane_count > 0 && pane_count == self.minimized_panes.len() {
            let ghost minimized = self.minimized_panes@;
            match self.minimized_panes.pop() {
                Some(restored) => {
                    proof {
                        assert(self.minimized_panes@ == minimized.drop_last());
                    }
                    self.activate_pane(restored);
                },
                None => {},
            }
        }
        self.repair_minimized_selection();
        if pane_count == 1 {
            self.maximized_pane = None;
        }
        self.keep_surviving_history(closed);
    }

    /// Keeps of the focus history the panes that the tab still has, without
    /// the closed one.
    fn keep_surviving_history(&mut self, closed: u64)
        requires
            old(self).indexed(),
        ensures
            *final(self) == (Tab { focus_history: final(self).focus_history, ..*old(self) }),
            final(self).focus_history@ == surviving(
                old(self).focus_history@,
                old(self).ids(),
                closed,
            ),
    {
        let ghost ids = self.ids();
        let mut kept: Vec<u64> = Vec::new();
        let mut index: usize = 0;
        proof {
            reveal(Seq::filter);
            assert(surviving(self.focus_history@.take(0), ids, closed) == Seq::<u64>::empty());
        }
        while index < self.focus_history.len()
            invariant
                *self == *old(self),
                self.indexed(),
                ids == self.ids(),
                index <= self.focus_history@.len(),
                kept@ == surviving(self.focus_history@.take(index as int), ids, closed),
            decreases self.focus_history@.len() - index,
        {
            let id = self.focus_history[index];
            proof {
                reveal(Seq::filter);
                let longer = self.focus_history@.take(index + 1);
                assert(longer.drop_last() == self.focus_history@.take(index as int));
                assert(longer.last() == id);
                self.lemma_index_of(id);
            }
            if id != closed && self.pane(id).is_some() {
                kept.push(id);
            }
            index = index + 1;
        }
        proof {
            assert(self.focus_history@.take(index as int) == self.focus_history@);
        }
        self.focus_history = kept;
    }
}

/// The label that a list of labels gives a pane last, or the one it has.
pub open spec fn latest_label(
    labels: Seq<(u64, Option<String>)>,
    id: u64,
    current: Option<String>,
) -> Option<String>
    decreases labels.len(),
{
    if labels.len() == 0 {
        current
    } else if labels.last().0 == id {
        labels.last().1
    } else {
        latest_label(labels.drop_last(), id, current)
    }
}

/// What a filtered list has is what the list has that passes.
proof fn lemma_without_id(list: Seq<u64>, id: u64)
    ensures
        forall|other: u64| #[trigger]
            without_id(list, id).contains(other) <==> list.contains(other) && other != id,
        without_id(list, id).len() <= list.len(),
        list.no_duplicates() ==> without_id(list, id).no_duplicates(),
    decreases list.len(),
{
    reveal(Seq::filter);
    if list.len() > 0 {
        let shorter = list.drop_last();
        lemma_without_id(shorter, id);
        assert(list == shorter.push(list.last()));
        let rest = without_id(shorter, id);
        let result = without_id(list, id);
        assert forall|other: u64| #[trigger] result.contains(other) <==> list.contains(other)
            && other != id by {
            lemma_push_member(shorter, list.last(), other);
            lemma_push_member(rest, list.last(), other);
        }
        if list.no_duplicates() {
            assert forall|i: int, j: int| 0 <= i < shorter.len() && 0 <= j < shorter.len() && i
                != j implies shorter[i] != shorter[j] by {
                assert(list[i] != list[j]);
            }
            if list.last() != id {
                assert(!shorter.contains(list.last())) by {
                    if shorter.contains(list.last()) {
                        let i = choose|i: int|
                            0 <= i < shorter.len() && shorter[i] == list.last();
                        assert(list[i] == list[list.len() - 1]);
                    }
                }
                assert(!rest.contains(list.last()));
                lemma_push_distinct(rest, list.last());
            }
        }
    }
}

proof fn lemma_push_member(list: Seq<u64>, added: u64, id: u64)
    ensures
        list.push(added).contains(id) == (list.contains(id) || id == added),
{
    let longer = list.push(added);
    if list.contains(id) {
        let i = choose|i: int| 0 <= i < list.len() && list[i] == id;
        assert(longer[i] == id);
    }
    if id == added {
        assert(longer[list.len() as int] == id);
    }
    if longer.contains(id) {
        let i = choose|i: int| 0 <= i < longer.len() && longer[i] == id;
        if i < list.len() {
            assert(list[i] == id);
        }
    }
}

proof fn lemma_push_distinct(list: Seq<u64>, added: u64)
    requires
        list.no_duplicates(),
        !list.contains(added),
    ensures
        list.push(added).no_duplicates(),
{
    let longer = list.push(added);
    assert forall|i: int, j: int| 0 <= i < longer.len() && 0 <= j < longer.len() && i
        != j implies longer[i] != longer[j] by {
        if i < list.len() && j < list.len() {
            assert(list[i] != list[j]);
        } else if i < list.len() {
            assert(list[i] != added);
        } else {
            assert(list[j] != added);
        }
    }
}

proof fn lemma_remove_distinct(list: Seq<u64>, index: int)
    requires
        list.no_duplicates(),
        0 <= index < list.len(),
    ensures
        list.remove(index).no_duplicates(),
        forall|id: u64| #[trigger]
            list.remove(index).contains(id) <==> list.contains(id) && id != list[index],
{
    let rest = list.remove(index);
    assert forall|i: int, j: int| 0 <= i < rest.len() && 0 <= j < rest.len() && i
        != j implies rest[i] != rest[j] by {
        let a = if i < index {
            i
        } else {
            i + 1
        };
        let b = if j < index {
            j
        } else {
            j + 1
        };
        assert(list[a] != list[b]);
    }
    assert forall|id: u64| #[trigger] rest.contains(id) <==> list.contains(id) && id
        != list[index] by {
        if rest.contains(id) {
            let i = choose|i: int| 0 <= i < rest.len() && rest[i] == id;
            let a = if i < index {
                i
            } else {
                i + 1
            };
            assert(list[a] == id);
        }
        if list.contains(id) && id != list[index] {
            let a = choose|a: int| 0 <= a < list.len() && list[a] == id;
            let i = if a < index {
                a
            } else {
                a - 1
            };
            assert(rest[i] == id);
        }
    }
}

/// Activating a visible pane keeps a tab in order.
proof fn lemma_activating_keeps_order(state: FocusState, ids: Seq<u64>, id: u64)
    requires
        forall|other: u64| #[trigger] state.history.contains(other) ==> ids.contains(other),
        ids.contains(id),
    ensures
        forall|other: u64| #[trigger]
            state.activated(ids, id).history.contains(other) ==> ids.contains(other),
{
    lemma_without_id(state.history, id);
    assert forall|other: u64| #[trigger]
        state.activated(ids, id).history.contains(other) implies ids.contains(other) by {
        lemma_push_member(without_id(state.history, id), id, other);
        if without_id(state.history, id).contains(other) {
            assert(state.history.contains(other));
        }
    }
}

proof fn lemma_latest_visible(history: Seq<u64>, minimized: Seq<u64>, excluded: Option<u64>)
    ensures
        latest_visible(history, minimized, excluded) matches Some(id) ==> history.contains(id)
            && !minimized.contains(id),
    decreases history.len(),
{
    if history.len() > 0 {
        let shorter = history.drop_last();
        lemma_latest_visible(shorter, minimized, excluded);
        if !minimized.contains(history.last()) && Some(history.last()) != excluded {
            assert(history[history.len() - 1] == history.last());
        } else if let Some(id) = latest_visible(shorter, minimized, excluded) {
            let i = choose|i: int| 0 <= i < shorter.len() && shorter[i] == id;
            assert(history[i] == id);
        }
    }
}

proof fn lemma_repaired(minimized: Seq<u64>, selected: Option<u64>)
    ensures
        match repaired(minimized, selected) {
            Some(id) => minimized.contains(id),
            None => minimized.len() == 0,
        },
{
    if minimized.len() > 0 {
        assert(minimized[minimized.len() - 1] == minimized.last());
    }
}

proof fn lemma_minimizing_keeps_order(tab: Tab, pane_id: u64)
    requires
        tab.wf(),
        tab.ids().contains(pane_id),
        !tab.minimized_panes@.contains(pane_id),
        tab.visible_count() > 1,
    ensures
        ({
            let next = tab.focus().focus_after_minimizing(tab.layout.ids(), pane_id);
            &&& next is Some
            &&& FocusState {
                maximized: None,
                minimized: tab.minimized_panes@.push(pane_id),
                selected: Some(pane_id),
                ..tab.focus()
            }.activated(tab.ids(), next->0).wf(tab.ids())
        }),
{
    let minimized = tab.minimized_panes@.push(pane_id);
    let state = FocusState {
        maximized: None,
        minimized,
        selected: Some(pane_id),
        ..tab.focus()
    };
    lemma_push_distinct(tab.minimized_panes@, pane_id);
    assert forall|id: u64| #[trigger] minimized.contains(id) implies tab.ids().contains(id) by {
        lemma_push_member(tab.minimized_panes@, pane_id, id);
    }
    lemma_push_member(tab.minimized_panes@, pane_id, pane_id);
    lemma_latest_visible(tab.focus_history@, minimized, Some(pane_id));
    lemma_some_pane_visible(tab, pane_id);
    let next = tab.focus().focus_after_minimizing(tab.layout.ids(), pane_id)->0;
    lemma_activating_keeps_order(state, tab.ids(), next);
}

proof fn lemma_restoring_keeps_order(state: FocusState, ids: Seq<u64>, pane_id: u64)
    requires
        state.wf(ids),
        state.minimized.contains(pane_id),
    ensures
        state.restored(ids, pane_id).wf(ids),
{
    lemma_first_index_found(state.minimized, pane_id);
    let index = first_index(state.minimized, pane_id);
    let rest = state.minimized.remove(index);
    lemma_remove_distinct(state.minimized, index);
    lemma_repaired(rest, state.selected);
    if rest.len() > 0 {
        vstd::arithmetic::div_mod::lemma_mod_bound(index, rest.len() as int);
        assert(rest.contains(rest[index % (rest.len() as int)]));
    }
    let selected = if state.selected == Some(pane_id) {
        if rest.len() == 0 {
            None
        } else {
            Some(rest[index % (rest.len() as int)])
        }
    } else {
        repaired(rest, state.selected)
    };
    let kept = FocusState { minimized: rest, selected, maximized: None, ..state };
    lemma_activating_keeps_order(kept, ids, pane_id);
}

proof fn lemma_maximizing_keeps_order(state: FocusState, ids: Seq<u64>, pane_id: u64)
    requires
        state.wf(ids),
        ids.contains(pane_id),
    ensures
        ({
            let minimized = without_id(state.minimized, pane_id);
            FocusState {
                minimized,
                selected: repaired(minimized, state.selected),
                maximized: if state.maximized == Some(pane_id) {
                    None
                } else {
                    Some(pane_id)
                },
                ..state
            }.activated(ids, pane_id).wf(ids)
        }),
{
    lemma_without_id(state.minimized, pane_id);
    let minimized = without_id(state.minimized, pane_id);
    lemma_repaired(minimized, state.selected);
    let kept = FocusState {
        minimized,
        selected: repaired(minimized, state.selected),
        maximized: if state.maximized == Some(pane_id) {
            None
        } else {
            Some(pane_id)
        },
        ..state
    };
    lemma_activating_keeps_order(kept, ids, pane_id);
}

/// Whether a tab has just lost a pane: it has others, its layout has just
/// those, and only what is shown and focused may still name the lost one.
pub open spec fn has_lost(tab: Tab, closed: u64) -> bool {
    &&& tab.indexed()
    &&& same_members(tab.layout.ids(), tab.ids())
    &&& tab.ids().len() > 0
    &&& !tab.ids().contains(closed)
    &&& tab.minimized_panes@.no_duplicates()
    &&& forall|id: u64| #[trigger]
        tab.minimized_panes@.contains(id) ==> id == closed || tab.ids().contains(id)
    &&& tab.maximized_pane matches Some(id) ==> id == closed || (tab.ids().contains(id)
        && !tab.minimized_panes@.contains(id))
}

/// Closing a pane leaves a tab in order: something is visible, and a visible
/// pane has the focus.
pub proof fn law_close_leaves_tab_in_order(tab: Tab, closed: u64, fallback: u64)
    requires
        has_lost(tab, closed),
    ensures
        tab.focus().after_close(tab.ids(), tab.layout, closed, fallback).wf(tab.ids()),
{
    let ids = tab.ids();
    tab.lemma_index_of(closed);
    let minimized = without_id(tab.minimized_panes@, closed);
    lemma_without_id(tab.minimized_panes@, closed);
    assert(minimized.no_duplicates());
    lemma_distinct_ids_fit(minimized, ids);
    let left = tab.focus().after_removal(ids, closed);
    if ids.len() == minimized.len() {
        let last = minimized.last();
        assert(minimized[minimized.len() - 1] == last);
        assert(minimized.contains(last));
        assert(minimized.drop_last() == minimized.remove(minimized.len() - 1));
        lemma_remove_distinct(minimized, minimized.len() - 1);
    }
    assert(left.minimized.no_duplicates());
    assert(left.minimized.len() < ids.len());
    assert forall|id: u64| #[trigger] left.minimized.contains(id) implies ids.contains(id)
        && minimized.contains(id) by {}
    lemma_repaired(left.minimized, left.selected);
    lemma_repaired(left.minimized, tab.selected_minimized_pane);
    let gathered = if ids.len() == minimized.len() {
        without_id(tab.focus_history@, minimized.last()).push(minimized.last())
    } else {
        tab.focus_history@
    };
    lemma_surviving(gathered, ids, closed);
    assert(left.history == surviving(gathered, ids, closed));
    if !(left.active != closed && ids.contains(left.active) && !left.minimized.contains(
        left.active,
    )) {
        lemma_latest_visible(left.history, left.minimized, None);
        let next = left.focus_after_close(ids, tab.layout, fallback);
        if latest_visible(left.history, left.minimized, None) is None && left.maximized is None {
            let gone = left.minimized.to_set();
            crate::pane::layout_laws::law_removal_keeps_the_others(tab.layout, gone);
            let keep = |id: u64| !gone.contains(id);
            if tab.layout.removed(gone) is None {
                assert forall|id: u64| #[trigger] ids.contains(id) implies left.minimized.contains(
                    id,
                ) by {
                    assert(tab.layout.ids().contains(id));
                    if !gone.contains(id) {
                        lemma_filter_member(tab.layout.ids(), keep, id);
                    }
                }
                lemma_distinct_ids_fit(ids, left.minimized);
                assert(false);
            }
            let visible = tab.layout.removed(gone)->0;
            lemma_layout_has_a_pane(visible);
            let first = visible.ids().first();
            assert(visible.ids()[0] == first);
            assert(visible.ids().contains(first));
            lemma_filter_member(tab.layout.ids(), keep, first);
            assert(ids.contains(first) && !left.minimized.contains(first));
        }
        lemma_activating_keeps_order(left, ids, next);
    }
}

proof fn lemma_filter_member(list: Seq<u64>, keep: spec_fn(u64) -> bool, id: u64)
    ensures
        list.filter(keep).contains(id) == (list.contains(id) && keep(id)),
    decreases list.len(),
{
    reveal(Seq::filter);
    if list.len() > 0 {
        let shorter = list.drop_last();
        lemma_filter_member(shorter, keep, id);
        assert(list == shorter.push(list.last()));
        lemma_push_member(shorter, list.last(), id);
        lemma_push_member(shorter.filter(keep), list.last(), id);
    }
}

proof fn lemma_surviving(history: Seq<u64>, ids: Seq<u64>, closed: u64)
    ensures
        forall|id: u64| #[trigger]
            surviving(history, ids, closed).contains(id) ==> ids.contains(id) && id != closed,
{
    assert forall|id: u64| #[trigger]
        surviving(history, ids, closed).contains(id) implies ids.contains(id) && id != closed by {
        lemma_filter_member(history, |id: u64| id != closed && ids.contains(id), id);
    }
}

/// Bringing a pane back undoes minimizing it: the same panes are minimized.
pub proof fn law_restoring_undoes_minimizing(
    state: FocusState,
    ids: Seq<u64>,
    layout_ids: Seq<u64>,
    pane_id: u64,
)
    requires
        state.wf(ids),
        ids.contains(pane_id),
        !state.minimized.contains(pane_id),
    ensures
        ({
            let minimized = FocusState {
                maximized: None,
                minimized: state.minimized.push(pane_id),
                selected: Some(pane_id),
                ..state
            }.activated(ids, state.focus_after_minimizing(layout_ids, pane_id)->0);
            let back = minimized.restored(ids, pane_id);
            back.minimized == state.minimized && back.active == pane_id
        }),
{
    let list = state.minimized.push(pane_id);
    lemma_first_index(list, pane_id, state.minimized.len() as int);
    assert(list.remove(state.minimized.len() as int) =~= state.minimized);
}

} // verus!
