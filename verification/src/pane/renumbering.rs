//! Renumbering a tab that enters a window.

use std::collections::HashMap;

use vstd::prelude::*;

use crate::pane::stack::{entry_ids, selects_among, PaneStack, PaneStackSelection, StackedPane};
use crate::pane::tab::{pane_ids, Tab};
use crate::pane::TerminalPane;

verus! {

/// How many stack entries the first `count` panes have.
pub open spec fn entries_before(panes: Seq<TerminalPane>, count: int) -> int
    decreases count,
{
    if count <= 0 {
        0
    } else {
        entries_before(panes, count - 1) + panes[count - 1].stack.entries@.len()
    }
}

/// How many ids a tab needs: one per pane and one per stack entry.
pub open spec fn ids_needed(panes: Seq<TerminalPane>) -> int {
    panes.len() + entries_before(panes, panes.len() as int)
}

/// The selection after entries with the given ids got the numbers from
/// `start` on, one after the other. Each entry takes the selection along.
pub open spec fn followed(ids: Seq<u64>, start: int, selection: PaneStackSelection) -> PaneStackSelection
    decreases ids.len(),
{
    if ids.len() == 0 {
        selection
    } else {
        let before = followed(ids.drop_last(), start, selection);
        if before == PaneStackSelection::Stacked(ids.last()) {
            PaneStackSelection::Stacked((start + ids.len() - 1) as u64)
        } else {
            before
        }
    }
}

/// Whether `after` is `before` with its entries numbered from `start` on. What
/// is selected follows its entry; where that is not there, the last entry is
/// selected, or the base.
pub open spec fn stack_renumbered(before: PaneStack, after: PaneStack, start: int) -> bool {
    let moved = followed(entry_ids(before.entries@), start, before.selected);
    &&& after.entries@.len() == before.entries@.len()
    &&& forall|j: int|
        0 <= j < before.entries@.len() ==> #[trigger] after.entries@[j] == (StackedPane {
            id: (start + j) as u64,
            ..before.entries@[j]
        })
    &&& after.selected == if selects_among(entry_ids(after.entries@), moved) {
        moved
    } else if after.entries@.len() > 0 {
        PaneStackSelection::Stacked((start + after.entries@.len() - 1) as u64)
    } else {
        PaneStackSelection::Base
    }
}

/// Whether `after` are the panes `before` with new ids: the panes from `start`
/// on, and then their stack entries, pane by pane.
pub open spec fn panes_renumbered(
    before: Seq<TerminalPane>,
    after: Seq<TerminalPane>,
    start: int,
) -> bool {
    &&& after.len() == before.len()
    &&& forall|i: int|
        0 <= i < before.len() ==> {
            let pane = #[trigger] after[i];
            &&& pane == (TerminalPane { id: (start + i) as u64, stack: pane.stack, ..before[i] })
            &&& stack_renumbered(
                before[i].stack,
                pane.stack,
                start + before.len() + entries_before(before, i),
            )
        }
}

/// Whether the map tells the new id of each pane.
pub open spec fn maps_ids(before: Seq<TerminalPane>, map: Map<u64, u64>, start: int) -> bool {
    &&& forall|i: int|
        0 <= i < before.len() ==> {
            let pane = #[trigger] before[i];
            map.contains_key(pane.id) && map[pane.id] == start + i
        }
    &&& forall|id: u64| #[trigger] map.contains_key(id) ==> pane_ids(before).contains(id)
}

/// The ids of a list that the map knows, by their new names.
pub open spec fn renamed_list(list: Seq<u64>, map: Map<u64, u64>) -> Seq<u64>
    decreases list.len(),
{
    if list.len() == 0 {
        Seq::empty()
    } else {
        let before = renamed_list(list.drop_last(), map);
        if map.contains_key(list.last()) {
            before.push(map[list.last()])
        } else {
            before
        }
    }
}

/// The new name of an id, where the map knows it.
pub open spec fn renamed_id(id: Option<u64>, map: Map<u64, u64>) -> Option<u64> {
    match id {
        Some(id) if map.contains_key(id) => Some(map[id]),
        _ => None,
    }
}

fn rename_list(list: &Vec<u64>, map: &HashMap<u64, u64>) -> (result: Vec<u64>)
    ensures
        result@ == renamed_list(list@, map@),
{
    broadcast use vstd::std_specs::hash::group_hash_axioms;

    let mut result: Vec<u64> = Vec::new();
    let mut index: usize = 0;
    proof {
        assert(renamed_list(list@.take(0), map@) == Seq::<u64>::empty());
    }
    while index < list.len()
        invariant
            index <= list@.len(),
            result@ == renamed_list(list@.take(index as int), map@),
        decreases list@.len() - index,
    {
        proof {
            let longer = list@.take(index + 1);
            assert(longer.drop_last() == list@.take(index as int));
            assert(longer.last() == list@[index as int]);
        }
        if let Some(id) = map.get(&list[index]) {
            result.push(*id);
        }
        index = index + 1;
    }
    proof {
        assert(list@.take(index as int) == list@);
    }
    result
}

fn rename_id(id: Option<u64>, map: &HashMap<u64, u64>) -> (result: Option<u64>)
    ensures
        result == renamed_id(id, map@),
{
    broadcast use vstd::std_specs::hash::group_hash_axioms;

    match id {
        Some(id) => match map.get(&id) {
            Some(id) => Some(*id),
            None => None,
        },
        None => None,
    }
}

/// Numbers the entries of a stack from `*next` on.
fn renumber_stack(stack: &mut PaneStack, next: &mut u64)
    requires
        *old(next) + old(stack).entries@.len() <= u64::MAX,
    ensures
        *final(next) == *old(next) + old(stack).entries@.len(),
        stack_renumbered(*old(stack), *final(stack), *old(next) as int),
{
    let ghost before = *stack;
    let ghost ids = entry_ids(before.entries@);
    let ghost start = *next as int;
    let mut index: usize = 0;
    while index < stack.entries.len()
        invariant
            before == *old(stack),
            ids == entry_ids(before.entries@),
            start == *old(next),
            start + before.entries@.len() <= u64::MAX,
            index <= stack.entries@.len(),
            stack.entries@.len() == before.entries@.len(),
            *next == start + index,
            forall|j: int|
                0 <= j < index ==> #[trigger] stack.entries@[j] == (StackedPane {
                    id: (start + j) as u64,
                    ..before.entries@[j]
                }),
            forall|j: int|
                index <= j < before.entries@.len() ==> #[trigger] stack.entries@[j]
                    == before.entries@[j],
            stack.selected == followed(ids.take(index as int), start, before.selected),
        decreases stack.entries@.len() - index,
    {
        let old_id = stack.entries[index].id;
        let new_id = *next;
        proof {
            let longer = ids.take(index + 1);
            assert(longer.drop_last() == ids.take(index as int));
            assert(longer.last() == old_id);
        }
        stack.entries[index].id = new_id;
        *next = new_id + 1;
        if stack.selected == PaneStackSelection::Stacked(old_id) {
            stack.selected = PaneStackSelection::Stacked(new_id);
        }
        index = index + 1;
    }
    proof {
        assert(ids.take(index as int) == ids);
        if stack.entries@.len() > 0 {
            assert(stack.ids().last() == stack.entries@.last().id);
        }
    }
    stack.repair_selection();
}

impl Tab {
    /// Renumbers a tab that is entering this window, and reports how.
    ///
    /// Every window-scoped registry is keyed by pane id alone — the multiplexer
    /// pane map, the shared-pane registry, pane controls, the project registry
    /// — so a tab arriving with another window's pane ids shares those entries
    /// with whatever tab already holds them. The returned map is old id to new
    /// id, for callers holding anything else addressed by the old ones.
    pub fn reassign_ids(&mut self, tab_id: u64, next_pane_id: &mut u64) -> (result: HashMap<
        u64,
        u64,
    >)
        requires
            old(self).indexed(),
            forall|id: u64| #[trigger]
                old(self).layout.ids().contains(id) ==> old(self).ids().contains(id),
            old(self).ids().contains(old(self).active_pane),
            *old(next_pane_id) + ids_needed(old(self).panes@) <= u64::MAX,
        ensures
            *final(next_pane_id) == *old(next_pane_id) + ids_needed(old(self).panes@),
            panes_renumbered(old(self).panes@, final(self).panes@, *old(next_pane_id) as int),
            maps_ids(old(self).panes@, result@, *old(next_pane_id) as int),
            final(self).indexed(),
            final(self).layout == old(self).layout.renamed(|id: u64| result@[id]),
            final(self).active_pane == result@[old(self).active_pane],
            final(self).focus_history@ == renamed_list(old(self).focus_history@, result@),
            final(self).maximized_pane == renamed_id(old(self).maximized_pane, result@),
            final(self).minimized_panes@ == renamed_list(old(self).minimized_panes@, result@),
            final(self).selected_minimized_pane == renamed_id(
                old(self).selected_minimized_pane,
                result@,
            ),
            *final(self) == (Tab {
                id: tab_id,
                panes: final(self).panes,
                pane_indices: final(self).pane_indices,
                layout: final(self).layout,
                active_pane: final(self).active_pane,
                focus_history: final(self).focus_history,
                maximized_pane: final(self).maximized_pane,
                minimized_panes: final(self).minimized_panes,
                selected_minimized_pane: final(self).selected_minimized_pane,
                renaming_pane: None,
                rename_buffer: None,
                editing_overlay_pane: None,
                overlay_buffer: None,
                overlay_style_picker: None,
                ..*old(self)
            }),
    {
        broadcast use vstd::std_specs::hash::group_hash_axioms;

        let ghost before = *self;
        self.id = tab_id;
        let renamed = self.renumber_panes(next_pane_id);
        proof {
            before.lemma_index_of(before.active_pane);
            let at = before.pane_indices@[before.active_pane] as int;
            assert(before.panes@[at].id == before.active_pane);
            assert forall|id: u64| self.layout.ids().contains(id) implies renamed@.contains_key(
                id,
            ) by {
                before.lemma_index_of(id);
                assert(before.ids().contains(id));
                assert(before.panes@[before.pane_indices@[id] as int].id == id);
            }
        }
        self.layout.remap_pane_ids(&renamed);
        self.active_pane = match renamed.get(&self.active_pane) {
            Some(id) => *id,
            None => self.active_pane,
        };
        self.focus_history = rename_list(&self.focus_history, &renamed);
        self.maximized_pane = rename_id(self.maximized_pane, &renamed);
        self.minimized_panes = rename_list(&self.minimized_panes, &renamed);
        self.selected_minimized_pane = rename_id(self.selected_minimized_pane, &renamed);
        self.renaming_pane = None;
        self.rename_buffer = None;
        self.editing_overlay_pane = None;
        self.overlay_buffer = None;
        self.overlay_style_picker = None;
        renamed
    }

    /// Numbers the panes, then their stack entries, and indexes the panes.
    fn renumber_panes(&mut self, next_pane_id: &mut u64) -> (result: HashMap<u64, u64>)
        requires
            old(self).indexed(),
            *old(next_pane_id) + ids_needed(old(self).panes@) <= u64::MAX,
        ensures
            *final(next_pane_id) == *old(next_pane_id) + ids_needed(old(self).panes@),
            panes_renumbered(old(self).panes@, final(self).panes@, *old(next_pane_id) as int),
            maps_ids(old(self).panes@, result@, *old(next_pane_id) as int),
            final(self).indexed(),
            *final(self) == (Tab {
                panes: final(self).panes,
                pane_indices: final(self).pane_indices,
                ..*old(self)
            }),
    {
        broadcast use vstd::std_specs::hash::group_hash_axioms;

        let ghost before = *self;
        let ghost start = *next_pane_id as int;
        let ghost count = before.panes@.len() as int;
        proof {
            lemma_entries_grow(before.panes@, 0, count);
        }
        let mut renamed: HashMap<u64, u64> = HashMap::new();
        let mut indices: HashMap<u64, usize> = HashMap::new();
        let mut index: usize = 0;
        while index < self.panes.len()
            invariant
                before == *old(self),
                before.indexed(),
                start == *old(next_pane_id),
                count == before.panes@.len(),
                start + ids_needed(before.panes@) <= u64::MAX,
                0 <= entries_before(before.panes@, count),
                index <= self.panes@.len(),
                self.panes@.len() == count,
                *next_pane_id == start + index,
                *self == (Tab { panes: self.panes, ..before }),
                forall|i: int|
                    0 <= i < index ==> #[trigger] self.panes@[i] == (TerminalPane {
                        id: (start + i) as u64,
                        ..before.panes@[i]
                    }),
                forall|i: int| index <= i < count ==> #[trigger] self.panes@[i] == before.panes@[i],
                forall|i: int|
                    0 <= i < index ==> {
                        let pane = #[trigger] before.panes@[i];
                        renamed@.contains_key(pane.id) && renamed@[pane.id] == start + i
                    },
                forall|id: u64| #[trigger]
                    renamed@.contains_key(id) ==> pane_ids(before.panes@).contains(id),
                forall|i: int|
                    0 <= i < index ==> #[trigger] indices@.contains_key((start + i) as u64)
                        && indices@[(start + i) as u64] == i,
                forall|id: u64| #[trigger]
                    indices@.contains_key(id) ==> start <= id < start + index && indices@[id] == id
                        - start,
            decreases count - index,
        {
            let old_id = self.panes[index].id;
            let new_id = *next_pane_id;
            let ghost known = renamed@;
            let ghost placed = indices@;
            self.panes[index].id = new_id;
            *next_pane_id = new_id + 1;
            renamed.insert(old_id, new_id);
            indices.insert(new_id, index);
            proof {
                assert(old_id == before.panes@[index as int].id);
                assert(pane_ids(before.panes@)[index as int] == old_id);
                assert forall|i: int| 0 <= i < index + 1 implies {
                    let pane = #[trigger] before.panes@[i];
                    renamed@.contains_key(pane.id) && renamed@[pane.id] == start + i
                } by {
                    if i < index {
                        assert(before.pane_indices@[before.panes@[i].id] == i);
                        assert(before.pane_indices@[old_id] == index);
                    }
                }
                assert forall|i: int| 0 <= i < index + 1 implies #[trigger] indices@.contains_key(
                    (start + i) as u64,
                ) && indices@[(start + i) as u64] == i by {
                    if i < index {
                        assert(placed.contains_key((start + i) as u64));
                    }
                }
            }
            index = index + 1;
        }
        let ghost middle = self.panes@;
        let mut index: usize = 0;
        while index < self.panes.len()
            invariant
                start == *old(next_pane_id),
                before == *old(self),
                count == before.panes@.len(),
                start + ids_needed(before.panes@) <= u64::MAX,
                index <= self.panes@.len(),
                self.panes@.len() == count,
                middle.len() == count,
                *next_pane_id == start + count + entries_before(before.panes@, index as int),
                *self == (Tab { panes: self.panes, ..before }),
                forall|i: int|
                    0 <= i < count ==> #[trigger] middle[i] == (TerminalPane {
                        id: (start + i) as u64,
                        ..before.panes@[i]
                    }),
                forall|i: int| index <= i < count ==> #[trigger] self.panes@[i] == middle[i],
                forall|i: int|
                    0 <= i < index ==> {
                        let pane = #[trigger] self.panes@[i];
                        &&& pane == (TerminalPane {
                            id: (start + i) as u64,
                            stack: pane.stack,
                            ..before.panes@[i]
                        })
                        &&& stack_renumbered(
                            before.panes@[i].stack,
                            pane.stack,
                            start + count + entries_before(before.panes@, i),
                        )
                    },
            decreases count - index,
        {
            proof {
                assert(self.panes@[index as int] == middle[index as int]);
                lemma_entries_grow(before.panes@, index + 1, count);
            }
            renumber_stack(&mut self.panes[index].stack, next_pane_id);
            index = index + 1;
        }
        self.pane_indices = indices;
        proof {
            assert forall|i: int| 0 <= i < self.panes@.len() implies {
                let pane = #[trigger] self.panes@[i];
                self.pane_indices@.contains_key(pane.id) && self.pane_indices@[pane.id] == i
            } by {
                assert(indices@.contains_key((start + i) as u64));
            }
            assert forall|id: u64| #[trigger]
                self.pane_indices@.contains_key(id) implies self.pane_indices@[id]
                < self.panes@.len() && self.panes@[self.pane_indices@[id] as int].id == id by {
                let at = self.pane_indices@[id] as int;
                assert(self.panes@[at].id == (start + at) as u64);
            }
        }
        renamed
    }
}

proof fn lemma_entries_grow(panes: Seq<TerminalPane>, fewer: int, more: int)
    requires
        0 <= fewer <= more,
    ensures
        0 <= entries_before(panes, fewer) <= entries_before(panes, more),
    decreases more,
{
    if fewer < more {
        lemma_entries_grow(panes, fewer, more - 1);
    } else if more > 0 {
        lemma_entries_grow(panes, more - 1, more - 1);
    }
}

/// Where entries have distinct ids and none of them is among the new ones, what
/// was selected stays selected under its new id.
pub proof fn law_selection_follows_its_entry(ids: Seq<u64>, start: int, chosen: int)
    requires
        ids.no_duplicates(),
        0 <= chosen < ids.len(),
        0 <= start,
        start + ids.len() <= u64::MAX,
        forall|j: int| 0 <= j < ids.len() ==> !(start <= #[trigger] ids[j] < start + ids.len()),
    ensures
        followed(ids, start, PaneStackSelection::Stacked(ids[chosen]))
            == PaneStackSelection::Stacked((start + chosen) as u64),
    decreases ids.len(),
{
    let shorter = ids.drop_last();
    let selection = PaneStackSelection::Stacked(ids[chosen]);
    assert forall|i: int, j: int| 0 <= i < shorter.len() && 0 <= j < shorter.len() && i
        != j implies shorter[i] != shorter[j] by {
        assert(ids[i] != ids[j]);
    }
    assert forall|j: int| 0 <= j < shorter.len() implies !(start <= #[trigger] shorter[j] < start
        + shorter.len()) by {
        assert(shorter[j] == ids[j]);
    }
    if chosen < ids.len() - 1 {
        assert(shorter[chosen] == ids[chosen]);
        law_selection_follows_its_entry(shorter, start, chosen);
        assert(!(start <= ids[ids.len() - 1] < start + ids.len()));
    } else {
        lemma_unrelated_selection_stays(shorter, start, ids[chosen]);
    }
}

proof fn lemma_unrelated_selection_stays(ids: Seq<u64>, start: int, id: u64)
    requires
        !ids.contains(id),
    ensures
        followed(ids, start, PaneStackSelection::Stacked(id)) == PaneStackSelection::Stacked(id),
    decreases ids.len(),
{
    if ids.len() > 0 {
        let shorter = ids.drop_last();
        if shorter.contains(id) {
            let i = choose|i: int| 0 <= i < shorter.len() && shorter[i] == id;
            assert(ids[i] == id);
        }
        assert(ids[ids.len() - 1] != id);
        lemma_unrelated_selection_stays(shorter, start, id);
    }
}

} // verus!
