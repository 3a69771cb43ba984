//! What holds of a tab's panes as they get the focus and lose it.

use vstd::prelude::*;

use crate::pane::layout::PaneLayout;
use crate::pane::stack::{first_index, lemma_first_index};
use crate::pane::tab::{
    first_visible, latest_label, latest_visible, repaired, surviving, without_id, FocusState, Tab,
};

verus! {

proof fn lemma_without_pushed(list: Seq<u64>, last: u64, id: u64)
    ensures
        without_id(list.push(last), id) == if last != id {
            without_id(list, id).push(last)
        } else {
            without_id(list, id)
        },
{
    reveal(Seq::filter);
    assert(list.push(last).drop_last() =~= list);
}

proof fn lemma_surviving_pushed(list: Seq<u64>, last: u64, ids: Seq<u64>, closed: u64)
    ensures
        surviving(list.push(last), ids, closed) == if last != closed && ids.contains(last) {
            surviving(list, ids, closed).push(last)
        } else {
            surviving(list, ids, closed)
        },
{
    reveal(Seq::filter);
    assert(list.push(last).drop_last() =~= list);
}

proof fn lemma_without_has(list: Seq<u64>, gone: u64, id: u64)
    ensures
        without_id(list, gone).contains(id) == (list.contains(id) && id != gone),
    decreases list.len(),
{
    if list.len() > 0 {
        let shorter = list.drop_last();
        let last = list.last();
        lemma_without_has(shorter, gone, id);
        assert(list =~= shorter.push(last));
        lemma_without_pushed(shorter, last, gone);
        lemma_pushed(shorter, last, id);
        lemma_pushed(without_id(shorter, gone), last, id);
    } else {
        reveal(Seq::filter);
    }
}

proof fn lemma_pushed(list: Seq<u64>, last: u64, id: u64)
    ensures
        list.push(last).contains(id) == (list.contains(id) || id == last),
{
    let longer = list.push(last);
    assert(longer[list.len() as int] == last);
    if list.contains(id) {
        let i = choose|i: int| 0 <= i < list.len() && list[i] == id;
        assert(longer[i] == id);
    }
    if longer.contains(id) {
        let i = choose|i: int| 0 <= i < longer.len() && longer[i] == id;
        if i < list.len() {
            assert(list[i] == id);
        }
    }
}

/// A pane that is activated has the focus and is the latest to have had it; no
/// other pane is forgotten, and nothing is shown or hidden by it. A pane that is
/// not there is not activated.
pub proof fn law_activation_is_remembered(
    state: FocusState,
    ids: Seq<u64>,
    id: u64,
    other: u64,
)
    ensures
        ids.contains(id) ==> {
            let next = state.activated(ids, id);
            &&& next.active == id
            &&& next.history.len() > 0
            &&& next.history.last() == id
            &&& !next.history.drop_last().contains(id)
            &&& other != id ==> next.history.contains(other) == state.history.contains(other)
            &&& next.maximized == state.maximized
            &&& next.minimized == state.minimized
            &&& next.selected == state.selected
        },
        !ids.contains(id) ==> state.activated(ids, id) == state,
{
    if ids.contains(id) {
        let rest = without_id(state.history, id);
        let next = rest.push(id);
        assert(next.drop_last() =~= rest);
        lemma_without_has(state.history, id, id);
        lemma_without_has(state.history, id, other);
        lemma_pushed(rest, id, other);
    }
}

/// The pane that is chosen out of those that had the focus is the one that had it
/// last among those that can be chosen.
pub proof fn law_latest_pane_is_chosen(
    history: Seq<u64>,
    minimized: Seq<u64>,
    excluded: Option<u64>,
)
    ensures
        match latest_visible(history, minimized, excluded) {
            Some(id) => exists|i: int| #![trigger history[i]]
                0 <= i < history.len() && history[i] == id && !minimized.contains(id) && Some(id)
                    != excluded && forall|j: int|
                    i < j < history.len() ==> minimized.contains(#[trigger] history[j]) || Some(
                        history[j],
                    ) == excluded,
            None => forall|j: int|
                0 <= j < history.len() ==> minimized.contains(#[trigger] history[j]) || Some(
                    history[j],
                ) == excluded,
        },
    decreases history.len(),
{
    if history.len() > 0 {
        let last = history.len() - 1;
        if !minimized.contains(history.last()) && Some(history.last()) != excluded {
            assert(history[last] == history.last());
        } else {
            let shorter = history.drop_last();
            law_latest_pane_is_chosen(shorter, minimized, excluded);
            assert(history[last] == history.last());
            assert forall|j: int| 0 <= j < shorter.len() implies #[trigger] history[j]
                == shorter[j] by {}
            if let Some(id) = latest_visible(shorter, minimized, excluded) {
                let i = choose|i: int| #![trigger shorter[i]]
                    0 <= i < shorter.len() && shorter[i] == id && !minimized.contains(id) && Some(id)
                        != excluded && forall|j: int|
                        i < j < shorter.len() ==> minimized.contains(#[trigger] shorter[j]) || Some(
                            shorter[j],
                        ) == excluded;
                assert(history[i] == id);
                assert forall|j: int| i < j < history.len() implies minimized.contains(
                    #[trigger] history[j],
                ) || Some(history[j]) == excluded by {
                    if j < shorter.len() {
                        assert(history[j] == shorter[j]);
                    }
                }
            } else {
                assert forall|j: int| 0 <= j < history.len() implies minimized.contains(
                    #[trigger] history[j],
                ) || Some(history[j]) == excluded by {
                    if j < shorter.len() {
                        assert(history[j] == shorter[j]);
                    }
                }
            }
        }
    }
}

/// Of panes in order, the first that is not minimized is chosen.
pub proof fn law_first_pane_is_chosen(ids: Seq<u64>, minimized: Seq<u64>)
    ensures
        match first_visible(ids, minimized) {
            Some(id) => exists|i: int| #![trigger ids[i]]
                0 <= i < ids.len() && ids[i] == id && !minimized.contains(id) && forall|j: int|
                    0 <= j < i ==> minimized.contains(#[trigger] ids[j]),
            None => forall|j: int| 0 <= j < ids.len() ==> minimized.contains(#[trigger] ids[j]),
        },
    decreases ids.len(),
{
    if ids.len() > 0 {
        assert(ids.first() == ids[0]);
        if minimized.contains(ids.first()) {
            let rest = ids.drop_first();
            law_first_pane_is_chosen(rest, minimized);
            if let Some(id) = first_visible(rest, minimized) {
                let i = choose|i: int| #![trigger rest[i]]
                    0 <= i < rest.len() && rest[i] == id && !minimized.contains(id) && forall|j: int|
                        0 <= j < i ==> minimized.contains(#[trigger] rest[j]);
                assert(ids[i + 1] == id);
                assert forall|j: int| 0 <= j < i + 1 implies minimized.contains(
                    #[trigger] ids[j],
                ) by {
                    if j > 0 {
                        assert(ids[j] == rest[j - 1]);
                    }
                }
            } else {
                assert forall|j: int| 0 <= j < ids.len() implies minimized.contains(
                    #[trigger] ids[j],
                ) by {
                    if j > 0 {
                        assert(ids[j] == rest[j - 1]);
                    }
                }
            }
        }
    }
}

/// Closing the pane that has the focus gives the focus back to the pane that had it
/// before, and closing another pane leaves the focus where it is.
pub proof fn law_closing_goes_back(
    state: FocusState,
    all: Seq<u64>,
    ids: Seq<u64>,
    layout: PaneLayout,
    before: u64,
    closed: u64,
    fallback: u64,
)
    requires
        all.contains(before),
        all.contains(closed),
        before != closed,
        ids.contains(before),
        !ids.contains(closed),
        !state.minimized.contains(before),
        forall|id: u64| #[trigger] state.minimized.contains(id) ==> ids.contains(id) || id
            == closed,
        without_id(state.minimized, closed).len() < ids.len(),
    ensures
        state.activated(all, before).activated(all, closed).after_close(
            ids,
            layout,
            closed,
            fallback,
        ).active == before,
        state.activated(all, closed).activated(all, before).after_close(
            ids,
            layout,
            closed,
            fallback,
        ).active == before,
{
    let first = state.activated(all, before);
    let both = first.activated(all, closed);
    let minimized = without_id(state.minimized, closed);
    lemma_without_has(state.minimized, closed, before);
    let left = both.after_removal(ids, closed);
    let old_history = without_id(state.history, before);
    let others = without_id(first.history, closed);
    lemma_without_pushed(old_history, before, closed);
    assert(others == without_id(old_history, closed).push(before));
    lemma_surviving_pushed(others, closed, ids, closed);
    lemma_surviving_pushed(without_id(old_history, closed), before, ids, closed);
    assert(left.history == surviving(both.history, ids, closed));
    assert(left.history.last() == before && left.history.len() > 0);
    assert(left.minimized == minimized);
    assert(latest_visible(left.history, left.minimized, None) == Some(before));
}

/// Of the minimized panes, the one that is selected stays selected as long as it is
/// minimized, and one of them is selected wherever there are any.
pub proof fn law_selection_stays_among_the_minimized(minimized: Seq<u64>, selected: Option<u64>)
    ensures
        selected matches Some(id) ==> minimized.contains(id) ==> repaired(minimized, selected)
            == selected,
        minimized.len() > 0 ==> (repaired(minimized, selected) matches Some(id)
            && minimized.contains(id)),
        minimized.len() == 0 ==> repaired(minimized, selected) is None,
        forall|latest: u64| #[trigger] repaired(minimized.push(latest), None) == Some(latest),
{
    if minimized.len() > 0 {
        assert(minimized[minimized.len() - 1] == minimized.last());
    }
}

/// The next of the minimized panes stands one further than the one that is selected,
/// the previous one stands one before it, and from either end one goes on at the
/// other.
pub proof fn law_minimized_panes_are_gone_through(state: FocusState, at: int)
    requires
        0 <= at < state.minimized.len(),
        state.minimized.no_duplicates(),
        state.selected == Some(state.minimized[at]),
    ensures
        at + 1 < state.minimized.len() ==> state.adjacent_minimized(true) == Some(
            state.minimized[at + 1],
        ),
        at + 1 == state.minimized.len() ==> state.adjacent_minimized(true) == Some(
            state.minimized[0],
        ),
        at > 0 ==> state.adjacent_minimized(false) == Some(state.minimized[at - 1]),
        at == 0 ==> state.adjacent_minimized(false) == Some(state.minimized.last()),
        ({
            let next = FocusState { selected: state.adjacent_minimized(true), ..state };
            let previous = FocusState { selected: state.adjacent_minimized(false), ..state };
            &&& next.adjacent_minimized(false) == state.selected
            &&& previous.adjacent_minimized(true) == state.selected
        }),
{
    let count = state.minimized.len() as int;
    lemma_where(state.minimized, at);
    lemma_turn(at, count);
    let next = (at + 1) % count;
    let previous = (at - 1) % count;
    lemma_where(state.minimized, next);
    lemma_where(state.minimized, previous);
    assert(state.minimized.contains(state.minimized[at]));
    assert(state.minimized.contains(state.minimized[next]));
    assert(state.minimized.contains(state.minimized[previous]));
    lemma_turn(next, count);
    lemma_turn(previous, count);
}

proof fn lemma_turn(at: int, count: int)
    requires
        0 <= at < count,
    ensures
        (at + 1) % count == if at + 1 == count {
            0
        } else {
            at + 1
        },
        (at - 1) % count == if at == 0 {
            count - 1
        } else {
            at - 1
        },
{
    assert((at + 1) % count == if at + 1 == count {
        0
    } else {
        at + 1
    }) by (nonlinear_arith)
        requires
            0 <= at < count,
    ;
    assert((at - 1) % count == if at == 0 {
        count - 1
    } else {
        at - 1
    }) by (nonlinear_arith)
        requires
            0 <= at < count,
    ;
}

proof fn lemma_where(list: Seq<u64>, at: int)
    requires
        0 <= at < list.len(),
        list.no_duplicates(),
    ensures
        first_index(list, list[at]) == at,
{
    lemma_first_index(list, list[at], at);
}

/// A pane that is brought back has the focus and is minimized no longer; the other
/// minimized panes stay so in their order, nothing is maximized, and where another
/// minimized pane was selected it stays selected.
pub proof fn law_restored_pane_has_the_focus(state: FocusState, ids: Seq<u64>, at: int)
    requires
        0 <= at < state.minimized.len(),
        state.minimized.no_duplicates(),
        ids.contains(state.minimized[at]),
    ensures
        ({
            let id = state.minimized[at];
            let next = state.restored(ids, id);
            &&& next.active == id
            &&& !next.minimized.contains(id)
            &&& next.minimized == state.minimized.remove(at)
            &&& next.maximized is None
            &&& state.selected matches Some(other) ==> other != id && state.minimized.contains(
                other,
            ) ==> next.selected == Some(other)
            &&& state.selected == Some(id) && at + 1 < state.minimized.len() ==> next.selected
                == Some(state.minimized[at + 1])
            &&& next.minimized.len() > 0 ==> (next.selected matches Some(other)
                && next.minimized.contains(other))
            &&& next.minimized.len() == 0 ==> next.selected is None
        }),
{
    let id = state.minimized[at];
    lemma_where(state.minimized, at);
    let rest = state.minimized.remove(at);
    assert forall|i: int| 0 <= i < rest.len() implies rest[i] != id by {
        if i < at {
            assert(rest[i] == state.minimized[i]);
        } else {
            assert(rest[i] == state.minimized[i + 1]);
        }
    }
    assert(!rest.contains(id));
    law_selection_stays_among_the_minimized(rest, state.selected);
    if state.selected == Some(id) {
        if rest.len() > 0 {
            let count = rest.len() as int;
            if at < count {
                assert(at % count == at) by (nonlinear_arith)
                    requires
                        0 <= at < count,
                ;
                assert(rest[at] == state.minimized[at + 1]);
                assert(rest.contains(rest[at]));
            } else {
                assert(at % count == 0) by (nonlinear_arith)
                    requires
                        at == count,
                        count > 0,
                ;
                assert(rest.contains(rest[0]));
            }
        }
    } else if let Some(other) = state.selected {
        if state.minimized.contains(other) {
            let i = choose|i: int| 0 <= i < state.minimized.len() && state.minimized[i] == other;
            if i < at {
                assert(rest[i] == other);
            } else {
                assert(rest[i - 1] == other);
            }
            assert(rest.contains(other));
        }
    }
}

/// What is shown of a tab shows the maximized pane alone, or just those panes of the
/// layout that are not minimized.
pub proof fn law_shown_panes_are_the_visible_ones(tab: Tab, id: u64)
    requires
        tab.maximized_pane matches Some(maximized) ==> tab.ids().contains(maximized),
    ensures
        ({
            let is_shown = tab.shown_layout() matches Some(layout) && layout.ids().contains(id);
            match tab.maximized_pane {
                Some(maximized) => is_shown == (id == maximized),
                None => is_shown == (tab.layout.ids().contains(id)
                    && !tab.minimized_panes@.contains(id)),
            }
        }),
{
    match tab.maximized_pane {
        Some(maximized) => {
            assert(PaneLayout::Pane(maximized).ids() =~= seq![maximized]);
            assert(seq![maximized][0] == maximized);
            assert(seq![maximized].contains(id) == (id == maximized));
        },
        None => {
            lemma_removed_has(tab.layout, tab.minimized_panes@.to_set(), id);
        },
    }
}

proof fn lemma_removed_has(layout: PaneLayout, gone: Set<u64>, id: u64)
    ensures
        (layout.removed(gone) matches Some(rest) && rest.ids().contains(id)) == (
        layout.ids().contains(id) && !gone.contains(id)),
    decreases layout,
{
    match layout {
        PaneLayout::Pane(pane) => {
            assert(layout.ids() =~= seq![pane]);
            assert(seq![pane][0] == pane);
        },
        PaneLayout::Split { axis, first_ratio, first, second } => {
            lemma_removed_has(*first, gone, id);
            lemma_removed_has(*second, gone, id);
            lemma_joined(first.ids(), second.ids(), id);
            assert(layout.ids() == first.ids() + second.ids());
            if let Some(left) = first.removed(gone) {
                if let Some(right) = second.removed(gone) {
                    lemma_joined(left.ids(), right.ids(), id);
                }
            }
        },
    }
}

proof fn lemma_joined(left: Seq<u64>, right: Seq<u64>, id: u64)
    ensures
        (left + right).contains(id) == (left.contains(id) || right.contains(id)),
{
    let both = left + right;
    if left.contains(id) {
        let i = choose|i: int| 0 <= i < left.len() && left[i] == id;
        assert(both[i] == id);
    }
    if right.contains(id) {
        let i = choose|i: int| 0 <= i < right.len() && right[i] == id;
        assert(both[left.len() + i] == id);
    }
    if both.contains(id) {
        let i = choose|i: int| 0 <= i < both.len() && both[i] == id;
        if i < left.len() {
            assert(left[i] == id);
        } else {
            assert(right[i - left.len()] == id);
        }
    }
}

/// The last label that a pane is given is the one it has, and a pane that is given
/// none keeps its own.
pub proof fn law_last_label_counts(
    labels: Seq<(u64, Option<String>)>,
    id: u64,
    label: Option<String>,
    current: Option<String>,
)
    ensures
        latest_label(labels.push((id, label)), id, current) == label,
        forall|other: u64|
            other != id ==> latest_label(labels.push((id, label)), other, current)
                == #[trigger] latest_label(labels, other, current),
        (forall|i: int| 0 <= i < labels.len() ==> (#[trigger] labels[i]).0 != id) ==> latest_label(
            labels,
            id,
            current,
        ) == current,
    decreases labels.len(),
{
    assert(labels.push((id, label)).drop_last() =~= labels);
    if labels.len() > 0 {
        let shorter = labels.drop_last();
        law_last_label_counts(shorter, id, label, current);
        assert(labels[labels.len() - 1] == labels.last());
        if forall|i: int| 0 <= i < labels.len() ==> (#[trigger] labels[i]).0 != id {
            assert forall|i: int| 0 <= i < shorter.len() implies (#[trigger] shorter[i]).0
                != id by {
                assert(shorter[i] == labels[i]);
            }
        }
    }
}

/// As many panes are visible as are not minimized, and at least one in a tab in order.
pub proof fn law_visible_panes_are_counted(tab: Tab)
    requires
        tab.wf(),
    ensures
        tab.visible_count() == tab.panes@.len() - tab.minimized_panes@.len(),
        tab.visible_count() >= 1,
{
    assert(tab.ids().len() == tab.panes@.len());
}

/// Everything of a name is selected while it is renamed only where the field says so.
pub proof fn law_selected_name_is_being_changed(tab: Tab)
    ensures
        tab.rename_buffer is None ==> !tab.renaming_all(),
        tab.rename_buffer matches Some(field) ==> tab.renaming_all() == field.select_all,
{
}

/// Where none of the minimized panes is selected, going forward starts with the first of
/// them and going backward with the last.
pub proof fn law_going_starts_at_the_ends(state: FocusState)
    requires
        state.minimized.len() > 0,
        state.selected is None,
    ensures
        state.adjacent_minimized(true) == Some(state.minimized[0]),
        state.adjacent_minimized(false) == Some(state.minimized.last()),
{
}

/// Where only minimized panes are left, the one that was minimized last comes back and has
/// the focus, and the others stay minimized.
pub proof fn law_last_minimized_pane_comes_back(
    state: FocusState,
    ids: Seq<u64>,
    layout: PaneLayout,
    closed: u64,
    fallback: u64,
)
    requires
        !state.minimized.contains(closed),
        state.minimized.no_duplicates(),
        ids.len() == state.minimized.len(),
        ids.len() > 0,
        forall|id: u64| #[trigger] state.minimized.contains(id) ==> ids.contains(id),
    ensures
        ({
            let next = state.after_close(ids, layout, closed, fallback);
            &&& next.active == state.minimized.last()
            &&& next.minimized == state.minimized.drop_last()
        }),
{
    let last = state.minimized.last();
    assert(state.minimized[state.minimized.len() - 1] == last);
    assert(state.minimized.contains(last));
    lemma_without_absent(state.minimized, closed);
    let rest = state.minimized.drop_last();
    assert forall|i: int| 0 <= i < rest.len() implies rest[i] != last by {
        assert(rest[i] == state.minimized[i]);
    }
    assert(last != closed);
}

proof fn lemma_without_absent(list: Seq<u64>, id: u64)
    requires
        !list.contains(id),
    ensures
        without_id(list, id) == list,
    decreases list.len(),
{
    if list.len() > 0 {
        let shorter = list.drop_last();
        assert(list[list.len() - 1] == list.last());
        assert forall|i: int| 0 <= i < shorter.len() implies shorter[i] != id by {
            assert(shorter[i] == list[i]);
        }
        lemma_without_absent(shorter, id);
        assert(list =~= shorter.push(list.last()));
        lemma_without_pushed(shorter, list.last(), id);
    } else {
        reveal(Seq::filter);
        assert(without_id(list, id) =~= list);
    }
}

/// Where no pane that had the focus is left, the focus goes to the first pane that is
/// shown: the maximized one, else the first of the layout.
pub proof fn law_focus_goes_to_the_first_shown(
    state: FocusState,
    ids: Seq<u64>,
    layout: PaneLayout,
    fallback: u64,
)
    requires
        state.history.len() == 0,
    ensures
        state.maximized matches Some(id) ==> ids.contains(id) ==> state.focus_after_close(
            ids,
            layout,
            fallback,
        ) == id,
        state.maximized is None && state.minimized.len() == 0 && layout.removed(Set::empty())
            == Some(layout) ==> state.focus_after_close(ids, layout, fallback)
            == layout.ids().first(),
        ids.len() == 0 && state.maximized is None && state.selected is None && layout.removed(
            state.minimized.to_set(),
        ) is None ==> state.focus_after_close(ids, layout, fallback) == fallback,
{
    if state.minimized.len() == 0 {
        assert(state.minimized.to_set() =~= Set::<u64>::empty());
    }
}

/// Maximizing a pane shows it alone and gives it the focus, also where it was minimized;
/// doing so again shows the others as before, and the other minimized panes stay so all
/// along.
pub proof fn law_maximizing_is_undone(state: FocusState, ids: Seq<u64>, id: u64, other: u64)
    requires
        ids.contains(id),
        state.maximized != Some(id),
    ensures
        ({
            let alone = state.maximize_toggled(ids, id);
            let again = alone.maximize_toggled(ids, id);
            &&& alone.maximized == Some(id) && alone.active == id
            &&& !alone.minimized.contains(id)
            &&& other != id ==> alone.minimized.contains(other) == state.minimized.contains(other)
            &&& again.maximized is None && again.active == id
            &&& other != id ==> again.minimized.contains(other) == state.minimized.contains(other)
        }),
{
    let once = without_id(state.minimized, id);
    lemma_without_has(state.minimized, id, id);
    lemma_without_has(state.minimized, id, other);
    lemma_without_has(once, id, other);
}

/// A pane that is minimized is the last of the minimized ones and the selected one, the
/// focus goes to a pane that is not minimized, and nothing is maximized.
pub proof fn law_minimized_pane_is_the_last(
    state: FocusState,
    ids: Seq<u64>,
    layout_ids: Seq<u64>,
    id: u64,
)
    requires
        state.focus_after_minimizing(layout_ids, id) matches Some(next) && ids.contains(next),
    ensures
        ({
            let after = state.minimized_with(ids, layout_ids, id);
            &&& after.minimized == state.minimized.push(id)
            &&& after.selected == Some(id)
            &&& after.maximized is None
            &&& !after.minimized.contains(after.active)
            &&& after.active != id
        }),
{
    let hidden = state.minimized.push(id);
    assert(hidden[state.minimized.len() as int] == id);
    law_latest_pane_is_chosen(state.history, hidden, Some(id));
    law_first_pane_is_chosen(layout_ids, hidden);
}

} // verus!
