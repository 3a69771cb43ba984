//! What holds of pane layouts across operations.

use vstd::prelude::*;

use crate::pane::layout::{
    exchange, last_position, lemma_contains_in_concat, lemma_layout_has_a_pane, other_axis, tiling,
    PaneLayout, PaneRotationDirection, PaneSplitTemplate, SplitAxis, SplitMeasure, SplitPosition,
    PANE_SPLIT_RATIO_SCALE,
};

verus! {

pub open spec fn opposite(direction: PaneRotationDirection) -> PaneRotationDirection {
    match direction {
        PaneRotationDirection::Clockwise => PaneRotationDirection::CounterClockwise,
        PaneRotationDirection::CounterClockwise => PaneRotationDirection::Clockwise,
    }
}

/// Turning a layout keeps it well formed and keeps its panes.
pub proof fn law_rotation_keeps_panes(layout: PaneLayout, direction: PaneRotationDirection)
    requires
        layout.wf(),
    ensures
        layout.rotated(direction).wf(),
        layout.rotated(direction).ids().to_multiset() == layout.ids().to_multiset(),
        layout.rotated(direction).split_count() == layout.split_count(),
    decreases layout,
{
    match layout {
        PaneLayout::Pane(_) => {},
        PaneLayout::Split { first, second, .. } => {
            law_rotation_keeps_panes(*first, direction);
            law_rotation_keeps_panes(*second, direction);
            let a = first.rotated(direction).ids();
            let b = second.rotated(direction).ids();
            vstd::seq_lib::lemma_multiset_commutative(a, b);
            vstd::seq_lib::lemma_multiset_commutative(b, a);
            vstd::seq_lib::lemma_multiset_commutative(first.ids(), second.ids());
            assert(a.to_multiset().add(b.to_multiset()) =~= b.to_multiset().add(a.to_multiset()));
        },
    }
}

/// Turning a layout one way and then the other gives it back.
pub proof fn law_rotation_undone_by_opposite(layout: PaneLayout, direction: PaneRotationDirection)
    requires
        layout.wf(),
    ensures
        layout.rotated(direction).rotated(opposite(direction)) == layout,
    decreases layout,
{
    match layout {
        PaneLayout::Pane(_) => {},
        PaneLayout::Split { first, second, .. } => {
            law_rotation_undone_by_opposite(*first, direction);
            law_rotation_undone_by_opposite(*second, direction);
        },
    }
}

/// Four quarter turns give a layout back.
pub proof fn law_four_rotations_are_none(layout: PaneLayout, direction: PaneRotationDirection)
    requires
        layout.wf(),
    ensures
        layout.rotated(direction).rotated(direction).rotated(direction).rotated(direction)
            == layout,
    decreases layout,
{
    match layout {
        PaneLayout::Pane(_) => {},
        PaneLayout::Split { first, second, .. } => {
            law_four_rotations_are_none(*first, direction);
            law_four_rotations_are_none(*second, direction);
        },
    }
}

/// Turning a subtree one way and then the other gives the layout back.
pub proof fn law_rotation_at_path_undone(
    layout: PaneLayout,
    path: Seq<bool>,
    direction: PaneRotationDirection,
)
    requires
        layout.wf(),
    ensures
        layout.rotated_at(path, direction).rotated_at(path, opposite(direction)) == layout,
    decreases layout,
{
    if path.len() == 0 {
        law_rotation_undone_by_opposite(layout, direction);
    } else {
        match layout {
            PaneLayout::Pane(_) => {},
            PaneLayout::Split { first, second, .. } => {
                if path.first() {
                    law_rotation_at_path_undone(*first, path.drop_first(), direction);
                } else {
                    law_rotation_at_path_undone(*second, path.drop_first(), direction);
                }
            },
        }
    }
}

/// Turning a subtree keeps the panes of the layout.
pub proof fn law_rotation_at_path_keeps_panes(
    layout: PaneLayout,
    path: Seq<bool>,
    direction: PaneRotationDirection,
)
    requires
        layout.wf(),
    ensures
        layout.rotated_at(path, direction).ids().to_multiset() == layout.ids().to_multiset(),
    decreases layout,
{
    if path.len() == 0 {
        law_rotation_keeps_panes(layout, direction);
    } else {
        match layout {
            PaneLayout::Pane(_) => {},
            PaneLayout::Split { first, second, .. } => {
                if path.first() {
                    law_rotation_at_path_keeps_panes(*first, path.drop_first(), direction);
                    vstd::seq_lib::lemma_multiset_commutative(
                        first.rotated_at(path.drop_first(), direction).ids(),
                        second.ids(),
                    );
                } else {
                    law_rotation_at_path_keeps_panes(*second, path.drop_first(), direction);
                    vstd::seq_lib::lemma_multiset_commutative(
                        first.ids(),
                        second.rotated_at(path.drop_first(), direction).ids(),
                    );
                }
                vstd::seq_lib::lemma_multiset_commutative(first.ids(), second.ids());
            },
        }
    }
}

/// A rotation path leads to a subtree of the layout that has the active pane.
pub proof fn law_rotation_turns_around_the_active_pane(
    layout: PaneLayout,
    active_pane: u64,
    measures: Seq<SplitMeasure>,
    at: int,
)
    requires
        layout.ids().contains(active_pane),
        layout.rotation_path(active_pane, measures, at) is Some,
    ensures
        ({
            let turned = subtree(layout, layout.rotation_path(active_pane, measures, at)->0);
            turned matches Some(turned) && turned is Split && turned.ids().contains(active_pane)
        }),
    decreases layout,
{
    match layout {
        PaneLayout::Pane(_) => {},
        PaneLayout::Split { first, second, .. } => {
            let path = layout.rotation_path(active_pane, measures, at)->0;
            lemma_contains_in_concat(first.ids(), second.ids(), active_pane);
            if path.len() > 0 {
                if first.ids().contains(active_pane) {
                    law_rotation_turns_around_the_active_pane(
                        *first,
                        active_pane,
                        measures,
                        at + 1,
                    );
                    assert(path.drop_first() == first.rotation_path(
                        active_pane,
                        measures,
                        at + 1,
                    )->0);
                } else {
                    let next = at + 1 + first.split_count();
                    law_rotation_turns_around_the_active_pane(
                        *second,
                        active_pane,
                        measures,
                        next,
                    );
                    assert(path.drop_first() == second.rotation_path(
                        active_pane,
                        measures,
                        next,
                    )->0);
                }
            }
        },
    }
}

/// The subtree that a path leads to.
pub open spec fn subtree(layout: PaneLayout, path: Seq<bool>) -> Option<PaneLayout>
    decreases layout,
{
    if path.len() == 0 {
        Some(layout)
    } else {
        match layout {
            PaneLayout::Pane(_) => None,
            PaneLayout::Split { first, second, .. } => if path.first() {
                subtree(*first, path.drop_first())
            } else {
                subtree(*second, path.drop_first())
            },
        }
    }
}

/// Removing panes keeps exactly the others, in their order; nothing is left
/// exactly when all are removed.
pub proof fn law_removal_keeps_the_others(layout: PaneLayout, gone: Set<u64>)
    ensures
        match layout.removed(gone) {
            Some(rest) => (layout.wf() ==> rest.wf()) && rest.ids() == layout.ids().filter(
                |id: u64| !gone.contains(id),
            ),
            None => layout.ids().filter(|id: u64| !gone.contains(id)) == Seq::<u64>::empty(),
        },
    decreases layout,
{
    let keep = |id: u64| !gone.contains(id);
    match layout {
        PaneLayout::Pane(id) => {
            let ids = seq![id];
            reveal(Seq::filter);
            assert(ids.drop_last() == Seq::<u64>::empty());
            assert(ids.drop_last().filter(keep) == Seq::<u64>::empty());
            assert(ids.filter(keep) == if keep(id) {
                seq![id]
            } else {
                Seq::<u64>::empty()
            });
        },
        PaneLayout::Split { first, second, .. } => {
            law_removal_keeps_the_others(*first, gone);
            law_removal_keeps_the_others(*second, gone);
            Seq::filter_distributes_over_add(first.ids(), second.ids(), keep);
            assert(first.ids().filter(keep) + Seq::<u64>::empty() == first.ids().filter(keep));
            assert(Seq::<u64>::empty() + second.ids().filter(keep) == second.ids().filter(keep));
        },
    }
}

/// Removing panes that are not there changes nothing.
pub proof fn law_removal_of_absent_panes_is_nothing(layout: PaneLayout, gone: Set<u64>)
    requires
        forall|id: u64| gone.contains(id) ==> !layout.ids().contains(id),
    ensures
        layout.removed(gone) == Some(layout),
    decreases layout,
{
    match layout {
        PaneLayout::Pane(id) => {
            assert(layout.ids()[0] == id);
            assert(layout.ids().contains(id));
        },
        PaneLayout::Split { first, second, .. } => {
            assert forall|id: u64| gone.contains(id) implies !first.ids().contains(id)
                && !second.ids().contains(id) by {
                lemma_contains_in_concat(first.ids(), second.ids(), id);
            }
            law_removal_of_absent_panes_is_nothing(*first, gone);
            law_removal_of_absent_panes_is_nothing(*second, gone);
        },
    }
}

/// Closing the pane that a split added gives the layout back.
pub proof fn law_split_undone_by_removal(
    layout: PaneLayout,
    target: u64,
    axis: SplitAxis,
    new_pane: u64,
    position: SplitPosition,
)
    requires
        layout.ids().contains(target),
        !layout.ids().contains(new_pane),
    ensures
        layout.replaced(target, PaneLayout::halves(target, axis, new_pane, position)).removed(
            set![new_pane],
        ) == Some(layout),
    decreases layout,
{
    let halves = PaneLayout::halves(target, axis, new_pane, position);
    match layout {
        PaneLayout::Pane(id) => {
            assert(layout.ids()[0] == id);
            assert(layout.ids().contains(id));
            assert(PaneLayout::Pane(target).removed(set![new_pane]) == Some(
                PaneLayout::Pane(target),
            ));
            assert(PaneLayout::Pane(new_pane).removed(set![new_pane]) is None);
            reveal_with_fuel(PaneLayout::removed, 3);
        },
        PaneLayout::Split { first, second, .. } => {
            lemma_contains_in_concat(first.ids(), second.ids(), target);
            lemma_contains_in_concat(first.ids(), second.ids(), new_pane);
            if first.ids().contains(target) {
                law_split_undone_by_removal(*first, target, axis, new_pane, position);
                law_removal_of_absent_panes_is_nothing(*second, set![new_pane]);
            } else {
                law_split_undone_by_removal(*second, target, axis, new_pane, position);
                law_removal_of_absent_panes_is_nothing(*first, set![new_pane]);
            }
        },
    }
}

/// A replacement takes the place of the first occurrence of its target: the
/// panes before and after it stay as they were.
pub proof fn law_replacement_keeps_the_others(
    layout: PaneLayout,
    target: u64,
    replacement: PaneLayout,
)
    requires
        layout.ids().contains(target),
    ensures
        ({
            let at = layout.ids().index_of_first(target)->0;
            layout.replaced(target, replacement).ids() == layout.ids().take(at) + replacement.ids()
                + layout.ids().skip(at + 1)
        }),
        layout.wf() && replacement.wf() ==> layout.replaced(target, replacement).wf(),
    decreases layout,
{
    layout.ids().index_of_first_ensures(target);
    let at = layout.ids().index_of_first(target)->0;
    match layout {
        PaneLayout::Pane(id) => {
            assert(layout.ids()[0] == id);
            assert(layout.replaced(target, replacement).ids() == layout.ids().take(at)
                + replacement.ids() + layout.ids().skip(at + 1));
        },
        PaneLayout::Split { first, second, .. } => {
            lemma_contains_in_concat(first.ids(), second.ids(), target);
            let ids = layout.ids();
            if first.ids().contains(target) {
                law_replacement_keeps_the_others(*first, target, replacement);
                first.ids().index_of_first_ensures(target);
                let inner = first.ids().index_of_first(target)->0;
                assert(ids[inner] == target);
                assert(first.ids()[at] == ids[at]) by {
                    if at > inner {
                        assert(ids[inner] != target);
                    }
                }
                assert(at == inner);
                assert(layout.replaced(target, replacement).ids() == ids.take(at)
                    + replacement.ids() + ids.skip(at + 1));
            } else {
                law_replacement_keeps_the_others(*second, target, replacement);
                second.ids().index_of_first_ensures(target);
                let inner = second.ids().index_of_first(target)->0;
                assert(ids[first.ids().len() + inner] == target);
                assert(at >= first.ids().len()) by {
                    if at < first.ids().len() {
                        assert(first.ids()[at] == target);
                    }
                }
                assert(second.ids()[at - first.ids().len()] == ids[at]);
                assert(at == first.ids().len() + inner);
                assert(layout.replaced(target, replacement).ids() == ids.take(at)
                    + replacement.ids() + ids.skip(at + 1));
            }
        },
    }
}

/// Renaming the panes of a layout renames them in place.
pub proof fn law_renaming_keeps_places(layout: PaneLayout, names: spec_fn(u64) -> u64)
    ensures
        layout.renamed(names).ids() == layout.ids().map_values(names),
        layout.wf() ==> layout.renamed(names).wf(),
    decreases layout,
{
    match layout {
        PaneLayout::Pane(id) => {
            assert(layout.renamed(names).ids() == layout.ids().map_values(names));
        },
        PaneLayout::Split { first, second, .. } => {
            law_renaming_keeps_places(*first, names);
            law_renaming_keeps_places(*second, names);
            assert(layout.renamed(names).ids() == layout.ids().map_values(names));
        },
    }
}

/// Exchanging two panes twice gives the layout back.
pub proof fn law_exchange_undone_by_itself(layout: PaneLayout, first: u64, second: u64)
    ensures
        layout.renamed(exchange(first, second)).renamed(exchange(first, second)) == layout,
    decreases layout,
{
    match layout {
        PaneLayout::Pane(_) => {},
        PaneLayout::Split { first: left, second: right, .. } => {
            law_exchange_undone_by_itself(*left, first, second);
            law_exchange_undone_by_itself(*right, first, second);
        },
    }
}

/// Moving a pane keeps the panes of the layout, and its good form.
pub proof fn law_move_keeps_panes(
    layout: PaneLayout,
    pane_id: u64,
    axis: SplitAxis,
    toward_first: bool,
)
    requires
        layout.wf(),
    ensures
        layout.moved(pane_id, axis, toward_first) matches Some(moved) ==> {
            &&& moved.wf()
            &&& moved.ids().to_multiset() == layout.ids().to_multiset()
        },
    decreases layout,
{
    match layout {
        PaneLayout::Pane(_) => {},
        PaneLayout::Split { first, second, .. } => {
            law_move_keeps_panes(*first, pane_id, axis, toward_first);
            law_move_keeps_panes(*second, pane_id, axis, toward_first);
            vstd::seq_lib::lemma_multiset_commutative(first.ids(), second.ids());
            vstd::seq_lib::lemma_multiset_commutative(second.ids(), first.ids());
            assert(first.ids().to_multiset().add(second.ids().to_multiset())
                =~= second.ids().to_multiset().add(first.ids().to_multiset()));
            if let Some(moved) = first.moved(pane_id, axis, toward_first) {
                vstd::seq_lib::lemma_multiset_commutative(moved.ids(), second.ids());
            }
            if let Some(moved) = second.moved(pane_id, axis, toward_first) {
                vstd::seq_lib::lemma_multiset_commutative(first.ids(), moved.ids());
            }
        },
    }
}

/// Resizing around a pane keeps every pane in its place, and leaves room on
/// both sides of every split.
pub proof fn law_resize_keeps_places(
    layout: PaneLayout,
    pane_id: u64,
    axis: SplitAxis,
    delta: int,
)
    requires
        layout.wf(),
    ensures
        layout.resized(pane_id, axis, delta) matches Some(resized) ==> {
            &&& resized.wf()
            &&& resized.ids() == layout.ids()
        },
    decreases layout,
{
    match layout {
        PaneLayout::Pane(_) => {},
        PaneLayout::Split { first, second, .. } => {
            law_resize_keeps_places(*first, pane_id, axis, delta);
            law_resize_keeps_places(*second, pane_id, axis, delta);
        },
    }
}

/// Resizing one exact split keeps every pane in its place, and leaves room on
/// both sides of every split.
pub proof fn law_split_resize_keeps_places(
    layout: PaneLayout,
    first_pane: u64,
    second_pane: u64,
    axis: SplitAxis,
    delta: int,
)
    requires
        layout.wf(),
    ensures
        layout.split_resized(first_pane, second_pane, axis, delta).wf(),
        layout.split_resized(first_pane, second_pane, axis, delta).ids() == layout.ids(),
    decreases layout,
{
    match layout {
        PaneLayout::Pane(_) => {},
        PaneLayout::Split { first, second, .. } => {
            law_split_resize_keeps_places(*first, first_pane, second_pane, axis, delta);
            law_split_resize_keeps_places(*second, first_pane, second_pane, axis, delta);
        },
    }
}

/// How many splits of the layout two panes name.
pub open spec fn splits_between(
    layout: PaneLayout,
    first_pane: u64,
    second_pane: u64,
    axis: SplitAxis,
) -> nat
    decreases layout,
{
    match layout {
        PaneLayout::Pane(_) => 0,
        PaneLayout::Split { first, second, .. } => {
            (if layout.is_split_between(first_pane, second_pane, axis) {
                1nat
            } else {
                0
            }) + splits_between(*first, first_pane, second_pane, axis) + splits_between(
                *second,
                first_pane,
                second_pane,
                axis,
            )
        },
    }
}

/// A split that two panes name has both of them.
proof fn lemma_named_split_has_both(
    layout: PaneLayout,
    first_pane: u64,
    second_pane: u64,
    axis: SplitAxis,
)
    requires
        splits_between(layout, first_pane, second_pane, axis) > 0,
    ensures
        layout.ids().contains(first_pane),
        layout.ids().contains(second_pane),
    decreases layout,
{
    match layout {
        PaneLayout::Pane(_) => {},
        PaneLayout::Split { first, second, .. } => {
            lemma_contains_in_concat(first.ids(), second.ids(), first_pane);
            lemma_contains_in_concat(first.ids(), second.ids(), second_pane);
            if layout.is_split_between(first_pane, second_pane, axis) {
                lemma_layout_has_a_pane(*first);
                lemma_layout_has_a_pane(*second);
                assert(first.ids()[0] == first_pane);
                assert(second.ids()[0] == second_pane);
            } else if splits_between(*first, first_pane, second_pane, axis) > 0 {
                lemma_named_split_has_both(*first, first_pane, second_pane, axis);
            } else {
                lemma_named_split_has_both(*second, first_pane, second_pane, axis);
            }
        },
    }
}

/// In a layout whose panes are distinct, the first panes of its two sides name
/// a split uniquely.
pub proof fn law_two_panes_name_one_split(
    layout: PaneLayout,
    first_pane: u64,
    second_pane: u64,
    axis: SplitAxis,
)
    requires
        layout.ids().no_duplicates(),
    ensures
        splits_between(layout, first_pane, second_pane, axis) <= 1,
        (splits_between(layout, first_pane, second_pane, axis) == 1) == (layout.split_between(
            first_pane,
            second_pane,
            axis,
        ) is Some),
    decreases layout,
{
    match layout {
        PaneLayout::Pane(_) => {},
        PaneLayout::Split { first, second, .. } => {
            let ids = layout.ids();
            let left = first.ids();
            let right = second.ids();
            assert(left.no_duplicates()) by {
                assert forall|i: int, j: int| 0 <= i < left.len() && 0 <= j < left.len() && i
                    != j implies left[i] != left[j] by {
                    assert(ids[i] == left[i] && ids[j] == left[j]);
                }
            }
            assert(right.no_duplicates()) by {
                assert forall|i: int, j: int| 0 <= i < right.len() && 0 <= j < right.len() && i
                    != j implies right[i] != right[j] by {
                    assert(ids[left.len() + i] == right[i] && ids[left.len() + j] == right[j]);
                }
            }
            assert forall|id: u64| left.contains(id) implies !right.contains(id) by {
                if right.contains(id) {
                    let i = choose|i: int| 0 <= i < left.len() && left[i] == id;
                    let j = choose|j: int| 0 <= j < right.len() && right[j] == id;
                    assert(ids[i] == ids[left.len() + j]);
                }
            }
            law_two_panes_name_one_split(*first, first_pane, second_pane, axis);
            law_two_panes_name_one_split(*second, first_pane, second_pane, axis);
            if splits_between(*first, first_pane, second_pane, axis) > 0 {
                lemma_named_split_has_both(*first, first_pane, second_pane, axis);
            }
            if splits_between(*second, first_pane, second_pane, axis) > 0 {
                lemma_named_split_has_both(*second, first_pane, second_pane, axis);
            }
            if layout.is_split_between(first_pane, second_pane, axis) {
                lemma_layout_has_a_pane(*first);
                lemma_layout_has_a_pane(*second);
                assert(left[0] == first_pane);
                assert(right[0] == second_pane);
                assert(left.contains(first_pane));
                assert(right.contains(second_pane));
            }
        },
    }
}

/// A tiling has exactly the given panes, in the given order.
pub proof fn law_tiling_keeps_order(ids: Seq<u64>, axis: SplitAxis)
    requires
        ids.len() > 0,
    ensures
        tiling(ids, axis).ids() == ids,
        tiling(ids, axis).wf(),
    decreases ids.len(),
{
    if ids.len() > 1 {
        let midpoint = if ids.len() == 3 {
            1
        } else {
            (ids.len() + 1) / 2
        } as int;
        law_tiling_keeps_order(ids.take(midpoint), other_axis(axis));
        law_tiling_keeps_order(ids.skip(midpoint), other_axis(axis));
        assert(ids.take(midpoint) + ids.skip(midpoint) == ids);
    } else {
        assert(tiling(ids, axis).ids() == ids);
    }
}

/// A template's layout uses the ids it is given, in order.
pub proof fn law_template_uses_ids_in_order<Leaf>(
    template: PaneSplitTemplate<Leaf>,
    ids: Seq<u64>,
)
    requires
        template.leaves() <= ids.len(),
    ensures
        template.leaves() > 0,
        template.layout(ids).ids() == ids.take(template.leaves() as int),
        template.layout(ids).wf(),
    decreases template,
{
    match template {
        PaneSplitTemplate::Pane(_) => {
            assert(template.layout(ids).ids() == ids.take(1));
        },
        PaneSplitTemplate::Split { first, second, .. } => {
            law_template_uses_ids_in_order(*first, ids);
            let rest = ids.skip(first.leaves() as int);
            law_template_uses_ids_in_order(*second, rest);
            assert(template.layout(ids).ids() == ids.take(template.leaves() as int));
        },
    }
}

/// Whether a layout is cut in halves again and again, across the cut before it each
/// time, into parts of the same count but for one pane.
pub open spec fn is_even(layout: PaneLayout, axis: SplitAxis) -> bool
    decreases layout,
{
    match layout {
        PaneLayout::Pane(_) => true,
        PaneLayout::Split { axis: cut, first_ratio, first, second } => {
            &&& cut == axis
            &&& first_ratio as int * 2 == PANE_SPLIT_RATIO_SCALE
            &&& -1 <= first.ids().len() - second.ids().len() <= 1
            &&& match axis {
                SplitAxis::Horizontal => is_even(*first, SplitAxis::Vertical) && is_even(
                    *second,
                    SplitAxis::Vertical,
                ),
                SplitAxis::Vertical => is_even(*first, SplitAxis::Horizontal) && is_even(
                    *second,
                    SplitAxis::Horizontal,
                ),
            }
        },
    }
}

/// Tiled panes share the place evenly: each part is halved across the cut before it, and
/// of three panes the first has a half of its own.
pub proof fn law_tiling_is_even(ids: Seq<u64>, axis: SplitAxis)
    requires
        ids.len() > 0,
    ensures
        is_even(tiling(ids, axis), axis),
        ids.len() == 1 ==> tiling(ids, axis) == PaneLayout::Pane(ids[0]),
        ids.len() == 3 ==> (tiling(ids, axis) matches PaneLayout::Split { first, .. } && *first
            == PaneLayout::Pane(ids[0])),
    decreases ids.len(),
{
    if ids.len() > 1 {
        let midpoint = if ids.len() == 3 {
            1
        } else {
            (ids.len() + 1) / 2
        } as int;
        let left = ids.take(midpoint);
        let right = ids.skip(midpoint);
        law_tiling_is_even(left, other_axis(axis));
        law_tiling_is_even(right, other_axis(axis));
        law_tiling_keeps_order(left, other_axis(axis));
        law_tiling_keeps_order(right, other_axis(axis));
    }
}

/// Whether a layout has the cuts of a template, each in the middle.
pub open spec fn has_cuts_of<Leaf>(layout: PaneLayout, template: PaneSplitTemplate<Leaf>) -> bool
    decreases template,
{
    match (layout, template) {
        (PaneLayout::Pane(_), PaneSplitTemplate::Pane(_)) => true,
        (
            PaneLayout::Split { axis, first_ratio, first, second },
            PaneSplitTemplate::Split { axis: wanted, first: wanted_first, second: wanted_second },
        ) => {
            &&& axis == wanted
            &&& first_ratio as int * 2 == PANE_SPLIT_RATIO_SCALE
            &&& has_cuts_of(*first, *wanted_first)
            &&& has_cuts_of(*second, *wanted_second)
        },
        _ => false,
    }
}

/// The layout that a template makes has the template's cuts.
pub proof fn law_template_cuts_are_made<Leaf>(template: PaneSplitTemplate<Leaf>, ids: Seq<u64>)
    ensures
        has_cuts_of(template.layout(ids), template),
    decreases template,
{
    match template {
        PaneSplitTemplate::Pane(_) => {},
        PaneSplitTemplate::Split { first, second, .. } => {
            law_template_cuts_are_made(*first, ids);
            law_template_cuts_are_made(*second, ids.skip(first.leaves() as int));
        },
    }
}

/// Four panes of one size turn as a whole, and so do two panes; otherwise a pane that is
/// alone in its part turns with the other part only where it is as large.
pub proof fn law_what_turns_depends_on_the_sizes(
    layout: PaneLayout,
    active: u64,
    measures: Seq<SplitMeasure>,
    at: int,
)
    ensures
        layout.ids().len() == 4 && measures[at].areas_equal ==> layout.rotation_path(
            active,
            measures,
            at,
        ) == Some(Seq::<bool>::empty()),
        layout matches PaneLayout::Split { first, second, .. } ==> {
            &&& *first is Pane && *second is Pane ==> layout.rotation_path(active, measures, at)
                == Some(Seq::<bool>::empty())
            &&& *first == PaneLayout::Pane(active) && !(*second is Pane) && !(layout.ids().len()
                == 4 && measures[at].areas_equal) ==> layout.rotation_path(active, measures, at)
                == if measures[at].active_covers_second {
                Some(Seq::<bool>::empty())
            } else {
                None
            }
            &&& *second == PaneLayout::Pane(active) && !(*first is Pane) && !(layout.ids().len()
                == 4 && measures[at].areas_equal) && !first.ids().contains(active)
                ==> layout.rotation_path(active, measures, at)
                == if measures[at].active_covers_first {
                Some(Seq::<bool>::empty())
            } else {
                None
            }
        },
        layout is Pane ==> layout.rotation_path(active, measures, at) is None,
{
    reveal_with_fuel(PaneLayout::rotation_path, 2);
    if layout.ids().len() == 4 {
        if let PaneLayout::Pane(id) = layout {
            assert(layout.ids() =~= seq![id]);
        }
    }
    if let PaneLayout::Split { first, second, .. } = layout {
        if *first == PaneLayout::Pane(active) {
            assert(first.ids() =~= seq![active]);
            assert(first.ids()[0] == active);
            assert(first.ids().contains(active));
        }
        if *second == PaneLayout::Pane(active) {
            assert(second.ids() =~= seq![active]);
            assert(second.ids()[0] == active);
            assert(second.ids().contains(active));
        }
    }
}

/// The last place of an id in a history has the id, and none after it does.
pub proof fn law_last_place_is_the_last(history: Seq<u64>, id: u64)
    ensures
        -1 <= last_position(history, id) < history.len(),
        last_position(history, id) >= 0 ==> history[last_position(history, id)] == id,
        forall|i: int|
            last_position(history, id) < i < history.len() ==> #[trigger] history[i] != id,
    decreases history.len(),
{
    if history.len() > 0 && history.last() != id {
        let shorter = history.drop_last();
        law_last_place_is_the_last(shorter, id);
        assert forall|i: int| 0 <= i < shorter.len() implies #[trigger] history[i]
            == shorter[i] by {}
    }
}

} // verus!
