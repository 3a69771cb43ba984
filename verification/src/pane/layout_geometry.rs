//! Where the panes of a layout stand and how large they are, and what the
//! operations on layouts do to that.

use vstd::prelude::*;

use crate::pane::layout::{
    adjusted_ratio, direction_axis, lemma_contains_in_concat, lemma_layout_has_a_pane, other_axis,
    PaneDirection, PaneLayout, PaneRotationDirection, SplitAxis, SplitPosition, SplitShare,
};

verus! {

/// Whether a pane stands before another on an axis: left of it where they stand
/// side by side, above it where one is over the other.
pub open spec fn precedes(layout: PaneLayout, axis: SplitAxis, pane: u64, other: u64) -> bool
    decreases layout,
{
    match layout {
        PaneLayout::Pane(_) => false,
        PaneLayout::Split { axis: split_axis, first, second, .. } => {
            ||| split_axis == axis && first.ids().contains(pane) && second.ids().contains(other)
            ||| precedes(*first, axis, pane, other)
            ||| precedes(*second, axis, pane, other)
        },
    }
}

/// Whether a pane stands in some direction of another.
pub open spec fn lies_toward(
    layout: PaneLayout,
    pane: u64,
    direction: PaneDirection,
    other: u64,
) -> bool {
    match direction {
        PaneDirection::Left => precedes(layout, SplitAxis::Vertical, other, pane),
        PaneDirection::Right => precedes(layout, SplitAxis::Vertical, pane, other),
        PaneDirection::Up => precedes(layout, SplitAxis::Horizontal, other, pane),
        PaneDirection::Down => precedes(layout, SplitAxis::Horizontal, pane, other),
    }
}

/// How large a pane is on an axis: the product of the shares of the sides that it
/// is on, over the splits on that axis around it.
pub open spec fn extent(layout: PaneLayout, pane: u64, axis: SplitAxis) -> int
    decreases layout,
{
    match layout {
        PaneLayout::Pane(_) => 1,
        PaneLayout::Split { axis: split_axis, first_ratio, first, second } => {
            let inner = if first.ids().contains(pane) {
                extent(*first, pane, axis)
            } else {
                extent(*second, pane, axis)
            };
            if split_axis != axis {
                inner
            } else if first.ids().contains(pane) {
                first_ratio * inner
            } else {
                (1000 - first_ratio) * inner
            }
        },
    }
}

/// The share of the side that a pane is on, of the closest split on an axis around
/// it.
pub open spec fn closest_share(layout: PaneLayout, pane: u64, axis: SplitAxis) -> Option<int>
    decreases layout,
{
    match layout {
        PaneLayout::Pane(_) => None,
        PaneLayout::Split { axis: split_axis, first_ratio, first, second } => {
            let in_first = first.ids().contains(pane);
            let inner = if in_first {
                closest_share(*first, pane, axis)
            } else {
                closest_share(*second, pane, axis)
            };
            if !layout.ids().contains(pane) {
                None
            } else if inner is Some {
                inner
            } else if split_axis != axis {
                None
            } else if in_first {
                Some(first_ratio as int)
            } else {
                Some(1000 - first_ratio)
            }
        },
    }
}

/// The children of a layout of distinct panes have distinct panes, and none in
/// common.
pub proof fn lemma_children_distinct(first: PaneLayout, second: PaneLayout)
    requires
        (first.ids() + second.ids()).no_duplicates(),
    ensures
        first.ids().no_duplicates(),
        second.ids().no_duplicates(),
        forall|id: u64| first.ids().contains(id) ==> !second.ids().contains(id),
{
    let left = first.ids();
    let right = second.ids();
    let ids = left + right;
    assert forall|i: int, j: int|
        0 <= i < left.len() && 0 <= j < left.len() && i != j implies left[i] != left[j] by {
        assert(ids[i] == left[i] && ids[j] == left[j]);
    }
    assert forall|i: int, j: int|
        0 <= i < right.len() && 0 <= j < right.len() && i != j implies right[i] != right[j] by {
        assert(ids[left.len() + i] == right[i] && ids[left.len() + j] == right[j]);
    }
    assert forall|id: u64| left.contains(id) implies !right.contains(id) by {
        if right.contains(id) {
            let i = choose|i: int| 0 <= i < left.len() && left[i] == id;
            let j = choose|j: int| 0 <= j < right.len() && right[j] == id;
            assert(ids[i] == ids[left.len() + j]);
        }
    }
}

/// Panes that stand before one another are in the layout.
proof fn lemma_placed_panes(layout: PaneLayout, axis: SplitAxis, pane: u64, other: u64)
    ensures
        precedes(layout, axis, pane, other) ==> layout.ids().contains(pane) && layout.ids().contains(
            other,
        ),
    decreases layout,
{
    match layout {
        PaneLayout::Pane(_) => {},
        PaneLayout::Split { first, second, .. } => {
            lemma_placed_panes(*first, axis, pane, other);
            lemma_placed_panes(*second, axis, pane, other);
            lemma_contains_in_concat(first.ids(), second.ids(), pane);
            lemma_contains_in_concat(first.ids(), second.ids(), other);
        },
    }
}

/// No pane stands both before and behind another.
pub proof fn law_panes_stand_on_one_side(
    layout: PaneLayout,
    axis: SplitAxis,
    pane: u64,
    other: u64,
)
    requires
        layout.ids().no_duplicates(),
        precedes(layout, axis, pane, other),
    ensures
        !precedes(layout, axis, other, pane),
        pane != other,
    decreases layout,
{
    match layout {
        PaneLayout::Pane(_) => {},
        PaneLayout::Split { first, second, .. } => {
            lemma_children_distinct(*first, *second);
            lemma_placed_panes(*first, axis, pane, other);
            lemma_placed_panes(*second, axis, pane, other);
            lemma_placed_panes(*first, axis, other, pane);
            lemma_placed_panes(*second, axis, other, pane);
            if precedes(*first, axis, pane, other) {
                law_panes_stand_on_one_side(*first, axis, pane, other);
            }
            if precedes(*second, axis, pane, other) {
                law_panes_stand_on_one_side(*second, axis, pane, other);
            }
        },
    }
}

proof fn lemma_extent_positive(layout: PaneLayout, pane: u64, axis: SplitAxis)
    requires
        layout.wf(),
    ensures
        extent(layout, pane, axis) > 0,
    decreases layout,
{
    match layout {
        PaneLayout::Pane(_) => {},
        PaneLayout::Split { first_ratio, first, second, .. } => {
            lemma_extent_positive(*first, pane, axis);
            lemma_extent_positive(*second, pane, axis);
            let a = extent(*first, pane, axis);
            let b = extent(*second, pane, axis);
            assert(first_ratio * a > 0) by (nonlinear_arith)
                requires
                    first_ratio > 0,
                    a > 0,
            ;
            assert((1000 - first_ratio) * b > 0) by (nonlinear_arith)
                requires
                    first_ratio < 1000,
                    b > 0,
            ;
        },
    }
}

/// Resizing gives a pane what it is asked to: its side of the closest split on the
/// axis gets as much more as there is room for, or less where that is asked. It is
/// refused only where there is no such split. Every pane keeps its place, and its
/// size on the other axis.
pub proof fn law_resizing_moves_the_closest_share(
    layout: PaneLayout,
    pane: u64,
    axis: SplitAxis,
    delta: int,
)
    requires
        layout.wf(),
        layout.ids().no_duplicates(),
    ensures
        layout.resized(pane, axis, delta) is Some == closest_share(layout, pane, axis) is Some,
        layout.resized(pane, axis, delta) matches Some(resized) ==> {
            let before = closest_share(layout, pane, axis)->0;
            let after = closest_share(resized, pane, axis)->0;
            &&& closest_share(resized, pane, axis) is Some
            &&& 0 < after < 1000
            &&& 0 < before + delta < 1000 ==> after == before + delta
            &&& before + delta <= 0 ==> after == 1
            &&& before + delta >= 1000 ==> after == 999
            &&& resized.ids() == layout.ids()
            &&& forall|some_axis: SplitAxis, a: u64, b: u64|
                #[trigger] precedes(resized, some_axis, a, b) == precedes(layout, some_axis, a, b)
            &&& forall|other: u64| #[trigger]
                extent(resized, other, other_axis(axis)) == extent(layout, other, other_axis(axis))
        },
    decreases layout,
{
    match layout {
        PaneLayout::Pane(_) => {},
        PaneLayout::Split { first, second, .. } => {
            lemma_children_distinct(*first, *second);
            lemma_contains_in_concat(first.ids(), second.ids(), pane);
            law_resizing_moves_the_closest_share(*first, pane, axis, delta);
            law_resizing_moves_the_closest_share(*second, pane, axis, delta);
            lemma_no_share(*first, pane, axis);
            lemma_no_share(*second, pane, axis);
            if let Some(resized) = layout.resized(pane, axis, delta) {
                match resized {
                    PaneLayout::Pane(_) => {},
                    PaneLayout::Split { first: new_first, second: new_second, .. } => {
                        assert(new_first.ids() == first.ids());
                        assert(new_second.ids() == second.ids());
                        assert(resized.ids() == layout.ids());
                        assert forall|some_axis: SplitAxis, a: u64, b: u64|
                            #[trigger] precedes(resized, some_axis, a, b) == precedes(
                                layout,
                                some_axis,
                                a,
                                b,
                            ) by {
                            assert(precedes(*new_first, some_axis, a, b) == precedes(
                                *first,
                                some_axis,
                                a,
                                b,
                            ));
                            assert(precedes(*new_second, some_axis, a, b) == precedes(
                                *second,
                                some_axis,
                                a,
                                b,
                            ));
                        }
                        assert forall|other: u64| #[trigger]
                            extent(resized, other, other_axis(axis)) == extent(
                                layout,
                                other,
                                other_axis(axis),
                            ) by {
                            assert(extent(*new_first, other, other_axis(axis)) == extent(
                                *first,
                                other,
                                other_axis(axis),
                            ));
                            assert(extent(*new_second, other, other_axis(axis)) == extent(
                                *second,
                                other,
                                other_axis(axis),
                            ));
                        }
                    },
                }
            }
        },
    }
}

proof fn lemma_no_share(layout: PaneLayout, pane: u64, axis: SplitAxis)
    ensures
        !layout.ids().contains(pane) ==> closest_share(layout, pane, axis) is None,
{
}

/// Growing a pane makes it larger on the axis and no other pane of its side
/// smaller, and shrinking it makes it smaller, wherever the layout changes at all.
pub proof fn law_growing_enlarges_the_pane(
    layout: PaneLayout,
    pane: u64,
    axis: SplitAxis,
    delta: int,
)
    requires
        layout.wf(),
        layout.ids().no_duplicates(),
    ensures
        layout.resized(pane, axis, delta) matches Some(resized) ==> {
            &&& delta == 0 ==> resized == layout
            &&& delta > 0 && resized != layout ==> extent(resized, pane, axis) > extent(
                layout,
                pane,
                axis,
            )
            &&& delta < 0 && resized != layout ==> extent(resized, pane, axis) < extent(
                layout,
                pane,
                axis,
            )
        },
    decreases layout,
{
    match layout {
        PaneLayout::Pane(_) => {},
        PaneLayout::Split { axis: split_axis, first_ratio, first, second } => {
            lemma_children_distinct(*first, *second);
            lemma_contains_in_concat(first.ids(), second.ids(), pane);
            law_growing_enlarges_the_pane(*first, pane, axis, delta);
            law_growing_enlarges_the_pane(*second, pane, axis, delta);
            law_resizing_moves_the_closest_share(*first, pane, axis, delta);
            law_resizing_moves_the_closest_share(*second, pane, axis, delta);
            lemma_extent_positive(*first, pane, axis);
            lemma_extent_positive(*second, pane, axis);
            if let Some(resized) = layout.resized(pane, axis, delta) {
                match resized {
                    PaneLayout::Pane(_) => {},
                    PaneLayout::Split {
                        first_ratio: new_ratio,
                        first: new_first,
                        second: new_second,
                        ..
                    } => {
                        lemma_products(
                            first_ratio as int,
                            new_ratio as int,
                            extent(*first, pane, axis),
                            extent(*new_first, pane, axis),
                        );
                        lemma_products(
                            1000 - first_ratio,
                            1000 - new_ratio,
                            extent(*second, pane, axis),
                            extent(*new_second, pane, axis),
                        );
                    },
                }
            }
        },
    }
}

/// A product of positive factors goes with its factors.
proof fn lemma_products(share: int, new_share: int, inner: int, new_inner: int)
    ensures
        share > 0 && inner > 0 && new_share == share && new_inner > inner ==> new_share * new_inner
            > share * inner,
        share > 0 && inner > 0 && new_share == share && new_inner < inner ==> new_share * new_inner
            < share * inner,
        share > 0 && inner > 0 && new_share > share && new_inner == inner ==> new_share * new_inner
            > share * inner,
        share > 0 && inner > 0 && new_share < share && new_inner == inner ==> new_share * new_inner
            < share * inner,
{
    assert(share > 0 && inner > 0 && new_share == share && new_inner > inner ==> new_share
        * new_inner > share * inner) by (nonlinear_arith);
    assert(share > 0 && inner > 0 && new_share == share && new_inner < inner ==> new_share
        * new_inner < share * inner) by (nonlinear_arith);
    assert(share > 0 && inner > 0 && new_share > share && new_inner == inner ==> new_share
        * new_inner > share * inner) by (nonlinear_arith);
    assert(share > 0 && inner > 0 && new_share < share && new_inner == inner ==> new_share
        * new_inner < share * inner) by (nonlinear_arith);
}

proof fn lemma_rotated_members(layout: PaneLayout, direction: PaneRotationDirection, id: u64)
    ensures
        layout.rotated(direction).ids().contains(id) == layout.ids().contains(id),
    decreases layout,
{
    match layout {
        PaneLayout::Pane(_) => {},
        PaneLayout::Split { first, second, .. } => {
            lemma_rotated_members(*first, direction, id);
            lemma_rotated_members(*second, direction, id);
            let a = first.rotated(direction).ids();
            let b = second.rotated(direction).ids();
            lemma_contains_in_concat(first.ids(), second.ids(), id);
            lemma_contains_in_concat(a, b, id);
            lemma_contains_in_concat(b, a, id);
        },
    }
}

/// Turning a layout clockwise takes what is left to the top and what is on top to
/// the right; turning it the other way takes what is on top to the left and what
/// is left to the bottom.
pub proof fn law_turning_takes_the_sides_along(
    layout: PaneLayout,
    direction: PaneRotationDirection,
    pane: u64,
    other: u64,
)
    ensures
        ({
            let turned = layout.rotated(direction);
            let beside = precedes(layout, SplitAxis::Vertical, pane, other);
            let over = precedes(layout, SplitAxis::Horizontal, pane, other);
            match direction {
                PaneRotationDirection::Clockwise => {
                    &&& precedes(turned, SplitAxis::Horizontal, pane, other) == beside
                    &&& precedes(turned, SplitAxis::Vertical, other, pane) == over
                },
                PaneRotationDirection::CounterClockwise => {
                    &&& precedes(turned, SplitAxis::Horizontal, other, pane) == beside
                    &&& precedes(turned, SplitAxis::Vertical, pane, other) == over
                },
            }
        }),
    decreases layout,
{
    match layout {
        PaneLayout::Pane(_) => {},
        PaneLayout::Split { first, second, .. } => {
            law_turning_takes_the_sides_along(*first, direction, pane, other);
            law_turning_takes_the_sides_along(*second, direction, pane, other);
            lemma_rotated_members(*first, direction, pane);
            lemma_rotated_members(*first, direction, other);
            lemma_rotated_members(*second, direction, pane);
            lemma_rotated_members(*second, direction, other);
        },
    }
}

/// Turning a layout exchanges the width and the height of every pane.
pub proof fn law_turning_exchanges_width_and_height(
    layout: PaneLayout,
    direction: PaneRotationDirection,
    pane: u64,
    axis: SplitAxis,
)
    requires
        layout.wf(),
        layout.ids().no_duplicates(),
        layout.ids().contains(pane),
    ensures
        extent(layout.rotated(direction), pane, other_axis(axis)) == extent(layout, pane, axis),
    decreases layout,
{
    match layout {
        PaneLayout::Pane(_) => {},
        PaneLayout::Split { first, second, .. } => {
            lemma_children_distinct(*first, *second);
            lemma_contains_in_concat(first.ids(), second.ids(), pane);
            lemma_rotated_members(*first, direction, pane);
            lemma_rotated_members(*second, direction, pane);
            if first.ids().contains(pane) {
                law_turning_exchanges_width_and_height(*first, direction, pane, axis);
            } else {
                law_turning_exchanges_width_and_height(*second, direction, pane, axis);
            }
        },
    }
}

/// Removing panes leaves the others standing as they stood to each other.
pub proof fn law_removal_keeps_the_places(
    layout: PaneLayout,
    gone: Set<u64>,
    axis: SplitAxis,
    pane: u64,
    other: u64,
)
    ensures
        layout.removed(gone) matches Some(rest) ==> {
            &&& rest.ids().contains(pane) == (layout.ids().contains(pane) && !gone.contains(pane))
            &&& precedes(rest, axis, pane, other) == (precedes(layout, axis, pane, other)
                && !gone.contains(pane) && !gone.contains(other))
        },
        layout.removed(gone) is None && layout.ids().contains(pane) ==> gone.contains(pane),
    decreases layout,
{
    match layout {
        PaneLayout::Pane(id) => {
            assert(layout.ids()[0] == id);
            assert(layout.ids().contains(pane) == (pane == id));
        },
        PaneLayout::Split { first, second, .. } => {
            law_removal_keeps_the_places(*first, gone, axis, pane, other);
            law_removal_keeps_the_places(*second, gone, axis, pane, other);
            law_removal_keeps_the_places(*first, gone, axis, other, pane);
            law_removal_keeps_the_places(*second, gone, axis, other, pane);
            lemma_contains_in_concat(first.ids(), second.ids(), pane);
            lemma_contains_in_concat(first.ids(), second.ids(), other);
            lemma_placed_panes(*first, axis, pane, other);
            lemma_placed_panes(*second, axis, pane, other);
            if let (Some(a), Some(b)) = (first.removed(gone), second.removed(gone)) {
                lemma_contains_in_concat(a.ids(), b.ids(), pane);
            }
        },
    }
}

proof fn lemma_replaced_members(layout: PaneLayout, target: u64, replacement: PaneLayout, id: u64)
    requires
        layout.ids().no_duplicates(),
        layout.ids().contains(target),
    ensures
        layout.replaced(target, replacement).ids().contains(id) == ((layout.ids().contains(id) && id
            != target) || replacement.ids().contains(id)),
    decreases layout,
{
    match layout {
        PaneLayout::Pane(only) => {
            assert(layout.ids()[0] == only);
        },
        PaneLayout::Split { first, second, .. } => {
            lemma_children_distinct(*first, *second);
            lemma_contains_in_concat(first.ids(), second.ids(), id);
            lemma_contains_in_concat(first.ids(), second.ids(), target);
            if first.ids().contains(target) {
                lemma_replaced_members(*first, target, replacement, id);
                lemma_contains_in_concat(
                    first.replaced(target, replacement).ids(),
                    second.ids(),
                    id,
                );
            } else {
                lemma_replaced_members(*second, target, replacement, id);
                lemma_contains_in_concat(
                    first.ids(),
                    second.replaced(target, replacement).ids(),
                    id,
                );
            }
        },
    }
}

proof fn lemma_halves(target: u64, axis: SplitAxis, new_pane: u64, position: SplitPosition, id: u64)
    ensures
        PaneLayout::halves(target, axis, new_pane, position).ids().contains(id) == (id == target
            || id == new_pane),
{
    let halves = PaneLayout::halves(target, axis, new_pane, position);
    reveal_with_fuel(PaneLayout::ids, 3);
    assert(halves.ids().len() == 2);
    assert(halves.ids().contains(halves.ids()[0]));
    assert(halves.ids().contains(halves.ids()[1]));
}

/// Splitting a pane puts the new one right before or behind it on the axis, to the
/// others the new one stands as the split one does, and the others stand as they
/// did.
pub proof fn law_split_puts_the_new_pane_beside(
    layout: PaneLayout,
    target: u64,
    axis: SplitAxis,
    new_pane: u64,
    position: SplitPosition,
    some_axis: SplitAxis,
    other: u64,
    third: u64,
)
    requires
        layout.ids().no_duplicates(),
        layout.ids().contains(target),
        !layout.ids().contains(new_pane),
        other != target && other != new_pane,
        third != target && third != new_pane,
    ensures
        ({
            let split = layout.replaced(
                target,
                PaneLayout::halves(target, axis, new_pane, position),
            );
            &&& match position {
                SplitPosition::Before => precedes(split, axis, new_pane, target) && !precedes(
                    split,
                    axis,
                    target,
                    new_pane,
                ),
                SplitPosition::After => precedes(split, axis, target, new_pane) && !precedes(
                    split,
                    axis,
                    new_pane,
                    target,
                ),
            }
            &&& !precedes(split, other_axis(axis), new_pane, target)
            &&& !precedes(split, other_axis(axis), target, new_pane)
            &&& precedes(split, some_axis, new_pane, other) == precedes(
                layout,
                some_axis,
                target,
                other,
            )
            &&& precedes(split, some_axis, other, new_pane) == precedes(
                layout,
                some_axis,
                other,
                target,
            )
            &&& precedes(split, some_axis, target, other) == precedes(
                layout,
                some_axis,
                target,
                other,
            )
            &&& precedes(split, some_axis, other, target) == precedes(
                layout,
                some_axis,
                other,
                target,
            )
            &&& precedes(split, some_axis, other, third) == precedes(
                layout,
                some_axis,
                other,
                third,
            )
        }),
    decreases layout,
{
    let halves = PaneLayout::halves(target, axis, new_pane, position);
    lemma_halves(target, axis, new_pane, position, target);
    lemma_halves(target, axis, new_pane, position, new_pane);
    lemma_halves(target, axis, new_pane, position, other);
    lemma_halves(target, axis, new_pane, position, third);
    match layout {
        PaneLayout::Pane(only) => {
            assert(layout.ids()[0] == only);
            assert(only == target);
            match halves {
                PaneLayout::Split { first, second, .. } => {
                    assert(first.ids().contains(first.ids()[0]));
                    assert(second.ids().contains(second.ids()[0]));
                    assert forall|id: u64| first.ids().contains(id) implies id == first.ids()[0] by {}
                    assert forall|id: u64| second.ids().contains(id) implies id
                        == second.ids()[0] by {}
                    reveal_with_fuel(precedes, 2);
                },
                _ => {},
            }
        },
        PaneLayout::Split { first, second, .. } => {
            lemma_children_distinct(*first, *second);
            let ids = seq![target, new_pane, other, third];
            assert forall|i: int| 0 <= i < 4 implies {
                &&& layout.ids().contains(#[trigger] ids[i]) == (first.ids().contains(ids[i])
                    || second.ids().contains(ids[i]))
                &&& first.ids().contains(target) ==> first.replaced(target, halves).ids().contains(
                    ids[i],
                ) == ((first.ids().contains(ids[i]) && ids[i] != target) || halves.ids().contains(
                    ids[i],
                ))
                &&& second.ids().contains(target) ==> second.replaced(
                    target,
                    halves,
                ).ids().contains(ids[i]) == ((second.ids().contains(ids[i]) && ids[i] != target)
                    || halves.ids().contains(ids[i]))
            } by {
                lemma_contains_in_concat(first.ids(), second.ids(), ids[i]);
                if first.ids().contains(target) {
                    lemma_replaced_members(*first, target, halves, ids[i]);
                }
                if second.ids().contains(target) {
                    lemma_replaced_members(*second, target, halves, ids[i]);
                }
            }
            assert(ids[0] == target && ids[1] == new_pane && ids[2] == other && ids[3] == third);
            lemma_unplaced(*first, axis, target, new_pane, some_axis, other);
            lemma_unplaced(*second, axis, target, new_pane, some_axis, other);
            if first.ids().contains(target) {
                law_split_puts_the_new_pane_beside(
                    *first,
                    target,
                    axis,
                    new_pane,
                    position,
                    some_axis,
                    other,
                    third,
                );
            } else {
                law_split_puts_the_new_pane_beside(
                    *second,
                    target,
                    axis,
                    new_pane,
                    position,
                    some_axis,
                    other,
                    third,
                );
            }
        },
    }
}

/// Panes that are not in a layout stand nowhere in it.
proof fn lemma_unplaced(
    layout: PaneLayout,
    axis: SplitAxis,
    target: u64,
    new_pane: u64,
    some_axis: SplitAxis,
    other: u64,
)
    ensures
        !layout.ids().contains(new_pane) ==> {
            &&& !precedes(layout, axis, new_pane, target)
            &&& !precedes(layout, axis, target, new_pane)
            &&& !precedes(layout, other_axis(axis), new_pane, target)
            &&& !precedes(layout, other_axis(axis), target, new_pane)
            &&& !precedes(layout, some_axis, new_pane, other)
            &&& !precedes(layout, some_axis, other, new_pane)
        },
        !layout.ids().contains(target) ==> {
            &&& !precedes(layout, some_axis, target, other)
            &&& !precedes(layout, some_axis, other, target)
        },
{
    lemma_placed_panes(layout, axis, new_pane, target);
    lemma_placed_panes(layout, axis, target, new_pane);
    lemma_placed_panes(layout, other_axis(axis), new_pane, target);
    lemma_placed_panes(layout, other_axis(axis), target, new_pane);
    lemma_placed_panes(layout, some_axis, new_pane, other);
    lemma_placed_panes(layout, some_axis, other, new_pane);
    lemma_placed_panes(layout, some_axis, target, other);
    lemma_placed_panes(layout, some_axis, other, target);
}

/// Splitting a pane halves it on the axis, for both of the halves, and leaves them
/// as large on the other.
pub proof fn law_split_halves_the_pane(
    layout: PaneLayout,
    target: u64,
    axis: SplitAxis,
    new_pane: u64,
    position: SplitPosition,
)
    requires
        layout.ids().no_duplicates(),
        layout.ids().contains(target),
        !layout.ids().contains(new_pane),
    ensures
        ({
            let split = layout.replaced(
                target,
                PaneLayout::halves(target, axis, new_pane, position),
            );
            &&& extent(split, target, axis) == 500 * extent(layout, target, axis)
            &&& extent(split, new_pane, axis) == 500 * extent(layout, target, axis)
            &&& extent(split, target, other_axis(axis)) == extent(
                layout,
                target,
                other_axis(axis),
            )
            &&& extent(split, new_pane, other_axis(axis)) == extent(
                layout,
                target,
                other_axis(axis),
            )
        }),
    decreases layout,
{
    let halves = PaneLayout::halves(target, axis, new_pane, position);
    match layout {
        PaneLayout::Pane(only) => {
            assert(layout.ids()[0] == only);
            reveal_with_fuel(extent, 2);
        },
        PaneLayout::Split { first_ratio, first, second, .. } => {
            lemma_children_distinct(*first, *second);
            lemma_contains_in_concat(first.ids(), second.ids(), target);
            lemma_contains_in_concat(first.ids(), second.ids(), new_pane);
            lemma_halves(target, axis, new_pane, position, target);
            lemma_halves(target, axis, new_pane, position, new_pane);
            let a = extent(*first, target, axis);
            let b = extent(*second, target, axis);
            assert(first_ratio * (500 * a) == 500 * (first_ratio * a)) by (nonlinear_arith);
            assert((1000 - first_ratio) * (500 * b) == 500 * ((1000 - first_ratio) * b))
                by (nonlinear_arith);
            if first.ids().contains(target) {
                law_split_halves_the_pane(*first, target, axis, new_pane, position);
                lemma_replaced_members(*first, target, halves, target);
                lemma_replaced_members(*first, target, halves, new_pane);
            } else {
                law_split_halves_the_pane(*second, target, axis, new_pane, position);
                lemma_replaced_members(*second, target, halves, target);
                lemma_replaced_members(*second, target, halves, new_pane);
            }
        },
    }
}

spec fn stands_toward(
    layout: PaneLayout,
    axis: SplitAxis,
    toward_first: bool,
    pane: u64,
    other: u64,
) -> bool {
    if toward_first {
        precedes(layout, axis, other, pane)
    } else {
        precedes(layout, axis, pane, other)
    }
}

proof fn lemma_moved_members(
    layout: PaneLayout,
    pane: u64,
    axis: SplitAxis,
    toward_first: bool,
    id: u64,
)
    ensures
        layout.moved(pane, axis, toward_first) matches Some(moved) ==> moved.ids().contains(id)
            == layout.ids().contains(id),
    decreases layout,
{
    match layout {
        PaneLayout::Pane(_) => {},
        PaneLayout::Split { first, second, .. } => {
            lemma_moved_members(*first, pane, axis, toward_first, id);
            lemma_moved_members(*second, pane, axis, toward_first, id);
            lemma_contains_in_concat(first.ids(), second.ids(), id);
            lemma_contains_in_concat(second.ids(), first.ids(), id);
            if let Some(moved) = first.moved(pane, axis, toward_first) {
                lemma_contains_in_concat(moved.ids(), second.ids(), id);
            }
            if let Some(moved) = second.moved(pane, axis, toward_first) {
                lemma_contains_in_concat(first.ids(), moved.ids(), id);
            }
        },
    }
}

/// A pane that moves keeps every pane as large as it is.
pub proof fn law_move_keeps_sizes(
    layout: PaneLayout,
    pane: u64,
    direction: PaneDirection,
    other: u64,
    some_axis: SplitAxis,
)
    requires
        layout.wf(),
        layout.ids().no_duplicates(),
        layout.ids().contains(other),
    ensures
        ({
            let (axis, toward_first) = direction_axis(direction);
            layout.moved(pane, axis, toward_first) matches Some(moved) ==> extent(
                moved,
                other,
                some_axis,
            ) == extent(layout, other, some_axis)
        }),
    decreases layout,
{
    let (axis, toward_first) = direction_axis(direction);
    match layout {
        PaneLayout::Pane(_) => {},
        PaneLayout::Split { first, second, .. } => {
            lemma_children_distinct(*first, *second);
            lemma_contains_in_concat(first.ids(), second.ids(), other);
            lemma_moved_members(*first, pane, axis, toward_first, other);
            lemma_moved_members(*second, pane, axis, toward_first, other);
            if first.ids().contains(other) {
                law_move_keeps_sizes(*first, pane, direction, other, some_axis);
            } else {
                law_move_keeps_sizes(*second, pane, direction, other, some_axis);
            }
        },
    }
}

proof fn lemma_move(
    layout: PaneLayout,
    pane: u64,
    axis: SplitAxis,
    toward_first: bool,
    other: u64,
) -> (passed: u64)
    requires
        layout.ids().no_duplicates(),
        layout.ids().contains(pane),
    ensures
        match layout.moved(pane, axis, toward_first) {
            None => !stands_toward(layout, axis, toward_first, pane, other),
            Some(moved) => {
                &&& stands_toward(layout, axis, toward_first, pane, passed)
                &&& stands_toward(moved, axis, toward_first, passed, pane)
                &&& stands_toward(moved, axis, toward_first, pane, other) ==> stands_toward(
                    layout,
                    axis,
                    toward_first,
                    pane,
                    other,
                )
                &&& precedes(moved, other_axis(axis), pane, other) == precedes(
                    layout,
                    other_axis(axis),
                    pane,
                    other,
                )
                &&& precedes(moved, other_axis(axis), other, pane) == precedes(
                    layout,
                    other_axis(axis),
                    other,
                    pane,
                )
            },
        },
    decreases layout,
{
    match layout {
        PaneLayout::Pane(_) => pane,
        PaneLayout::Split { first, second, .. } => {
            lemma_children_distinct(*first, *second);
            lemma_contains_in_concat(first.ids(), second.ids(), pane);
            lemma_placed_panes(*first, axis, pane, other);
            lemma_placed_panes(*first, axis, other, pane);
            lemma_placed_panes(*second, axis, pane, other);
            lemma_placed_panes(*second, axis, other, pane);
            lemma_placed_panes(*first, other_axis(axis), pane, other);
            lemma_placed_panes(*first, other_axis(axis), other, pane);
            lemma_placed_panes(*second, other_axis(axis), pane, other);
            lemma_placed_panes(*second, other_axis(axis), other, pane);
            lemma_layout_has_a_pane(*first);
            lemma_layout_has_a_pane(*second);
            if first.ids().contains(pane) {
                let inner = lemma_move(*first, pane, axis, toward_first, other);
                lemma_moved_members(*first, pane, axis, toward_first, pane);
                lemma_moved_members(*first, pane, axis, toward_first, other);
                if first.moved(pane, axis, toward_first) is Some {
                    inner
                } else {
                    assert(second.ids().contains(second.ids()[0]));
                    second.ids()[0]
                }
            } else {
                let inner = lemma_move(*second, pane, axis, toward_first, other);
                lemma_moved_members(*second, pane, axis, toward_first, pane);
                lemma_moved_members(*second, pane, axis, toward_first, other);
                if second.moved(pane, axis, toward_first) is Some {
                    inner
                } else {
                    assert(first.ids().contains(first.ids()[0]));
                    first.ids()[0]
                }
            }
        },
    }
}

/// A pane that moves in a direction passes some pane that stood there, and no pane
/// stands there then that did not before. It stays only where none stood there.
pub proof fn law_move_goes_in_the_direction(
    layout: PaneLayout,
    pane: u64,
    direction: PaneDirection,
)
    requires
        layout.ids().no_duplicates(),
        layout.ids().contains(pane),
    ensures
        ({
            let (axis, toward_first) = direction_axis(direction);
            match layout.moved(pane, axis, toward_first) {
                None => forall|other: u64| !#[trigger] lies_toward(layout, pane, direction, other),
                Some(moved) => {
                    &&& exists|passed: u64|
                        #[trigger] lies_toward(layout, pane, direction, passed) && lies_toward(
                            moved,
                            passed,
                            direction,
                            pane,
                        )
                    &&& forall|other: u64| #[trigger]
                        lies_toward(moved, pane, direction, other) ==> lies_toward(
                            layout,
                            pane,
                            direction,
                            other,
                        )
                },
            }
        }),
{
    let (axis, toward_first) = direction_axis(direction);
    let passed = lemma_move(layout, pane, axis, toward_first, pane);
    assert forall|other: u64| layout.moved(pane, axis, toward_first) is None implies
        !#[trigger] lies_toward(layout, pane, direction, other) by {
        lemma_move(layout, pane, axis, toward_first, other);
    }
    if let Some(moved) = layout.moved(pane, axis, toward_first) {
        assert(lies_toward(layout, pane, direction, passed) && lies_toward(
            moved,
            passed,
            direction,
            pane,
        ));
        assert forall|other: u64| #[trigger]
            lies_toward(moved, pane, direction, other) implies lies_toward(
            layout,
            pane,
            direction,
            other,
        ) by {
            lemma_move(layout, pane, axis, toward_first, other);
        }
    }
}

/// Dragging the border between two panes gives what is on the first one's side
/// more, and what is on the second one's less, or the other way where it is
/// dragged back, wherever the layout changes at all.
pub proof fn law_dragging_moves_the_border(
    layout: PaneLayout,
    first_pane: u64,
    second_pane: u64,
    axis: SplitAxis,
    delta: int,
)
    requires
        layout.wf(),
        layout.ids().no_duplicates(),
    ensures
        ({
            let dragged = layout.split_resized(first_pane, second_pane, axis, delta);
            &&& dragged.ids() == layout.ids()
            &&& delta == 0 ==> dragged == layout
            &&& dragged != layout ==> {
                &&& precedes(layout, axis, first_pane, second_pane)
                &&& delta > 0 ==> extent(dragged, first_pane, axis) > extent(
                    layout,
                    first_pane,
                    axis,
                ) && extent(dragged, second_pane, axis) < extent(layout, second_pane, axis)
                &&& delta < 0 ==> extent(dragged, first_pane, axis) < extent(
                    layout,
                    first_pane,
                    axis,
                ) && extent(dragged, second_pane, axis) > extent(layout, second_pane, axis)
            }
        }),
    decreases layout,
{
    match layout {
        PaneLayout::Pane(_) => {},
        PaneLayout::Split { first_ratio, first, second, .. } => {
            lemma_children_distinct(*first, *second);
            law_dragging_moves_the_border(*first, first_pane, second_pane, axis, delta);
            law_dragging_moves_the_border(*second, first_pane, second_pane, axis, delta);
            lemma_layout_has_a_pane(*first);
            lemma_layout_has_a_pane(*second);
            assert(first.ids().contains(first.ids()[0]));
            assert(second.ids().contains(second.ids()[0]));
            lemma_placed_panes(*first, axis, first_pane, second_pane);
            lemma_placed_panes(*second, axis, first_pane, second_pane);
            lemma_extent_positive(*first, first_pane, axis);
            lemma_extent_positive(*second, first_pane, axis);
            lemma_extent_positive(*first, second_pane, axis);
            lemma_extent_positive(*second, second_pane, axis);
            match layout.split_resized(first_pane, second_pane, axis, delta) {
                PaneLayout::Pane(_) => {},
                PaneLayout::Split {
                    first_ratio: new_ratio,
                    first: new_first,
                    second: new_second,
                    ..
                } => {
                    let old_share = first_ratio as int;
                    let new_share = new_ratio as int;
                    lemma_products(
                        old_share,
                        new_share,
                        extent(*first, first_pane, axis),
                        extent(*new_first, first_pane, axis),
                    );
                    lemma_products(
                        old_share,
                        new_share,
                        extent(*first, second_pane, axis),
                        extent(*new_first, second_pane, axis),
                    );
                    lemma_products(
                        1000 - old_share,
                        1000 - new_share,
                        extent(*second, first_pane, axis),
                        extent(*new_second, first_pane, axis),
                    );
                    lemma_products(
                        1000 - old_share,
                        1000 - new_share,
                        extent(*second, second_pane, axis),
                        extent(*new_second, second_pane, axis),
                    );
                },
            }
        },
    }
}

/// A ratio that is moved goes as far as it is asked to, unless one side would have
/// no room.
pub proof fn law_ratio_goes_where_it_is_moved(ratio: u16, delta: int)
    requires
        0 < ratio < 1000,
    ensures
        0 < adjusted_ratio(ratio, delta) < 1000,
        0 < ratio + delta < 1000 ==> adjusted_ratio(ratio, delta) - ratio == delta,
        ratio + delta <= 0 ==> adjusted_ratio(ratio, delta) == 1,
        ratio + delta >= 1000 ==> adjusted_ratio(ratio, delta) == 999,
{
}

/// The border that a pane is resized at is the one that resizing moves: the panes
/// behind it stand on the other side of the pane, and growing the pane makes each
/// of them smaller and none else.
pub proof fn law_boundary_is_what_resizing_moves(
    layout: PaneLayout,
    pane: u64,
    axis: SplitAxis,
    shares: Seq<SplitShare>,
    delta: int,
    other: u64,
)
    requires
        layout.wf(),
        layout.ids().no_duplicates(),
        layout.ids().contains(other),
    ensures
        layout.boundary(pane, axis, shares) is Some == layout.resized(pane, axis, delta) is Some,
        layout.boundary(pane, axis, shares) matches Some((steps, is_first, siblings)) ==> {
            let resized = layout.resized(pane, axis, delta)->0;
            &&& steps.len() >= shares.len()
            &&& siblings.contains(other) ==> (if is_first {
                precedes(layout, axis, pane, other)
            } else {
                precedes(layout, axis, other, pane)
            })
            &&& delta > 0 && resized != layout && siblings.contains(other) ==> extent(
                resized,
                other,
                axis,
            ) < extent(layout, other, axis)
            &&& delta > 0 && !siblings.contains(other) ==> extent(resized, other, axis) >= extent(
                layout,
                other,
                axis,
            )
            &&& siblings.contains(other) ==> layout.ids().contains(other) && layout.ids().contains(
                pane,
            )
        },
    decreases layout,
{
    match layout {
        PaneLayout::Pane(_) => {},
        PaneLayout::Split { first_ratio, first, second, .. } => {
            lemma_children_distinct(*first, *second);
            lemma_contains_in_concat(first.ids(), second.ids(), pane);
            lemma_contains_in_concat(first.ids(), second.ids(), other);
            let left = shares.push(SplitShare { first_ratio, of_first: true });
            let right = shares.push(SplitShare { first_ratio, of_first: false });
            if first.ids().contains(other) {
                law_boundary_is_what_resizing_moves(*first, pane, axis, left, delta, other);
            } else {
                lemma_layout_has_a_pane(*first);
                law_boundary_is_what_resizing_moves(
                    *first,
                    pane,
                    axis,
                    left,
                    delta,
                    first.ids()[0],
                );
            }
            if second.ids().contains(other) {
                law_boundary_is_what_resizing_moves(*second, pane, axis, right, delta, other);
            } else {
                lemma_layout_has_a_pane(*second);
                law_boundary_is_what_resizing_moves(
                    *second,
                    pane,
                    axis,
                    right,
                    delta,
                    second.ids()[0],
                );
            }
            law_resizing_moves_the_closest_share(*first, pane, axis, delta);
            law_resizing_moves_the_closest_share(*second, pane, axis, delta);
            lemma_siblings_inside(*first, pane, axis, left);
            lemma_siblings_inside(*second, pane, axis, right);
            lemma_extent_positive(*first, other, axis);
            lemma_extent_positive(*second, other, axis);
            if let Some(resized) = layout.resized(pane, axis, delta) {
                match resized {
                    PaneLayout::Pane(_) => {},
                    PaneLayout::Split {
                        first_ratio: new_ratio,
                        first: new_first,
                        second: new_second,
                        ..
                    } => {
                        assert(new_first.ids() == first.ids());
                        assert(new_second.ids() == second.ids());
                        lemma_products(
                            first_ratio as int,
                            new_ratio as int,
                            extent(*first, other, axis),
                            extent(*new_first, other, axis),
                        );
                        lemma_products(
                            1000 - first_ratio,
                            1000 - new_ratio,
                            extent(*second, other, axis),
                            extent(*new_second, other, axis),
                        );
                    },
                }
            }
        },
    }
}

proof fn lemma_siblings_inside(
    layout: PaneLayout,
    pane: u64,
    axis: SplitAxis,
    shares: Seq<SplitShare>,
)
    ensures
        layout.boundary(pane, axis, shares) matches Some((_, _, siblings)) ==> forall|id: u64|
            siblings.contains(id) ==> #[trigger] layout.ids().contains(id),
    decreases layout,
{
    match layout {
        PaneLayout::Pane(_) => {},
        PaneLayout::Split { first_ratio, first, second, .. } => {
            let left = shares.push(SplitShare { first_ratio, of_first: true });
            let right = shares.push(SplitShare { first_ratio, of_first: false });
            lemma_siblings_inside(*first, pane, axis, left);
            lemma_siblings_inside(*second, pane, axis, right);
            if let Some((_, _, siblings)) = layout.boundary(pane, axis, shares) {
                assert forall|id: u64| siblings.contains(id) implies #[trigger]
                    layout.ids().contains(id) by {
                    lemma_contains_in_concat(first.ids(), second.ids(), id);
                }
            }
        },
    }
}

} // verus!
