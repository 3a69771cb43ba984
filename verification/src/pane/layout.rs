//! The pane layout tree: how a tab's region is divided, and every operation
//! that reshapes it.
//!
//! A `PaneLayout` is a binary tree of splits with a ratio per split, so a
//! layout operation is a path through it rather than a coordinate: splitting,
//! removing, rotating, moving, swapping and resizing all rewrite the tree.
//! The coordinates a renderer draws, and the areas it compares, are floating
//! point; operations that depend on them take the verdicts as arguments.

use std::collections::{HashMap, HashSet, VecDeque};

use vstd::prelude::*;

verus! {

/// What a split ratio is out of.
pub const PANE_SPLIT_RATIO_SCALE: u16 = 1_000;

/// The ratio of a new split: both sides get half.
pub const DEFAULT_PANE_SPLIT_RATIO: u16 = 500;

#[derive(Clone, Copy, Debug, PartialEq, Eq, Structural)]
pub enum SplitAxis {
    Horizontal,
    Vertical,
}

#[derive(Clone, Copy, Debug, PartialEq, Eq, Structural)]
pub enum SplitPosition {
    Before,
    After,
}

#[derive(Clone, Copy, Debug, PartialEq, Eq, Structural)]
pub enum PaneDirection {
    Left,
    Right,
    Up,
    Down,
}

#[derive(Clone, Copy, Debug, PartialEq, Eq, Structural)]
pub enum PaneRotationDirection {
    Clockwise,
    CounterClockwise,
}

/// How the areas around one split compare, as the caller measured them.
#[derive(Clone, Copy, Debug, PartialEq, Eq, Structural)]
pub struct SplitMeasure {
    /// Whether every pane under the split has the same area as its first pane.
    pub areas_equal: bool,
    /// Whether the active pane is at least as large as the first child.
    pub active_covers_first: bool,
    /// Whether the active pane is at least as large as the second child.
    pub active_covers_second: bool,
}

/// One step down the layout: the split's ratio, and whether the step leads to
/// its first child, whose share is the ratio, or to its second, whose share is
/// the rest.
#[derive(Clone, Copy, Debug, PartialEq, Eq, Structural)]
pub struct SplitShare {
    pub first_ratio: u16,
    pub of_first: bool,
}

#[derive(Debug, PartialEq, Eq)]
pub struct PaneResizeBoundary {
    /// The steps from the whole layout down to the split. The product of
    /// their shares is the fraction of the layout that the split occupies.
    pub parent_shares: Vec<SplitShare>,
    /// Whether the pane being resized is in the split's first child. Arrow
    /// keys move a screen-directional edge, so the second child uses the
    /// inverse size delta.
    pub active_is_first: bool,
    pub sibling_panes: Vec<u64>,
}

/// A pane arrangement as configured, with settings per pane.
#[derive(Debug, PartialEq, Eq)]
pub enum PaneSplitTemplate<Leaf> {
    Pane(Leaf),
    Split {
        axis: SplitAxis,
        first: Box<PaneSplitTemplate<Leaf>>,
        second: Box<PaneSplitTemplate<Leaf>>,
    },
}

impl<Leaf> PaneSplitTemplate<Leaf> {
    /// How many panes the template has.
    pub open spec fn leaves(self) -> nat
        decreases self,
    {
        match self {
            PaneSplitTemplate::Pane(_) => 1,
            PaneSplitTemplate::Split { first, second, .. } => first.leaves() + second.leaves(),
        }
    }

    /// The template's layout, its panes numbered from the front of `ids`.
    pub open spec fn layout(self, ids: Seq<u64>) -> PaneLayout
        decreases self,
    {
        match self {
            PaneSplitTemplate::Pane(_) => PaneLayout::Pane(ids.first()),
            PaneSplitTemplate::Split { axis, first, second } => PaneLayout::Split {
                axis,
                first_ratio: DEFAULT_PANE_SPLIT_RATIO,
                first: Box::new(first.layout(ids)),
                second: Box::new(second.layout(ids.skip(first.leaves() as int))),
            },
        }
    }
}

#[derive(Debug, PartialEq, Eq)]
pub enum PaneLayout {
    Pane(u64),
    Split {
        axis: SplitAxis,
        /// The first child's share of the available extent on `axis`, scaled
        /// by [`PANE_SPLIT_RATIO_SCALE`]. An integer keeps layouts comparable
        /// and avoids accumulating floating point drift while resizing.
        first_ratio: u16,
        first: Box<PaneLayout>,
        second: Box<PaneLayout>,
    },
}

pub open spec fn other_axis(axis: SplitAxis) -> SplitAxis {
    match axis {
        SplitAxis::Horizontal => SplitAxis::Vertical,
        SplitAxis::Vertical => SplitAxis::Horizontal,
    }
}

fn flipped(axis: SplitAxis) -> (result: SplitAxis)
    ensures
        result == other_axis(axis),
{
    match axis {
        SplitAxis::Horizontal => SplitAxis::Vertical,
        SplitAxis::Vertical => SplitAxis::Horizontal,
    }
}

/// Whether turning a split in `direction` exchanges its children.
pub open spec fn reverses_children(direction: PaneRotationDirection, axis: SplitAxis) -> bool {
    match direction {
        PaneRotationDirection::Clockwise => axis == SplitAxis::Horizontal,
        PaneRotationDirection::CounterClockwise => axis == SplitAxis::Vertical,
    }
}

impl PaneLayout {
    /// The panes of the layout, first child before second.
    pub open spec fn ids(self) -> Seq<u64>
        decreases self,
    {
        match self {
            PaneLayout::Pane(id) => seq![id],
            PaneLayout::Split { first, second, .. } => first.ids() + second.ids(),
        }
    }

    /// Every split leaves both of its children some room.
    pub open spec fn wf(self) -> bool
        decreases self,
    {
        match self {
            PaneLayout::Pane(_) => true,
            PaneLayout::Split { first_ratio, first, second, .. } => {
                &&& 0 < first_ratio < PANE_SPLIT_RATIO_SCALE
                &&& first.wf()
                &&& second.wf()
            },
        }
    }

    /// How many splits the layout has.
    pub open spec fn split_count(self) -> nat
        decreases self,
    {
        match self {
            PaneLayout::Pane(_) => 0,
            PaneLayout::Split { first, second, .. } => 1 + first.split_count()
                + second.split_count(),
        }
    }

    /// The layout with the first occurrence of `target` replaced.
    pub open spec fn replaced(self, target: u64, replacement: PaneLayout) -> PaneLayout
        decreases self,
    {
        match self {
            PaneLayout::Pane(id) => if id == target {
                replacement
            } else {
                self
            },
            PaneLayout::Split { axis, first_ratio, first, second } => {
                if first.ids().contains(target) {
                    PaneLayout::Split {
                        axis,
                        first_ratio,
                        first: Box::new(first.replaced(target, replacement)),
                        second,
                    }
                } else {
                    PaneLayout::Split {
                        axis,
                        first_ratio,
                        first,
                        second: Box::new(second.replaced(target, replacement)),
                    }
                }
            },
        }
    }

    /// The two halves that take the place of a split pane.
    pub open spec fn halves(
        target: u64,
        axis: SplitAxis,
        new_pane: u64,
        position: SplitPosition,
    ) -> PaneLayout {
        let (first, second) = match position {
            SplitPosition::Before => (new_pane, target),
            SplitPosition::After => (target, new_pane),
        };
        PaneLayout::Split {
            axis,
            first_ratio: DEFAULT_PANE_SPLIT_RATIO,
            first: Box::new(PaneLayout::Pane(first)),
            second: Box::new(PaneLayout::Pane(second)),
        }
    }

    /// The layout turned by a quarter.
    pub open spec fn rotated(self, direction: PaneRotationDirection) -> PaneLayout
        decreases self,
    {
        match self {
            PaneLayout::Pane(_) => self,
            PaneLayout::Split { axis, first_ratio, first, second } => {
                let turned_first = Box::new(first.rotated(direction));
                let turned_second = Box::new(second.rotated(direction));
                if reverses_children(direction, axis) {
                    PaneLayout::Split {
                        axis: other_axis(axis),
                        first_ratio: (PANE_SPLIT_RATIO_SCALE - first_ratio) as u16,
                        first: turned_second,
                        second: turned_first,
                    }
                } else {
                    PaneLayout::Split {
                        axis: other_axis(axis),
                        first_ratio,
                        first: turned_first,
                        second: turned_second,
                    }
                }
            },
        }
    }

    /// The layout with the subtree at `path` turned by a quarter. A path names
    /// a child per step: `true` for the first.
    pub open spec fn rotated_at(
        self,
        path: Seq<bool>,
        direction: PaneRotationDirection,
    ) -> PaneLayout
        decreases self,
    {
        if path.len() == 0 {
            self.rotated(direction)
        } else {
            match self {
                PaneLayout::Pane(_) => self,
                PaneLayout::Split { axis, first_ratio, first, second } => {
                    if path.first() {
                        PaneLayout::Split {
                            axis,
                            first_ratio,
                            first: Box::new(first.rotated_at(path.drop_first(), direction)),
                            second,
                        }
                    } else {
                        PaneLayout::Split {
                            axis,
                            first_ratio,
                            first,
                            second: Box::new(second.rotated_at(path.drop_first(), direction)),
                        }
                    }
                },
            }
        }
    }

    /// Whether the layout is one split of two panes.
    pub open spec fn two_panes(self) -> bool {
        match self {
            PaneLayout::Pane(_) => false,
            PaneLayout::Split { first, second, .. } => *first is Pane && *second is Pane,
        }
    }

    /// The path to the subtree that turns when `active_pane` is rotated:
    /// the innermost of the subtrees around it that is a grid of four equal
    /// panes, a split of two panes, or a split whose other side the active
    /// pane is at least as large as. `measures` holds a verdict per split, a
    /// split before those of its first child, those before its second's; `at`
    /// is where this subtree's begin.
    pub open spec fn rotation_path(
        self,
        active_pane: u64,
        measures: Seq<SplitMeasure>,
        at: int,
    ) -> Option<Seq<bool>>
        decreases self,
    {
        match self {
            PaneLayout::Pane(_) => None,
            PaneLayout::Split { first, second, .. } => {
                if (self.ids().len() == 4 && measures[at].areas_equal) || self.two_panes() {
                    Some(Seq::empty())
                } else if first.ids().contains(active_pane) {
                    match first.rotation_path(active_pane, measures, at + 1) {
                        Some(path) => Some(seq![true] + path),
                        None => if measures[at].active_covers_second {
                            Some(Seq::empty())
                        } else {
                            None
                        },
                    }
                } else if second.ids().contains(active_pane) {
                    match second.rotation_path(
                        active_pane,
                        measures,
                        at + 1 + first.split_count(),
                    ) {
                        Some(path) => Some(seq![false] + path),
                        None => if measures[at].active_covers_first {
                            Some(Seq::empty())
                        } else {
                            None
                        },
                    }
                } else {
                    None
                }
            },
        }
    }

    /// The layout without the panes that `gone` names. A split that loses one
    /// child becomes the other.
    pub open spec fn removed(self, gone: Set<u64>) -> Option<PaneLayout>
        decreases self,
    {
        match self {
            PaneLayout::Pane(id) => if gone.contains(id) {
                None
            } else {
                Some(self)
            },
            PaneLayout::Split { axis, first_ratio, first, second } => {
                match (first.removed(gone), second.removed(gone)) {
                    (Some(first), Some(second)) => Some(
                        PaneLayout::Split {
                            axis,
                            first_ratio,
                            first: Box::new(first),
                            second: Box::new(second),
                        },
                    ),
                    (Some(layout), None) => Some(layout),
                    (None, Some(layout)) => Some(layout),
                    (None, None) => None,
                }
            },
        }
    }

    /// The layout with every pane renamed.
    pub open spec fn renamed(self, names: spec_fn(u64) -> u64) -> PaneLayout
        decreases self,
    {
        match self {
            PaneLayout::Pane(id) => PaneLayout::Pane(names(id)),
            PaneLayout::Split { axis, first_ratio, first, second } => PaneLayout::Split {
                axis,
                first_ratio,
                first: Box::new(first.renamed(names)),
                second: Box::new(second.renamed(names)),
            },
        }
    }

    /// The layout after `pane_id` moved past the sibling of the nearest split
    /// on `axis` that has the pane on the side it moves away from.
    pub open spec fn moved(self, pane_id: u64, axis: SplitAxis, toward_first: bool) -> Option<
        PaneLayout,
    >
        decreases self,
    {
        match self {
            PaneLayout::Pane(_) => None,
            PaneLayout::Split { axis: split_axis, first_ratio, first, second } => {
                let exchanged = PaneLayout::Split {
                    axis: split_axis,
                    first_ratio: (PANE_SPLIT_RATIO_SCALE - first_ratio) as u16,
                    first: second,
                    second: first,
                };
                if first.ids().contains(pane_id) {
                    match first.moved(pane_id, axis, toward_first) {
                        Some(moved) => Some(
                            PaneLayout::Split {
                                axis: split_axis,
                                first_ratio,
                                first: Box::new(moved),
                                second,
                            },
                        ),
                        None => if split_axis == axis && !toward_first {
                            Some(exchanged)
                        } else {
                            None
                        },
                    }
                } else if second.ids().contains(pane_id) {
                    match second.moved(pane_id, axis, toward_first) {
                        Some(moved) => Some(
                            PaneLayout::Split {
                                axis: split_axis,
                                first_ratio,
                                first,
                                second: Box::new(moved),
                            },
                        ),
                        None => if split_axis == axis && toward_first {
                            Some(exchanged)
                        } else {
                            None
                        },
                    }
                } else {
                    None
                }
            },
        }
    }

    /// The layout with the closest split on `axis` around `pane_id` resized so
    /// that the pane grows by `delta`.
    pub open spec fn resized(self, pane_id: u64, axis: SplitAxis, delta: int) -> Option<PaneLayout>
        decreases self,
    {
        match self {
            PaneLayout::Pane(_) => None,
            PaneLayout::Split { axis: split_axis, first_ratio, first, second } => {
                if first.ids().contains(pane_id) {
                    match first.resized(pane_id, axis, delta) {
                        Some(resized) => Some(
                            PaneLayout::Split {
                                axis: split_axis,
                                first_ratio,
                                first: Box::new(resized),
                                second,
                            },
                        ),
                        None => if split_axis == axis {
                            Some(
                                PaneLayout::Split {
                                    axis: split_axis,
                                    first_ratio: adjusted_ratio(first_ratio, delta),
                                    first,
                                    second,
                                },
                            )
                        } else {
                            None
                        },
                    }
                } else if second.ids().contains(pane_id) {
                    match second.resized(pane_id, axis, delta) {
                        Some(resized) => Some(
                            PaneLayout::Split {
                                axis: split_axis,
                                first_ratio,
                                first,
                                second: Box::new(resized),
                            },
                        ),
                        None => if split_axis == axis {
                            Some(
                                PaneLayout::Split {
                                    axis: split_axis,
                                    first_ratio: adjusted_ratio(first_ratio, -delta),
                                    first,
                                    second,
                                },
                            )
                        } else {
                            None
                        },
                    }
                } else {
                    None
                }
            },
        }
    }

    /// The closest split on `axis` around `pane_id`: the shares of the layout
    /// that lead to it, whether the pane is in its first child, and the panes
    /// of its other child.
    pub open spec fn boundary(
        self,
        pane_id: u64,
        axis: SplitAxis,
        shares: Seq<SplitShare>,
    ) -> Option<(Seq<SplitShare>, bool, Seq<u64>)>
        decreases self,
    {
        match self {
            PaneLayout::Pane(_) => None,
            PaneLayout::Split { axis: split_axis, first_ratio, first, second } => {
                if first.ids().contains(pane_id) {
                    match first.boundary(
                        pane_id,
                        axis,
                        shares.push(SplitShare { first_ratio, of_first: true }),
                    ) {
                        Some(found) => Some(found),
                        None => if split_axis == axis {
                            Some((shares, true, second.ids()))
                        } else {
                            None
                        },
                    }
                } else if second.ids().contains(pane_id) {
                    match second.boundary(
                        pane_id,
                        axis,
                        shares.push(SplitShare { first_ratio, of_first: false }),
                    ) {
                        Some(found) => Some(found),
                        None => if split_axis == axis {
                            Some((shares, false, first.ids()))
                        } else {
                            None
                        },
                    }
                } else {
                    None
                }
            },
        }
    }

    /// Whether the split is the one on `axis` that `first_pane` and
    /// `second_pane` are the first panes of the two sides of.
    pub open spec fn is_split_between(
        self,
        first_pane: u64,
        second_pane: u64,
        axis: SplitAxis,
    ) -> bool {
        match self {
            PaneLayout::Pane(_) => false,
            PaneLayout::Split { axis: split_axis, first, second, .. } => {
                &&& split_axis == axis
                &&& first.ids().first() == first_pane
                &&& second.ids().first() == second_pane
            },
        }
    }

    /// The first split, outside in and first child before second, that two
    /// panes name.
    pub open spec fn split_between(
        self,
        first_pane: u64,
        second_pane: u64,
        axis: SplitAxis,
    ) -> Option<PaneLayout>
        decreases self,
    {
        match self {
            PaneLayout::Pane(_) => None,
            PaneLayout::Split { first, second, .. } => {
                if self.is_split_between(first_pane, second_pane, axis) {
                    Some(self)
                } else {
                    match first.split_between(first_pane, second_pane, axis) {
                        Some(found) => Some(found),
                        None => second.split_between(first_pane, second_pane, axis),
                    }
                }
            },
        }
    }

    /// The layout with the split that two panes name resized by `delta`.
    pub open spec fn split_resized(
        self,
        first_pane: u64,
        second_pane: u64,
        axis: SplitAxis,
        delta: int,
    ) -> PaneLayout
        decreases self,
    {
        match self {
            PaneLayout::Pane(_) => self,
            PaneLayout::Split { axis: split_axis, first_ratio, first, second } => {
                if self.is_split_between(first_pane, second_pane, axis) {
                    PaneLayout::Split {
                        axis: split_axis,
                        first_ratio: adjusted_ratio(first_ratio, delta),
                        first,
                        second,
                    }
                } else if first.split_resized(first_pane, second_pane, axis, delta) != *first {
                    PaneLayout::Split {
                        axis: split_axis,
                        first_ratio,
                        first: Box::new(
                            first.split_resized(first_pane, second_pane, axis, delta),
                        ),
                        second,
                    }
                } else {
                    PaneLayout::Split {
                        axis: split_axis,
                        first_ratio,
                        first,
                        second: Box::new(
                            second.split_resized(first_pane, second_pane, axis, delta),
                        ),
                    }
                }
            },
        }
    }
}

/// The renaming that exchanges two panes.
pub open spec fn exchange(first: u64, second: u64) -> spec_fn(u64) -> u64 {
    |id: u64|
        if id == first {
            second
        } else if id == second {
            first
        } else {
            id
        }
}

/// The axis a direction moves on, and whether it leads to the first child.
pub open spec fn direction_axis(direction: PaneDirection) -> (SplitAxis, bool) {
    match direction {
        PaneDirection::Left => (SplitAxis::Vertical, true),
        PaneDirection::Right => (SplitAxis::Vertical, false),
        PaneDirection::Up => (SplitAxis::Horizontal, true),
        PaneDirection::Down => (SplitAxis::Horizontal, false),
    }
}

/// Panes tiled by halving: the first half takes the odd one, except that of
/// three panes the first stands alone. The axis alternates per level.
pub open spec fn tiling(ids: Seq<u64>, axis: SplitAxis) -> PaneLayout
    decreases ids.len(),
{
    if ids.len() <= 1 {
        PaneLayout::Pane(ids.first())
    } else {
        let midpoint = if ids.len() == 3 {
            1
        } else {
            (ids.len() + 1) / 2
        } as int;
        PaneLayout::Split {
            axis,
            first_ratio: DEFAULT_PANE_SPLIT_RATIO,
            first: Box::new(tiling(ids.take(midpoint), other_axis(axis))),
            second: Box::new(tiling(ids.skip(midpoint), other_axis(axis))),
        }
    }
}

/// A ratio moved by `delta`, kept where both sides have room. A delta of
/// nothing leaves it as it is.
pub open spec fn adjusted_ratio(ratio: u16, delta: int) -> u16 {
    if delta == 0 {
        ratio
    } else if ratio + delta < 1 {
        1
    } else if ratio + delta > PANE_SPLIT_RATIO_SCALE - 1 {
        (PANE_SPLIT_RATIO_SCALE - 1) as u16
    } else {
        (ratio + delta) as u16
    }
}

/// The last position of `id` in `history`, or one before the beginning.
pub open spec fn last_position(history: Seq<u64>, id: u64) -> int
    decreases history.len(),
{
    if history.len() == 0 {
        -1
    } else if history.last() == id {
        history.len() - 1
    } else {
        last_position(history.drop_last(), id)
    }
}

/// Whether the pane at `index` may be chosen in place of `active`.
pub open spec fn is_candidate(
    ids: Seq<u64>,
    closest: Seq<bool>,
    active: u64,
    index: int,
) -> bool {
    0 <= index < ids.len() && closest[index] && ids[index] != active
}

/// Whether `left` occurs later in `history` than `right` does.
fn more_recent(history: &Vec<u64>, left: u64, right: u64) -> (result: bool)
    ensures
        result == (last_position(history@, left) > last_position(history@, right)),
{
    let mut index: usize = history.len();
    proof {
        assert(history@.take(index as int) == history@);
    }
    while index > 0
        invariant
            index <= history@.len(),
            last_position(history@, left) == last_position(history@.take(index as int), left),
            last_position(history@, right) == last_position(history@.take(index as int), right),
        decreases index,
    {
        proof {
            assert(history@.take(index as int).drop_last() == history@.take(index - 1));
            lemma_last_position_bound(history@.take(index - 1), left);
            lemma_last_position_bound(history@.take(index - 1), right);
        }
        index = index - 1;
        if history[index] == right {
            return false;
        }
        if history[index] == left {
            return true;
        }
    }
    false
}

proof fn lemma_last_position_bound(history: Seq<u64>, id: u64)
    ensures
        -1 <= last_position(history, id) < history.len(),
    decreases history.len(),
{
    if history.len() > 0 {
        lemma_last_position_bound(history.drop_last(), id);
    }
}

fn copy_shares(shares: &Vec<SplitShare>) -> (result: Vec<SplitShare>)
    ensures
        result@ == shares@,
{
    let mut result: Vec<SplitShare> = Vec::new();
    let mut index: usize = 0;
    while index < shares.len()
        invariant
            index <= shares@.len(),
            result@ == shares@.take(index as int),
        decreases shares@.len() - index,
    {
        result.push(shares[index]);
        index = index + 1;
        proof {
            assert(shares@.take(index as int) == shares@.take(index - 1).push(shares@[index - 1]));
        }
    }
    proof {
        assert(shares@.take(index as int) == shares@);
    }
    result
}

/// Every layout has a pane.
pub proof fn lemma_layout_has_a_pane(layout: PaneLayout)
    ensures
        layout.ids().len() > 0,
        layout.ids().len() == layout.split_count() + 1,
    decreases layout,
{
    match layout {
        PaneLayout::Pane(_) => {},
        PaneLayout::Split { first, second, .. } => {
            lemma_layout_has_a_pane(*first);
            lemma_layout_has_a_pane(*second);
        },
    }
}

impl PaneLayout {
    /// Whether the layout is one split of two panes.
    pub fn is_two_pane_split(&self) -> (result: bool)
        ensures
            result == self.two_panes(),
    {
        match self {
            PaneLayout::Pane(_) => false,
            PaneLayout::Split { first, second, .. } => {
                matches!(**first, PaneLayout::Pane(_)) && matches!(**second, PaneLayout::Pane(_))
            },
        }
    }

    /// Whether the pane is in the layout.
    pub fn contains_pane(&self, pane_id: u64) -> (result: bool)
        ensures
            result == self.ids().contains(pane_id),
        decreases self,
    {
        match self {
            PaneLayout::Pane(id) => {
                proof {
                    assert(self.ids()[0] == *id);
                }
                *id == pane_id
            },
            PaneLayout::Split { first, second, .. } => {
                proof {
                    lemma_contains_in_concat(first.ids(), second.ids(), pane_id);
                }
                first.contains_pane(pane_id) || second.contains_pane(pane_id)
            },
        }
    }

    /// Splits the pane `target` in two, the new pane before or after it.
    /// Returns whether the layout holds the target.
    pub fn split(
        &mut self,
        target: u64,
        axis: SplitAxis,
        new_pane: u64,
        position: SplitPosition,
    ) -> (result: bool)
        ensures
            result == old(self).ids().contains(target),
            *final(self) == if result {
                old(self).replaced(target, PaneLayout::halves(target, axis, new_pane, position))
            } else {
                *old(self)
            },
        decreases *old(self),
    {
        match self {
            PaneLayout::Pane(id) => {
                proof {
                    assert(old(self).ids()[0] == *id);
                }
                if *id == target {
                    let (first, second) = match position {
                        SplitPosition::Before => (new_pane, target),
                        SplitPosition::After => (target, new_pane),
                    };
                    *self = PaneLayout::Split {
                        axis,
                        first_ratio: DEFAULT_PANE_SPLIT_RATIO,
                        first: Box::new(PaneLayout::Pane(first)),
                        second: Box::new(PaneLayout::Pane(second)),
                    };
                    true
                } else {
                    false
                }
            },
            PaneLayout::Split { first, second, .. } => {
                proof {
                    lemma_contains_in_concat(first.ids(), second.ids(), target);
                }
                first.split(target, axis, new_pane, position) || second.split(
                    target,
                    axis,
                    new_pane,
                    position,
                )
            },
        }
    }

    /// Puts `replacement` in the place of the pane `target`. Returns whether
    /// the layout holds the target.
    pub fn replace(&mut self, target: u64, replacement: PaneLayout) -> (result: bool)
        ensures
            result == old(self).ids().contains(target),
            *final(self) == if result {
                old(self).replaced(target, replacement)
            } else {
                *old(self)
            },
    {
        let mut replacement = Some(replacement);
        self.replace_inner(target, &mut replacement)
    }

    /// Puts the replacement, which is taken, in the place of the pane
    /// `target`. Returns whether the layout holds the target; where it does
    /// not, the replacement stays.
    pub fn replace_inner(&mut self, target: u64, replacement: &mut Option<PaneLayout>) -> (result:
        bool)
        requires
            *old(replacement) is Some,
        ensures
            result == old(self).ids().contains(target),
            *final(self) == if result {
                old(self).replaced(target, (*old(replacement))->0)
            } else {
                *old(self)
            },
            *final(replacement) == if result {
                None
            } else {
                *old(replacement)
            },
        decreases *old(self),
    {
        match self {
            PaneLayout::Pane(id) => {
                proof {
                    assert(old(self).ids()[0] == *id);
                }
                if *id == target {
                    match replacement.take() {
                        Some(layout) => {
                            *self = layout;
                        },
                        None => {},
                    }
                    true
                } else {
                    false
                }
            },
            PaneLayout::Split { first, second, .. } => {
                proof {
                    lemma_contains_in_concat(first.ids(), second.ids(), target);
                }
                first.replace_inner(target, replacement) || second.replace_inner(
                    target,
                    replacement,
                )
            },
        }
    }

    /// A copy of the layout.
    pub fn duplicate(&self) -> (result: PaneLayout)
        ensures
            result == *self,
        decreases self,
    {
        match self {
            PaneLayout::Pane(id) => PaneLayout::Pane(*id),
            PaneLayout::Split { axis, first_ratio, first, second } => PaneLayout::Split {
                axis: *axis,
                first_ratio: *first_ratio,
                first: Box::new(first.duplicate()),
                second: Box::new(second.duplicate()),
            },
        }
    }

    /// The layout without the pane `target`, or nothing if that was all.
    pub fn without(self, target: u64) -> (result: Option<PaneLayout>)
        ensures
            result == self.removed(set![target]),
        decreases self,
    {
        match self {
            PaneLayout::Pane(id) => if id != target {
                Some(PaneLayout::Pane(id))
            } else {
                None
            },
            PaneLayout::Split { axis, first_ratio, first, second } => {
                let first = *first;
                let second = *second;
                match (first.without(target), second.without(target)) {
                    (Some(first), Some(second)) => Some(
                        PaneLayout::Split {
                            axis,
                            first_ratio,
                            first: Box::new(first),
                            second: Box::new(second),
                        },
                    ),
                    (Some(layout), None) => Some(layout),
                    (None, Some(layout)) => Some(layout),
                    (None, None) => None,
                }
            },
        }
    }

    /// The layout without any of the `targets`, or nothing if those were all.
    pub fn without_all(&self, targets: &HashSet<u64>) -> (result: Option<PaneLayout>)
        ensures
            result == self.removed(targets@),
        decreases self,
    {
        broadcast use vstd::std_specs::hash::group_hash_axioms;

        match self {
            PaneLayout::Pane(id) => if targets.contains(id) {
                None
            } else {
                Some(PaneLayout::Pane(*id))
            },
            PaneLayout::Split { axis, first_ratio, first, second } => {
                match (first.without_all(targets), second.without_all(targets)) {
                    (Some(first), Some(second)) => Some(
                        PaneLayout::Split {
                            axis: *axis,
                            first_ratio: *first_ratio,
                            first: Box::new(first),
                            second: Box::new(second),
                        },
                    ),
                    (Some(layout), None) => Some(layout),
                    (None, Some(layout)) => Some(layout),
                    (None, None) => None,
                }
            },
        }
    }

    /// The first pane of the layout.
    pub fn first_pane(&self) -> (result: u64)
        ensures
            result == self.ids().first(),
        decreases self,
    {
        match self {
            PaneLayout::Pane(id) => *id,
            PaneLayout::Split { first, .. } => {
                proof {
                    lemma_layout_has_a_pane(**first);
                }
                first.first_pane()
            },
        }
    }

    /// The panes of the layout, first child before second.
    pub fn pane_ids(&self) -> (result: Vec<u64>)
        ensures
            result@ == self.ids(),
        decreases self,
    {
        match self {
            PaneLayout::Pane(id) => vec![*id],
            PaneLayout::Split { first, second, .. } => {
                let mut ids = first.pane_ids();
                let mut rest = second.pane_ids();
                ids.append(&mut rest);
                ids
            },
        }
    }

    /// Gives every pane the id that `pane_ids` holds for it.
    pub fn remap_pane_ids(&mut self, pane_ids: &HashMap<u64, u64>)
        requires
            forall|id: u64| old(self).ids().contains(id) ==> pane_ids@.contains_key(id),
        ensures
            *final(self) == old(self).renamed(|id: u64| pane_ids@[id]),
        decreases *old(self),
    {
        broadcast use vstd::std_specs::hash::group_hash_axioms;

        match self {
            PaneLayout::Pane(id) => {
                proof {
                    assert(old(self).ids()[0] == *id);
                    assert(old(self).ids().contains(*id));
                }
                match pane_ids.get(id) {
                    Some(new_id) => {
                        *id = *new_id;
                    },
                    None => {},
                }
            },
            PaneLayout::Split { first, second, .. } => {
                proof {
                    assert forall|id: u64| first.ids().contains(id) || second.ids().contains(
                        id,
                    ) implies pane_ids@.contains_key(id) by {
                        lemma_contains_in_concat(first.ids(), second.ids(), id);
                    }
                }
                first.remap_pane_ids(pane_ids);
                second.remap_pane_ids(pane_ids);
            },
        }
    }

    /// Exchanges the places of two panes anywhere in the layout, whatever
    /// splits lie between them. Returns whether both are there and differ.
    pub fn swap_panes(&mut self, first: u64, second: u64) -> (result: bool)
        ensures
            result == (first != second && old(self).ids().contains(first) && old(
                self,
            ).ids().contains(second)),
            *final(self) == if result {
                old(self).renamed(exchange(first, second))
            } else {
                *old(self)
            },
    {
        if first == second || !self.contains_pane(first) || !self.contains_pane(second) {
            return false;
        }
        self.swap_panes_inner(first, second);
        true
    }

    pub fn swap_panes_inner(&mut self, first: u64, second: u64)
        ensures
            *final(self) == old(self).renamed(exchange(first, second)),
        decreases *old(self),
    {
        match self {
            PaneLayout::Pane(id) => {
                if *id == first {
                    *id = second;
                } else if *id == second {
                    *id = first;
                }
            },
            PaneLayout::Split { first: first_child, second: second_child, .. } => {
                first_child.swap_panes_inner(first, second);
                second_child.swap_panes_inner(first, second);
            },
        }
    }

    /// Turns the layout by a quarter.
    pub fn rotate_geometry(&mut self, direction: PaneRotationDirection)
        requires
            old(self).wf(),
        ensures
            *final(self) == old(self).rotated(direction),
            final(self).wf(),
        decreases *old(self),
    {
        match self {
            PaneLayout::Pane(_) => {},
            PaneLayout::Split { axis, first_ratio, first, second } => {
                first.rotate_geometry(direction);
                second.rotate_geometry(direction);
                let reverse_children = match (direction, *axis) {
                    (PaneRotationDirection::Clockwise, SplitAxis::Horizontal) => true,
                    (PaneRotationDirection::CounterClockwise, SplitAxis::Vertical) => true,
                    _ => false,
                };
                *axis = flipped(*axis);
                if reverse_children {
                    std::mem::swap(first, second);
                    *first_ratio = PANE_SPLIT_RATIO_SCALE - *first_ratio;
                }
            },
        }
    }

    /// Turns the subtree at `path[from..]` by a quarter.
    pub fn rotate_at_path(
        &mut self,
        path: &Vec<bool>,
        from: usize,
        direction: PaneRotationDirection,
    )
        requires
            old(self).wf(),
            from <= path@.len(),
        ensures
            *final(self) == old(self).rotated_at(path@.skip(from as int), direction),
            final(self).wf(),
        decreases *old(self),
    {
        let ghost rest = path@.skip(from as int);
        if from < path.len() {
            proof {
                assert(rest.first() == path@[from as int]);
                assert(rest.drop_first() == path@.skip(from + 1));
            }
            match self {
                PaneLayout::Pane(_) => {},
                PaneLayout::Split { first, second, .. } => {
                    if path[from] {
                        first.rotate_at_path(path, from + 1, direction);
                    } else {
                        second.rotate_at_path(path, from + 1, direction);
                    }
                },
            }
            return;
        }
        self.rotate_geometry(direction);
    }

    /// How many splits the layout has.
    fn splits(&self) -> (result: usize)
        requires
            self.split_count() <= usize::MAX,
        ensures
            result == self.split_count(),
        decreases self,
    {
        match self {
            PaneLayout::Pane(_) => 0,
            PaneLayout::Split { first, second, .. } => 1 + first.splits() + second.splits(),
        }
    }

    /// The path to the subtree that turns when `active_pane` is rotated, its
    /// last step first. See [`PaneLayout::rotation_path`].
    fn rotation_target(
        &self,
        active_pane: u64,
        measures: &Vec<SplitMeasure>,
        at: usize,
    ) -> (result: Option<Vec<bool>>)
        requires
            at + self.split_count() <= measures@.len(),
        ensures
            match result {
                Some(path) => self.rotation_path(active_pane, measures@, at as int) == Some(path@),
                None => self.rotation_path(active_pane, measures@, at as int) is None,
            },
        decreases self,
    {
        match self {
            PaneLayout::Pane(_) => None,
            PaneLayout::Split { first, second, .. } => {
                let count: usize = measures.len();
                proof {
                    assert(at + 1 + first.split_count() <= count);
                }
                let measure = measures[at];
                if (measure.areas_equal && self.pane_ids().len() == 4) || self.is_two_pane_split() {
                    return Some(Vec::new());
                }
                let (found, step, covers) = if first.contains_pane(active_pane) {
                    (
                        first.rotation_target(active_pane, measures, at + 1),
                        true,
                        measure.active_covers_second,
                    )
                } else if second.contains_pane(active_pane) {
                    (
                        second.rotation_target(active_pane, measures, at + 1 + first.splits()),
                        false,
                        measure.active_covers_first,
                    )
                } else {
                    return None;
                };
                match found {
                    Some(path) => {
                        let mut whole: Vec<bool> = vec![step];
                        let mut path = path;
                        whole.append(&mut path);
                        Some(whole)
                    },
                    // A pane can rotate with the complete subtree on the other
                    // side only when it is at least as large as that subtree.
                    None => if covers {
                        Some(Vec::new())
                    } else {
                        None
                    },
                }
            },
        }
    }

    /// Turns the subtree that `active_pane` belongs to for rotation, given a
    /// verdict on areas per split. Returns whether there is one.
    pub fn rotate_pane(
        &mut self,
        active_pane: u64,
        direction: PaneRotationDirection,
        measures: &Vec<SplitMeasure>,
    ) -> (result: bool)
        requires
            old(self).wf(),
            measures@.len() == old(self).split_count(),
        ensures
            final(self).wf(),
            result == (old(self).ids().contains(active_pane) && old(self).rotation_path(
                active_pane,
                measures@,
                0,
            ) is Some),
            *final(self) == if result {
                old(self).rotated_at(
                    old(self).rotation_path(active_pane, measures@, 0)->0,
                    direction,
                )
            } else {
                *old(self)
            },
    {
        if !self.contains_pane(active_pane) {
            return false;
        }
        match self.rotation_target(active_pane, measures, 0) {
            Some(path) => {
                proof {
                    assert(path@.skip(0) == path@);
                }
                self.rotate_at_path(&path, 0, direction);
                true
            },
            None => false,
        }
    }

    fn tile(pane_ids: &Vec<u64>, from: usize, to: usize, axis: SplitAxis) -> (result: PaneLayout)
        requires
            from < to <= pane_ids@.len(),
        ensures
            result == tiling(pane_ids@.subrange(from as int, to as int), axis),
        decreases to - from,
    {
        let ghost ids = pane_ids@.subrange(from as int, to as int);
        let count: usize = to - from;
        if count == 1 {
            return PaneLayout::Pane(pane_ids[from]);
        }
        let midpoint: usize = if count == 3 {
            1
        } else {
            count / 2 + count % 2
        };
        proof {
            assert(ids.take(midpoint as int) == pane_ids@.subrange(from as int, from + midpoint));
            assert(ids.skip(midpoint as int) == pane_ids@.subrange(from + midpoint, to as int));
        }
        PaneLayout::Split {
            axis,
            first_ratio: DEFAULT_PANE_SPLIT_RATIO,
            first: Box::new(PaneLayout::tile(pane_ids, from, from + midpoint, flipped(axis))),
            second: Box::new(PaneLayout::tile(pane_ids, from + midpoint, to, flipped(axis))),
        }
    }

    /// The panes side by side in evenly nested splits, or nothing for none.
    pub fn tiled(pane_ids: &Vec<u64>) -> (result: Option<PaneLayout>)
        ensures
            result == if pane_ids@.len() == 0 {
                None
            } else {
                Some(tiling(pane_ids@, SplitAxis::Vertical))
            },
    {
        if pane_ids.len() == 0 {
            return None;
        }
        proof {
            assert(pane_ids@.subrange(0, pane_ids@.len() as int) == pane_ids@);
        }
        Some(PaneLayout::tile(pane_ids, 0, pane_ids.len(), SplitAxis::Vertical))
    }

    /// Moves `active_pane` one step in `direction`, exchanging it (and, when
    /// nested, its whole subtree) with the sibling subtree of the nearest
    /// split on the matching axis. Returns `false` if there is no such split:
    /// the pane is already at that edge of the layout.
    pub fn move_pane(&mut self, active_pane: u64, direction: PaneDirection) -> (result: bool)
        requires
            old(self).wf(),
        ensures
            final(self).wf(),
            ({
                let (axis, toward_first) = direction_axis(direction);
                let moved = old(self).moved(active_pane, axis, toward_first);
                &&& result == (moved is Some)
                &&& *final(self) == if result {
                    moved->0
                } else {
                    *old(self)
                }
            }),
    {
        let (axis, toward_first) = match direction {
            PaneDirection::Left => (SplitAxis::Vertical, true),
            PaneDirection::Right => (SplitAxis::Vertical, false),
            PaneDirection::Up => (SplitAxis::Horizontal, true),
            PaneDirection::Down => (SplitAxis::Horizontal, false),
        };
        self.move_pane_inner(active_pane, axis, toward_first)
    }

    pub fn move_pane_inner(&mut self, pane_id: u64, axis: SplitAxis, toward_first: bool) -> (result:
        bool)
        requires
            old(self).wf(),
        ensures
            final(self).wf(),
            result == (old(self).moved(pane_id, axis, toward_first) is Some),
            *final(self) == if result {
                old(self).moved(pane_id, axis, toward_first)->0
            } else {
                *old(self)
            },
        decreases *old(self),
    {
        match self {
            PaneLayout::Pane(_) => false,
            PaneLayout::Split { axis: split_axis, first_ratio, first, second } => {
                if first.contains_pane(pane_id) {
                    if first.move_pane_inner(pane_id, axis, toward_first) {
                        return true;
                    }
                    if *split_axis == axis && !toward_first {
                        std::mem::swap(first, second);
                        *first_ratio = PANE_SPLIT_RATIO_SCALE - *first_ratio;
                        return true;
                    }
                    false
                } else if second.contains_pane(pane_id) {
                    if second.move_pane_inner(pane_id, axis, toward_first) {
                        return true;
                    }
                    if *split_axis == axis && toward_first {
                        std::mem::swap(first, second);
                        *first_ratio = PANE_SPLIT_RATIO_SCALE - *first_ratio;
                        return true;
                    }
                    false
                } else {
                    false
                }
            },
        }
    }

    /// Moves a ratio by `delta`, keeping room on both sides. Returns whether
    /// it changed.
    pub fn adjust_first_ratio(first_ratio: &mut u16, delta: i32) -> (result: bool)
        ensures
            *final(first_ratio) == adjusted_ratio(*old(first_ratio), delta as int),
            result == (*final(first_ratio) != *old(first_ratio)),
    {
        if delta == 0 {
            return false;
        }
        let ratio: i64 = *first_ratio as i64;
        let moved: i64 = ratio + delta as i64;
        let clamped: i64 = if moved < 1 {
            1
        } else if moved > PANE_SPLIT_RATIO_SCALE as i64 - 1 {
            PANE_SPLIT_RATIO_SCALE as i64 - 1
        } else {
            moved
        };
        if clamped == ratio {
            return false;
        }
        *first_ratio = clamped as u16;
        true
    }

    /// Adjusts the closest split on `axis` around a pane. A positive delta
    /// grows the pane and a negative delta shrinks it; it is in parts of
    /// [`PANE_SPLIT_RATIO_SCALE`]. Returns whether the ratio changed.
    pub fn adjust_resize_boundary(&mut self, pane_id: u64, axis: SplitAxis, delta: i32) -> (result:
        bool)
        requires
            delta > i32::MIN,
        ensures
            *final(self) == match old(self).resized(pane_id, axis, delta as int) {
                Some(resized) => resized,
                None => *old(self),
            },
            result == (*final(self) != *old(self)),
    {
        match self.adjust_resize_boundary_inner(pane_id, axis, delta) {
            Some(changed) => changed,
            None => false,
        }
    }

    fn adjust_resize_boundary_inner(&mut self, pane_id: u64, axis: SplitAxis, delta: i32) -> (result:
        Option<bool>)
        requires
            delta > i32::MIN,
        ensures
            result is Some == (old(self).resized(pane_id, axis, delta as int) is Some),
            match result {
                Some(changed) => {
                    &&& *final(self) == old(self).resized(pane_id, axis, delta as int)->0
                    &&& changed == (*final(self) != *old(self))
                },
                None => *final(self) == *old(self),
            },
        decreases *old(self),
    {
        match self {
            PaneLayout::Pane(_) => None,
            PaneLayout::Split { axis: split_axis, first_ratio, first, second } => {
                if first.contains_pane(pane_id) {
                    match first.adjust_resize_boundary_inner(pane_id, axis, delta) {
                        Some(changed) => {
                            return Some(changed);
                        },
                        None => {},
                    }
                    if *split_axis == axis {
                        return Some(PaneLayout::adjust_first_ratio(first_ratio, delta));
                    }
                } else if second.contains_pane(pane_id) {
                    match second.adjust_resize_boundary_inner(pane_id, axis, delta) {
                        Some(changed) => {
                            return Some(changed);
                        },
                        None => {},
                    }
                    if *split_axis == axis {
                        return Some(PaneLayout::adjust_first_ratio(first_ratio, -delta));
                    }
                }
                None
            },
        }
    }

    /// The panes on both sides of the split that its first pane in each child
    /// names.
    pub fn split_panes(&self, first_pane: u64, second_pane: u64, axis: SplitAxis) -> (result:
        Option<(Vec<u64>, Vec<u64>)>)
        ensures
            match result {
                Some((first_ids, second_ids)) => match self.split_between(
                    first_pane,
                    second_pane,
                    axis,
                ) {
                    Some(PaneLayout::Split { first, second, .. }) => first_ids@ == first.ids()
                        && second_ids@ == second.ids(),
                    _ => false,
                },
                None => self.split_between(first_pane, second_pane, axis) is None,
            },
        decreases self,
    {
        match self {
            PaneLayout::Pane(_) => None,
            PaneLayout::Split { axis: split_axis, first, second, .. } => {
                if *split_axis == axis && first.first_pane() == first_pane && second.first_pane()
                    == second_pane {
                    return Some((first.pane_ids(), second.pane_ids()));
                }
                match first.split_panes(first_pane, second_pane, axis) {
                    Some(found) => Some(found),
                    None => second.split_panes(first_pane, second_pane, axis),
                }
            },
        }
    }

    /// The ratio of the split that its first pane in each child names.
    pub fn split_ratio(&self, first_pane: u64, second_pane: u64, axis: SplitAxis) -> (result:
        Option<u16>)
        ensures
            match result {
                Some(ratio) => match self.split_between(first_pane, second_pane, axis) {
                    Some(PaneLayout::Split { first_ratio, .. }) => ratio == first_ratio,
                    _ => false,
                },
                None => self.split_between(first_pane, second_pane, axis) is None,
            },
        decreases self,
    {
        match self {
            PaneLayout::Pane(_) => None,
            PaneLayout::Split { axis: split_axis, first_ratio, first, second } => {
                if *split_axis == axis && first.first_pane() == first_pane && second.first_pane()
                    == second_pane {
                    return Some(*first_ratio);
                }
                match first.split_ratio(first_pane, second_pane, axis) {
                    Some(found) => Some(found),
                    None => second.split_ratio(first_pane, second_pane, axis),
                }
            },
        }
    }

    /// Adjusts one exact split, rather than the nearest matching split for a
    /// pane, so that dragging a gutter leaves nested parallel splits alone.
    /// Returns whether the ratio changed.
    pub fn adjust_split_ratio(
        &mut self,
        first_pane: u64,
        second_pane: u64,
        axis: SplitAxis,
        delta: i32,
    ) -> (result: bool)
        ensures
            *final(self) == old(self).split_resized(first_pane, second_pane, axis, delta as int),
            result == (*final(self) != *old(self)),
        decreases *old(self),
    {
        match self {
            PaneLayout::Pane(_) => false,
            PaneLayout::Split { axis: split_axis, first_ratio, first, second } => {
                if *split_axis == axis && first.first_pane() == first_pane && second.first_pane()
                    == second_pane {
                    return PaneLayout::adjust_first_ratio(first_ratio, delta);
                }
                first.adjust_split_ratio(first_pane, second_pane, axis, delta)
                    || second.adjust_split_ratio(first_pane, second_pane, axis, delta)
            },
        }
    }

    /// The closest split on `axis` that can resize `pane_id` against its
    /// sibling subtree.
    pub fn resize_boundary(&self, pane_id: u64, axis: SplitAxis) -> (result: Option<
        PaneResizeBoundary,
    >)
        ensures
            match result {
                Some(boundary) => self.boundary(pane_id, axis, Seq::empty()) == Some(
                    (
                        boundary.parent_shares@,
                        boundary.active_is_first,
                        boundary.sibling_panes@,
                    ),
                ),
                None => self.boundary(pane_id, axis, Seq::empty()) is None,
            },
    {
        let shares: Vec<SplitShare> = Vec::new();
        self.resize_boundary_inner(pane_id, axis, &shares)
    }

    fn resize_boundary_inner(&self, pane_id: u64, axis: SplitAxis, shares: &Vec<SplitShare>) -> (result:
        Option<PaneResizeBoundary>)
        ensures
            match result {
                Some(boundary) => self.boundary(pane_id, axis, shares@) == Some(
                    (
                        boundary.parent_shares@,
                        boundary.active_is_first,
                        boundary.sibling_panes@,
                    ),
                ),
                None => self.boundary(pane_id, axis, shares@) is None,
            },
        decreases self,
    {
        match self {
            PaneLayout::Pane(_) => None,
            PaneLayout::Split { axis: split_axis, first_ratio, first, second } => {
                let active_is_first = first.contains_pane(pane_id);
                if !active_is_first && !second.contains_pane(pane_id) {
                    return None;
                }
                let mut inner_shares = copy_shares(shares);
                inner_shares.push(
                    SplitShare { first_ratio: *first_ratio, of_first: active_is_first },
                );
                let inner = if active_is_first {
                    first.resize_boundary_inner(pane_id, axis, &inner_shares)
                } else {
                    second.resize_boundary_inner(pane_id, axis, &inner_shares)
                };
                match inner {
                    Some(boundary) => Some(boundary),
                    None => if *split_axis == axis {
                        Some(
                            PaneResizeBoundary {
                                parent_shares: copy_shares(shares),
                                active_is_first,
                                sibling_panes: if active_is_first {
                                    second.pane_ids()
                                } else {
                                    first.pane_ids()
                                },
                            },
                        )
                    } else {
                        None
                    },
                }
            },
        }
    }

    /// The pane to focus when leaving `active` in some direction.
    ///
    /// `closest` says of each pane of the layout whether it is among the
    /// equally close candidates in that direction. `recent` is the focus
    /// history, most recently focused last. Among the candidates the one
    /// focused most recently wins, so leaving a column and returning to it
    /// restores the pane last focused there instead of always landing on the
    /// first one in tree order.
    pub fn adjacent_pane(&self, active: u64, closest: &Vec<bool>, recent: &Vec<u64>) -> (result:
        Option<u64>)
        requires
            closest@.len() == self.ids().len(),
        ensures
            match result {
                Some(id) => self.ids().contains(active) && exists|choice: int|
                    {
                        &&& #[trigger] is_candidate(self.ids(), closest@, active, choice)
                        &&& self.ids()[choice] == id
                        &&& forall|other: int| #[trigger]
                            is_candidate(self.ids(), closest@, active, other) ==> last_position(
                                recent@,
                                self.ids()[other],
                            ) <= last_position(recent@, id)
                        &&& forall|other: int|
                            other < choice && #[trigger] is_candidate(
                                self.ids(),
                                closest@,
                                active,
                                other,
                            ) ==> last_position(recent@, self.ids()[other]) < last_position(
                                recent@,
                                id,
                            )
                    },
                None => !self.ids().contains(active) || forall|other: int|
                    !#[trigger] is_candidate(self.ids(), closest@, active, other),
            },
    {
        let ids = self.pane_ids();
        if !self.contains_pane(active) {
            return None;
        }
        let mut best: Option<usize> = None;
        let mut index: usize = 0;
        while index < ids.len()
            invariant
                ids@ == self.ids(),
                closest@.len() == ids@.len(),
                index <= ids@.len(),
                match best {
                    Some(choice) => {
                        &&& choice < index
                        &&& is_candidate(ids@, closest@, active, choice as int)
                        &&& forall|other: int|
                            other < index && #[trigger] is_candidate(ids@, closest@, active, other)
                                ==> last_position(recent@, ids@[other]) <= last_position(
                                recent@,
                                ids@[choice as int],
                            )
                        &&& forall|other: int|
                            other < choice && #[trigger] is_candidate(
                                ids@,
                                closest@,
                                active,
                                other,
                            ) ==> last_position(recent@, ids@[other]) < last_position(
                                recent@,
                                ids@[choice as int],
                            )
                    },
                    None => forall|other: int|
                        other < index ==> !#[trigger] is_candidate(ids@, closest@, active, other),
                },
            decreases ids@.len() - index,
        {
            if closest[index] && ids[index] != active {
                proof {
                    assert(is_candidate(ids@, closest@, active, index as int));
                }
                match best {
                    Some(choice) => {
                        if more_recent(recent, ids[index], ids[choice]) {
                            best = Some(index);
                        }
                    },
                    None => {
                        best = Some(index);
                    },
                }
            }
            index = index + 1;
        }
        match best {
            Some(choice) => Some(ids[choice]),
            None => None,
        }
    }

    /// The layout of a template, its panes numbered from the front of
    /// `pane_ids`, which they are taken from.
    pub fn from_template<Leaf>(template: &PaneSplitTemplate<Leaf>, pane_ids: &mut VecDeque<u64>) -> (result:
        PaneLayout)
        requires
            template.leaves() <= old(pane_ids)@.len(),
        ensures
            result == template.layout(old(pane_ids)@),
            final(pane_ids)@ == old(pane_ids)@.skip(template.leaves() as int),
        decreases template,
    {
        match template {
            PaneSplitTemplate::Pane(_) => {
                let ghost ids = pane_ids@;
                let id = match pane_ids.pop_front() {
                    Some(id) => id,
                    None => 0,
                };
                proof {
                    assert(pane_ids@ == ids.skip(1));
                }
                PaneLayout::Pane(id)
            },
            PaneSplitTemplate::Split { axis, first, second } => {
                let ghost ids = pane_ids@;
                let first_layout = PaneLayout::from_template(&**first, pane_ids);
                let second_layout = PaneLayout::from_template(&**second, pane_ids);
                proof {
                    assert(ids.skip(first.leaves() as int).skip(second.leaves() as int)
                        == ids.skip((first.leaves() + second.leaves()) as int));
                }
                PaneLayout::Split {
                    axis: *axis,
                    first_ratio: DEFAULT_PANE_SPLIT_RATIO,
                    first: Box::new(first_layout),
                    second: Box::new(second_layout),
                }
            },
        }
    }
}

pub proof fn lemma_contains_in_concat(left: Seq<u64>, right: Seq<u64>, id: u64)
    ensures
        (left + right).contains(id) == (left.contains(id) || right.contains(id)),
{
    let both = left + right;
    if left.contains(id) {
        let i = choose|i: int| 0 <= i < left.len() && left[i] == id;
        assert(both[i] == id);
    }
    if right.contains(id) {
        let i = choose|i: int| 0 <= i < right.len() && right[i] == id;
        assert(both[left.len() + i] == id);
    }
    if both.contains(id) {
        let i = choose|i: int| 0 <= i < both.len() && both[i] == id;
        if i < left.len() {
            assert(left[i] == id);
        } else {
            assert(right[i - left.len()] == id);
        }
    }
}

} // verus!
