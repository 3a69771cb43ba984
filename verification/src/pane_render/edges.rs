//! Which of a window's edges a pane touches.

use vstd::prelude::*;

use crate::pane::layout::{PaneLayout, SplitAxis};

verus! {

/// The edges of a window that a part of a layout touches.
#[derive(Clone, Copy, Debug, PartialEq, Eq, Structural)]
pub struct PaneWindowEdges {
    pub right: bool,
    pub bottom: bool,
    pub left: bool,
}

/// The sides at which a window stands against others or the screen's edge.
#[derive(Clone, Copy, Debug, PartialEq, Eq, Structural)]
pub struct Tiling {
    pub right: bool,
    pub bottom: bool,
    pub left: bool,
}

/// The rounded corners of the window that a part of a layout owns.
#[derive(Clone, Copy, Debug, PartialEq, Eq, Structural)]
pub struct OwnedCorners {
    pub bottom_right: bool,
    pub bottom_left: bool,
}

impl PaneWindowEdges {
    /// All edges, as the whole layout touches them.
    pub fn all() -> (result: PaneWindowEdges)
        ensures
            result == (PaneWindowEdges { right: true, bottom: true, left: true }),
    {
        PaneWindowEdges { right: true, bottom: true, left: true }
    }

    /// The same edges, with or without the bottom one.
    pub fn with_bottom(self, bottom: bool) -> (result: PaneWindowEdges)
        ensures
            result == (PaneWindowEdges { bottom, ..self }),
    {
        PaneWindowEdges { bottom, ..self }
    }

    /// The edges that the first part of a split touches.
    pub open spec fn of_first(self, axis: SplitAxis) -> PaneWindowEdges {
        match axis {
            SplitAxis::Horizontal => PaneWindowEdges { bottom: false, ..self },
            SplitAxis::Vertical => PaneWindowEdges { right: false, ..self },
        }
    }

    /// The edges that the second part of a split touches.
    pub open spec fn of_second(self, axis: SplitAxis) -> PaneWindowEdges {
        match axis {
            SplitAxis::Horizontal => self,
            SplitAxis::Vertical => PaneWindowEdges { left: false, ..self },
        }
    }

    /// The edges that the first part of a split touches.
    pub fn first(self, axis: SplitAxis) -> (result: PaneWindowEdges)
        ensures
            result == self.of_first(axis),
    {
        match axis {
            SplitAxis::Horizontal => PaneWindowEdges { bottom: false, ..self },
            SplitAxis::Vertical => PaneWindowEdges { right: false, ..self },
        }
    }

    /// The edges that the second part of a split touches.
    pub fn second(self, axis: SplitAxis) -> (result: PaneWindowEdges)
        ensures
            result == self.of_second(axis),
    {
        match axis {
            SplitAxis::Horizontal => self,
            SplitAxis::Vertical => PaneWindowEdges { left: false, ..self },
        }
    }

    /// The rounded corners that a part of a layout owns; `None` stands for a
    /// window that draws no frame of its own. The title and tab bars own the
    /// top corners: a pane can only meet the frame at the bottom.
    pub fn client_corners(self, frame: Option<Tiling>) -> (result: OwnedCorners)
        ensures
            result == match frame {
                Some(tiling) => OwnedCorners {
                    bottom_right: self.bottom && self.right && !tiling.bottom && !tiling.right,
                    bottom_left: self.bottom && self.left && !tiling.bottom && !tiling.left,
                },
                None => OwnedCorners { bottom_right: false, bottom_left: false },
            },
    {
        match frame {
            Some(tiling) => OwnedCorners {
                bottom_right: self.bottom && self.right && !tiling.bottom && !tiling.right,
                bottom_left: self.bottom && self.left && !tiling.bottom && !tiling.left,
            },
            None => OwnedCorners { bottom_right: false, bottom_left: false },
        }
    }
}

/// How many panes of a layout touch the bottom and the left edge.
pub open spec fn bottom_left_panes(layout: PaneLayout, edges: PaneWindowEdges) -> nat
    decreases layout,
{
    match layout {
        PaneLayout::Pane(_) => if edges.bottom && edges.left {
            1
        } else {
            0
        },
        PaneLayout::Split { axis, first, second, .. } => bottom_left_panes(
            *first,
            edges.of_first(axis),
        ) + bottom_left_panes(*second, edges.of_second(axis)),
    }
}

/// How many panes of a layout touch the bottom and the right edge.
pub open spec fn bottom_right_panes(layout: PaneLayout, edges: PaneWindowEdges) -> nat
    decreases layout,
{
    match layout {
        PaneLayout::Pane(_) => if edges.bottom && edges.right {
            1
        } else {
            0
        },
        PaneLayout::Split { axis, first, second, .. } => bottom_right_panes(
            *first,
            edges.of_first(axis),
        ) + bottom_right_panes(*second, edges.of_second(axis)),
    }
}

/// However a window is split, each of its bottom corners belongs to exactly one
/// pane, where the layout touches it at all.
pub proof fn law_each_corner_has_one_pane(layout: PaneLayout, edges: PaneWindowEdges)
    ensures
        bottom_left_panes(layout, edges) == if edges.bottom && edges.left {
            1nat
        } else {
            0nat
        },
        bottom_right_panes(layout, edges) == if edges.bottom && edges.right {
            1nat
        } else {
            0nat
        },
    decreases layout,
{
    match layout {
        PaneLayout::Pane(_) => {},
        PaneLayout::Split { axis, first, second, .. } => {
            law_each_corner_has_one_pane(*first, edges.of_first(axis));
            law_each_corner_has_one_pane(*second, edges.of_second(axis));
        },
    }
}

} // verus!
