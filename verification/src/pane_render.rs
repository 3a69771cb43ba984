//! What a tab's panes show, as far as it is decided before anything is drawn.

use vstd::prelude::*;

use crate::local_sessions::protocol::BackgroundPaneExitReason;
use crate::pane::layout::{PaneLayout, SplitAxis, PANE_SPLIT_RATIO_SCALE};
use crate::pane::overlay::{HslaColor, OverlayFontSize, OverlayOpacity};
use crate::pane::stack::{first_index, PaneStackSelection, StackedPane};
use crate::pane::tab::Tab;
use crate::pane::{terminal_size_label, TerminalPane};
use crate::project_context::ProjectState;
use crate::text::{
    decimal_text, has_prefix, joined, optional_text, starts_with,
};

pub mod edges;
pub mod laws;
pub mod stacked;

verus! {

/// Whether panes can be resized from a menu.
pub fn pane_resize_menu_entry_available(pane_count: usize) -> (result: bool)
    ensures
        result == (pane_count >= 2),
{
    pane_count >= 2
}

/// Whether panes can be moved from a menu.
pub fn pane_move_menu_entry_available(pane_count: usize) -> (result: bool)
    ensures
        result == (pane_count >= 2),
{
    pane_count >= 2
}

/// How far an overlay of a size stands below the edge of its pane, so that the
/// visible gap is the same for each size.
pub open spec fn overlay_top(font_size: OverlayFontSize) -> u8 {
    match font_size {
        OverlayFontSize::Small => 8,
        OverlayFontSize::Base => 7,
        OverlayFontSize::Large => 6,
        OverlayFontSize::ExtraLarge => 5,
        OverlayFontSize::ExtraExtraLarge => 3,
        OverlayFontSize::ExtraExtraExtraLarge => 0,
    }
}

/// How a pane's overlay is drawn.
#[derive(Debug, PartialEq, Eq)]
pub struct OverlayView {
    pub text: String,
    pub font_size: OverlayFontSize,
    pub top: u8,
    /// The colour, or none for that of the theme's text.
    pub color: Option<HslaColor>,
    /// The opacity, or none for the usual one. An overlay that is being edited
    /// is fully opaque.
    pub opacity: Option<OverlayOpacity>,
    pub editing: bool,
}

/// How a pane's overlay is drawn.
pub fn pane_overlay_element(overlay: String, pane: &TerminalPane, editing: bool) -> (result:
    OverlayView)
    ensures
        ({
            let font_size = match pane.overlay_font_size {
                Some(font_size) => font_size,
                None => OverlayFontSize::ExtraLarge,
            };
            result == (OverlayView {
                text: overlay,
                font_size,
                top: overlay_top(font_size),
                color: pane.overlay_color,
                opacity: if editing {
                    Some(OverlayOpacity::Percent(100))
                } else {
                    pane.overlay_opacity
                },
                editing,
            })
        }),
{
    let font_size = match pane.overlay_font_size {
        Some(font_size) => font_size,
        None => OverlayFontSize::default_size(),
    };
    let top: u8 = match font_size {
        OverlayFontSize::Small => 8,
        OverlayFontSize::Base => 7,
        OverlayFontSize::Large => 6,
        OverlayFontSize::ExtraLarge => 5,
        OverlayFontSize::ExtraExtraLarge => 3,
        OverlayFontSize::ExtraExtraExtraLarge => 0,
    };
    OverlayView {
        text: overlay,
        font_size,
        top,
        color: pane.overlay_color,
        opacity: if editing {
            Some(OverlayOpacity::Percent(100))
        } else {
            pane.overlay_opacity
        },
        editing,
    }
}

/// What the window is doing with its panes.
#[derive(Clone, Copy, Debug, PartialEq, Eq, Structural)]
pub struct PaneModes {
    pub resizing: bool,
    pub moving: bool,
    /// The pane whose controls are shown.
    pub controls_visible_for: Option<u64>,
}

/// What a pane shows around its terminal.
#[derive(Debug, PartialEq, Eq)]
pub struct PaneLeafView {
    pub label: String,
    /// The columns and lines of the terminal, in words.
    pub size: Option<String>,
    pub resize_badge: Option<String>,
    pub move_badge: Option<String>,
    pub overlay: Option<OverlayView>,
    pub shows_controls: bool,
    /// Whether the pointer over the pane shows its controls.
    pub tracks_pointer: bool,
    /// Whether the pane is a handle to be dragged, and no terminal.
    pub is_drag_handle: bool,
}

/// The label of a pane that is there.
pub open spec fn leaf_label(tab: Tab, pane_id: u64) -> Seq<char> {
    match tab.shown_label(pane_id) {
        Some(label) => label,
        None => tab.panes@[tab.index_of(pane_id)->0].label_text(),
    }
}

/// The size of a pane's terminal, in words.
pub open spec fn size_text(size: Option<(usize, usize)>) -> Option<Seq<char>> {
    match size {
        Some((columns, lines)) => Some(
            decimal_text(columns as nat) + " × "@ + decimal_text(lines as nat),
        ),
        None => None,
    }
}

/// Whether a pane shows its controls: while it is renamed, or while the pointer
/// is over it and there is another one; never over a stack or a maximized pane.
pub open spec fn controls_shown(tab: Tab, pane_id: u64, modes: PaneModes) -> bool {
    &&& tab.maximized_pane is None
    &&& tab.panes@[tab.index_of(pane_id)->0].stack.entries@.len() == 0
    &&& tab.renaming_pane == Some(pane_id) || (tab.panes@.len() > 1 && modes.controls_visible_for
        == Some(pane_id))
}

fn is_pane(candidate: Option<u64>, pane_id: u64) -> (result: bool)
    ensures
        result == (candidate == Some(pane_id)),
{
    match candidate {
        Some(id) => id == pane_id,
        None => false,
    }
}

/// What a pane shows around its terminal, where there is such a pane. `size` is
/// the columns and the lines of the terminal that it shows.
pub fn render_pane_leaf(tab: &Tab, pane_id: u64, size: Option<(usize, usize)>, modes: PaneModes) -> (result:
    Option<PaneLeafView>)
    requires
        tab.indexed(),
    ensures
        match tab.index_of(pane_id) {
            None => result is None,
            Some(index) => result matches Some(leaf) && {
                let label = leaf_label(*tab, pane_id);
                &&& leaf.label@ == label
                &&& optional_text(leaf.size) == size_text(size)
                &&& optional_text(leaf.resize_badge) == match size_text(size) {
                    Some(size) if modes.resizing => Some(label + " "@ + size),
                    _ => None,
                }
                &&& optional_text(leaf.move_badge) == if !modes.moving {
                    None
                } else if tab.active_pane == pane_id {
                    Some(label + " Move mode"@)
                } else {
                    Some(label)
                }
                &&& match leaf.overlay {
                    Some(overlay) => {
                        &&& tab.shown_overlay(pane_id) == Some(overlay.text@)
                        &&& overlay.editing == (tab.editing_overlay_pane == Some(pane_id))
                        &&& overlay.font_size == match tab.panes@[index].overlay_font_size {
                            Some(font_size) => font_size,
                            None => OverlayFontSize::ExtraLarge,
                        }
                        &&& overlay.top == overlay_top(overlay.font_size)
                        &&& overlay.color == tab.panes@[index].overlay_color
                        &&& overlay.opacity == if overlay.editing {
                            Some(OverlayOpacity::Percent(100))
                        } else {
                            tab.panes@[index].overlay_opacity
                        }
                    },
                    None => tab.shown_overlay(pane_id) is None,
                }
                &&& leaf.shows_controls == controls_shown(*tab, pane_id, modes)
                &&& leaf.tracks_pointer == (tab.panes@.len() > 1 && tab.maximized_pane is None)
                &&& leaf.is_drag_handle == (modes.moving && tab.panes@.len() > 1
                    && tab.maximized_pane is None)
            },
        },
{
    let pane = match tab.pane(pane_id) {
        Some(pane) => pane,
        None => {
            return None;
        },
    };
    let label = match tab.displayed_pane_label(pane_id) {
        Some(label) => label,
        None => pane.label(),
    };
    let size = match size {
        Some((columns, lines)) => Some(terminal_size_label(columns, lines)),
        None => None,
    };
    let resize_badge = match &size {
        Some(size) => if modes.resizing {
            let mut badge = joined(label.as_str(), " ");
            badge.push_str(size.as_str());
            Some(badge)
        } else {
            None
        },
        None => None,
    };
    let move_badge = if !modes.moving {
        None
    } else if tab.active_pane == pane_id {
        Some(joined(label.as_str(), " Move mode"))
    } else {
        Some(label.clone())
    };
    let overlay = match tab.displayed_pane_overlay(pane_id) {
        Some(text) => Some(
            pane_overlay_element(text, pane, is_pane(tab.editing_overlay_pane, pane_id)),
        ),
        None => None,
    };
    let several = tab.panes.len() > 1;
    let whole = tab.maximized_pane.is_none();
    let shows_controls = whole && pane.stack.is_empty() && (is_pane(tab.renaming_pane, pane_id) || (
    several && is_pane(modes.controls_visible_for, pane_id)));
    Some(
        PaneLeafView {
            label,
            size,
            resize_badge,
            move_badge,
            overlay,
            shows_controls,
            tracks_pointer: several && whole,
            is_drag_handle: modes.moving && several && whole,
        },
    )
}

/// What stands where a pane's terminal would.
#[derive(Debug, PartialEq, Eq)]
pub enum PaneContent {
    /// A terminal's view.
    View(u64),
    Failed { heading: String, error: String },
    Exited,
    Starting { text: String },
}

/// What stands where a pane's terminal would, as it views.
pub ghost enum PaneContentView {
    View(u64),
    Failed { heading: Seq<char>, error: Seq<char> },
    Exited,
    Starting { text: Seq<char> },
}

impl PaneContent {
    pub open spec fn view(self) -> PaneContentView {
        match self {
            PaneContent::View(view) => PaneContentView::View(view),
            PaneContent::Failed { heading, error } => PaneContentView::Failed {
                heading: heading@,
                error: error@,
            },
            PaneContent::Exited => PaneContentView::Exited,
            PaneContent::Starting { text } => PaneContentView::Starting { text: text@ },
        }
    }
}

/// The stacked command that a pane shows, if it shows one that is there.
pub open spec fn shown_entry(pane: TerminalPane) -> Option<StackedPane> {
    match pane.stack.selected {
        PaneStackSelection::Base => None,
        PaneStackSelection::Stacked(id) => if pane.stack.ids().contains(id) {
            Some(pane.stack.entries@[first_index(pane.stack.ids(), id)])
        } else {
            None
        },
    }
}

/// The view that a pane shows.
pub open spec fn shown_view(pane: TerminalPane) -> Option<u64> {
    match pane.stack.selected {
        PaneStackSelection::Base => pane.view,
        PaneStackSelection::Stacked(_) => match shown_entry(pane) {
            Some(entry) => entry.view,
            None => None,
        },
    }
}

/// The error of what a pane shows.
pub open spec fn shown_error(pane: TerminalPane) -> Option<Seq<char>> {
    match pane.stack.selected {
        PaneStackSelection::Base => optional_text(pane.error),
        PaneStackSelection::Stacked(_) => match shown_entry(pane) {
            Some(entry) => optional_text(entry.error),
            None => None,
        },
    }
}

/// The name of the profile that a pane shows.
pub open spec fn shown_profile(pane: TerminalPane) -> Seq<char> {
    match shown_entry(pane) {
        Some(entry) => entry.profile.name@,
        None => pane.profile.name@,
    }
}

/// The heading over an error.
pub open spec fn error_heading(pane: TerminalPane, error: Seq<char>) -> Seq<char> {
    if has_prefix(error, "Run:"@) {
        "Run"@
    } else {
        match pane.exit {
            Some(exit) => match exit.reason {
                BackgroundPaneExitReason::WatcherDisconnected =>
                "Lost contact with the session multiplexer"@,
                _ => "Terminal exited unexpectedly"@,
            },
            None => "Unable to start command"@,
        }
    }
}

/// What stands where a pane's terminal would: its view, what went wrong with
/// it, that it is gone, or that it is coming.
pub open spec fn content_of(pane: TerminalPane) -> PaneContentView {
    match shown_view(pane) {
        Some(view) => PaneContentView::View(view),
        None => match shown_error(pane) {
            Some(error) => PaneContentView::Failed { heading: error_heading(pane, error), error },
            None => if pane.base_exited && pane.stack.selected is Base {
                PaneContentView::Exited
            } else {
                PaneContentView::Starting { text: "Starting "@ + shown_profile(pane) + "..."@ }
            },
        },
    }
}

/// What stands where a pane's terminal would. See [`content_of`].
pub fn pane_content(pane: &TerminalPane) -> (result: PaneContent)
    ensures
        result.view() == content_of(*pane),
{
    if let Some(view) = pane.selected_view() {
        return PaneContent::View(view);
    }
    let entry = pane.stack.selected_entry();
    let error = if pane.stack.selected_is_base() {
        crate::text::clone_optional(&pane.error)
    } else {
        match entry {
            Some(entry) => crate::text::clone_optional(&entry.error),
            None => None,
        }
    };
    if let Some(error) = error {
        let heading = if starts_with(error.as_str(), "Run:") {
            "Run"
        } else {
            match &pane.exit {
                Some(exit) => exit.heading(),
                None => "Unable to start command",
            }
        };
        return PaneContent::Failed { heading: heading.to_owned(), error };
    }
    if pane.base_exited && pane.stack.selected_is_base() {
        return PaneContent::Exited;
    }
    let profile = match entry {
        Some(entry) => entry.profile.name.as_str(),
        None => pane.profile.name.as_str(),
    };
    let mut text = joined("Starting ", profile);
    text.push_str("...");
    PaneContent::Starting { text }
}

/// What a window knows of the view that a pane shows.
#[derive(Clone, Copy, Debug, PartialEq, Eq, Structural)]
pub struct ViewState {
    pub focused: bool,
    pub has_context_menu: bool,
    pub has_search: bool,
    /// Whether the view has a theme of its own.
    pub has_theme: bool,
}

/// The configuration that says how opaque inactive panes are.
#[derive(Clone, Copy, Debug, PartialEq, Eq, Structural)]
pub enum OpacitySource {
    /// That of a project, by its identity.
    Project(u64),
    Launch,
}

/// The theme that the backgrounds of a pane are taken from.
#[derive(Clone, Copy, Debug, PartialEq, Eq, Structural)]
pub enum BackgroundSource {
    /// That of a view.
    View(u64),
    Window,
}

/// The configuration that says how opaque the inactive panes of a tab are: that
/// of the project that its active pane is in, or the launch's.
pub open spec fn opacity_source(tab: Tab, projects: ProjectState) -> OpacitySource {
    match projects.config_of(tab.active_pane) {
        Some(project) => OpacitySource::Project(project.identity),
        None => OpacitySource::Launch,
    }
}

/// The theme that the backgrounds of a pane are taken from: that of the view it
/// shows, where that has one of its own, or the window's.
pub open spec fn background_source(pane: TerminalPane, state: ViewState) -> BackgroundSource {
    match shown_view(pane) {
        Some(view) => if state.has_theme {
            BackgroundSource::View(view)
        } else {
            BackgroundSource::Window
        },
        None => BackgroundSource::Window,
    }
}

/// How a pane is filled.
#[derive(Debug, PartialEq, Eq)]
pub struct PaneBodyView {
    pub content: PaneContent,
    /// Whether the pane is drawn in full, and not as an inactive one.
    pub active: bool,
    /// Where the opacity comes from that it has while it is not.
    pub inactive_opacity: OpacitySource,
    /// Where the backgrounds of its stack's rows come from.
    pub backgrounds: BackgroundSource,
    /// Whether a stand-in takes the focus that no terminal can take.
    pub takes_focus: bool,
    pub resize_entry: bool,
    pub move_entry: bool,
    pub has_stack: bool,
}

/// Whether a pane is drawn in full: where its view has the user's attention, or
/// the tab's search is on it; without a view, where it is the active one.
pub open spec fn is_drawn_active(
    tab: Tab,
    pane: TerminalPane,
    state: ViewState,
    searched_tab: Option<u64>,
) -> bool {
    if shown_view(pane) is Some {
        state.focused || state.has_context_menu || state.has_search || (searched_tab == Some(tab.id)
            && tab.active_pane == pane.id)
    } else {
        tab.active_pane == pane.id
    }
}

/// How a pane is filled. `searched_tab` is the tab in which a search runs.
pub fn render_pane_body(
    tab: &Tab,
    pane: &TerminalPane,
    state: ViewState,
    searched_tab: Option<u64>,
    projects: &ProjectState,
) -> (result: PaneBodyView)
    requires
        projects.wf(),
    ensures
        result.inactive_opacity == opacity_source(*tab, *projects),
        result.backgrounds == background_source(*pane, state),
        result.content.view() == content_of(*pane),
        result.active == is_drawn_active(*tab, *pane, state, searched_tab),
        result.takes_focus == (shown_view(*pane) is None && tab.active_pane == pane.id),
        result.resize_entry == (tab.panes@.len() >= 2),
        result.move_entry == (tab.panes@.len() >= 2),
        result.has_stack == (pane.stack.entries@.len() > 0),
{
    let has_view = pane.selected_view().is_some();
    let inactive_opacity = match projects.config_for_pane(tab.active_pane) {
        Some(project) => OpacitySource::Project(project.identity),
        None => OpacitySource::Launch,
    };
    let backgrounds = match pane.selected_view() {
        Some(view) => if state.has_theme {
            BackgroundSource::View(view)
        } else {
            BackgroundSource::Window
        },
        None => BackgroundSource::Window,
    };
    let is_active_pane = tab.active_pane == pane.id;
    let searched = is_pane(searched_tab, tab.id) && is_active_pane;
    PaneBodyView {
        content: pane_content(pane),
        active: if has_view {
            state.focused || state.has_context_menu || state.has_search || searched
        } else {
            is_active_pane
        },
        inactive_opacity,
        backgrounds,
        takes_focus: !has_view && is_active_pane,
        resize_entry: pane_resize_menu_entry_available(tab.panes.len()),
        move_entry: pane_move_menu_entry_available(tab.panes.len()),
        has_stack: !pane.stack.is_empty(),
    }
}

/// Where a pane's controls stand.
#[derive(Clone, Copy, Debug, PartialEq, Eq, Structural)]
pub enum PaneControlsPosition {
    Left,
    Right,
}

/// The controls of a pane.
#[derive(Debug, PartialEq, Eq)]
pub struct PaneControlsView {
    pub label: String,
    pub tooltip: String,
    /// Whether the label is drawn as selected, while it is renamed.
    pub selected: bool,
    pub position: PaneControlsPosition,
    /// Whether they stand in the reverse order.
    pub reversed: bool,
    /// The size of the terminal, where it is shown.
    pub size: Option<String>,
    /// Whether the pane can be minimized, maximized and closed from here.
    pub has_buttons: bool,
}

/// The controls of a pane: its label and, where the tab has more than one pane,
/// its size and its buttons. A single pane that is renamed has its label alone.
pub fn render_pane_controls(
    tab: &Tab,
    pane_id: u64,
    pane_label: String,
    pane_size: Option<String>,
    position: PaneControlsPosition,
) -> (result: PaneControlsView)
    ensures
        result.label == pane_label,
        result.tooltip@ == pane_label@ + "\nDouble-click to label this pane"@,
        result.selected == (tab.renaming_pane == Some(pane_id) && tab.renaming_all()),
        result.position == position,
        result.reversed == (position == PaneControlsPosition::Left),
        result.has_buttons == (tab.panes@.len() > 1),
        result.size == if tab.panes@.len() > 1 {
            pane_size
        } else {
            None
        },
{
    let tooltip = joined(pane_label.as_str(), "\nDouble-click to label this pane");
    let several = tab.panes.len() > 1;
    PaneControlsView {
        label: pane_label,
        tooltip,
        selected: tab.pane_rename_selected(pane_id),
        position,
        reversed: matches!(position, PaneControlsPosition::Left),
        size: if several {
            pane_size
        } else {
            None
        },
        has_buttons: several,
    }
}

/// The gutter between the two parts of a split, by the first pane of each.
#[derive(Clone, Copy, Debug, PartialEq, Eq, Structural)]
pub struct PaneResizeGutter {
    pub tab_id: u64,
    pub first_pane: u64,
    pub second_pane: u64,
    pub axis: SplitAxis,
}

/// How a split is drawn.
#[derive(Clone, Copy, Debug, PartialEq, Eq, Structural)]
pub struct PaneSplitView {
    /// The shares of the two parts, which together are the whole.
    pub first_share: u16,
    pub second_share: u16,
    /// The gutter by which the parts can be resized, while they can be.
    pub gutter: Option<PaneResizeGutter>,
    pub first_edges: edges::PaneWindowEdges,
    pub second_edges: edges::PaneWindowEdges,
}

/// How a split is drawn, where the layout is one.
pub fn render_pane_split(
    tab: &Tab,
    layout: &PaneLayout,
    touched: edges::PaneWindowEdges,
    modes: PaneModes,
) -> (result: Option<PaneSplitView>)
    requires
        layout matches PaneLayout::Split { first_ratio, .. } ==> *first_ratio
            <= PANE_SPLIT_RATIO_SCALE,
    ensures
        match *layout {
            PaneLayout::Pane(_) => result is None,
            PaneLayout::Split { axis, first_ratio, first, second } => result matches Some(split)
                && {
                &&& split.first_share == first_ratio
                &&& split.first_share + split.second_share == PANE_SPLIT_RATIO_SCALE
                &&& split.gutter == if modes.resizing && tab.maximized_pane is None
                    && tab.minimized_panes@.len() == 0 {
                    Some(
                        PaneResizeGutter {
                            tab_id: tab.id,
                            first_pane: first.ids().first(),
                            second_pane: second.ids().first(),
                            axis,
                        },
                    )
                } else {
                    None
                }
                &&& split.first_edges == touched.of_first(axis)
                &&& split.second_edges == touched.of_second(axis)
            },
        },
{
    match layout {
        PaneLayout::Pane(_) => None,
        PaneLayout::Split { axis, first_ratio, first, second } => {
            let resizable = modes.resizing && tab.maximized_pane.is_none()
                && tab.minimized_panes.len() == 0;
            let gutter = if resizable {
                Some(
                    PaneResizeGutter {
                        tab_id: tab.id,
                        first_pane: first.first_pane(),
                        second_pane: second.first_pane(),
                        axis: *axis,
                    },
                )
            } else {
                None
            };
            Some(
                PaneSplitView {
                    first_share: *first_ratio,
                    second_share: PANE_SPLIT_RATIO_SCALE - *first_ratio,
                    gutter,
                    first_edges: touched.first(*axis),
                    second_edges: touched.second(*axis),
                },
            )
        },
    }
}

/// A pane that shows a terminal's view never shows an error in its place, and
/// one that has neither says what it waits for.
pub proof fn law_pane_shows_its_view_first(pane: TerminalPane)
    ensures
        shown_view(pane) matches Some(view) ==> content_of(pane) == PaneContentView::View(view),
        shown_view(pane) is None && shown_error(pane) is Some ==> content_of(pane) is Failed,
        shown_view(pane) is None && shown_error(pane) is None ==> content_of(pane) is Exited
            || content_of(pane) is Starting,
{
}

} // verus!
