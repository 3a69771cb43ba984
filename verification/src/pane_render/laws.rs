//! What holds of how panes are drawn.

use vstd::prelude::*;

use crate::local_sessions::protocol::BackgroundPaneExitReason;
use crate::pane::TerminalPane;
use crate::pane::layout::SplitAxis;
use crate::pane::overlay::{
    HslaColor, OverlayFontSize, OverlayOpacity, OverlayPickerSection, OverlayStylePicker,
};
use crate::pane::overlay_editing::{restored_by, styled_by};
use crate::pane::stack::{PaneStackSelection, StackedPane, StackedPaneState};
use crate::pane::tab::Tab;
use crate::pane_overlay::{preset_cell, summary_text};
use crate::pane_render::{
    background_source, content_of, controls_shown, error_heading, is_drawn_active, leaf_label,
    opacity_source, overlay_top, shown_error, shown_profile, shown_view, size_text,
    BackgroundSource, OpacitySource, PaneContentView, PaneModes, ViewState,
};
use crate::pane_render::edges::PaneWindowEdges;
use crate::pane_render::stacked::{base_row, entry_rows, row_number, status_text};
use crate::project_context::ProjectState;
use crate::text::{decimal_text, has_prefix, optional_text, signed_text};

verus! {

/// Of two parts side by side neither has the edge between them; of two parts one above
/// the other only the lower one can be at the bottom; and each keeps the other edges of
/// the whole.
pub proof fn law_parts_share_the_edges(edges: PaneWindowEdges)
    ensures
        ({
            let left = edges.of_first(SplitAxis::Vertical);
            let right = edges.of_second(SplitAxis::Vertical);
            &&& !left.right && !right.left
            &&& left.left == edges.left && right.right == edges.right
            &&& left.bottom == edges.bottom && right.bottom == edges.bottom
        }),
        ({
            let upper = edges.of_first(SplitAxis::Horizontal);
            let lower = edges.of_second(SplitAxis::Horizontal);
            &&& !upper.bottom && lower.bottom == edges.bottom
            &&& upper.left == edges.left && lower.left == edges.left
            &&& upper.right == edges.right && lower.right == edges.right
        }),
{
}

/// The larger an overlay's text, the nearer to the top it stands.
pub proof fn law_larger_overlays_stand_higher(one: OverlayFontSize, other: OverlayFontSize)
    ensures
        one.rank() < other.rank() <==> overlay_top(one) > overlay_top(other),
        overlay_top(OverlayFontSize::ExtraExtraExtraLarge) == 0,
        overlay_top(OverlayFontSize::Small) == 8,
{
}

/// A size is said in columns and lines.
pub proof fn law_size_is_columns_by_lines(columns: usize, lines: usize)
    ensures
        size_text(Some((columns, lines))) == Some(
            decimal_text(columns as nat) + " × "@ + decimal_text(lines as nat),
        ),
        size_text(None) is None,
{
}

/// A row says how its command is doing, with the exit code where there is one.
pub proof fn law_rows_say_how_commands_are_doing(code: i32, any: Option<i32>)
    ensures
        status_text(StackedPaneState::Starting, any) == "starting"@,
        status_text(StackedPaneState::Running, any) == "running"@,
        status_text(StackedPaneState::Failed, any) == "failed"@,
        status_text(StackedPaneState::Completed, Some(code)) == "exit "@ + signed_text(code as int),
        status_text(StackedPaneState::Completed, None) == "completed"@,
{
}

/// Every entry that is not shown has a row, with its own command and state, in the order
/// of the stack; and so has the pane's own shell, as long as there is anything to say of
/// it.
pub proof fn law_each_entry_has_its_row(
    entries: Seq<StackedPane>,
    entry: StackedPane,
    selected: PaneStackSelection,
    pane: TerminalPane,
)
    ensures
        selected == PaneStackSelection::Stacked(entry.id) ==> entry_rows(
            entries.push(entry),
            selected,
        ) == entry_rows(entries, selected),
        selected != PaneStackSelection::Stacked(entry.id) ==> {
            let rows = entry_rows(entries.push(entry), selected);
            &&& rows.len() == entry_rows(entries, selected).len() + 1
            &&& rows.drop_last() == entry_rows(entries, selected)
            &&& rows.last().selection == PaneStackSelection::Stacked(entry.id)
            &&& rows.last().command == entry.command@
            &&& rows.last().status == status_text(entry.state, entry.exit_code)
        },
        pane.stack.selected is Base ==> base_row(pane).len() == 0,
        pane.stack.selected is Stacked && !pane.base_exited && pane.exit is None ==> base_row(
            pane,
        ).len() == 1 && base_row(pane)[0].status == "running"@ && base_row(pane)[0].selection is Base,
        pane.stack.selected is Stacked && pane.exit is Some ==> base_row(pane).len() == 1
            && base_row(pane)[0].status == "failed"@,
        pane.base_exited && pane.exit is None ==> base_row(pane).len() == 0,
        row_number(PaneStackSelection::Base) == 0,
        row_number(PaneStackSelection::Stacked(entry.id)) == entry.id,
{
    assert(entries.push(entry).drop_last() =~= entries);
    if selected != PaneStackSelection::Stacked(entry.id) {
        let rows = entry_rows(entries.push(entry), selected);
        assert(rows.drop_last() =~= entry_rows(entries, selected));
    }
}

/// A pane that starts says with which profile, one that failed says why, and how that is
/// headed depends on what happened.
pub proof fn law_pane_says_what_it_does(pane: TerminalPane, error: Seq<char>)
    ensures
        pane.stack.selected is Base && pane.view is None && pane.error is None && !pane.base_exited
            ==> content_of(pane) == (PaneContentView::Starting {
            text: "Starting "@ + pane.profile.name@ + "..."@,
        }),
        pane.stack.selected is Base && pane.view is None && pane.error is None && pane.base_exited
            ==> content_of(pane) == PaneContentView::Exited,
        pane.stack.selected is Base ==> shown_view(pane) == pane.view && shown_error(pane)
            == optional_text(pane.error) && shown_profile(pane) == pane.profile.name@,
        content_of(pane) matches PaneContentView::Failed { heading, error: said } ==> shown_error(
            pane,
        ) == Some(said) && heading == error_heading(pane, said),
        has_prefix(error, "Run:"@) ==> error_heading(pane, error) == "Run"@,
        !has_prefix(error, "Run:"@) && pane.exit is None ==> error_heading(pane, error)
            == "Unable to start command"@,
        !has_prefix(error, "Run:"@) ==> (pane.exit matches Some(exit) ==> error_heading(pane, error)
            == if exit.reason == BackgroundPaneExitReason::WatcherDisconnected {
            "Lost contact with the session multiplexer"@
        } else {
            "Terminal exited unexpectedly"@
        }),
{
}

/// A pane with a view is drawn in full while the view has the focus, a menu or a search;
/// one without a view while it is the tab's active pane.
pub proof fn law_focused_panes_are_drawn_in_full(
    tab: Tab,
    pane: TerminalPane,
    state: ViewState,
    searched: Option<u64>,
)
    ensures
        shown_view(pane) is Some && (state.focused || state.has_context_menu || state.has_search)
            ==> is_drawn_active(tab, pane, state, searched),
        shown_view(pane) is Some && !state.focused && !state.has_context_menu && !state.has_search
            && searched is None ==> !is_drawn_active(tab, pane, state, searched),
        shown_view(pane) is None ==> is_drawn_active(tab, pane, state, searched) == (
        tab.active_pane == pane.id),
        searched == Some(tab.id) && tab.active_pane == pane.id ==> is_drawn_active(
            tab,
            pane,
            state,
            searched,
        ),
{
}

/// How faint inactive panes are is the project's of the active pane, else that of the
/// launch; and a background is the view's where it has a theme, else the window's.
pub proof fn law_looks_come_from_the_project_or_the_launch(
    tab: Tab,
    projects: ProjectState,
    pane: TerminalPane,
    state: ViewState,
)
    ensures
        projects.config_of(tab.active_pane) is None ==> opacity_source(tab, projects)
            == OpacitySource::Launch,
        projects.config_of(tab.active_pane) matches Some(project) ==> opacity_source(tab, projects)
            == OpacitySource::Project(project.identity),
        !state.has_theme ==> background_source(pane, state) == BackgroundSource::Window,
        shown_view(pane) matches Some(view) ==> state.has_theme ==> background_source(pane, state)
            == BackgroundSource::View(view),
{
}

/// Controls are not shown on a maximized pane nor on one with a stack; elsewhere they are
/// shown on the pane that is renamed and, among several, on the one they are for.
pub proof fn law_controls_are_for_plain_panes(tab: Tab, pane_id: u64, modes: PaneModes)
    ensures
        tab.maximized_pane is Some ==> !controls_shown(tab, pane_id, modes),
        tab.panes@[tab.index_of(pane_id)->0].stack.entries@.len() > 0 ==> !controls_shown(
            tab,
            pane_id,
            modes,
        ),
        tab.maximized_pane is None && tab.panes@[tab.index_of(pane_id)->0].stack.entries@.len() == 0
            ==> {
            &&& tab.renaming_pane == Some(pane_id) ==> controls_shown(tab, pane_id, modes)
            &&& tab.panes@.len() > 1 && modes.controls_visible_for == Some(pane_id)
                ==> controls_shown(tab, pane_id, modes)
            &&& tab.renaming_pane != Some(pane_id) && modes.controls_visible_for != Some(pane_id)
                ==> !controls_shown(tab, pane_id, modes)
        },
{
}

/// A label that is being changed is shown as it is typed, and otherwise as it is.
pub proof fn law_typed_label_is_shown(tab: Tab, pane_id: u64)
    requires
        tab.index_of(pane_id) is Some,
    ensures
        tab.renaming_pane != Some(pane_id) ==> leaf_label(tab, pane_id) == tab.panes@[tab.index_of(
            pane_id,
        )->0].label_text(),
        tab.renaming_pane == Some(pane_id) ==> (tab.rename_buffer matches Some(field)
            ==> leaf_label(tab, pane_id) == field.marked@),
        tab.editing_overlay_pane == Some(pane_id) ==> (tab.overlay_buffer matches Some(field)
            ==> tab.shown_overlay(pane_id) == Some(field.marked@)),
        tab.editing_overlay_pane != Some(pane_id) ==> tab.shown_overlay(pane_id) == optional_text(
            tab.panes@[tab.index_of(pane_id)->0].overlay_text,
        ),
{
}

/// A picked style is the picked size, opacity and colour, and leaves the text and the rest
/// of the pane alone; giving it up brings back what was there.
pub proof fn law_picked_style_is_shown(
    pane: TerminalPane,
    picker: OverlayStylePicker,
    color: HslaColor,
)
    ensures
        ({
            let styled = styled_by(pane, picker, color);
            &&& styled.overlay_font_size == Some(picker.font_size)
            &&& styled.overlay_opacity == Some(OverlayOpacity::Percent(picker.opacity_percent))
            &&& styled.overlay_color == Some(color)
            &&& styled.overlay_text == pane.overlay_text
            &&& styled.id == pane.id
            &&& styled.stack == pane.stack
        }),
        picker.original_font_size == pane.overlay_font_size && picker.original_opacity
            == pane.overlay_opacity && picker.original_color == pane.overlay_color ==> restored_by(
            styled_by(pane, picker, color),
            picker,
        ) == pane,
        summary_text(picker) == picker.font_size.spelling() + " · "@ + picker.hex_buffer@ + " · "@
            + decimal_text(picker.opacity_percent as nat) + "%"@,
{
}

/// A preset is marked as picked where it is, and as focused only while the presets are
/// what the keyboard is on.
pub proof fn law_preset_is_marked_where_it_is(
    index: usize,
    section: OverlayPickerSection,
    selected: Option<usize>,
    focused: usize,
)
    ensures
        preset_cell(index as int, section, selected, focused).index == index,
        preset_cell(index as int, section, selected, focused).selected == (selected == Some(index)),
        section != OverlayPickerSection::ColorPresets ==> !preset_cell(
            index as int,
            section,
            selected,
            focused,
        ).focused,
        preset_cell(
            index as int,
            OverlayPickerSection::ColorPresets,
            selected,
            focused,
        ).focused == (focused == index),
{
}

} // verus!
