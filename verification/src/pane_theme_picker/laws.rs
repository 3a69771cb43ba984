//! What holds of choosing a theme.

use vstd::prelude::*;

use crate::pane::TerminalPane;
use crate::pane::overlay_editing::pane_of;
use crate::pane::stack::{first_index, lemma_first_index_found, PaneStackSelection};
use crate::pane::tab::Tab;
use crate::pane_render::shown_view;
use crate::pane_theme_picker::{
    command_names, law_showing_theme_is_selected, lists_themes, reset_name, showing, shown_id,
    theme_chosen, with_theme, ThemeAction, ThemeChange, ThemePicker,
};
use crate::process_control::ThemeScope;
use crate::project_context::themes::ThemeSourceView;
use crate::zetta::Zetta;

verus! {

/// A theme chosen for a tab is the tab's, and its panes and the other tabs are left alone;
/// a theme that does not exist is not chosen, and nothing changes.
pub proof fn law_chosen_theme_is_the_tabs(
    before: Zetta,
    after: Zetta,
    name: Option<String>,
    exists: bool,
    is_light: bool,
    result: ThemeChange,
)
    requires
        theme_chosen(before, after, ThemeScope::Tab, name, exists, is_light, result),
    ensures
        before.has_active() && (name is None || exists) ==> {
            &&& after.tabs@.len() == before.tabs@.len()
            &&& after.active().theme_override == name
            &&& after.active().panes == before.active().panes
            &&& result == (ThemeChange::Tab { tab_id: before.active().id })
            &&& forall|i: int|
                0 <= i < before.tabs@.len() && i != before.active_tab ==> #[trigger] after.tabs@[i]
                    == before.tabs@[i]
        },
        name is Some && !exists ==> result == ThemeChange::Refused && after.tabs@ == before.tabs@,
        !before.has_active() ==> result == ThemeChange::Refused && after.tabs@ == before.tabs@,
{
}

/// A theme chosen for a pane is that of the terminal it shows, which is drawn with it, and
/// taking the choice back leaves the tab's theme or else the project's to decide.
pub proof fn law_chosen_theme_is_the_panes(
    before: Zetta,
    after: Zetta,
    name: Option<String>,
    exists: bool,
    is_light: bool,
    result: ThemeChange,
)
    requires
        theme_chosen(before, after, ThemeScope::Pane, name, exists, is_light, result),
    ensures
        result matches ThemeChange::View { view, theme } ==> {
            &&& Some(view) == shown_view(pane_of(before.active(), before.active().active_pane))
            &&& name matches Some(chosen) ==> theme.view() == ThemeSourceView::Pane(chosen@)
            &&& name is None ==> (before.active().theme_override matches Some(of_tab)
                ==> theme.view() == ThemeSourceView::Tab(of_tab@))
            &&& pane_of(before.active(), before.active().active_pane).stack.selected is Base
                ==> pane_of(after.active(), before.active().active_pane).theme_override == name
            &&& after.active().theme_override == before.active().theme_override
        },
        name is Some && !exists ==> result == ThemeChange::Refused && after.tabs@ == before.tabs@,
        result == ThemeChange::Refused ==> after.tabs@ == before.tabs@,
        !(result is Tab),
{
}

/// A theme is set on the terminal that the pane shows and on no other.
pub proof fn law_theme_is_set_on_what_is_shown(
    pane: TerminalPane,
    after: TerminalPane,
    name: Option<String>,
    other: int,
)
    requires
        with_theme(pane, after, name),
        pane.stack.wf(),
        0 <= other < pane.stack.entries@.len(),
    ensures
        pane.stack.selected is Base ==> after.theme_override == name && after.stack == pane.stack,
        pane.stack.selected matches PaneStackSelection::Stacked(id) ==> {
            let at = first_index(pane.stack.ids(), id);
            &&& after.theme_override == pane.theme_override
            &&& other != at ==> after.stack.entries@[other] == pane.stack.entries@[other]
            &&& other == at ==> after.stack.entries@[other].theme_override == name
                && after.stack.entries@[other].id == pane.stack.entries@[other].id
        },
{
    if let PaneStackSelection::Stacked(id) = pane.stack.selected {
        lemma_first_index_found(pane.stack.ids(), id);
    }
}

/// A list of themes begins with taking the choice back, has every theme once, in order,
/// and has the one that shows selected.
pub proof fn law_list_has_every_theme(
    picker: ThemePicker,
    scope: ThemeScope,
    names: Seq<Seq<char>>,
    current: Option<Seq<char>>,
    name: Seq<char>,
)
    requires
        lists_themes(picker, scope, names, current),
    ensures
        picker.commands@[0].action == ThemeAction::Reset,
        names.contains(name) ==> exists|i: int|
            1 <= i < picker.commands@.len() && (#[trigger] picker.commands@[i]).name@ == name,
        forall|i: int|
            1 <= i < picker.commands@.len() ==> (
            #[trigger] picker.commands@[i].action matches ThemeAction::Apply { name: chosen }
                && names.contains(chosen@)),
        current matches Some(showing) ==> names.contains(showing) ==> picker.commands@[
            picker.selected as int
        ].name@ == showing,
{
    let commands = picker.commands@;
    let listed = command_names(commands.skip(1));
    if names.contains(name) {
        assert(listed.contains(name));
        let i = choose|i: int| 0 <= i < listed.len() && listed[i] == name;
        assert(commands.skip(1)[i] == commands[i + 1]);
        assert(commands[i + 1].name@ == name);
    }
    assert forall|i: int| 1 <= i < commands.len() implies (
    #[trigger] commands[i].action matches ThemeAction::Apply { name: chosen } && names.contains(
        chosen@,
    )) by {
        assert(commands.skip(1)[i - 1] == commands[i]);
        assert(listed[i - 1] == commands[i].name@);
        assert(listed.contains(listed[i - 1]));
        assert(names.contains(listed[i - 1]));
    }
    if let Some(showing) = current {
        if names.contains(showing) {
            assert(listed.contains(showing));
            let i = choose|i: int| 0 <= i < listed.len() && listed[i] == showing;
            assert(commands.skip(1)[i] == commands[i + 1]);
            assert(command_names(commands)[i + 1] == showing);
            law_showing_theme_is_selected(command_names(commands), showing);
        }
    }
}

/// The list says what taking the choice back leads to, and starts from what is shown.
pub proof fn law_list_starts_from_what_is_shown(
    window: Zetta,
    shown: Option<String>,
    window_theme: String,
    pane: TerminalPane,
)
    ensures
        reset_name(ThemeScope::Pane) == "Reset to tab default"@,
        reset_name(ThemeScope::Tab) == "Reset to configured theme"@,
        shown matches Some(name) ==> window.has_active() ==> showing(window, shown, window_theme)
            == name,
        shown is None ==> showing(window, shown, window_theme) == window_theme,
        !window.has_active() ==> showing(window, shown, window_theme) == window_theme,
        pane.stack.selected is Base ==> shown_id(pane) == pane.id,
        pane.stack.selected matches PaneStackSelection::Stacked(id) ==> shown_id(pane) == id,
{
}

} // verus!
