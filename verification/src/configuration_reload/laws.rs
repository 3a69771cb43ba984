//! What holds of a configuration that is read again.

use vstd::prelude::*;

use crate::configuration_reload::applying::{
    are_reloaded_with, config_roots, controls_reset, is_first_unread, registered, some_tab_has,
    tab_taken_over, taken_over, with_project_icon, LoadedConfiguration,
};
use crate::configuration_reload::reload_error_text;
use crate::pane::tab::TabIconOverride;
use crate::project::config::ProjectConfig;
use crate::project_context::ProjectState;
use crate::project_context::laws::{law_each_root_is_read_once, law_registered_roots_are_read_again};
use crate::project_context::opening::{is_spelled_in, root_texts};
use crate::zetta::Zetta;

verus! {

/// After a reload the window has the configuration that was read and the file it was read
/// from, and still has its tabs and its kept sessions, the same one in front, and what
/// the launch was given.
pub proof fn law_reload_takes_the_new_configuration(
    before: Zetta,
    after: Zetta,
    loaded: LoadedConfiguration,
    visible: usize,
    at: int,
)
    requires
        taken_over(before, after, loaded, visible),
        0 <= at < before.tabs@.len(),
    ensures
        after.launch_config == loaded.config,
        after.config_path == loaded.config_path,
        after.active_tab == before.active_tab,
        after.tabs@.len() == before.tabs@.len(),
        after.tabs@[at].id == before.tabs@[at].id,
        after.tabs@[at].layout == before.tabs@[at].layout,
        after.tabs@[at].active_pane == before.tabs@[at].active_pane,
        after.tabs@[at].theme_override is None,
        after.background_sessions@.len() == before.background_sessions@.len(),
        after.launch_theme_override == before.launch_theme_override,
        after.projects.pane_roots == before.projects.pane_roots,
        after.projects.registry == before.projects.registry,
        after.profile_shortcut_slots == visible,
        !after.command_palette_open,
{
    assert(tab_taken_over(
        with_project_icon(before, after, at),
        after.tabs@[at],
        after.projects,
        loaded.config.profiles@,
        before.launch_theme_override,
    ));
}

/// Where the setting of the controls changes, the controls of every pane follow it; where
/// it stays, so do they.
pub proof fn law_controls_follow_the_setting(before: Zetta, after: Zetta, hidden: bool, pane_id: u64)
    requires
        controls_reset(before, after, hidden),
    ensures
        hidden == before.launch_config.pane_controls_hidden_by_default ==> {
            &&& after.pane_controls_hidden_for == before.pane_controls_hidden_for
            &&& after.pane_controls_visible_for == before.pane_controls_visible_for
        },
        hidden && !before.launch_config.pane_controls_hidden_by_default && some_tab_has(
            before.tabs@,
            pane_id,
        ) ==> after.pane_controls_hidden_for@.contains(pane_id),
        !hidden && before.launch_config.pane_controls_hidden_by_default
            ==> !after.pane_controls_hidden_for@.contains(pane_id)
            && after.pane_controls_visible_for is None,
{
}

proof fn lemma_root_of_a_pane(projects: ProjectState, panes: Seq<u64>, at: int)
    requires
        0 <= at < panes.len(),
        projects.pane_roots.value_of(panes[at]) is Some,
    ensures
        root_texts(projects.pane_roots, panes).contains(
            projects.pane_roots.value_of(panes[at])->0@,
        ),
    decreases panes.len(),
{
    let shorter = panes.drop_last();
    let before = root_texts(projects.pane_roots, shorter);
    let all = root_texts(projects.pane_roots, panes);
    let root = projects.pane_roots.value_of(panes[at])->0@;
    if at == panes.len() - 1 {
        assert(panes.last() == panes[at]);
        assert(all[before.len() as int] == root);
    } else {
        assert(shorter[at] == panes[at]);
        lemma_root_of_a_pane(projects, shorter, at);
        let i = choose|i: int| 0 <= i < before.len() && before[i] == root;
        assert(all[i] == root);
    }
}

/// What is read again are the projects that are registered: every one that was read
/// before and every one that a pane is in.
pub proof fn law_registered_projects_are_read_again(
    roots: Seq<Seq<char>>,
    projects: ProjectState,
    panes: Seq<u64>,
    root: Seq<char>,
    at: int,
    pane: int,
)
    requires
        are_reloaded_with(roots, projects, panes),
    ensures
        roots.contains(root) ==> projects.registry.registers(root),
        0 <= at < projects.configs@.len() && projects.registry.registers(
            projects.configs@[at].root@,
        ) ==> is_spelled_in(roots, projects.configs@[at].root@, projects.registry.windows),
        0 <= pane < panes.len() ==> (projects.pane_roots.value_of(panes[pane]) matches Some(of_pane)
            ==> projects.registry.registers(of_pane@) ==> is_spelled_in(
            roots,
            of_pane@,
            projects.registry.windows,
        )),
{
    let windows = projects.registry.windows;
    let read = config_roots(projects.configs@);
    let entered = root_texts(projects.pane_roots, panes);
    let all = read + entered;
    let known = registered(all, projects.registry);
    law_each_root_is_read_once(known, windows, root);
    law_registered_roots_are_read_again(all, projects.registry, root);
    if 0 <= at < projects.configs@.len() {
        let own = projects.configs@[at].root@;
        assert(all[at] == own);
        law_registered_roots_are_read_again(all, projects.registry, own);
        law_each_root_is_read_once(known, windows, own);
    }
    if 0 <= pane < panes.len() {
        if let Some(of_pane) = projects.pane_roots.value_of(panes[pane]) {
            lemma_root_of_a_pane(projects, panes, pane);
            let i = choose|i: int| 0 <= i < entered.len() && entered[i] == of_pane@;
            assert(all[read.len() + i] == of_pane@);
            law_registered_roots_are_read_again(all, projects.registry, of_pane@);
            law_each_root_is_read_once(known, windows, of_pane@);
        }
    }
}

/// The icon of a reload is the project's on the tab in front, where none was chosen, and
/// that of no other tab changes.
pub proof fn law_only_the_front_tab_changes_its_icon(before: Zetta, after: Zetta, index: int)
    requires
        0 <= index < before.tabs@.len(),
    ensures
        index != before.active_tab ==> with_project_icon(before, after, index)
            == before.tabs@[index],
        with_project_icon(before, after, index).id == before.tabs@[index].id,
        index == before.active_tab && before.tabs@[index].icon_override == TabIconOverride::Unset
            ==> (after.project_icon() matches Some(icon) ==> with_project_icon(
            before,
            after,
            index,
        ).icon == icon),
        before.tabs@[index].icon_override != TabIconOverride::Unset ==> with_project_icon(
            before,
            after,
            index,
        ).icon == before.tabs@[index].icon,
{
}

/// The configuration is edited in the terminal of the pane that has the focus.
pub proof fn law_focused_terminal_is_for_editing(window: Zetta)
    ensures
        !window.has_active() ==> window.editing_terminal() is None,
        window.has_active() ==> (window.active().index_of(window.active().active_pane) matches Some(
            index,
        ) ==> window.editing_terminal() == window.active().panes@[index].terminal),
{
}

/// What went wrong is said with the file it went wrong with.
pub proof fn law_reload_error_names_the_file(lead: Seq<char>, path: Seq<char>, error: Seq<char>)
    ensures
        reload_error_text(lead, path, error) == lead + path + ": "@ + error,
{
}

/// The first project that could not be read is the one that is told of.
pub proof fn law_first_unread_project_is_one(
    roots: Seq<String>,
    read: Seq<Result<ProjectConfig, String>>,
    one: int,
    other: int,
)
    requires
        is_first_unread(roots, read, one),
        is_first_unread(roots, read, other),
    ensures
        one == other,
        read[one] is Err,
{
    if one < other {
        assert(read[one] is Ok);
    } else if other < one {
        assert(read[other] is Ok);
    }
}

} // verus!
