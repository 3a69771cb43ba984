//! What holds of the projects that panes are in, and of what is offered for them.

use vstd::prelude::*;

use crate::configuration_reload::applying::{latest_config, reconfigured, refusal, registered};
use crate::mux::{MuxRetentionState, MuxRuntime};
use crate::pane::TerminalPane;
use crate::pane::stack::StackedPane;
use crate::pane::tab::{Tab, TabIconOverride};
use crate::profile::{Profile, Shell};
use crate::project::config::ProjectConfig;
use crate::project::paths::{key_of, same_path};
use crate::project::registry::{has_root, ProjectRegistry};
use crate::project_context::activation::{missing_theme, unknown_theme_text};
use crate::project_context::{
    config_in, entered_by_others, is_related_offer, kept_configs, ProjectOffer, ProjectState,
};
use crate::project_context::detection::{
    offer_after, offer_besides, roots_lacking, ProjectDetectionResult,
};
use crate::project_context::opening::{
    all_panes, distinct_roots, is_spelled_in, no_profile_text, not_added_text, not_opened_text,
    not_registered_text, panes_of, root_texts,
};
use crate::project_context::themes::ThemeSourceView;
use crate::project_context::window::{
    entry_themes, icon_refreshed, pane_themes, panes_themes, tab_position, tabs_themes, theme_in,
};
use crate::project_context::wsl::{
    distribution_in, distribution_of, distribution_path, reported_directory, with_backslashes,
    without_start_slashes,
};
use crate::text::{has_prefix, optional_text, pieces, quoted_text, texts};
use crate::zetta::Zetta;

verus! {

/// A pane has the settings of the project that it is in, and none where it is in none or
/// where the project is not read.
pub proof fn law_pane_has_the_settings_of_its_project(state: ProjectState, pane_id: u64)
    ensures
        match state.config_of(pane_id) {
            Some(config) => state.pane_roots.value_of(pane_id) matches Some(root) && same_path(
                config.root@,
                root@,
                state.registry.windows,
            ) && state.configs@.contains(config),
            None => state.pane_roots.value_of(pane_id) matches Some(root) ==> forall|i: int|
                0 <= i < state.configs@.len() ==> !same_path(
                    (#[trigger] state.configs@[i]).root@,
                    root@,
                    state.registry.windows,
                ),
        },
{
    if let Some(root) = state.pane_roots.value_of(pane_id) {
        crate::project_context::law_projects_are_found(
            state.configs@,
            root@,
            state.registry.windows,
        );
    }
}

/// The window follows the project of the pane that has the focus, and where that is in
/// none, the settings that it was launched with.
pub proof fn law_window_follows_the_focused_pane(window: Zetta)
    ensures
        window.active_project() matches Some(project) ==> window.effective() == project.effective
            && window.has_active() && window.projects.config_of(window.active().active_pane)
            == Some(project),
        window.active_project() is None ==> window.effective() == window.launch_config,
        !window.has_active() ==> window.effective() == window.launch_config,
{
}

/// A project is offered only where the directory has one that is neither registered nor
/// was dismissed, and to the pane that is there; an offer that was made to a pane goes
/// away when the pane leaves, and that of another pane stays, unless its project is read.
pub proof fn law_offers_are_for_unknown_projects(
    offer: Option<ProjectOffer>,
    pane_id: u64,
    result: ProjectDetectionResult,
    registered: bool,
    dismissed: Seq<Seq<char>>,
    windows: bool,
)
    ensures
        ({
            let next = offer_after(offer, pane_id, result, registered, dismissed, windows);
            &&& next matches Some(made) ==> next == offer || (made.pane_id == pane_id
                && result.offer_root == Some(made.root) && !registered && !dismissed.contains(
                key_of(made.root@, windows),
            ))
            &&& result.offer_root matches Some(root) ==> !registered && !dismissed.contains(
                key_of(root@, windows),
            ) ==> next == Some(ProjectOffer { root, pane_id })
            &&& result.offer_root is None ==> (offer matches Some(made) ==> made.pane_id == pane_id
                ==> next is None)
            &&& (registered || result.offer_root is None) && result.config is None ==> (
            offer matches Some(made) ==> made.pane_id != pane_id ==> next == offer)
            &&& offer is None && registered ==> next is None
        }),
        offer matches Some(made) ==> (result.registered_root matches Some(root) ==> same_path(
            made.root@,
            root@,
            windows,
        ) && (result.config matches Some(read) && read is Ok) ==> offer_besides(
            offer,
            result,
            windows,
        ) is None),
{
}

/// In a worktree the root whose file counts is that of the settings; else it is the
/// project's; and without a project there is none.
pub proof fn law_counted_root_is_that_of_the_settings(result: ProjectDetectionResult)
    ensures
        result.registered_root is None ==> result.counted_root() is None,
        result.registered_root matches Some(root) ==> match result.config_root {
            Some(config_root) => result.counted_root() == Some(config_root@),
            None => result.counted_root() == Some(root@),
        },
{
}

/// A pane has left its project where it is now in another or in none, and not where it
/// is still in the same.
pub proof fn law_pane_leaves_its_project(state: ProjectState, pane_id: u64, root: String)
    requires
        state.pane_roots.value_of(pane_id) == Some(root),
    ensures
        state.left_by(pane_id, None),
        !state.left_by(pane_id, Some(root@)),
        forall|other: Seq<char>|
            #[trigger] state.left_by(pane_id, Some(other)) == !same_path(
                other,
                root@,
                state.registry.windows,
            ),
{
}

/// A project's theme that does not exist is named, the one for light windows first, and
/// nothing is said of a theme that exists or that is not set.
pub proof fn law_missing_theme_is_named(
    project: ProjectConfig,
    theme_exists: bool,
    dark_exists: bool,
)
    ensures
        theme_exists && dark_exists ==> missing_theme(project, theme_exists, dark_exists) is None,
        project.theme is None && project.dark_theme is None ==> missing_theme(
            project,
            theme_exists,
            dark_exists,
        ) is None,
        project.theme is Some && !theme_exists ==> missing_theme(project, theme_exists, dark_exists)
            == optional_text(project.theme),
        project.dark_theme is Some && theme_exists && !dark_exists ==> missing_theme(
            project,
            theme_exists,
            dark_exists,
        ) == optional_text(project.dark_theme),
{
}

proof fn lemma_pushed<T>(list: Seq<T>, last: T, item: T)
    ensures
        list.push(last).contains(item) == (list.contains(item) || item == last),
{
    let longer = list.push(last);
    assert(longer[list.len() as int] == last);
    if list.contains(item) {
        let i = choose|i: int| 0 <= i < list.len() && list[i] == item;
        assert(longer[i] == item);
    }
    if longer.contains(item) {
        let i = choose|i: int| 0 <= i < longer.len() && longer[i] == item;
        if i < list.len() {
            assert(list[i] == item);
        }
    }
}

/// What a tab entered is forgotten with it, and what others entered is not.
pub proof fn law_closed_tab_entered_nothing(
    entered: Seq<(u64, Seq<char>)>,
    tab_id: u64,
    entry: (u64, Seq<char>),
)
    ensures
        entered_by_others(entered, tab_id).contains(entry) == (entered.contains(entry) && entry.0
            != tab_id),
    decreases entered.len(),
{
    if entered.len() > 0 {
        let shorter = entered.drop_last();
        law_closed_tab_entered_nothing(shorter, tab_id, entry);
        assert(entered =~= shorter.push(entered.last()));
        lemma_pushed(shorter, entered.last(), entry);
        lemma_pushed(entered_by_others(shorter, tab_id), entered.last(), entry);
    }
}

/// Of roots those are left that the other list lacks, and no other.
pub proof fn law_lacking_roots_are_left(
    roots: Seq<Seq<char>>,
    other: Seq<Seq<char>>,
    windows: bool,
    root: Seq<char>,
)
    ensures
        roots_lacking(roots, other, windows).contains(root) == (roots.contains(root) && !has_root(
            other,
            root,
            windows,
        )),
    decreases roots.len(),
{
    if roots.len() > 0 {
        let shorter = roots.drop_last();
        law_lacking_roots_are_left(shorter, other, windows, root);
        assert(roots =~= shorter.push(roots.last()));
        lemma_pushed(shorter, roots.last(), root);
        lemma_pushed(roots_lacking(shorter, other, windows), roots.last(), root);
    }
}

/// Of roots those are read again that are registered, and no other.
pub proof fn law_registered_roots_are_read_again(
    roots: Seq<Seq<char>>,
    registry: ProjectRegistry,
    root: Seq<char>,
)
    ensures
        registered(roots, registry).contains(root) == (roots.contains(root) && registry.registers(
            root,
        )),
    decreases roots.len(),
{
    if roots.len() > 0 {
        let shorter = roots.drop_last();
        law_registered_roots_are_read_again(shorter, registry, root);
        assert(roots =~= shorter.push(roots.last()));
        lemma_pushed(shorter, roots.last(), root);
        lemma_pushed(registered(shorter, registry), roots.last(), root);
    }
}

/// Each root is read once: every one of the list is among those that are read, in one
/// spelling, and no other is.
pub proof fn law_each_root_is_read_once(
    roots: Seq<Seq<char>>,
    windows: bool,
    root: Seq<char>,
)
    ensures
        distinct_roots(roots, windows).contains(root) ==> roots.contains(root),
        roots.contains(root) ==> is_spelled_in(distinct_roots(roots, windows), root, windows),
        distinct_roots(roots, windows).len() <= roots.len(),
    decreases roots.len(),
{
    if roots.len() > 0 {
        let shorter = roots.drop_last();
        let last = roots.last();
        law_each_root_is_read_once(shorter, windows, root);
        assert(roots =~= shorter.push(last));
        lemma_pushed(shorter, last, root);
        let before = distinct_roots(shorter, windows);
        let once = distinct_roots(roots, windows);
        lemma_pushed(before, last, root);
        if is_spelled_in(before, root, windows) {
            let i = choose|i: int|
                0 <= i < before.len() && crate::project::paths::same_spelling(
                    #[trigger] before[i],
                    root,
                    windows,
                );
            assert(once[i] == before[i]);
        }
        if root == last && !is_spelled_in(before, last, windows) {
            assert(once[before.len() as int] == last);
        }
    }
}

/// Of the settings that were read those are kept that are to be, in their order.
pub proof fn law_settings_are_kept_as_told(
    configs: Seq<ProjectConfig>,
    last: ProjectConfig,
    keep: Seq<bool>,
)
    requires
        keep.len() > configs.len(),
    ensures
        kept_configs(configs.push(last), keep) == if keep[configs.len() as int] {
            kept_configs(configs, keep).push(last)
        } else {
            kept_configs(configs, keep)
        },
        kept_configs(Seq::empty(), keep).len() == 0,
{
    assert(configs.push(last).drop_last() =~= configs);
}

/// A tab is found by its id, and the first of an id is the one.
pub proof fn law_tab_is_found_by_id(tabs: Seq<Tab>, id: u64)
    ensures
        match tab_position(tabs, id) {
            Some(at) => 0 <= at < tabs.len() && tabs[at].id == id && forall|i: int|
                0 <= i < at ==> (#[trigger] tabs[i]).id != id,
            None => forall|i: int| 0 <= i < tabs.len() ==> (#[trigger] tabs[i]).id != id,
        },
    decreases tabs.len(),
{
    if tabs.len() > 0 {
        let shorter = tabs.drop_last();
        law_tab_is_found_by_id(shorter, id);
        assert forall|i: int| 0 <= i < shorter.len() implies #[trigger] tabs[i] == shorter[i] by {}
        assert(tabs[tabs.len() - 1] == tabs.last());
        if let Some(at) = tab_position(shorter, id) {
            assert(tabs[at] == shorter[at]);
        }
    }
}

/// Every view of a pane is drawn by what was chosen for it, else for its tab, else by the
/// project that it is in; and every pane of a tab has its views drawn so.
pub proof fn law_each_view_is_drawn_by_its_own(
    pane: TerminalPane,
    entry: StackedPane,
    tab: Option<String>,
    projects: ProjectState,
    is_light: bool,
    entries: Seq<StackedPane>,
    panes: Seq<TerminalPane>,
    theme: String,
)
    ensures
        entry.view matches Some(view) ==> entry_themes(
            entries.push(entry),
            tab,
            projects,
            is_light,
        ) == entry_themes(entries, tab, projects, is_light).push(
            (view, theme_in(entry.theme_override, tab, projects, entry.id, is_light)),
        ),
        entry.view is None ==> entry_themes(entries.push(entry), tab, projects, is_light)
            == entry_themes(entries, tab, projects, is_light),
        panes_themes(panes.push(pane), tab, projects, is_light) == panes_themes(
            panes,
            tab,
            projects,
            is_light,
        ) + pane_themes(pane, tab, projects, is_light),
        pane.view matches Some(view) ==> pane_themes(pane, tab, projects, is_light).len() > 0
            && pane_themes(pane, tab, projects, is_light)[0] == (
            view,
            theme_in(pane.theme_override, tab, projects, pane.id, is_light),
        ),
        theme_in(Some(theme), tab, projects, pane.id, is_light) == ThemeSourceView::Pane(theme@),
        theme_in(None, Some(theme), projects, pane.id, is_light) == ThemeSourceView::Tab(theme@),
        projects.config_of(pane.id) is None ==> theme_in(None, None, projects, pane.id, is_light)
            == ThemeSourceView::Profile,
        projects.config_of(pane.id) matches Some(project) ==> (is_light && project.theme == Some(
            theme,
        ) ==> theme_in(None, None, projects, pane.id, is_light) == ThemeSourceView::Project(theme@))
            && (!is_light && project.dark_theme == Some(theme) ==> theme_in(
            None,
            None,
            projects,
            pane.id,
            is_light,
        ) == ThemeSourceView::Project(theme@)),
{
    assert(entries.push(entry).drop_last() =~= entries);
    assert(panes.push(pane).drop_last() =~= panes);
}

/// The panes of all tabs are those of each, tab after tab.
pub proof fn law_all_panes_stand_in_order(tabs: Seq<Tab>, tab: Tab, at: int)
    requires
        0 <= at < tab.panes@.len(),
    ensures
        all_panes(tabs.push(tab)) == all_panes(tabs) + panes_of(tab),
        panes_of(tab).len() == tab.panes@.len(),
        panes_of(tab)[at] == (tab.id, tab.panes@[at].id),
{
    assert(tabs.push(tab).drop_last() =~= tabs);
}

/// The distribution of a profile is the one that its arguments name, by either option,
/// else the one in its name; and a profile that is not one of the subsystem has none.
pub proof fn law_distribution_is_the_one_named(
    before: Seq<Seq<char>>,
    distribution: Seq<char>,
    after: Seq<Seq<char>>,
    profile: Profile,
)
    requires
        forall|i: int|
            0 <= i < before.len() ==> #[trigger] before[i] != "--distribution"@ && before[i]
                != "-d"@,
    ensures
        distribution_in(before + seq!["--distribution"@, distribution] + after) == Some(
            distribution,
        ),
        distribution_in(before + seq!["-d"@, distribution] + after) == Some(distribution),
        distribution_of(profile, false) is None,
        (profile.command matches Shell::WithArguments { args, .. } ==> distribution_in(texts(args@))
            is None) && profile.name@ == "WSL: "@ + distribution ==> distribution_of(profile, true)
            == Some(distribution),
    decreases before.len(),
{
    let long = before + seq!["--distribution"@, distribution] + after;
    let short = before + seq!["-d"@, distribution] + after;
    if before.len() == 0 {
        assert(long[0] == "--distribution"@ && long[1] == distribution);
        assert(short[0] == "-d"@ && short[1] == distribution);
    } else {
        let rest = before.drop_first();
        assert forall|i: int| 0 <= i < rest.len() implies #[trigger] rest[i] != "--distribution"@
            && rest[i] != "-d"@ by {
            assert(rest[i] == before[i + 1]);
        }
        law_distribution_is_the_one_named(rest, distribution, after, profile);
        assert(long[0] == before[0] && short[0] == before[0]);
        assert(long.drop_first() =~= rest + seq!["--distribution"@, distribution] + after);
        assert(short.drop_first() =~= rest + seq!["-d"@, distribution] + after);
    }
    let named = "WSL: "@ + distribution;
    assert(named.take("WSL: "@.len() as int) =~= "WSL: "@);
    assert(named.skip("WSL: "@.len() as int) =~= distribution);
}

/// A directory inside a distribution is reached from Windows below the distribution's
/// share, with each slash turned and no slash doubled after it; one that is not an
/// absolute path without detours is not reached.
pub proof fn law_directory_is_reached_through_the_share(
    profile: Profile,
    distribution: Seq<char>,
    directory: Seq<char>,
    names: Seq<char>,
)
    requires
        distribution_of(profile, true) == Some(distribution),
        names.len() > 0 ==> names[0] != '/',
    ensures
        reported_directory(profile, true, directory) matches Some(path) ==> {
            &&& has_prefix(path, r"\\wsl.localhost\"@ + distribution + r"\"@)
            &&& !path.skip((r"\\wsl.localhost\"@ + distribution + r"\"@).len() as int).contains('/')
            &&& directory[0] == '/'
            &&& !pieces(directory, '/').contains(".."@)
            &&& distribution.len() > 0
        },
        distribution_path(distribution, seq!['/'] + names) == r"\\wsl.localhost\"@ + distribution
            + r"\"@ + with_backslashes(names),
        reported_directory(profile, false, directory) is None,
{
    reveal_strlit("/");
    let lead = r"\\wsl.localhost\"@ + distribution + r"\"@;
    if let Some(path) = reported_directory(profile, true, directory) {
        assert(path.take(lead.len() as int) =~= lead);
        let rest = with_backslashes(without_start_slashes(directory));
        assert(path.skip(lead.len() as int) =~= rest);
        assert(directory.take(1)[0] == directory[0]);
    }
    let rooted = seq!['/'] + names;
    assert(rooted.first() == '/' && rooted.drop_first() =~= names);
    if names.len() > 0 {
        assert(names.first() == names[0]);
    }
    reveal_with_fuel(without_start_slashes, 2);
    assert(without_start_slashes(rooted) == names);
}

/// Of settings with one root the latest counts.
pub proof fn law_latest_settings_count(
    configs: Seq<ProjectConfig>,
    last: ProjectConfig,
    root: Seq<char>,
    windows: bool,
)
    ensures
        latest_config(configs.push(last), last.root@, windows) == Some(last),
        !crate::project::paths::same_spelling(last.root@, root, windows) ==> latest_config(
            configs.push(last),
            root,
            windows,
        ) == latest_config(configs, root, windows),
        config_in(configs, root, windows) == latest_config(configs, root, windows),
    decreases configs.len(),
{
    assert(configs.push(last).drop_last() =~= configs);
    if configs.len() > 0 {
        law_latest_settings_count(configs.drop_last(), last, root, windows);
    }
}

/// A reload is refused for the first thing that went wrong: the projects, the sessions
/// where there is a connection to keep them, and the settings; and where nothing did, it
/// is not refused.
pub proof fn law_reload_is_refused_for_the_first_fault(
    projects: Result<Vec<ProjectConfig>, String>,
    runtime: Option<MuxRuntime>,
    retention: Result<MuxRetentionState, String>,
    settings: Result<(), String>,
)
    ensures
        projects matches Err(error) ==> refusal(projects, runtime, retention, settings) == Some(
            error,
        ),
        projects is Ok && runtime is Some ==> (retention matches Err(error) ==> refusal(
            projects,
            runtime,
            retention,
            settings,
        ) == Some(error)),
        projects is Ok && (runtime is None || retention is Ok) ==> (settings matches Err(error)
            ==> refusal(projects, runtime, retention, settings) == Some(error)),
        projects is Ok && (runtime is None || retention is Ok) && settings is Ok ==> refusal(
            projects,
            runtime,
            retention,
            settings,
        ) is None,
        runtime matches Some(before) ==> (retention matches Ok(state) ==> (reconfigured(
            runtime,
            retention,
        ) matches Some(after) && after.client == before.client && after.retention_state == state)),
        retention is Err ==> reconfigured(runtime, retention) == runtime,
        runtime is None ==> reconfigured(runtime, retention) is None,
{
}

/// An offer is about a root where it was made for that root, as it is or as it was
/// offered, and not where there is none.
pub proof fn law_offer_is_about_its_root(offer: ProjectOffer, root: Seq<char>, windows: bool)
    ensures
        is_related_offer(Some(offer), offer.root@, None, windows),
        !is_related_offer(None, root, None, windows),
        is_related_offer(Some(offer), root, Some(root), windows),
        is_related_offer(Some(offer), root, None, windows) == same_path(
            offer.root@,
            root,
            windows,
        ),
{
}

/// The themes of all tabs are those of each, tab after tab, with the tab's own choice.
pub proof fn law_tabs_are_drawn_each_by_its_own(
    tabs: Seq<Tab>,
    tab: Tab,
    projects: ProjectState,
    is_light: bool,
)
    ensures
        tabs_themes(tabs.push(tab), projects, is_light) == tabs_themes(tabs, projects, is_light)
            + panes_themes(tab.panes@, tab.theme_override, projects, is_light),
        tabs_themes(Seq::empty(), projects, is_light).len() == 0,
{
    assert(tabs.push(tab).drop_last() =~= tabs);
}

/// A tab's project is that of its active pane, and a tab that is not there has none.
pub proof fn law_tab_is_in_the_project_of_its_pane(window: Zetta, at: int)
    requires
        0 <= at < window.tabs@.len(),
        forall|i: int| 0 <= i < at ==> (#[trigger] window.tabs@[i]).id != window.tabs@[at].id,
    ensures
        window.project_of_tab(window.tabs@[at].id) == window.projects.config_of(
            window.tabs@[at].active_pane,
        ),
        window.has_active() && at == window.active_tab ==> window.project_of_tab(
            window.tabs@[at].id,
        ) == window.active_project(),
        window.active_project() matches Some(project) ==> window.project_icon() == Some(
            project.effective.default_tab_icon,
        ),
        window.active_project() is None ==> window.project_icon() is None,
{
    law_tab_is_found_by_id(window.tabs@, window.tabs@[at].id);
}

/// Refreshing the icon gives the tab in front the icon of its project, unless one was
/// chosen for it, and touches no other tab.
pub proof fn law_refreshed_icon_is_the_projects(before: Zetta, after: Zetta, other: int)
    requires
        icon_refreshed(before, after),
        0 <= other < before.tabs@.len(),
    ensures
        after.tabs@.len() == before.tabs@.len(),
        other != before.active_tab ==> after.tabs@[other] == before.tabs@[other],
        before.has_active() && before.active().icon_override == TabIconOverride::Unset ==> (
        before.active_project() matches Some(project) ==> after.tabs@[
            before.active_tab as int
        ].icon == project.effective.default_tab_icon),
        before.has_active() && before.active().icon_override != TabIconOverride::Unset
            ==> after.tabs@[before.active_tab as int].icon == before.active().icon,
        after.projects.pane_roots == before.projects.pane_roots,
{
}

/// What the window shows is told by the tab in front and by its project, and it changes
/// where either does.
pub proof fn law_context_is_the_tab_and_its_project(window: Zetta)
    requires
        window.has_active(),
    ensures
        window.current_context().0 == window.active().id,
        window.active_project() is None ==> window.current_context().1 is None,
        window.active_project() matches Some(project) ==> window.current_context().1 == Some(
            project.identity,
        ),
        window.projects.active_context is None ==> window.context_changed(),
        window.projects.active_context == Some(window.current_context())
            ==> !window.context_changed(),
{
}

/// A pane is there where its tab has it, whether the tab is open or kept; and it is the
/// active one where both it and its tab are.
pub proof fn law_panes_are_found_in_their_tabs(window: Zetta, at: int, pane_id: u64)
    requires
        0 <= at < window.tabs@.len(),
        forall|i: int| 0 <= i < at ==> (#[trigger] window.tabs@[i]).id != window.tabs@[at].id,
    ensures
        window.has_pane(window.tabs@[at].id, pane_id) == window.tabs@[at].index_of(pane_id) is Some,
        window.is_active(window.tabs@[at].id, pane_id) ==> window.has_active()
            && window.active().active_pane == pane_id,
        window.has_active() && at == window.active_tab ==> window.is_active(
            window.tabs@[at].id,
            window.tabs@[at].active_pane,
        ),
{
    law_tab_is_found_by_id(window.tabs@, window.tabs@[at].id);
}

/// A directory is looked into where the pane was not looked at there already.
pub proof fn law_directory_is_looked_into_once(
    state: ProjectState,
    pane_id: u64,
    directory: Seq<char>,
    generation: u64,
)
    ensures
        state.detections.value_of(pane_id) is None ==> state.looks_elsewhere(pane_id, directory),
        state.awaits(pane_id, directory, generation) ==> !state.looks_elsewhere(pane_id, directory),
        state.detections.value_of(pane_id) matches Some(asked) ==> state.looks_elsewhere(
            pane_id,
            directory,
        ) == !same_path(asked.directory@, directory, state.registry.windows),
{
}

/// A pane is in a project where its root is the project's; some pane is where one of them
/// is.
pub proof fn law_panes_are_in_their_projects(
    state: ProjectState,
    panes: Seq<u64>,
    at: int,
    root: String,
)
    requires
        0 <= at < panes.len(),
        state.pane_roots.value_of(panes[at]) == Some(root),
    ensures
        state.pane_is_in(panes[at], root@),
        state.some_is_in(panes, root@),
        forall|other: Seq<char>| #[trigger]
            state.pane_is_in(panes[at], other) == same_path(root@, other, state.registry.windows),
        crate::project_context::some_pane_in(state.pane_roots, root@, state.registry.windows),
{
    assert(state.pane_roots.value_of(panes[at]) matches Some(at_root) && same_path(
        at_root@,
        root@,
        state.registry.windows,
    ));
}

/// What a project's errors say names the project and what went wrong.
pub proof fn law_errors_name_the_project(root: Seq<char>, error: Seq<char>, theme: Seq<char>)
    ensures
        not_registered_text(root) == root + " is not a registered Zetta project"@,
        not_opened_text(root, error) == "Could not open project "@ + root + ": "@ + error,
        not_added_text(root, error) == "Could not add project "@ + root + ": "@ + error,
        no_profile_text(root) == "Project "@ + root + " has no available default profile"@,
        unknown_theme_text(theme, root) == "Could not apply project theme "@ + quoted_text(theme)
            + " for "@ + root,
{
}

/// The roots of panes are those of each that has one, in the order of the panes.
pub proof fn law_roots_of_panes_stand_in_order(
    state: ProjectState,
    panes: Seq<u64>,
    pane: u64,
)
    ensures
        root_texts(state.pane_roots, panes.push(pane)) == match state.pane_roots.value_of(pane) {
            Some(root) => root_texts(state.pane_roots, panes).push(root@),
            None => root_texts(state.pane_roots, panes),
        },
{
    assert(panes.push(pane).drop_last() =~= panes);
}

} // verus!
