//! What a window does with a configuration that was read.

use vstd::prelude::*;
use std::collections::HashSet;

use crate::mux::recovery::{awaits_disk, degraded_text, next_generation, MuxControl, MuxRecovery};
use crate::mux::{MuxRetentionState, MuxRuntime};
use crate::pane::profiles::{
    apply_effective_themes, clear_session_choices, entry_unthemed, pane_reloaded, pane_themed,
    pane_cleared, reload_tab_profiles, tab_reloaded, tab_themed, tab_cleared,
};
use crate::pane::tab::Tab;
use crate::pane::TerminalPane;
use crate::profile::{LaunchTheme, LaunchThemes, Profile};
use crate::project::config::{config_file_of, project_config_path, EffectiveConfig, ProjectConfig};
use crate::project::paths::same_spelling;
use crate::project::registry::ProjectRegistry;
use crate::project_context::opening::{distinct_roots, push_distinct, root_texts};
use crate::project_context::icons::icon_in_project;
use crate::project_context::themes::ThemeSource;
use crate::project_context::window::{
    copy_profiles, push_all_themes, same_profiles, tabs_themes, themes_view,
};
use crate::project_context::ProjectState;
use crate::text::{clone_optional, joined, optional_text, texts};
use crate::zetta::{all_indexed, lemma_still_indexed, Zetta};

verus! {

broadcast use vstd::std_specs::hash::group_hash_axioms;

/// The members of a list that a registry has.
pub open spec fn registered(roots: Seq<Seq<char>>, registry: ProjectRegistry) -> Seq<Seq<char>>
    decreases roots.len(),
{
    if roots.len() == 0 {
        Seq::empty()
    } else {
        let before = registered(roots.drop_last(), registry);
        if registry.registers(roots.last()) {
            before.push(roots.last())
        } else {
            before
        }
    }
}

/// The roots of projects that were read.
pub open spec fn config_roots(configs: Seq<ProjectConfig>) -> Seq<Seq<char>> {
    configs.map_values(|config: ProjectConfig| config.root@)
}

/// Whether roots are those whose projects are read again with a configuration:
/// those that were read and those that panes are in, in some order of the panes,
/// each once, as far as they are registered.
pub open spec fn are_reloaded_with(roots: Seq<Seq<char>>, projects: ProjectState, panes: Seq<u64>) -> bool {
    roots == distinct_roots(
        registered(
            config_roots(projects.configs@) + root_texts(projects.pane_roots, panes),
            projects.registry,
        ),
        projects.registry.windows,
    )
}

/// The roots whose projects are read again with a configuration. See
/// [`are_reloaded_with`].
pub fn project_roots_to_reload(projects: &ProjectState) -> (result: Vec<String>)
    ensures
        exists|panes: Seq<u64>| #[trigger]
            projects.pane_roots.is_listed(panes) && are_reloaded_with(
                texts(result@),
                *projects,
                panes,
            ),
{
    let windows = projects.registry.windows;
    let ghost first = config_roots(projects.configs@);
    let mut roots: Vec<String> = Vec::new();
    let mut index: usize = 0;
    proof {
        assert(first.take(0) == Seq::<Seq<char>>::empty());
        assert(texts(roots@) =~= Seq::<Seq<char>>::empty());
    }
    while index < projects.configs.len()
        invariant
            index <= projects.configs@.len(),
            first == config_roots(projects.configs@),
            windows == projects.registry.windows,
            texts(roots@) == distinct_roots(
                registered(first.take(index as int), projects.registry),
                windows,
            ),
        decreases projects.configs@.len() - index,
    {
        proof {
            let longer = first.take(index + 1);
            assert(longer.drop_last() == first.take(index as int));
            assert(longer.last() == projects.configs@[index as int].root@);
            let before = registered(first.take(index as int), projects.registry);
            assert(before.push(longer.last()).drop_last() == before);
        }
        if projects.registry.contains(projects.configs[index].root.as_str()) {
            push_distinct(&mut roots, projects.configs[index].root.as_str(), windows);
        }
        index = index + 1;
    }
    let panes = projects.pane_roots.ids();
    let mut position: usize = 0;
    proof {
        assert(first.take(index as int) == first);
        assert(panes@.take(0) == Seq::<u64>::empty());
        assert(first + root_texts(projects.pane_roots, panes@.take(0)) =~= first);
    }
    while position < panes.len()
        invariant
            position <= panes@.len(),
            windows == projects.registry.windows,
            texts(roots@) == distinct_roots(
                registered(
                    first + root_texts(projects.pane_roots, panes@.take(position as int)),
                    projects.registry,
                ),
                windows,
            ),
        decreases panes@.len() - position,
    {
        proof {
            let longer = panes@.take(position + 1);
            assert(longer.drop_last() == panes@.take(position as int));
            assert(longer.last() == panes@[position as int]);
        }
        if let Some(root) = projects.pane_roots.get(panes[position]) {
            proof {
                let seen = root_texts(projects.pane_roots, panes@.take(position as int));
                let all = first + seen;
                assert(first + seen.push(root@) =~= all.push(root@));
                assert(all.push(root@).drop_last() == all);
                let before = registered(all, projects.registry);
                assert(before.push(root@).drop_last() == before);
            }
            if projects.registry.contains(root.as_str()) {
                push_distinct(&mut roots, root.as_str(), windows);
            }
        }
        position = position + 1;
    }
    proof {
        assert(panes@.take(position as int) == panes@);
        assert(are_reloaded_with(texts(roots@), *projects, panes@));
    }
    roots
}

/// What is said of a project that could not be read again, which refuses the
/// configuration.
pub open spec fn unread_project_text(root: Seq<char>, error: Seq<char>, windows: bool) -> Seq<char> {
    "reloading project configuration "@ + config_file_of(root, windows) + ": "@ + error
}

/// Whether the project of a root could not be read again, and all before it
/// could.
pub open spec fn is_first_unread(
    roots: Seq<String>,
    read: Seq<Result<ProjectConfig, String>>,
    index: int,
) -> bool {
    &&& 0 <= index < roots.len()
    &&& index < read.len()
    &&& read[index] is Err
    &&& forall|earlier: int| 0 <= earlier < index ==> (#[trigger] read[earlier]) is Ok
}

/// The projects that were read again, or what is said of the first that could
/// not be. `read` holds what came of each of the roots.
pub fn reloaded_projects(
    roots: &Vec<String>,
    read: Vec<Result<ProjectConfig, String>>,
    windows: bool,
) -> (result: Result<Vec<ProjectConfig>, String>)
    requires
        read@.len() == roots@.len(),
    ensures
        match result {
            Ok(projects) => {
                &&& projects@.len() == read@.len()
                &&& forall|i: int|
                    0 <= i < read@.len() ==> #[trigger] read@[i] == Ok::<ProjectConfig, String>(
                        projects@[i],
                    )
            },
            Err(error) => exists|i: int| #[trigger]
                is_first_unread(roots@, read@, i) && error@ == unread_project_text(
                    roots@[i]@,
                    read@[i]->Err_0@,
                    windows,
                ),
        },
{
    let ghost all = read@;
    let mut rest = read;
    let mut projects: Vec<ProjectConfig> = Vec::new();
    let count: usize = roots.len();
    let mut index: usize = 0;
    proof {
        assert(rest@ =~= all.skip(0));
    }
    while rest.len() > 0
        invariant
            index <= all.len() == roots@.len() == count,
            all == read@,
            rest@ == all.skip(index as int),
            projects@.len() == index,
            forall|i: int|
                0 <= i < index ==> #[trigger] all[i] == Ok::<ProjectConfig, String>(projects@[i]),
        decreases rest@.len(),
    {
        let outcome = rest.remove(0);
        proof {
            assert(outcome == all[index as int]);
            assert(rest@ =~= all.skip(index + 1));
        }
        match outcome {
            Ok(project) => {
                projects.push(project);
            },
            Err(cause) => {
                let path = project_config_path(roots[index].as_str(), windows);
                let mut text = joined("reloading project configuration ", path.as_str());
                text.push_str(": ");
                text.push_str(cause.as_str());
                proof {
                    assert forall|earlier: int| 0 <= earlier < index implies (
                    #[trigger] all[earlier]) is Ok by {
                        assert(all[earlier] == Ok::<ProjectConfig, String>(projects@[earlier]));
                    }
                    assert(is_first_unread(roots@, all, index as int));
                }
                return Err(text);
            },
        }
        index = index + 1;
    }
    Ok(projects)
}

/// A configuration that was read, and what else was read with it.
pub struct LoadedConfiguration {
    pub config_path: String,
    pub config: EffectiveConfig,
    /// How many of its profiles are not hidden.
    pub visible_profiles: usize,
    /// The projects that were read again, or why one could not be.
    pub projects: Result<Vec<ProjectConfig>, String>,
}

/// Whether a tab is as a reload leaves it: nothing is chosen for it any more, no
/// pane of it has an overlay, its profiles are as they are configured, and so
/// are their themes, with those that the launch was given over them.
pub open spec fn tab_taken_over(
    before: Tab,
    after: Tab,
    projects: ProjectState,
    launch: Seq<Profile>,
    given: LaunchThemes,
) -> bool {
    exists|cleared: Tab, reloaded: Tab| #[trigger]
        tab_cleared(before, cleared) && #[trigger] tab_reloaded(cleared, reloaded, launch, given)
            && tab_themed(reloaded, after, projects, launch, given)
}

/// Makes a tab as a reload leaves it. See [`tab_taken_over`].
pub fn reload_tab(
    tab: &mut Tab,
    projects: &ProjectState,
    launch: &Vec<Profile>,
    given: &LaunchThemes,
)
    requires
        projects.wf(),
    ensures
        tab_taken_over(
            *old(tab),
            *final(tab),
            *projects,
            launch@,
            *given,
        ),
        old(tab).indexed() ==> final(tab).indexed(),
        final(tab).id == old(tab).id,
        final(tab).active_pane == old(tab).active_pane,
{
    clear_session_choices(tab);
    let ghost cleared = *tab;
    reload_tab_profiles(tab, launch, given);
    let ghost reloaded = *tab;
    proof {
        assert(tab_cleared(*old(tab), cleared));
        assert(tab_reloaded(cleared, reloaded, launch@, *given));
    }
    apply_effective_themes(tab, projects, launch, given);
}

/// Whether some tab has a pane of an id.
pub open spec fn some_tab_has(tabs: Seq<Tab>, pane_id: u64) -> bool {
    exists|i: int, j: int|
        0 <= i < tabs.len() && 0 <= j < tabs[i].panes@.len() && #[trigger] tabs[i].panes@[j].id
            == pane_id
}

/// The panes whose controls are hidden after their default changed: all or
/// none.
pub fn reset_pane_controls_visibility(hidden_by_default: bool, tabs: &Vec<Tab>) -> (result: HashSet<
    u64,
>)
    ensures
        forall|id: u64| #[trigger]
            result@.contains(id) == (hidden_by_default && some_tab_has(tabs@, id)),
{
    let mut hidden: HashSet<u64> = HashSet::new();
    if !hidden_by_default {
        return hidden;
    }
    let mut index: usize = 0;
    while index < tabs.len()
        invariant
            index <= tabs@.len(),
            forall|id: u64| #[trigger]
                hidden@.contains(id) == some_tab_has(tabs@.take(index as int), id),
        decreases tabs@.len() - index,
    {
        let tab = &tabs[index];
        let ghost before = hidden@;
        let mut position: usize = 0;
        while position < tab.panes.len()
            invariant
                position <= tab.panes@.len(),
                forall|id: u64| #[trigger]
                    hidden@.contains(id) == (before.contains(id) || exists|j: int|
                        0 <= j < position && #[trigger] tab.panes@[j].id == id),
            decreases tab.panes@.len() - position,
        {
            let ghost earlier = hidden@;
            hidden.insert(tab.panes[position].id);
            proof {
                assert forall|id: u64| #[trigger]
                    hidden@.contains(id) == (before.contains(id) || exists|j: int|
                        0 <= j < position + 1 && #[trigger] tab.panes@[j].id == id) by {
                    assert(hidden@.contains(id) == (earlier.contains(id)
                        || tab.panes@[position as int].id == id));
                    if before.contains(id) {
                    } else if exists|j: int| 0 <= j < position && #[trigger] tab.panes@[j].id == id {
                        let j = choose|j: int|
                            0 <= j < position && #[trigger] tab.panes@[j].id == id;
                        assert(0 <= j < position + 1 && tab.panes@[j].id == id);
                    }
                }
            }
            position = position + 1;
        }
        proof {
            let shorter = tabs@.take(index as int);
            let longer = tabs@.take(index + 1);
            assert forall|id: u64| #[trigger]
                hidden@.contains(id) == some_tab_has(longer, id) by {
                if some_tab_has(longer, id) {
                    let (i, j) = choose|i: int, j: int|
                        0 <= i < longer.len() && 0 <= j < longer[i].panes@.len()
                            && #[trigger] longer[i].panes@[j].id == id;
                    if i < index {
                        assert(shorter[i].panes@[j].id == id);
                        assert(some_tab_has(shorter, id));
                    } else {
                        assert(tab.panes@[j].id == id);
                    }
                }
                if before.contains(id) {
                    assert(some_tab_has(shorter, id));
                    let (i, j) = choose|i: int, j: int|
                        0 <= i < shorter.len() && 0 <= j < shorter[i].panes@.len()
                            && #[trigger] shorter[i].panes@[j].id == id;
                    assert(longer[i].panes@[j].id == id);
                }
                if exists|j: int| 0 <= j < position && #[trigger] tab.panes@[j].id == id {
                    let j = choose|j: int| 0 <= j < position && #[trigger] tab.panes@[j].id == id;
                    assert(longer[index as int].panes@[j].id == id);
                }
            }
        }
        index = index + 1;
    }
    proof {
        assert(tabs@.take(index as int) == tabs@);
    }
    hidden
}

/// The last of some projects that was read from a root.
pub open spec fn latest_config(configs: Seq<ProjectConfig>, root: Seq<char>, windows: bool) -> Option<
    ProjectConfig,
>
    decreases configs.len(),
{
    if configs.len() == 0 {
        None
    } else if same_spelling(configs.last().root@, root, windows) {
        Some(configs.last())
    } else {
        latest_config(configs.drop_last(), root, windows)
    }
}

fn replace_projects(projects: &mut ProjectState, configs: Vec<ProjectConfig>)
    requires
        old(projects).wf(),
    ensures
        final(projects).wf(),
        *final(projects) == (ProjectState {
            configs: final(projects).configs,
            active_context: None,
            ..*old(projects)
        }),
        forall|root: Seq<char>| #[trigger]
            final(projects).config_at(root) == latest_config(
                configs@,
                root,
                old(projects).registry.windows,
            ),
{
    let ghost all = configs@;
    let ghost windows = projects.registry.windows;
    let mut rest = configs;
    projects.configs = Vec::new();
    proof {
        assert(all.take(0) == Seq::<ProjectConfig>::empty());
        assert(rest@ =~= all.skip(0));
        assert forall|root: Seq<char>| #[trigger] projects.config_at(root) is None by {}
    }
    let ghost mut taken: int = 0;
    while rest.len() > 0
        invariant
            0 <= taken <= all.len(),
            rest@ == all.skip(taken),
            projects.wf(),
            windows == projects.registry.windows,
            windows == old(projects).registry.windows,
            *projects == (ProjectState { configs: projects.configs, ..*old(projects) }),
            forall|root: Seq<char>| #[trigger]
                projects.config_at(root) == latest_config(all.take(taken), root, windows),
        decreases rest@.len(),
    {
        let config = rest.remove(0);
        proof {
            let longer = all.take(taken + 1);
            assert(longer.drop_last() == all.take(taken));
            assert(longer.last() == config);
            assert(rest@ =~= all.skip(taken + 1));
        }
        let ghost before = *projects;
        projects.insert_config(config);
        proof {
            assert forall|root: Seq<char>| #[trigger]
                projects.config_at(root) == latest_config(all.take(taken + 1), root, windows) by {
                assert(before.config_at(root) == latest_config(all.take(taken), root, windows));
            }
            taken = taken + 1;
        }
    }
    let ghost kept = *projects;
    projects.invalidate_active_context();
    proof {
        assert(all.take(taken) == all);
        assert forall|root: Seq<char>| #[trigger]
            projects.config_at(root) == kept.config_at(root) by {}
    }
}

/// A connection to which the daemon answered with a policy.
pub open spec fn reconfigured(
    runtime: Option<MuxRuntime>,
    retention: Result<MuxRetentionState, String>,
) -> Option<MuxRuntime> {
    match (runtime, retention) {
        (Some(runtime), Ok(state)) => Some(MuxRuntime { retention_state: state, ..runtime }),
        _ => runtime,
    }
}

/// Why a configuration cannot be followed: the daemon refuses the policy, where
/// there is a connection to it, or the settings cannot be applied.
pub open spec fn objection(
    runtime: Option<MuxRuntime>,
    retention: Result<MuxRetentionState, String>,
    settings: Result<(), String>,
) -> Option<String> {
    match (runtime, retention) {
        (Some(_), Err(error)) => Some(error),
        _ => match settings {
            Err(error) => Some(error),
            Ok(_) => None,
        },
    }
}

/// Why a configuration is not taken over: a project could not be read again, or
/// the configuration cannot be followed.
pub open spec fn refusal(
    projects: Result<Vec<ProjectConfig>, String>,
    runtime: Option<MuxRuntime>,
    retention: Result<MuxRetentionState, String>,
    settings: Result<(), String>,
) -> Option<String> {
    match projects {
        Err(error) => Some(error),
        Ok(_) => objection(runtime, retention, settings),
    }
}

fn reconfigure_mux(
    mux: &mut MuxControl,
    retention: Result<MuxRetentionState, String>,
    settings: Result<(), String>,
) -> (result: Result<(), String>)
    ensures
        *final(mux) == (MuxControl {
            runtime: reconfigured(old(mux).runtime, retention),
            recovery_generation: next_generation(old(mux).recovery_generation),
            recovering: false,
            ..*old(mux)
        }),
        result == match objection(old(mux).runtime, retention, settings) {
            Some(error) => Err::<(), String>(error),
            None => Ok(()),
        },
{
    mux.invalidate_mux_recovery();
    match &mut mux.runtime {
        Some(runtime) => {
            match runtime.reconfigure(retention) {
                Ok(_) => {},
                Err(error) => {
                    return Err(error);
                },
            }
        },
        None => {},
    }
    match settings {
        Ok(_) => Ok(()),
        Err(error) => Err(error),
    }
}

/// What follows from a configuration's having been taken over.
#[derive(Debug, PartialEq, Eq)]
pub struct AppliedConfiguration {
    /// Whether the profiles' shortcuts have to be bound anew for the project.
    pub rebind: bool,
    /// What decides the theme of each view.
    pub themes: Vec<(u64, ThemeSource)>,
    /// What is said of a connection that waits for its disk retention.
    pub notice: Option<String>,
    pub recovery: Option<MuxRecovery>,
}

impl Zetta {
    fn take_launch_config(
        &mut self,
        config_path: String,
        config: EffectiveConfig,
        projects: Vec<ProjectConfig>,
    )
        requires
            old(self).wf(),
        ensures
            final(self).wf(),
            *final(self) == (Zetta {
                config_path,
                launch_config: config,
                projects: ProjectState {
                    configs: final(self).projects.configs,
                    active_context: None,
                    ..old(self).projects
                },
                pane_controls_hidden_for: final(self).pane_controls_hidden_for,
                pane_controls_visible_for: final(self).pane_controls_visible_for,
                command_palette_open: false,
                ..*old(self)
            }),
            controls_reset(*old(self), *final(self), config.pane_controls_hidden_by_default),
            forall|root: Seq<char>| #[trigger]
                final(self).projects.config_at(root) == latest_config(
                    projects@,
                    root,
                    old(self).projects.registry.windows,
                ),
    {
        let hidden = config.pane_controls_hidden_by_default;
        if hidden != self.launch_config.pane_controls_hidden_by_default {
            self.pane_controls_hidden_for = reset_pane_controls_visibility(hidden, &self.tabs);
            self.pane_controls_visible_for = None;
        }
        self.config_path = config_path;
        self.launch_config = config;
        self.command_palette_open = false;
        replace_projects(&mut self.projects, projects);
    }

    fn reload_tabs(
        &mut self,
            is_light: bool,
    ) -> (result: Vec<(u64, ThemeSource)>)
        requires
            old(self).wf(),
        ensures
            final(self).wf(),
            *final(self) == (Zetta {
                tabs: final(self).tabs,
                background_sessions: final(self).background_sessions,
                ..*old(self)
            }),
            final(self).tabs@.len() == old(self).tabs@.len(),
            forall|i: int|
                0 <= i < old(self).tabs@.len() ==> tab_taken_over(
                    old(self).tabs@[i],
                    #[trigger] final(self).tabs@[i],
                            old(self).projects,
                    old(self).launch_config.profiles@,
                    old(self).launch_theme_override,
                ) && final(self).tabs@[i].active_pane == old(self).tabs@[i].active_pane,
            final(self).background_sessions@.len() == old(self).background_sessions@.len(),
            forall|i: int|
                0 <= i < old(self).background_sessions@.len() ==> tab_cleared(
                    old(self).background_sessions@[i],
                    #[trigger] final(self).background_sessions@[i],
                ),
            themes_view(result@) == tabs_themes(final(self).tabs@, old(self).projects, is_light),
    {
        let ghost start = *self;
        let count: usize = self.tabs.len();
        let mut index: usize = 0;
        while index < count
            invariant
                index <= count == self.tabs@.len() == start.tabs@.len(),
                start.wf(),
                all_indexed(self.tabs@),
                *self == (Zetta { tabs: self.tabs, ..start }),
                forall|i: int|
                    0 <= i < index ==> tab_taken_over(
                        start.tabs@[i],
                        #[trigger] self.tabs@[i],
                                    start.projects,
                        start.launch_config.profiles@,
                        start.launch_theme_override,
                    ) && self.tabs@[i].active_pane == start.tabs@[i].active_pane,
                forall|i: int| index <= i < count ==> #[trigger] self.tabs@[i] == start.tabs@[i],
            decreases count - index,
        {
            let ghost tabs = self.tabs@;
            proof {
                assert(tabs[index as int].indexed());
            }
            reload_tab(
                &mut self.tabs[index],
                &self.projects,
                &self.launch_config.profiles,
                &self.launch_theme_override,
            );
            proof {
                lemma_still_indexed(tabs, index as int, self.tabs@[index as int]);
                assert(self.tabs@ =~= tabs.update(index as int, self.tabs@[index as int]));
            }
            index = index + 1;
        }
        let ghost shown = *self;
        let others: usize = self.background_sessions.len();
        let mut position: usize = 0;
        while position < others
            invariant
                position <= others == self.background_sessions@.len()
                    == shown.background_sessions@.len(),
                all_indexed(self.background_sessions@),
                *self == (Zetta { background_sessions: self.background_sessions, ..shown }),
                forall|i: int|
                    0 <= i < position ==> tab_cleared(
                        shown.background_sessions@[i],
                        #[trigger] self.background_sessions@[i],
                    ),
                forall|i: int|
                    position <= i < others ==> #[trigger] self.background_sessions@[i]
                        == shown.background_sessions@[i],
            decreases others - position,
        {
            let ghost tabs = self.background_sessions@;
            proof {
                assert(tabs[position as int].indexed());
            }
            clear_session_choices(&mut self.background_sessions[position]);
            proof {
                let tab = self.background_sessions@[position as int];
                lemma_still_indexed(tabs, position as int, tab);
                assert(self.background_sessions@ =~= tabs.update(position as int, tab));
            }
            position = position + 1;
        }
        let mut themes: Vec<(u64, ThemeSource)> = Vec::new();
        proof {
            assert(themes_view(themes@) =~= Seq::empty());
        }
        push_all_themes(&mut themes, &self.tabs, &self.projects, is_light);
        proof {
            assert(themes_view(themes@) =~= tabs_themes(self.tabs@, self.projects, is_light));
        }
        themes
    }
}

/// The active tab of a window with the icon of the project that it is in once
/// others were read, and any other tab as it is.
pub open spec fn with_project_icon(before: Zetta, after: Zetta, index: int) -> Tab {
    let tab = before.tabs@[index];
    if index == before.active_tab {
        Tab {
            icon: icon_in_project(
                tab.icon,
                before.projects.inherited_tab_icons.value_of(tab.id),
                tab.icon_override,
                after.project_icon(),
            ).0,
            ..tab
        }
    } else {
        tab
    }
}

/// Whether a pane has no overlay.
pub open spec fn lacks_overlay(pane: TerminalPane) -> bool {
    &&& pane.overlay_text is None
    &&& pane.overlay_font_size is None
    &&& pane.overlay_opacity is None
    &&& pane.overlay_color is None
}

/// Whether no pane of some tabs has an overlay.
pub open spec fn all_lack_overlays(tabs: Seq<Tab>) -> bool {
    forall|tab: int, pane: int|
        0 <= tab < tabs.len() && 0 <= pane < tabs[tab].panes@.len() ==> lacks_overlay(
            #[trigger] tabs[tab].panes@[pane],
        )
}

/// Whether a window is as a reload of the configuration leaves it.
pub open spec fn taken_over(
    before: Zetta,
    after: Zetta,
    loaded: LoadedConfiguration,
    effective_visible: usize,
) -> bool {
    &&& after == (Zetta {
        tabs: after.tabs,
        background_sessions: after.background_sessions,
        projects: ProjectState {
            configs: after.projects.configs,
            active_context: None,
            inherited_tab_icons: after.projects.inherited_tab_icons,
            ..before.projects
        },
        config_path: loaded.config_path,
        launch_config: loaded.config,
        profiles: after.profiles,
        working_directory: after.working_directory,
        profile_shortcut_slots: effective_visible,
        pane_controls_hidden_for: after.pane_controls_hidden_for,
        pane_controls_visible_for: after.pane_controls_visible_for,
        command_palette_open: false,
        mux: after.mux,
        ..before
    })
    &&& controls_reset(before, after, loaded.config.pane_controls_hidden_by_default)
    &&& forall|root: Seq<char>| #[trigger]
        after.projects.config_at(root) == latest_config(
            loaded.projects->Ok_0@,
            root,
            before.projects.registry.windows,
        )
    &&& same_profiles(after.profiles@, after.effective().profiles@)
    &&& optional_text(after.working_directory) == optional_text(
        after.effective().working_directory,
    )
    &&& before.has_active() ==> {
        let tab = before.active();
        after.projects.inherited_tab_icons.value_of(tab.id) == icon_in_project(
            tab.icon,
            before.projects.inherited_tab_icons.value_of(tab.id),
            tab.icon_override,
            after.project_icon(),
        ).1
    }
    &&& forall|other: u64|
        !(before.has_active() && other == before.active().id)
            ==> #[trigger] after.projects.inherited_tab_icons.value_of(other)
            == before.projects.inherited_tab_icons.value_of(other)
    &&& after.tabs@.len() == before.tabs@.len()
    &&& forall|i: int|
        0 <= i < before.tabs@.len() ==> tab_taken_over(
            with_project_icon(before, after, i),
            #[trigger] after.tabs@[i],
            after.projects,
            loaded.config.profiles@,
            before.launch_theme_override,
        )
    &&& all_lack_overlays(after.tabs@)
    &&& all_lack_overlays(after.background_sessions@)
    &&& after.background_sessions@.len() == before.background_sessions@.len()
    &&& forall|i: int|
        0 <= i < before.background_sessions@.len() ==> tab_cleared(
            before.background_sessions@[i],
            #[trigger] after.background_sessions@[i],
        )
}

/// The connection after a configuration was refused. The daemon is asked only
/// where all projects could be read again.
pub open spec fn mux_refused(
    before: MuxControl,
    asked: bool,
    retention: Result<MuxRetentionState, String>,
) -> MuxControl {
    MuxControl {
        runtime: if asked {
            reconfigured(before.runtime, retention)
        } else {
            before.runtime
        },
        recovery_generation: next_generation(before.recovery_generation),
        recovering: false,
        ..before
    }
}

/// The connection after a configuration was taken over.
pub open spec fn mux_taken(
    before: MuxControl,
    retention: Result<MuxRetentionState, String>,
) -> MuxControl {
    let runtime = reconfigured(before.runtime, retention);
    MuxControl {
        runtime,
        recovery_generation: next_generation(next_generation(before.recovery_generation)),
        recovering: awaits_disk(runtime),
        configuration_generation: next_generation(before.configuration_generation),
        ..before
    }
}

impl Zetta {
    /// Takes over a configuration that was read, or refuses it, after which it
    /// counts no more than that the daemon may follow it.
    ///
    /// `retention` is what the daemon answered to its policy, `settings` what
    /// came of applying its settings. `effective_visible` is the number of
    /// profiles that are not hidden in the configuration that counts then.
    pub fn apply_loaded_configuration(
        &mut self,
        loaded: LoadedConfiguration,
        retention: Result<MuxRetentionState, String>,
        settings: Result<(), String>,
        effective_visible: usize,
        is_light: bool,
    ) -> (result: Result<AppliedConfiguration, String>)
        requires
            old(self).wf(),
        ensures
            final(self).wf(),
            match refusal(loaded.projects, old(self).mux.runtime, retention, settings) {
                Some(error) => {
                    &&& result == Err::<AppliedConfiguration, String>(error)
                    &&& *final(self) == (Zetta {
                        mux: mux_refused(old(self).mux, loaded.projects is Ok, retention),
                        ..*old(self)
                    })
                },
                None => {
                    let runtime = reconfigured(old(self).mux.runtime, retention);
                    &&& taken_over(*old(self), *final(self), loaded, effective_visible)
                    &&& final(self).mux == mux_taken(old(self).mux, retention)
                    &&& result matches Ok(applied) && {
                        &&& applied.rebind == (effective_visible != loaded.visible_profiles)
                        &&& themes_view(applied.themes@) == tabs_themes(
                            final(self).tabs@,
                            final(self).projects,
                            is_light,
                        )
                        &&& optional_text(applied.notice) == match runtime {
                            Some(runtime) => match runtime.retention_state.degraded_reason {
                                Some(reason) => Some(degraded_text(reason@)),
                                None => None,
                            },
                            None => None,
                        }
                        &&& applied.recovery is Some == awaits_disk(runtime)
                        &&& applied.recovery matches Some(recovery) ==>
                            final(self).mux.is_current(recovery) && recovery.delay_index == 0
                    }
                },
            },
    {
        let projects = match loaded.projects {
            Ok(projects) => projects,
            Err(error) => {
                self.mux.invalidate_mux_recovery();
                return Err(error);
            },
        };
        match reconfigure_mux(&mut self.mux, retention, settings) {
            Ok(_) => {},
            Err(error) => {
                return Err(error);
            },
        }
        let ghost start = *old(self);
        self.mux.configuration_generation = self.mux.configuration_generation.wrapping_add(1);
        let (notice, recovery) = self.mux.start_mux_recovery_if_needed();
        self.profile_shortcut_slots = loaded.visible_profiles;
        self.take_launch_config(loaded.config_path, loaded.config, projects);
        let ghost configured = *self;
        self.refresh_active_project_tab_icon();
        let ghost iconed = *self;
        let themes = self.reload_tabs(is_light);
        let ghost reloaded = *self;
        let effective = self.effective_config();
        let profiles = copy_profiles(&effective.profiles);
        let working_directory = clone_optional(&effective.working_directory);
        self.profiles = profiles;
        self.working_directory = working_directory;
        let rebind = self.refresh_profile_shortcuts(effective_visible);
        proof {
            assert(self.effective() == reloaded.effective());
            assert(self.project_icon() == configured.project_icon());
            assert forall|root: Seq<char>| #[trigger]
                self.projects.config_at(root) == configured.projects.config_at(root) by {}
            assert forall|i: int| 0 <= i < start.tabs@.len() implies tab_taken_over(
                with_project_icon(start, *self, i),
                #[trigger] self.tabs@[i],
                    self.projects,
                loaded.config.profiles@,
                start.launch_theme_override,
            ) by {
                assert(iconed.tabs@[i] == with_project_icon(start, *self, i));
            }
            assert(all_lack_overlays(self.tabs@)) by {
                assert forall|tab: int, pane: int|
                    0 <= tab < self.tabs@.len() && 0 <= pane
                        < self.tabs@[tab].panes@.len() implies lacks_overlay(
                    #[trigger] self.tabs@[tab].panes@[pane],
                ) by {
                    law_reload_forgets_choices(
                        with_project_icon(start, *self, tab),
                        self.tabs@[tab],
                                    self.projects,
                        loaded.config.profiles@,
                        start.launch_theme_override,
                    );
                }
            }
            assert(all_lack_overlays(self.background_sessions@)) by {
                assert forall|tab: int, pane: int|
                    0 <= tab < self.background_sessions@.len() && 0 <= pane
                        < self.background_sessions@[tab].panes@.len() implies lacks_overlay(
                    #[trigger] self.background_sessions@[tab].panes@[pane],
                ) by {
                    let before = start.background_sessions@[tab];
                    assert(tab_cleared(before, self.background_sessions@[tab]));
                    assert(pane_cleared(
                        before.panes@[pane],
                        self.background_sessions@[tab].panes@[pane],
                    ));
                }
            }
        }
        Ok(AppliedConfiguration { rebind, themes, notice, recovery })
    }

    /// Takes over a configuration that another process asked for, after which
    /// no error is shown.
    pub fn reload_configuration_from_process(
        &mut self,
        loaded: LoadedConfiguration,
        retention: Result<MuxRetentionState, String>,
        settings: Result<(), String>,
        effective_visible: usize,
        is_light: bool,
    ) -> (result: Result<AppliedConfiguration, String>)
        requires
            old(self).wf(),
        ensures
            final(self).wf(),
            match refusal(loaded.projects, old(self).mux.runtime, retention, settings) {
                Some(error) => {
                    &&& result == Err::<AppliedConfiguration, String>(error)
                    &&& *final(self) == (Zetta {
                        mux: mux_refused(old(self).mux, loaded.projects is Ok, retention),
                        ..*old(self)
                    })
                },
                None => {
                    let runtime = reconfigured(old(self).mux.runtime, retention);
                    &&& result matches Ok(applied) && {
                        &&& applied.rebind == (effective_visible != loaded.visible_profiles)
                        &&& themes_view(applied.themes@) == tabs_themes(
                            final(self).tabs@,
                            final(self).projects,
                            is_light,
                        )
                        &&& optional_text(applied.notice) == match runtime {
                            Some(runtime) => match runtime.retention_state.degraded_reason {
                                Some(reason) => Some(degraded_text(reason@)),
                                None => None,
                            },
                            None => None,
                        }
                        &&& applied.recovery is Some == awaits_disk(runtime)
                        &&& applied.recovery matches Some(recovery) ==>
                            final(self).mux.is_current(recovery) && recovery.delay_index == 0
                    }
                    &&& final(self).mux == (MuxControl {
                        configuration_error: None,
                        ..mux_taken(old(self).mux, retention)
                    })
                    &&& taken_over(*old(self), *final(self), loaded, effective_visible)
                },
            },
    {
        let result = self.apply_loaded_configuration(
            loaded,
            retention,
            settings,
            effective_visible,
            is_light,
        );
        if result.is_ok() {
            let ghost before = *self;
            self.mux.configuration_error = None;
            proof {
                assert(self.effective() == before.effective());
                assert(self.project_icon() == before.project_icon());
                assert forall|i: int|
                    0 <= i < old(self).tabs@.len() implies with_project_icon(
                        *old(self),
                        *self,
                        i,
                    ) == #[trigger] with_project_icon(*old(self), before, i) by {}
            }
        }
        result
    }
}

/// Whether the controls of panes are hidden as a changed default asks, and as
/// before where it did not change.
pub open spec fn controls_reset(before: Zetta, after: Zetta, hidden: bool) -> bool {
    if hidden != before.launch_config.pane_controls_hidden_by_default {
        &&& after.pane_controls_visible_for is None
        &&& forall|id: u64| #[trigger]
            after.pane_controls_hidden_for@.contains(id) == (hidden && some_tab_has(
                before.tabs@,
                id,
            ))
    } else {
        &&& after.pane_controls_visible_for == before.pane_controls_visible_for
        &&& after.pane_controls_hidden_for == before.pane_controls_hidden_for
    }
}

/// A reload leaves no theme that was chosen, not for a tab, not for a pane, and
/// not for what is stacked in one, and no overlay of a pane.
pub proof fn law_reload_forgets_choices(
    before: Tab,
    after: Tab,
    projects: ProjectState,
    launch: Seq<Profile>,
    given: LaunchThemes,
)
    requires
        tab_taken_over(before, after, projects, launch, given),
    ensures
        after.theme_override is None,
        forall|pane: int|
            0 <= pane < after.panes@.len() ==> (#[trigger] after.panes@[pane]).theme_override
                is None && lacks_overlay(after.panes@[pane]),
        forall|pane: int, entry: int|
            0 <= pane < after.panes@.len() && 0 <= entry < after.panes@[pane].stack.entries@.len()
                ==> (#[trigger] after.panes@[pane].stack.entries@[entry]).theme_override is None,
{
    let (cleared, reloaded) = choose|cleared: Tab, reloaded: Tab| #[trigger]
        tab_cleared(before, cleared) && #[trigger] tab_reloaded(cleared, reloaded, launch, given)
            && tab_themed(reloaded, after, projects, launch, given);
    assert forall|pane: int| 0 <= pane < after.panes@.len() implies {
        &&& (#[trigger] after.panes@[pane]).theme_override is None
        &&& lacks_overlay(after.panes@[pane])
        &&& forall|entry: int|
            0 <= entry < after.panes@[pane].stack.entries@.len() ==> (
            #[trigger] after.panes@[pane].stack.entries@[entry]).theme_override is None
    } by {
        assert(pane_cleared(before.panes@[pane], cleared.panes@[pane]));
        assert(pane_reloaded(cleared.panes@[pane], reloaded.panes@[pane], launch, given));
        assert(pane_themed(
            reloaded.panes@[pane],
            after.panes@[pane],
            projects,
            launch,
            given,
        ));
        assert forall|entry: int|
            0 <= entry < after.panes@[pane].stack.entries@.len() implies (
            #[trigger] after.panes@[pane].stack.entries@[entry]).theme_override is None by {
            let chosen = before.panes@[pane].stack.entries@[entry];
            assert(entry_unthemed(chosen, cleared.panes@[pane].stack.entries@[entry]));
            let kept = reloaded.panes@[pane].stack.entries@[entry];
            assert(kept.theme_override is None);
        }
    }
}

/// A theme that the launch was given stays through a reload, for every pane and
/// everything stacked in one, whatever the configuration says of their profiles.
pub proof fn law_launch_themes_stay(
    before: Tab,
    after: Tab,
    projects: ProjectState,
    launch: Seq<Profile>,
    given: LaunchThemes,
)
    requires
        tab_taken_over(before, after, projects, launch, given),
    ensures
        forall|pane: int|
            0 <= pane < after.panes@.len() ==> launch_themes_count(
                (#[trigger] after.panes@[pane]).profile,
                given,
            ),
        forall|pane: int, entry: int|
            0 <= pane < after.panes@.len() && 0 <= entry < after.panes@[pane].stack.entries@.len()
                ==> launch_themes_count(
                (#[trigger] after.panes@[pane].stack.entries@[entry]).profile,
                given,
            ),
{
    let (cleared, reloaded) = choose|cleared: Tab, reloaded: Tab| #[trigger]
        tab_cleared(before, cleared) && #[trigger] tab_reloaded(cleared, reloaded, launch, given)
            && tab_themed(reloaded, after, projects, launch, given);
    assert forall|pane: int| 0 <= pane < after.panes@.len() implies {
        &&& launch_themes_count((#[trigger] after.panes@[pane]).profile, given)
        &&& forall|entry: int|
            0 <= entry < after.panes@[pane].stack.entries@.len() ==> launch_themes_count(
                (#[trigger] after.panes@[pane].stack.entries@[entry]).profile,
                given,
            )
    } by {
        assert(pane_themed(
            reloaded.panes@[pane],
            after.panes@[pane],
            projects,
            launch,
            given,
        ));
    }
}

/// Whether a profile has the themes that the launch was given, where it was
/// given some.
pub open spec fn launch_themes_count(profile: Profile, given: LaunchThemes) -> bool {
    &&& given.theme matches LaunchTheme::Replaced(theme) ==> optional_text(profile.theme)
        == optional_text(theme)
    &&& given.dark_theme matches LaunchTheme::Replaced(theme) ==> optional_text(
        profile.dark_theme,
    ) == optional_text(theme)
}

/// A reload puts an end to every attempt to recover the connection that was
/// current before it, also where the configuration is refused.
pub proof fn law_reload_ends_recoveries(
    before: MuxControl,
    retention: Result<MuxRetentionState, String>,
    asked: bool,
    recovery: MuxRecovery,
)
    requires
        before.is_current(recovery),
    ensures
        !mux_taken(before, retention).is_current(recovery),
        !mux_refused(before, asked, retention).is_current(recovery),
{
}

} // verus!
