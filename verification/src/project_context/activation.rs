//! What a window does when the project that it is in changes.

use vstd::prelude::*;

use crate::mux::recovery::{next_generation, MuxControl};
use crate::pane::profiles::{apply_effective_themes, tab_themed};
use crate::pane::tab::Tab;
use crate::profile::Profile;
use crate::project::config::ProjectConfig;
use crate::project::paths::{key_of, same_spelling};
use crate::project_context::icons::icon_in_project;
use crate::project_context::themes::ThemeSource;
use crate::project_context::window::{
    copy_profiles, find_tab, panes_themes, push_tab_themes, same_profiles, tab_position,
    themes_view,
};
use crate::project_context::wsl::{reported_directory, wsl_reported_directory};
use crate::project_context::{
    entered_view, has_entered, some_pane_in, ProjectDetectionState, ProjectState,
};
use crate::text::{clone_optional, joined, optional_text, quoted, quoted_text};
use crate::zetta::{lemma_still_indexed, Zetta};

verus! {

/// What follows from a project's becoming current.
#[derive(Debug, PartialEq, Eq)]
pub struct Activation {
    /// Whether the profiles' shortcuts have to be bound anew.
    pub rebind: bool,
    /// What decides the theme of each view of the active tab.
    pub themes: Vec<(u64, ThemeSource)>,
    /// The split that the project asks for.
    pub initial_split: Option<String>,
}

/// What is said of a project's theme that there is none of.
pub open spec fn unknown_theme_text(theme: Seq<char>, root: Seq<char>) -> Seq<char> {
    "Could not apply project theme "@ + quoted_text(theme) + " for "@ + root
}

fn unknown_theme_error(theme: &str, root: &str) -> (result: String)
    ensures
        result@ == unknown_theme_text(theme@, root@),
{
    let theme = quoted(theme);
    let mut text = joined("Could not apply project theme ", theme.as_str());
    text.push_str(" for ");
    text.push_str(root);
    text
}

/// The first of a project's themes that there is none of.
pub open spec fn missing_theme(project: ProjectConfig, theme_exists: bool, dark_exists: bool) -> Option<
    Seq<char>,
> {
    if project.theme is Some && !theme_exists {
        optional_text(project.theme)
    } else if project.dark_theme is Some && !dark_exists {
        optional_text(project.dark_theme)
    } else {
        None
    }
}

fn find_missing_theme(project: &ProjectConfig, theme_exists: bool, dark_exists: bool) -> (result:
    Option<String>)
    ensures
        optional_text(result) == missing_theme(*project, theme_exists, dark_exists),
{
    if project.theme.is_some() && !theme_exists {
        clone_optional(&project.theme)
    } else if project.dark_theme.is_some() && !dark_exists {
        clone_optional(&project.dark_theme)
    } else {
        None
    }
}

impl Zetta {
    /// The tab and the project that are current.
    pub open spec fn current_context(self) -> (u64, Option<u64>) {
        (
            self.active().id,
            match self.active_project() {
                Some(project) => Some(project.identity),
                None => None,
            },
        )
    }

    /// Whether another tab or project is current than was last.
    pub open spec fn context_changed(self) -> bool {
        self.has_active() && self.projects.active_context != Some(self.current_context())
    }

    fn take_effective_config(
        &mut self,
        visible_profiles: usize,
        theme_exists: bool,
        dark_exists: bool,
    ) -> (result: bool)
        requires
            old(self).wf(),
        ensures
            *final(self) == (Zetta {
                profiles: final(self).profiles,
                working_directory: final(self).working_directory,
                profile_shortcut_slots: visible_profiles,
                mux: MuxControl {
                    configuration_error: final(self).mux.configuration_error,
                    ..old(self).mux
                },
                ..*old(self)
            }),
            same_profiles(final(self).profiles@, old(self).effective().profiles@),
            optional_text(final(self).working_directory) == optional_text(
                old(self).effective().working_directory,
            ),
            result == (visible_profiles != old(self).profile_shortcut_slots),
            optional_text(final(self).mux.configuration_error) == match old(
                self,
            ).active_project() {
                Some(project) => match missing_theme(project, theme_exists, dark_exists) {
                    Some(theme) => Some(unknown_theme_text(theme, project.root@)),
                    None => optional_text(old(self).mux.configuration_error),
                },
                None => optional_text(old(self).mux.configuration_error),
            },
    {
        let config = self.effective_config();
        let profiles = copy_profiles(&config.profiles);
        let working_directory = clone_optional(&config.working_directory);
        let error = match self.active_project_config() {
            Some(project) => match find_missing_theme(project, theme_exists, dark_exists) {
                Some(theme) => Some(
                    unknown_theme_error(theme.as_str(), project.root.as_str()),
                ),
                None => None,
            },
            None => None,
        };
        self.profiles = profiles;
        self.working_directory = working_directory;
        if error.is_some() {
            self.mux.configuration_error = error;
        }
        self.refresh_profile_shortcuts(visible_profiles)
    }

    fn theme_active_tab(&mut self, is_light: bool) -> (result:
        Vec<(u64, ThemeSource)>)
        requires
            old(self).wf(),
            old(self).has_active(),
        ensures
            final(self).wf(),
            final(self).only_active_differs(*old(self)),
            tab_themed(
                old(self).active(),
                final(self).active(),
                old(self).projects,
                old(self).launch_config.profiles@,
                old(self).launch_theme_override,
            ),
            themes_view(result@) == panes_themes(
                final(self).active().panes@,
                old(self).active().theme_override,
                old(self).projects,
                is_light,
            ),
    {
        let index = self.active_tab;
        let ghost tabs = self.tabs@;
        proof {
            assert(self.tabs@[index as int].indexed());
        }
        apply_effective_themes(
            &mut self.tabs[index],
            &self.projects,
            &self.launch_config.profiles,
            &self.launch_theme_override,
        );
        proof {
            lemma_still_indexed(tabs, index as int, self.tabs@[index as int]);
            assert(self.tabs@ =~= tabs.update(index as int, self.tabs@[index as int]));
        }
        let mut themes: Vec<(u64, ThemeSource)> = Vec::new();
        proof {
            assert(themes_view(themes@) =~= Seq::empty());
        }
        push_tab_themes(&mut themes, &self.tabs[index], &self.projects, is_light);
        proof {
            let tab = self.tabs@[index as int];
            assert(themes_view(themes@) =~= panes_themes(
                tab.panes@,
                tab.theme_override,
                self.projects,
                is_light,
            ));
        }
        themes
    }

    /// Takes over what the active tab's project sets: its profiles, its
    /// directory, its icon, its themes, and the split that it asks for when a
    /// tab comes into it for the first time.
    ///
    /// `visible_profiles` is the number of profiles that are not hidden in the
    /// configuration that counts now, and the verdicts say whether there are the
    /// project's themes.
    pub fn activate_current_project(
        &mut self,
        visible_profiles: usize,
        theme_exists: bool,
        dark_exists: bool,
        is_light: bool,
    ) -> (result: Option<Activation>)
        requires
            old(self).wf(),
        ensures
            final(self).wf(),
            result is Some == old(self).context_changed(),
            result is None ==> *final(self) == *old(self),
            !final(self).context_changed(),
            result matches Some(activation) ==> {
                let tab = old(self).active();
                let project = old(self).active_project();
                let projects = old(self).projects;
                let windows = projects.registry.windows;
                let icons = icon_in_project(
                    tab.icon,
                    projects.inherited_tab_icons.value_of(tab.id),
                    tab.icon_override,
                    old(self).project_icon(),
                );
                let first = project is Some && !has_entered(
                    projects.entered@,
                    tab.id,
                    key_of(project->0.root@, windows),
                );
                &&& *final(self) == (Zetta {
                    tabs: final(self).tabs,
                    projects: ProjectState {
                        active_context: Some(old(self).current_context()),
                        inherited_tab_icons: final(self).projects.inherited_tab_icons,
                        entered: final(self).projects.entered,
                        ..projects
                    },
                    profiles: final(self).profiles,
                    working_directory: final(self).working_directory,
                    profile_shortcut_slots: visible_profiles,
                    mux: MuxControl {
                        configuration_error: final(self).mux.configuration_error,
                        ..old(self).mux
                    },
                    ..*old(self)
                })
                &&& same_profiles(final(self).profiles@, old(self).effective().profiles@)
                &&& optional_text(final(self).working_directory) == optional_text(
                    old(self).effective().working_directory,
                )
                &&& activation.rebind == (visible_profiles != old(self).profile_shortcut_slots)
                &&& optional_text(final(self).mux.configuration_error) == match project {
                    Some(project) => match missing_theme(project, theme_exists, dark_exists) {
                        Some(theme) => Some(unknown_theme_text(theme, project.root@)),
                        None => optional_text(old(self).mux.configuration_error),
                    },
                    None => optional_text(old(self).mux.configuration_error),
                }
                &&& final(self).projects.inherited_tab_icons.value_of(tab.id) == icons.1
                &&& forall|other: u64|
                    other != tab.id
                        ==> #[trigger] final(self).projects.inherited_tab_icons.value_of(other)
                        == projects.inherited_tab_icons.value_of(other)
                &&& entered_view(final(self).projects.entered@) == if first {
                    entered_view(projects.entered@).push((tab.id, key_of(project->0.root@, windows)))
                } else {
                    entered_view(projects.entered@)
                }
                &&& optional_text(activation.initial_split) == if first {
                    optional_text(project->0.initial_split)
                } else {
                    None
                }
                &&& final(self).tabs@ == old(self).tabs@.update(
                    old(self).active_tab as int,
                    final(self).active(),
                )
                &&& tab_themed(
                    Tab { icon: icons.0, ..tab },
                    final(self).active(),
                    final(self).projects,
                    old(self).launch_config.profiles@,
                    old(self).launch_theme_override,
                )
                &&& themes_view(activation.themes@) == panes_themes(
                    final(self).active().panes@,
                    tab.theme_override,
                    final(self).projects,
                    is_light,
                )
            },
    {
        if self.active_tab >= self.tabs.len() {
            return None;
        }
        let ghost start = *self;
        let tab_id = self.tabs[self.active_tab].id;
        let pane_id = self.tabs[self.active_tab].active_pane;
        if !self.projects.begin_activation(tab_id, pane_id) {
            return None;
        }
        proof {
            assert(self.active_project() == start.active_project());
            assert(self.effective() == start.effective());
        }
        let rebind = self.take_effective_config(visible_profiles, theme_exists, dark_exists);
        proof {
            assert(self.active_project() == start.active_project());
            assert(self.project_icon() == start.project_icon());
        }
        self.refresh_active_project_tab_icon();
        let ghost iconed = *self;
        proof {
            assert(iconed.projects.config_of(pane_id) == start.projects.config_of(pane_id));
        }
        let initial_split = self.projects.initial_split_on_entry(tab_id, pane_id);
        let themes = self.theme_active_tab(is_light);
        proof {
            let index = start.active_tab as int;
            assert(self.tabs@ =~= start.tabs@.update(index, self.tabs@[index]));
        }
        Some(Activation { rebind, themes, initial_split })
    }
}

/// The directory that a pane's project is looked for in: what its shell in a
/// distribution reports, as the host names it, or where it is known for certain
/// to be.
pub fn detection_directory(
    profile: &Profile,
    is_wsl: bool,
    wsl_directory: Option<String>,
    current: Option<(String, bool)>,
) -> (result: Option<String>)
    ensures
        is_wsl && wsl_directory is None ==> result is None,
        is_wsl && wsl_directory is Some ==> optional_text(result) == reported_directory(
            *profile,
            is_wsl,
            wsl_directory->0@,
        ),
        !is_wsl ==> optional_text(result) == match current {
            Some((directory, authoritative)) => if authoritative {
                Some(directory@)
            } else {
                None
            },
            None => None,
        },
{
    if is_wsl {
        match wsl_directory {
            Some(directory) => wsl_reported_directory(profile, is_wsl, directory.as_str()),
            None => None,
        }
    } else {
        match current {
            Some((directory, authoritative)) => if authoritative {
                Some(directory)
            } else {
                None
            },
            None => None,
        }
    }
}

/// A look for a pane's project that was begun.
#[derive(Debug, PartialEq, Eq)]
pub struct ScheduledDetection {
    pub generation: u64,
    /// Whether the active tab's project changed by the pane's leaving its own.
    pub activate: bool,
}

impl Zetta {
    /// Whether a tab of an id has a pane, among the tabs that are shown and,
    /// where none of these has the id, among the others.
    pub open spec fn has_pane(self, tab_id: u64, pane_id: u64) -> bool {
        match tab_position(self.tabs@, tab_id) {
            Some(index) => self.tabs@[index].index_of(pane_id) is Some,
            None => match tab_position(self.background_sessions@, tab_id) {
                Some(index) => self.background_sessions@[index].index_of(pane_id) is Some,
                None => false,
            },
        }
    }

    /// Whether a pane of a tab is the active one.
    pub open spec fn is_active(self, tab_id: u64, pane_id: u64) -> bool {
        self.has_active() && self.active().id == tab_id && self.active().active_pane == pane_id
    }

    /// Whether a pane of a tab is the active one.
    pub fn pane_is_active(&self, tab_id: u64, pane_id: u64) -> (result: bool)
        ensures
            result == self.is_active(tab_id, pane_id),
    {
        self.active_tab < self.tabs.len() && self.tabs[self.active_tab].id == tab_id
            && self.tabs[self.active_tab].active_pane == pane_id
    }

    fn finds_pane(&self, tab_id: u64, pane_id: u64) -> (result: bool)
        requires
            self.wf(),
        ensures
            result == self.has_pane(tab_id, pane_id),
    {
        match find_tab(&self.tabs, tab_id) {
            Some(index) => {
                proof {
                    assert(self.tabs@[index as int].indexed());
                }
                self.tabs[index].pane(pane_id).is_some()
            },
            None => match find_tab(&self.background_sessions, tab_id) {
                Some(index) => {
                    proof {
                        assert(self.background_sessions@[index as int].indexed());
                    }
                    self.background_sessions[index].pane(pane_id).is_some()
                },
                None => false,
            },
        }
    }

    /// Begins to look for a pane's project, where its directory is another than
    /// was last looked at, and takes it out of the project that it left.
    /// `resolved` is the root whose file counts for the directory, as far as the
    /// registry tells.
    pub fn schedule_project_detection_for_pane(
        &mut self,
        tab_id: u64,
        pane_id: u64,
        directory: Option<String>,
        resolved: &Option<String>,
    ) -> (result: Option<ScheduledDetection>)
        requires
            old(self).wf(),
        ensures
            final(self).wf(),
            *final(self) == (Zetta { projects: final(self).projects, ..*old(self) }),
            result is Some == (old(self).has_pane(tab_id, pane_id) && directory is Some
                && old(self).projects.looks_elsewhere(pane_id, directory->0@)),
            result is None ==> *final(self) == *old(self),
            result matches Some(scheduled) ==> {
                let projects = old(self).projects;
                let left = projects.left_by(pane_id, optional_text(*resolved));
                &&& final(self).projects == (ProjectState {
                    detections: final(self).projects.detections,
                    next_detection_generation: next_generation(
                        projects.next_detection_generation,
                    ),
                    pane_roots: final(self).projects.pane_roots,
                    configs: final(self).projects.configs,
                    active_context: final(self).projects.active_context,
                    offer: final(self).projects.offer,
                    ..projects
                })
                &&& scheduled.generation == next_generation(projects.next_detection_generation)
                &&& forall|other: u64| #[trigger]
                    final(self).projects.detections.value_of(other) == if other == pane_id {
                        Some(
                            ProjectDetectionState {
                                directory: directory->0,
                                generation: scheduled.generation,
                            },
                        )
                    } else {
                        projects.detections.value_of(other)
                    }
                &&& final(self).projects.awaits(pane_id, directory->0@, scheduled.generation)
                &&& scheduled.activate == (left && old(self).is_active(tab_id, pane_id))
                &&& left ==> final(self).projects.pane_roots.value_of(pane_id) is None
                    && final(self).projects.active_context is None && final(self).projects.offer
                    == match projects.offer {
                    Some(offer) if offer.pane_id == pane_id => None,
                    _ => projects.offer,
                }
                &&& left ==> forall|root: Seq<char>| #[trigger]
                    final(self).projects.config_at(root) == match projects.pane_roots.value_of(
                        pane_id,
                    ) {
                        Some(from) if same_spelling(from@, root, projects.registry.windows)
                            && !some_pane_in(
                            final(self).projects.pane_roots,
                            from@,
                            projects.registry.windows,
                        ) => None,
                        _ => projects.config_at(root),
                    }
                &&& !left ==> final(self).projects.pane_roots == projects.pane_roots
                    && final(self).projects.active_context == projects.active_context
                    && final(self).projects.configs == projects.configs
                    && final(self).projects.offer == projects.offer
                &&& forall|other: u64|
                    other != pane_id ==> #[trigger] final(self).projects.pane_roots.value_of(other)
                        == projects.pane_roots.value_of(other)
            },
    {
        if !self.finds_pane(tab_id, pane_id) {
            return None;
        }
        let directory = match directory {
            Some(directory) => directory,
            None => {
                return None;
            },
        };
        let generation = match self.projects.begin_detection(pane_id, directory) {
            Some(generation) => generation,
            None => {
                return None;
            },
        };
        let ghost begun = self.projects;
        let left = self.projects.leave_project_if_moved(pane_id, resolved);
        proof {
            assert forall|root: Seq<char>| #[trigger] begun.config_at(root)
                == old(self).projects.config_at(root) by {}
        }
        let activate = left && self.pane_is_active(tab_id, pane_id);
        Some(ScheduledDetection { generation, activate })
    }
}

} // verus!
