//! What a window's tabs and terminals take from the projects that they are in.

use vstd::prelude::*;

use crate::pane::profiles::{apply_effective_themes, tab_themed};
use crate::pane::stack::StackedPane;
use crate::pane::tab::{IconName, Tab};
use crate::pane::TerminalPane;
use crate::profile::Profile;
use crate::project::config::ProjectConfig;
use crate::project_commands::{copy_pairs, pairs};
use crate::project_context::icons::{apply_project_tab_icon, icon_in_project};
use crate::project_context::themes::{
    deciding_theme, resolve_terminal_theme, theme_of_project, ThemeSource, ThemeSourceView,
};
use crate::project_context::ProjectState;
use crate::text::{as_text, optional_text};
use crate::zetta::{lemma_still_indexed, Zetta};

verus! {

/// Whether profiles are the same, one by one.
pub open spec fn same_profiles(left: Seq<Profile>, right: Seq<Profile>) -> bool {
    &&& left.len() == right.len()
    &&& forall|i: int| 0 <= i < left.len() ==> (#[trigger] left[i]).same(right[i])
}

/// A copy of profiles.
pub fn copy_profiles(profiles: &Vec<Profile>) -> (result: Vec<Profile>)
    ensures
        same_profiles(result@, profiles@),
{
    let mut copy: Vec<Profile> = Vec::new();
    let mut index: usize = 0;
    while index < profiles.len()
        invariant
            index <= profiles@.len(),
            copy@.len() == index,
            forall|i: int| 0 <= i < index ==> (#[trigger] copy@[i]).same(profiles@[i]),
        decreases profiles@.len() - index,
    {
        copy.push(profiles[index].duplicate());
        index = index + 1;
    }
    copy
}

/// The first tab of an id.
pub open spec fn tab_position(tabs: Seq<Tab>, id: u64) -> Option<int>
    decreases tabs.len(),
{
    if tabs.len() == 0 {
        None
    } else {
        match tab_position(tabs.drop_last(), id) {
            Some(index) => Some(index),
            None => if tabs.last().id == id {
                Some(tabs.len() - 1)
            } else {
                None
            },
        }
    }
}

/// The first tab of an id.
pub fn find_tab(tabs: &Vec<Tab>, id: u64) -> (result: Option<usize>)
    ensures
        match result {
            Some(index) => index < tabs@.len() && tabs@[index as int].id == id && tab_position(
                tabs@,
                id,
            ) == Some(index as int),
            None => tab_position(tabs@, id) is None,
        },
{
    let mut found: Option<usize> = None;
    let mut index: usize = 0;
    proof {
        assert(tabs@.take(0) == Seq::<Tab>::empty());
    }
    while index < tabs.len()
        invariant
            index <= tabs@.len(),
            match found {
                Some(at) => at < index && tabs@[at as int].id == id && tab_position(
                    tabs@.take(index as int),
                    id,
                ) == Some(at as int),
                None => tab_position(tabs@.take(index as int), id) is None,
            },
        decreases tabs@.len() - index,
    {
        proof {
            let longer = tabs@.take(index + 1);
            assert(longer.drop_last() == tabs@.take(index as int));
            assert(longer.last() == tabs@[index as int]);
        }
        if found.is_none() && tabs[index].id == id {
            found = Some(index);
        }
        index = index + 1;
    }
    proof {
        assert(tabs@.take(index as int) == tabs@);
    }
    found
}

/// What decides the theme of a terminal that a project may be set for.
pub open spec fn theme_in(
    chosen: Option<String>,
    tab: Option<String>,
    projects: ProjectState,
    id: u64,
    is_light: bool,
) -> ThemeSourceView {
    deciding_theme(
        optional_text(chosen),
        optional_text(tab),
        match projects.config_of(id) {
            Some(project) => theme_of_project(project, is_light),
            None => None,
        },
    )
}

/// The views of the entries of a stack, each with what decides its theme.
pub open spec fn entry_themes(
    entries: Seq<StackedPane>,
    tab: Option<String>,
    projects: ProjectState,
    is_light: bool,
) -> Seq<(u64, ThemeSourceView)>
    decreases entries.len(),
{
    if entries.len() == 0 {
        Seq::empty()
    } else {
        let before = entry_themes(entries.drop_last(), tab, projects, is_light);
        let entry = entries.last();
        match entry.view {
            Some(view) => before.push(
                (view, theme_in(entry.theme_override, tab, projects, entry.id, is_light)),
            ),
            None => before,
        }
    }
}

/// The views of a pane, each with what decides its theme: the pane's own first.
pub open spec fn pane_themes(
    pane: TerminalPane,
    tab: Option<String>,
    projects: ProjectState,
    is_light: bool,
) -> Seq<(u64, ThemeSourceView)> {
    (match pane.view {
        Some(view) => seq![(view, theme_in(pane.theme_override, tab, projects, pane.id, is_light))],
        None => Seq::empty(),
    }) + entry_themes(pane.stack.entries@, tab, projects, is_light)
}

/// The views of panes, each with what decides its theme.
pub open spec fn panes_themes(
    panes: Seq<TerminalPane>,
    tab: Option<String>,
    projects: ProjectState,
    is_light: bool,
) -> Seq<(u64, ThemeSourceView)>
    decreases panes.len(),
{
    if panes.len() == 0 {
        Seq::empty()
    } else {
        panes_themes(panes.drop_last(), tab, projects, is_light) + pane_themes(
            panes.last(),
            tab,
            projects,
            is_light,
        )
    }
}

/// The views of tabs, each with what decides its theme.
pub open spec fn tabs_themes(tabs: Seq<Tab>, projects: ProjectState, is_light: bool) -> Seq<
    (u64, ThemeSourceView),
>
    decreases tabs.len(),
{
    if tabs.len() == 0 {
        Seq::empty()
    } else {
        let tab = tabs.last();
        tabs_themes(tabs.drop_last(), projects, is_light) + panes_themes(
            tab.panes@,
            tab.theme_override,
            projects,
            is_light,
        )
    }
}

/// Views with what decides their themes.
pub open spec fn themes_view(themes: Seq<(u64, ThemeSource)>) -> Seq<(u64, ThemeSourceView)> {
    themes.map_values(|theme: (u64, ThemeSource)| (theme.0, theme.1.view()))
}

fn push_theme(
    themes: &mut Vec<(u64, ThemeSource)>,
    view: Option<u64>,
    chosen: &Option<String>,
    tab: &Option<String>,
    project: Option<&ProjectConfig>,
    is_light: bool,
)
    ensures
        themes_view(final(themes)@) == match view {
            Some(view) => themes_view(old(themes)@).push(
                (
                    view,
                    deciding_theme(
                        optional_text(*chosen),
                        optional_text(*tab),
                        match project {
                            Some(project) => theme_of_project(*project, is_light),
                            None => None,
                        },
                    ),
                ),
            ),
            None => themes_view(old(themes)@),
        },
{
    let ghost before = themes@;
    if let Some(view) = view {
        let theme = resolve_terminal_theme(as_text(chosen), as_text(tab), project, is_light);
        themes.push((view, theme));
        proof {
            assert(themes_view(themes@) =~= themes_view(before).push((view, theme.view())));
        }
    }
}

fn push_pane_themes(
    themes: &mut Vec<(u64, ThemeSource)>,
    pane: &TerminalPane,
    tab: &Option<String>,
    projects: &ProjectState,
    is_light: bool,
)
    requires
        projects.wf(),
    ensures
        themes_view(final(themes)@) == themes_view(old(themes)@) + pane_themes(
            *pane,
            *tab,
            *projects,
            is_light,
        ),
{
    let ghost start = themes_view(themes@);
    push_theme(
        themes,
        pane.view,
        &pane.theme_override,
        tab,
        projects.config_for_pane(pane.id),
        is_light,
    );
    let ghost own = themes_view(themes@);
    let ghost entries = pane.stack.entries@;
    let mut index: usize = 0;
    proof {
        assert(entries.take(0) == Seq::<StackedPane>::empty());
        assert(own =~= own + entry_themes(entries.take(0), *tab, *projects, is_light));
    }
    while index < pane.stack.entries.len()
        invariant
            index <= entries.len(),
            entries == pane.stack.entries@,
            projects.wf(),
            themes_view(themes@) == own + entry_themes(
                entries.take(index as int),
                *tab,
                *projects,
                is_light,
            ),
        decreases entries.len() - index,
    {
        let entry = &pane.stack.entries[index];
        push_theme(
            themes,
            entry.view,
            &entry.theme_override,
            tab,
            projects.config_for_pane(entry.id),
            is_light,
        );
        proof {
            let longer = entries.take(index + 1);
            assert(longer.drop_last() == entries.take(index as int));
            assert(longer.last() == *entry);
            assert(themes_view(themes@) =~= own + entry_themes(longer, *tab, *projects, is_light));
        }
        index = index + 1;
    }
    proof {
        assert(entries.take(index as int) == entries);
        assert(themes_view(themes@) =~= start + pane_themes(*pane, *tab, *projects, is_light));
    }
}

pub fn push_tab_themes(
    themes: &mut Vec<(u64, ThemeSource)>,
    tab: &Tab,
    projects: &ProjectState,
    is_light: bool,
)
    requires
        projects.wf(),
    ensures
        themes_view(final(themes)@) == themes_view(old(themes)@) + panes_themes(
            tab.panes@,
            tab.theme_override,
            *projects,
            is_light,
        ),
{
    let ghost start = themes_view(themes@);
    let ghost panes = tab.panes@;
    let mut index: usize = 0;
    proof {
        assert(panes.take(0) == Seq::<TerminalPane>::empty());
        assert(start =~= start + panes_themes(
            panes.take(0),
            tab.theme_override,
            *projects,
            is_light,
        ));
    }
    while index < tab.panes.len()
        invariant
            index <= panes.len(),
            panes == tab.panes@,
            projects.wf(),
            themes_view(themes@) == start + panes_themes(
                panes.take(index as int),
                tab.theme_override,
                *projects,
                is_light,
            ),
        decreases panes.len() - index,
    {
        push_pane_themes(themes, &tab.panes[index], &tab.theme_override, projects, is_light);
        proof {
            let longer = panes.take(index + 1);
            assert(longer.drop_last() == panes.take(index as int));
            assert(longer.last() == panes[index as int]);
            assert(themes_view(themes@) =~= start + panes_themes(
                longer,
                tab.theme_override,
                *projects,
                is_light,
            ));
        }
        index = index + 1;
    }
    proof {
        assert(panes.take(index as int) == panes);
    }
}

pub fn push_all_themes(
    themes: &mut Vec<(u64, ThemeSource)>,
    tabs: &Vec<Tab>,
    projects: &ProjectState,
    is_light: bool,
)
    requires
        projects.wf(),
    ensures
        themes_view(final(themes)@) == themes_view(old(themes)@) + tabs_themes(
            tabs@,
            *projects,
            is_light,
        ),
{
    let ghost start = themes_view(themes@);
    let mut index: usize = 0;
    proof {
        assert(tabs@.take(0) == Seq::<Tab>::empty());
        assert(start =~= start + tabs_themes(tabs@.take(0), *projects, is_light));
    }
    while index < tabs.len()
        invariant
            index <= tabs@.len(),
            projects.wf(),
            themes_view(themes@) == start + tabs_themes(
                tabs@.take(index as int),
                *projects,
                is_light,
            ),
        decreases tabs@.len() - index,
    {
        push_tab_themes(themes, &tabs[index], projects, is_light);
        proof {
            let longer = tabs@.take(index + 1);
            assert(longer.drop_last() == tabs@.take(index as int));
            assert(longer.last() == tabs@[index as int]);
            assert(themes_view(themes@) =~= start + tabs_themes(longer, *projects, is_light));
        }
        index = index + 1;
    }
    proof {
        assert(tabs@.take(index as int) == tabs@);
    }
}

impl Zetta {
    /// The project that a tab's active pane is in.
    pub open spec fn project_of_tab(self, tab_id: u64) -> Option<ProjectConfig> {
        match tab_position(self.tabs@, tab_id) {
            Some(index) => self.projects.config_of(self.tabs@[index].active_pane),
            None => None,
        }
    }

    /// The project that a tab's active pane is in, if it was read.
    pub fn project_config_for_tab(&self, tab_id: u64) -> (result: Option<&ProjectConfig>)
        requires
            self.wf(),
        ensures
            match result {
                Some(project) => self.project_of_tab(tab_id) == Some(*project),
                None => self.project_of_tab(tab_id) is None,
            },
    {
        match find_tab(&self.tabs, tab_id) {
            Some(index) => self.projects.config_for_pane(self.tabs[index].active_pane),
            None => None,
        }
    }

    /// The environment that a tab's project sets.
    pub fn project_environment_for_tab(&self, tab_id: u64) -> (result: Vec<(String, String)>)
        requires
            self.wf(),
        ensures
            pairs(result@) == match self.project_of_tab(tab_id) {
                Some(project) => pairs(project.environment@),
                None => Seq::empty(),
            },
    {
        match self.project_config_for_tab(tab_id) {
            Some(project) => copy_pairs(&project.environment),
            None => {
                let none: Vec<(String, String)> = Vec::new();
                proof {
                    assert(pairs(none@) =~= Seq::empty());
                }
                none
            },
        }
    }

    /// What decides the theme of each view of a tab, after a theme was chosen.
    pub fn refresh_terminal_themes_in_tab(&self, tab_id: u64, is_light: bool) -> (result: Vec<
        (u64, ThemeSource),
    >)
        requires
            self.wf(),
        ensures
            themes_view(result@) == match tab_position(self.tabs@, tab_id) {
                Some(index) => panes_themes(
                    self.tabs@[index].panes@,
                    self.tabs@[index].theme_override,
                    self.projects,
                    is_light,
                ),
                None => Seq::empty(),
            },
    {
        let mut themes: Vec<(u64, ThemeSource)> = Vec::new();
        proof {
            assert(themes_view(themes@) =~= Seq::empty());
        }
        if let Some(index) = find_tab(&self.tabs, tab_id) {
            push_tab_themes(&mut themes, &self.tabs[index], &self.projects, is_light);
        }
        proof {
            if let Some(index) = tab_position(self.tabs@, tab_id) {
                assert(themes_view(themes@) =~= panes_themes(
                    self.tabs@[index].panes@,
                    self.tabs@[index].theme_override,
                    self.projects,
                    is_light,
                ));
            }
        }
        themes
    }

    /// What decides the theme of each view, after the system's appearance
    /// changed: those of the tabs that are shown, then those of the others.
    pub fn refresh_terminal_themes_for_appearance(&self, is_light: bool) -> (result: Vec<
        (u64, ThemeSource),
    >)
        requires
            self.wf(),
        ensures
            themes_view(result@) == tabs_themes(self.tabs@, self.projects, is_light)
                + tabs_themes(self.background_sessions@, self.projects, is_light),
    {
        let mut themes: Vec<(u64, ThemeSource)> = Vec::new();
        proof {
            assert(themes_view(themes@) =~= Seq::empty());
        }
        push_all_themes(&mut themes, &self.tabs, &self.projects, is_light);
        proof {
            assert(themes_view(themes@) =~= tabs_themes(self.tabs@, self.projects, is_light));
        }
        push_all_themes(&mut themes, &self.background_sessions, &self.projects, is_light);
        themes
    }

    /// Gives the panes of a tab the themes that are configured for them, with the
    /// launch's own over them, and says what decides the theme of each view then.
    pub fn apply_effective_themes_to_tab(
        &mut self,
        tab_id: u64,
        is_light: bool,
    ) -> (result: Vec<(u64, ThemeSource)>)
        requires
            old(self).wf(),
        ensures
            final(self).wf(),
            *final(self) == (Zetta { tabs: final(self).tabs, ..*old(self) }),
            match tab_position(old(self).tabs@, tab_id) {
                Some(index) => {
                    let tab = final(self).tabs@[index];
                    &&& final(self).tabs@ == old(self).tabs@.update(index, tab)
                    &&& tab_themed(
                        old(self).tabs@[index],
                        tab,
                        old(self).projects,
                        old(self).launch_config.profiles@,
                        old(self).launch_theme_override,
                    )
                    &&& themes_view(result@) == panes_themes(
                        tab.panes@,
                        tab.theme_override,
                        old(self).projects,
                        is_light,
                    )
                },
                None => final(self).tabs == old(self).tabs && result@.len() == 0,
            },
    {
        let ghost tabs = self.tabs@;
        let mut themes: Vec<(u64, ThemeSource)> = Vec::new();
        match find_tab(&self.tabs, tab_id) {
            Some(index) => {
                apply_effective_themes(
                    &mut self.tabs[index],
                    &self.projects,
                    &self.launch_config.profiles,
                    &self.launch_theme_override,
                );
                proof {
                    assert(tabs[index as int].indexed());
                    lemma_still_indexed(tabs, index as int, self.tabs@[index as int]);
                    assert(self.tabs@ =~= tabs.update(index as int, self.tabs@[index as int]));
                    assert(themes_view(themes@) =~= Seq::empty());
                }
                push_tab_themes(&mut themes, &self.tabs[index], &self.projects, is_light);
                proof {
                    let tab = self.tabs@[index as int];
                    assert(themes_view(themes@) =~= panes_themes(
                        tab.panes@,
                        tab.theme_override,
                        self.projects,
                        is_light,
                    ));
                }
            },
            None => {},
        }
        themes
    }

    /// The icon that the active tab's project sets, where it is in one.
    pub open spec fn project_icon(self) -> Option<Option<IconName>> {
        match self.active_project() {
            Some(project) => Some(project.effective.default_tab_icon),
            None => None,
        }
    }

    /// Gives the active tab the icon of the project that it is in, or the one
    /// that it had before.
    pub fn refresh_active_project_tab_icon(&mut self)
        requires
            old(self).wf(),
        ensures
            final(self).wf(),
            icon_refreshed(*old(self), *final(self)),
    {
        if self.active_tab >= self.tabs.len() {
            return;
        }
        let project: Option<Option<IconName>> = match self.active_project_config() {
            Some(project) => Some(project.effective.default_tab_icon),
            None => None,
        };
        let ghost tabs = self.tabs@;
        let index = self.active_tab;
        let tab_id = self.tabs[index].id;
        let chosen = self.tabs[index].icon_override;
        apply_project_tab_icon(
            tab_id,
            &mut self.tabs[index].icon,
            chosen,
            project,
            &mut self.projects.inherited_tab_icons,
        );
        proof {
            assert(tabs[index as int].indexed());
            assert(self.tabs@[index as int].indexed());
            lemma_still_indexed(tabs, index as int, self.tabs@[index as int]);
            assert(self.tabs@ =~= tabs.update(index as int, self.tabs@[index as int]));
        }
    }

    /// Takes over how many profiles have a shortcut. Returns whether the
    /// shortcuts have to be bound anew: only a number that changed is worth
    /// rebuilding the keymap for.
    pub fn refresh_profile_shortcuts(&mut self, visible_profiles: usize) -> (result: bool)
        ensures
            *final(self) == (Zetta { profile_shortcut_slots: visible_profiles, ..*old(self) }),
            result == (visible_profiles != old(self).profile_shortcut_slots),
    {
        let changed = visible_profiles != self.profile_shortcut_slots;
        self.profile_shortcut_slots = visible_profiles;
        changed
    }
}

/// Whether the active tab has the icon of its project, or the one that it had
/// before, and nothing else differs.
pub open spec fn icon_refreshed(before: Zetta, after: Zetta) -> bool {
    if !before.has_active() {
        after == before
    } else {
        let tab = before.active();
        let icons = icon_in_project(
            tab.icon,
            before.projects.inherited_tab_icons.value_of(tab.id),
            tab.icon_override,
            before.project_icon(),
        );
        &&& after == (Zetta {
            tabs: after.tabs,
            projects: ProjectState {
                inherited_tab_icons: after.projects.inherited_tab_icons,
                ..before.projects
            },
            ..before
        })
        &&& after.tabs@ == before.tabs@.update(
            before.active_tab as int,
            Tab { icon: icons.0, ..tab },
        )
        &&& after.projects.inherited_tab_icons.value_of(tab.id) == icons.1
        &&& forall|other: u64|
            other != tab.id ==> #[trigger] after.projects.inherited_tab_icons.value_of(other)
                == before.projects.inherited_tab_icons.value_of(other)
    }
}

} // verus!
