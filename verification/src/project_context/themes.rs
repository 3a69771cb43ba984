//! Which theme a terminal is drawn with.

use vstd::prelude::*;

use crate::local_sessions::paths::str_view;
use crate::pane::tab::Tab;
use crate::profile::{apply_launch_theme_override, LaunchTheme, LaunchThemes, Profile};
use crate::project::config::ProjectConfig;
use crate::text::{clone_optional, eq_ignore_ascii_case, optional_text, same_ignoring_case};

verus! {

/// The theme that a project's file sets for an appearance.
pub open spec fn theme_of_project(project: ProjectConfig, is_light: bool) -> Option<Seq<char>> {
    if is_light {
        optional_text(project.theme)
    } else {
        optional_text(project.dark_theme)
    }
}

/// The theme that a project's file sets for an appearance.
pub fn project_theme_name(project: &ProjectConfig, is_light: bool) -> (result: Option<String>)
    ensures
        optional_text(result) == theme_of_project(*project, is_light),
{
    if is_light {
        clone_optional(&project.theme)
    } else {
        clone_optional(&project.dark_theme)
    }
}

/// What decides a terminal's theme.
#[derive(Debug, PartialEq, Eq)]
pub enum ThemeSource {
    Pane(String),
    Tab(String),
    Project(String),
    /// The profile's own theme, or the application's where it has none.
    Profile,
}

/// What decides a terminal's theme, as it views.
pub ghost enum ThemeSourceView {
    Pane(Seq<char>),
    Tab(Seq<char>),
    Project(Seq<char>),
    Profile,
}

impl ThemeSource {
    pub open spec fn view(self) -> ThemeSourceView {
        match self {
            ThemeSource::Pane(name) => ThemeSourceView::Pane(name@),
            ThemeSource::Tab(name) => ThemeSourceView::Tab(name@),
            ThemeSource::Project(name) => ThemeSourceView::Project(name@),
            ThemeSource::Profile => ThemeSourceView::Profile,
        }
    }
}

/// What decides a terminal's theme: what was chosen for the pane, then for the
/// tab, then what the project sets, then the profile. A project's own theme
/// wins over a profile's, because that is the project asserting a theme for
/// everything inside it.
pub open spec fn deciding_theme(
    pane: Option<Seq<char>>,
    tab: Option<Seq<char>>,
    project: Option<Seq<char>>,
) -> ThemeSourceView {
    match pane {
        Some(name) => ThemeSourceView::Pane(name),
        None => match tab {
            Some(name) => ThemeSourceView::Tab(name),
            None => match project {
                Some(name) => ThemeSourceView::Project(name),
                None => ThemeSourceView::Profile,
            },
        },
    }
}

/// What decides a terminal's theme. See [`deciding_theme`].
pub fn resolve_terminal_theme(
    pane_theme_override: Option<&str>,
    tab_theme_override: Option<&str>,
    project: Option<&ProjectConfig>,
    is_light: bool,
) -> (result: ThemeSource)
    ensures
        result.view() == deciding_theme(
            str_view(pane_theme_override),
            str_view(tab_theme_override),
            match project {
                Some(project) => theme_of_project(*project, is_light),
                None => None,
            },
        ),
{
    if let Some(name) = pane_theme_override {
        return ThemeSource::Pane(name.to_owned());
    }
    if let Some(name) = tab_theme_override {
        return ThemeSource::Tab(name.to_owned());
    }
    resolve_project_profile_theme(project, is_light)
}

/// What decides the theme of a terminal for which none was chosen.
pub fn resolve_project_profile_theme(project: Option<&ProjectConfig>, is_light: bool) -> (result:
    ThemeSource)
    ensures
        result.view() == deciding_theme(
            None,
            None,
            match project {
                Some(project) => theme_of_project(*project, is_light),
                None => None,
            },
        ),
{
    match project {
        Some(project) => match project_theme_name(project, is_light) {
            Some(name) => ThemeSource::Project(name),
            None => ThemeSource::Profile,
        },
        None => ThemeSource::Profile,
    }
}

/// What decides the theme around a tab's terminals.
#[derive(Clone, Copy, Debug, PartialEq, Eq, Structural)]
pub enum ChromeTheme {
    /// What was chosen for the tab.
    Chosen,
    /// What the project sets.
    Project,
    /// The tab's profile, or the application.
    Fallback,
}

/// What decides the theme around a tab's terminals: what was chosen for the
/// tab, then what the project sets, each only where there is such a theme.
pub fn theme_for_tab(
    chosen: Option<&str>,
    chosen_exists: bool,
    project: Option<&str>,
    project_exists: bool,
) -> (result: ChromeTheme)
    ensures
        result == if chosen is Some && chosen_exists {
            ChromeTheme::Chosen
        } else if project is Some && project_exists {
            ChromeTheme::Project
        } else {
            ChromeTheme::Fallback
        },
{
    if chosen.is_some() && chosen_exists {
        ChromeTheme::Chosen
    } else if project.is_some() && project_exists {
        ChromeTheme::Project
    } else {
        ChromeTheme::Fallback
    }
}

/// What decides the theme of the window: what the project sets, where there is
/// such a theme, else the application's.
pub fn window_theme(project: Option<&str>, project_exists: bool) -> (result: ChromeTheme)
    ensures
        result == if project is Some && project_exists {
            ChromeTheme::Project
        } else {
            ChromeTheme::Fallback
        },
{
    theme_for_tab(None, false, project, project_exists)
}

/// The first profile of a name, up to case.
pub open spec fn profile_named(profiles: Seq<Profile>, name: Seq<char>) -> Option<int>
    decreases profiles.len(),
{
    if profiles.len() == 0 {
        None
    } else {
        match profile_named(profiles.drop_last(), name) {
            Some(index) => Some(index),
            None => if same_ignoring_case(profiles.last().name@, name) {
                Some(profiles.len() - 1)
            } else {
                None
            },
        }
    }
}

/// The first profile of a name, up to case.
pub fn find_profile(profiles: &Vec<Profile>, name: &str) -> (result: Option<usize>)
    ensures
        match result {
            Some(index) => index < profiles@.len() && profile_named(profiles@, name@) == Some(
                index as int,
            ),
            None => profile_named(profiles@, name@) is None,
        },
{
    let mut found: Option<usize> = None;
    let mut index: usize = 0;
    proof {
        assert(profiles@.take(0) == Seq::<Profile>::empty());
    }
    while index < profiles.len()
        invariant
            index <= profiles@.len(),
            match found {
                Some(at) => at < index && profile_named(profiles@.take(index as int), name@)
                    == Some(at as int),
                None => profile_named(profiles@.take(index as int), name@) is None,
            },
        decreases profiles@.len() - index,
    {
        proof {
            let longer = profiles@.take(index + 1);
            assert(longer.drop_last() == profiles@.take(index as int));
            assert(longer.last() == profiles@[index as int]);
        }
        if found.is_none() && eq_ignore_ascii_case(profiles[index].name.as_str(), name) {
            found = Some(index);
        }
        index = index + 1;
    }
    proof {
        assert(profiles@.take(index as int) == profiles@);
    }
    found
}

/// The themes of the profile of a name among the configured ones; none where it
/// is not configured.
pub open spec fn configured_themes(profiles: Seq<Profile>, name: Seq<char>) -> (
    Option<Seq<char>>,
    Option<Seq<char>>,
) {
    match profile_named(profiles, name) {
        Some(index) => profiles[index].themes(),
        None => (None, None),
    }
}

/// Gives a profile the themes that are configured for its name, and the launch's
/// over them.
pub fn apply_configured_themes(
    profile: &mut Profile,
    configured: &Vec<Profile>,
    given: &LaunchThemes,
)
    ensures
        *final(profile) == (Profile {
            theme: final(profile).theme,
            dark_theme: final(profile).dark_theme,
            ..*old(profile)
        }),
        final(profile).themes() == given.over(configured_themes(configured@, old(profile).name@)),
{
    match find_profile(configured, profile.name.as_str()) {
        Some(index) => {
            profile.theme = clone_optional(&configured[index].theme);
            profile.dark_theme = clone_optional(&configured[index].dark_theme);
        },
        None => {
            profile.theme = None;
            profile.dark_theme = None;
        },
    }
    apply_launch_theme_override(profile, given);
}

/// What was chosen for a pane always decides its theme, and what was chosen for
/// a tab decides that of each pane for which nothing was.
pub proof fn law_chosen_theme_wins(
    pane: Option<Seq<char>>,
    tab: Option<Seq<char>>,
    project: Option<Seq<char>>,
)
    ensures
        pane matches Some(name) ==> deciding_theme(pane, tab, project) == ThemeSourceView::Pane(
            name,
        ),
        pane is None && tab is Some ==> deciding_theme(pane, tab, project) == ThemeSourceView::Tab(
            tab->0,
        ),
        pane is None && tab is None && project is None ==> deciding_theme(pane, tab, project)
            == ThemeSourceView::Profile,
{
}

/// A light window takes the project's light theme and a dark one its dark theme,
/// whatever the other of the two is; and a project without a theme decides nothing.
pub proof fn law_appearance_picks_the_theme(project: ProjectConfig, name: String, is_light: bool)
    ensures
        ({
            let light = ProjectConfig { theme: Some(name), ..project };
            let dark = ProjectConfig { dark_theme: Some(name), ..project };
            &&& theme_of_project(light, true) == Some(name@)
            &&& theme_of_project(dark, false) == Some(name@)
            &&& theme_of_project(light, false) == theme_of_project(project, false)
            &&& theme_of_project(dark, true) == theme_of_project(project, true)
        }),
        project.theme is None && project.dark_theme is None ==> deciding_theme(
            None,
            None,
            theme_of_project(project, is_light),
        ) == ThemeSourceView::Profile,
        theme_of_project(project, is_light) matches Some(set) ==> deciding_theme(
            None,
            None,
            theme_of_project(project, is_light),
        ) == ThemeSourceView::Project(set),
{
}

/// The profile that a name finds has that name in whatever case, and is the first
/// that has it.
pub proof fn law_profile_is_found_by_name(profiles: Seq<Profile>, name: Seq<char>)
    ensures
        match profile_named(profiles, name) {
            Some(at) => 0 <= at < profiles.len() && same_ignoring_case(profiles[at].name@, name)
                && forall|i: int|
                0 <= i < at ==> !same_ignoring_case((#[trigger] profiles[i]).name@, name),
            None => forall|i: int|
                0 <= i < profiles.len() ==> !same_ignoring_case(
                    (#[trigger] profiles[i]).name@,
                    name,
                ),
        },
    decreases profiles.len(),
{
    if profiles.len() > 0 {
        let shorter = profiles.drop_last();
        law_profile_is_found_by_name(shorter, name);
        assert forall|i: int| 0 <= i < shorter.len() implies #[trigger] profiles[i]
            == shorter[i] by {}
        assert(profiles[profiles.len() - 1] == profiles.last());
        if let Some(at) = profile_named(shorter, name) {
            assert(profiles[at] == shorter[at]);
        }
    }
}

/// A profile shows the themes that are configured under its name, but for what the
/// launch gave, each for its own appearance.
pub proof fn law_launch_themes_replace_the_configured(
    profiles: Seq<Profile>,
    at: int,
    name: Option<String>,
)
    requires
        0 <= at < profiles.len(),
        forall|i: int|
            0 <= i < at ==> !same_ignoring_case(
                (#[trigger] profiles[i]).name@,
                profiles[at].name@,
            ),
    ensures
        ({
            let configured = configured_themes(profiles, profiles[at].name@);
            let kept = LaunchThemes { theme: LaunchTheme::Kept, dark_theme: LaunchTheme::Kept };
            let light = LaunchThemes { theme: LaunchTheme::Replaced(name), ..kept };
            let dark = LaunchThemes { dark_theme: LaunchTheme::Replaced(name), ..kept };
            &&& configured.0 == optional_text(profiles[at].theme)
            &&& configured.1 == optional_text(profiles[at].dark_theme)
            &&& kept.over(configured) == configured
            &&& light.over(configured) == (optional_text(name), configured.1)
            &&& dark.over(configured) == (configured.0, optional_text(name))
        }),
{
    law_profile_is_found_by_name(profiles, profiles[at].name@);
    assert(same_ignoring_case(profiles[at].name@, profiles[at].name@));
}

} // verus!
