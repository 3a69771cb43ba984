//! The profiles and themes of a tab's panes, when the configuration changes.

use vstd::prelude::*;

use crate::pane::stack::{PaneStack, StackedPane};
use crate::pane::tab::Tab;
use crate::pane::TerminalPane;
use crate::profile::{apply_launch_theme_override, LaunchThemes, Profile};
use crate::project_context::themes::{
    apply_configured_themes, configured_themes, find_profile, profile_named,
};
use crate::project_context::ProjectState;

verus! {

/// Whether a stacked command has no theme of its own any more, and is the same
/// besides.
pub open spec fn entry_unthemed(before: StackedPane, after: StackedPane) -> bool {
    after == (StackedPane { theme_override: None, ..before })
}

/// Whether a pane has no overlay any more, and neither it nor what is stacked
/// in it a theme of its own, and they are the same besides.
pub open spec fn pane_cleared(before: TerminalPane, after: TerminalPane) -> bool {
    &&& after == (TerminalPane {
        overlay_text: None,
        overlay_font_size: None,
        overlay_opacity: None,
        overlay_color: None,
        theme_override: None,
        stack: PaneStack { entries: after.stack.entries, ..before.stack },
        ..before
    })
    &&& after.stack.entries@.len() == before.stack.entries@.len()
    &&& forall|i: int|
        0 <= i < before.stack.entries@.len() ==> entry_unthemed(
            before.stack.entries@[i],
            #[trigger] after.stack.entries@[i],
        )
}

/// Whether a tab has no chosen themes and its panes no overlays any more, and it
/// is the same besides.
pub open spec fn tab_cleared(before: Tab, after: Tab) -> bool {
    &&& after == (Tab { theme_override: None, panes: after.panes, ..before })
    &&& after.panes@.len() == before.panes@.len()
    &&& forall|i: int|
        0 <= i < before.panes@.len() ==> pane_cleared(before.panes@[i], #[trigger] after.panes@[i])
}

fn clear_pane_choices(pane: &mut TerminalPane)
    ensures
        pane_cleared(*old(pane), *final(pane)),
{
    pane.overlay_text = None;
    pane.overlay_font_size = None;
    pane.overlay_opacity = None;
    pane.overlay_color = None;
    pane.theme_override = None;
    let ghost all = pane.stack.entries@;
    let ghost start = *pane;
    let count: usize = pane.stack.entries.len();
    let mut index: usize = 0;
    while index < count
        invariant
            index <= count == pane.stack.entries@.len() == all.len(),
            *pane == (TerminalPane {
                stack: PaneStack { entries: pane.stack.entries, ..start.stack },
                ..start
            }),
            forall|i: int|
                0 <= i < index ==> entry_unthemed(all[i], #[trigger] pane.stack.entries@[i]),
            forall|i: int| index <= i < count ==> #[trigger] pane.stack.entries@[i] == all[i],
        decreases count - index,
    {
        pane.stack.entries[index].theme_override = None;
        index = index + 1;
    }
}

/// Takes back the themes that were chosen for a tab and its panes, and the
/// overlays of the panes. A reload of the configuration is the boundary at which
/// they are lost: none of them is part of the configuration.
pub fn clear_session_choices(tab: &mut Tab)
    ensures
        tab_cleared(*old(tab), *final(tab)),
        old(tab).indexed() ==> final(tab).indexed(),
{
    tab.theme_override = None;
    let ghost all = tab.panes@;
    let ghost start = *tab;
    let count: usize = tab.panes.len();
    let mut index: usize = 0;
    while index < count
        invariant
            index <= count == tab.panes@.len() == all.len(),
            *tab == (Tab { panes: tab.panes, ..start }),
            forall|i: int| 0 <= i < index ==> pane_cleared(all[i], #[trigger] tab.panes@[i]),
            forall|i: int| index <= i < count ==> #[trigger] tab.panes@[i] == all[i],
        decreases count - index,
    {
        clear_pane_choices(&mut tab.panes[index]);
        index = index + 1;
    }
    proof {
        if old(tab).indexed() {
            lemma_same_ids(*old(tab), *tab);
        }
    }
}

/// A tab whose panes have kept their numbers still finds them.
pub proof fn lemma_same_ids(before: Tab, after: Tab)
    requires
        before.indexed(),
        after.pane_indices == before.pane_indices,
        after.panes@.len() == before.panes@.len(),
        forall|i: int| 0 <= i < before.panes@.len() ==> (#[trigger] after.panes@[i]).id
            == before.panes@[i].id,
    ensures
        after.indexed(),
{
    assert forall|i: int| 0 <= i < after.panes@.len() implies {
        let pane = #[trigger] after.panes@[i];
        after.pane_indices@.contains_key(pane.id) && after.pane_indices@[pane.id] == i
    } by {
        assert(before.panes@[i].id == after.panes@[i].id);
    }
    assert forall|id: u64| #[trigger]
        after.pane_indices@.contains_key(id) implies after.pane_indices@[id] < after.panes@.len()
        && after.panes@[after.pane_indices@[id] as int].id == id by {
        assert(before.pane_indices@.contains_key(id));
        let index = before.pane_indices@[id] as int;
        assert(after.panes@[index].id == before.panes@[index].id);
    }
}

/// Whether a profile is now as it is configured, or has no themes where it is
/// configured no more.
pub open spec fn profile_reloaded(
    before: Profile,
    after: Profile,
    configured: Seq<Profile>,
    given: LaunchThemes,
) -> bool {
    match profile_named(configured, before.name@) {
        Some(index) => after.same_besides_themes(configured[index]) && after.themes()
            == given.over(configured[index].themes()),
        None => after == (Profile { theme: None, dark_theme: None, ..before }),
    }
}

fn reload_profile(profile: &mut Profile, configured: &Vec<Profile>, given: &LaunchThemes)
    ensures
        profile_reloaded(*old(profile), *final(profile), configured@, *given),
{
    match find_profile(configured, profile.name.as_str()) {
        Some(index) => {
            *profile = configured[index].duplicate();
            apply_launch_theme_override(profile, given);
        },
        None => {
            profile.theme = None;
            profile.dark_theme = None;
        },
    }
}

/// Whether a pane and what is stacked in it have their profiles as they are
/// configured, and are the same besides.
pub open spec fn pane_reloaded(
    before: TerminalPane,
    after: TerminalPane,
    configured: Seq<Profile>,
    given: LaunchThemes,
) -> bool {
    &&& after == (TerminalPane {
        profile: after.profile,
        stack: PaneStack { entries: after.stack.entries, ..before.stack },
        ..before
    })
    &&& profile_reloaded(before.profile, after.profile, configured, given)
    &&& after.stack.entries@.len() == before.stack.entries@.len()
    &&& forall|i: int|
        0 <= i < before.stack.entries@.len() ==> {
            let entry = #[trigger] after.stack.entries@[i];
            &&& entry == (StackedPane { profile: entry.profile, ..before.stack.entries@[i] })
            &&& profile_reloaded(
                before.stack.entries@[i].profile,
                entry.profile,
                configured,
                given,
            )
        }
}

fn reload_pane(pane: &mut TerminalPane, configured: &Vec<Profile>, given: &LaunchThemes)
    ensures
        pane_reloaded(*old(pane), *final(pane), configured@, *given),
{
    let ghost first = pane.profile;
    reload_profile(&mut pane.profile, configured, given);
    let ghost all = pane.stack.entries@;
    let ghost start = *pane;
    let count: usize = pane.stack.entries.len();
    let mut index: usize = 0;
    while index < count
        invariant
            index <= count == pane.stack.entries@.len() == all.len(),
            *pane == (TerminalPane {
                stack: PaneStack { entries: pane.stack.entries, ..start.stack },
                ..start
            }),
            forall|i: int|
                0 <= i < index ==> {
                    let entry = #[trigger] pane.stack.entries@[i];
                    &&& entry == (StackedPane { profile: entry.profile, ..all[i] })
                    &&& profile_reloaded(all[i].profile, entry.profile, configured@, *given)
                },
            forall|i: int| index <= i < count ==> #[trigger] pane.stack.entries@[i] == all[i],
        decreases count - index,
    {
        reload_profile(&mut pane.stack.entries[index].profile, configured, given);
        index = index + 1;
    }
}

/// Whether the panes of a tab have their profiles as they are configured, and
/// the tab is the same besides.
pub open spec fn tab_reloaded(
    before: Tab,
    after: Tab,
    configured: Seq<Profile>,
    given: LaunchThemes,
) -> bool {
    &&& after == (Tab { panes: after.panes, ..before })
    &&& after.panes@.len() == before.panes@.len()
    &&& forall|i: int|
        0 <= i < before.panes@.len() ==> pane_reloaded(
            before.panes@[i],
            #[trigger] after.panes@[i],
            configured,
            given,
        )
}

/// Gives the panes of a tab their profiles as they are configured now, with the
/// themes that the launch was given over the configured ones.
pub fn reload_tab_profiles(tab: &mut Tab, configured: &Vec<Profile>, given: &LaunchThemes)
    ensures
        tab_reloaded(*old(tab), *final(tab), configured@, *given),
        old(tab).indexed() ==> final(tab).indexed(),
{
    let ghost all = tab.panes@;
    let ghost start = *tab;
    let count: usize = tab.panes.len();
    let mut index: usize = 0;
    while index < count
        invariant
            index <= count == tab.panes@.len() == all.len(),
            *tab == (Tab { panes: tab.panes, ..start }),
            forall|i: int|
                0 <= i < index ==> pane_reloaded(
                    all[i],
                    #[trigger] tab.panes@[i],
                    configured@,
                    *given,
                ),
            forall|i: int| index <= i < count ==> #[trigger] tab.panes@[i] == all[i],
        decreases count - index,
    {
        reload_pane(&mut tab.panes[index], configured, given);
        index = index + 1;
    }
    proof {
        if old(tab).indexed() {
            lemma_same_ids(*old(tab), *tab);
        }
    }
}

/// The profiles that count for a pane: its project's, or the launch's.
pub open spec fn profiles_for(projects: ProjectState, launch: Seq<Profile>, pane_id: u64) -> Seq<
    Profile,
> {
    match projects.config_of(pane_id) {
        Some(project) => project.effective.profiles@,
        None => launch,
    }
}

/// Whether a profile has the themes that are configured for it, with those that
/// the launch was given over them, and is the same besides.
pub open spec fn profile_themed(
    before: Profile,
    after: Profile,
    configured: Seq<Profile>,
    given: LaunchThemes,
) -> bool {
    &&& after == (Profile { theme: after.theme, dark_theme: after.dark_theme, ..before })
    &&& after.themes() == given.over(configured_themes(configured, before.name@))
}

/// Whether a pane and what is stacked in it have the themes that are configured
/// for them, and are the same besides.
pub open spec fn pane_themed(
    before: TerminalPane,
    after: TerminalPane,
    projects: ProjectState,
    launch: Seq<Profile>,
    given: LaunchThemes,
) -> bool {
    &&& after == (TerminalPane {
        profile: after.profile,
        stack: PaneStack { entries: after.stack.entries, ..before.stack },
        ..before
    })
    &&& profile_themed(
        before.profile,
        after.profile,
        profiles_for(projects, launch, before.id),
        given,
    )
    &&& after.stack.entries@.len() == before.stack.entries@.len()
    &&& forall|i: int|
        0 <= i < before.stack.entries@.len() ==> {
            let entry = #[trigger] after.stack.entries@[i];
            let from = before.stack.entries@[i];
            &&& entry == (StackedPane { profile: entry.profile, ..from })
            &&& profile_themed(
                from.profile,
                entry.profile,
                profiles_for(projects, launch, from.id),
                given,
            )
        }
}

fn theme_profile(
    profile: &mut Profile,
    pane_id: u64,
    projects: &ProjectState,
    launch: &Vec<Profile>,
    given: &LaunchThemes,
)
    requires
        projects.wf(),
    ensures
        profile_themed(
            *old(profile),
            *final(profile),
            profiles_for(*projects, launch@, pane_id),
            *given,
        ),
{
    match projects.config_for_pane(pane_id) {
        Some(project) => {
            apply_configured_themes(profile, &project.effective.profiles, given);
        },
        None => {
            apply_configured_themes(profile, launch, given);
        },
    }
}

fn theme_pane(
    pane: &mut TerminalPane,
    projects: &ProjectState,
    launch: &Vec<Profile>,
    given: &LaunchThemes,
)
    requires
        projects.wf(),
    ensures
        pane_themed(
            *old(pane),
            *final(pane),
            *projects,
            launch@,
            *given,
        ),
{
    let id = pane.id;
    theme_profile(&mut pane.profile, id, projects, launch, given);
    let ghost all = pane.stack.entries@;
    let ghost start = *pane;
    let count: usize = pane.stack.entries.len();
    let mut index: usize = 0;
    while index < count
        invariant
            index <= count == pane.stack.entries@.len() == all.len(),
            projects.wf(),
            *pane == (TerminalPane {
                stack: PaneStack { entries: pane.stack.entries, ..start.stack },
                ..start
            }),
            forall|i: int|
                0 <= i < index ==> {
                    let entry = #[trigger] pane.stack.entries@[i];
                    &&& entry == (StackedPane { profile: entry.profile, ..all[i] })
                    &&& profile_themed(
                        all[i].profile,
                        entry.profile,
                        profiles_for(*projects, launch@, all[i].id),
                        *given,
                    )
                },
            forall|i: int| index <= i < count ==> #[trigger] pane.stack.entries@[i] == all[i],
        decreases count - index,
    {
        let entry_id = pane.stack.entries[index].id;
        theme_profile(
            &mut pane.stack.entries[index].profile,
            entry_id,
            projects,
            launch,
            given,
        );
        index = index + 1;
    }
}

/// Whether the panes of a tab have the themes that are configured for them, and
/// the tab is the same besides.
pub open spec fn tab_themed(
    before: Tab,
    after: Tab,
    projects: ProjectState,
    launch: Seq<Profile>,
    given: LaunchThemes,
) -> bool {
    &&& after == (Tab { panes: after.panes, ..before })
    &&& after.panes@.len() == before.panes@.len()
    &&& forall|i: int|
        0 <= i < before.panes@.len() ==> pane_themed(
            before.panes@[i],
            #[trigger] after.panes@[i],
            projects,
            launch,
            given,
        )
}

/// Gives the panes of a tab the themes that are configured for their profiles,
/// in their projects or for the launch, and over them those that the launch was
/// given.
pub fn apply_effective_themes(
    tab: &mut Tab,
    projects: &ProjectState,
    launch: &Vec<Profile>,
    given: &LaunchThemes,
)
    requires
        projects.wf(),
    ensures
        tab_themed(
            *old(tab),
            *final(tab),
            *projects,
            launch@,
            *given,
        ),
        old(tab).indexed() ==> final(tab).indexed(),
{
    let ghost all = tab.panes@;
    let ghost start = *tab;
    let count: usize = tab.panes.len();
    let mut index: usize = 0;
    while index < count
        invariant
            index <= count == tab.panes@.len() == all.len(),
            projects.wf(),
            *tab == (Tab { panes: tab.panes, ..start }),
            forall|i: int|
                0 <= i < index ==> pane_themed(
                    all[i],
                    #[trigger] tab.panes@[i],
                    *projects,
                    launch@,
                    *given,
                ),
            forall|i: int| index <= i < count ==> #[trigger] tab.panes@[i] == all[i],
        decreases count - index,
    {
        theme_pane(&mut tab.panes[index], projects, launch, given);
        index = index + 1;
    }
    proof {
        if old(tab).indexed() {
            lemma_same_ids(*old(tab), *tab);
        }
    }
}

/// After a reload no pane and nothing stacked in one has a theme of its own, and
/// no pane has an overlay.
pub proof fn law_reload_discards_chosen_themes(before: Tab, after: Tab, pane: int, entry: int)
    requires
        tab_cleared(before, after),
        0 <= pane < after.panes@.len(),
        0 <= entry < after.panes@[pane].stack.entries@.len(),
    ensures
        after.theme_override is None,
        after.panes@[pane].theme_override is None,
        after.panes@[pane].overlay_text is None,
        after.panes@[pane].overlay_font_size is None,
        after.panes@[pane].overlay_opacity is None,
        after.panes@[pane].overlay_color is None,
        after.panes@[pane].stack.entries@[entry].theme_override is None,
{
    assert(pane_cleared(before.panes@[pane], after.panes@[pane]));
    assert(entry_unthemed(
        before.panes@[pane].stack.entries@[entry],
        after.panes@[pane].stack.entries@[entry],
    ));
}

/// A pane whose profile is configured still has its profile by its name, with the themes
/// that are configured for it but for those that the launch gave.
pub proof fn law_reloaded_profile_is_the_configured_one(
    before: Profile,
    after: Profile,
    configured: Seq<Profile>,
    given: LaunchThemes,
)
    requires
        profile_reloaded(before, after, configured, given),
    ensures
        profile_named(configured, before.name@) matches Some(index) ==> after.name@
            == configured[index].name@ && after.command.same(configured[index].command)
            && after.themes() == given.over(configured[index].themes()),
        profile_named(configured, before.name@) is None ==> after.name == before.name
            && after.command == before.command && after.theme is None && after.dark_theme is None,
{
}

/// A pane in a project has the project's profiles, and any other those of the launch.
pub proof fn law_profiles_are_the_projects(
    projects: ProjectState,
    launch: Seq<Profile>,
    pane_id: u64,
)
    ensures
        projects.config_of(pane_id) is None ==> profiles_for(projects, launch, pane_id) == launch,
        projects.config_of(pane_id) matches Some(project) ==> profiles_for(
            projects,
            launch,
            pane_id,
        ) == project.effective.profiles@,
{
}

} // verus!
