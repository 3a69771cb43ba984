//! The icon that a project gives to a tab.

use vstd::prelude::*;

use crate::id_map::IdMap;
use crate::pane::tab::{IconName, TabIconOverride};

verus! {

/// A tab's icon and the one that it had before it came into a project, after
/// the tab is found to be in a project with the given icon, or in none.
pub open spec fn icon_in_project(
    icon: Option<IconName>,
    inherited: Option<Option<IconName>>,
    chosen: TabIconOverride,
    project: Option<Option<IconName>>,
) -> (Option<IconName>, Option<Option<IconName>>) {
    if chosen != TabIconOverride::Unset {
        (icon, inherited)
    } else {
        match project {
            Some(of_project) => match inherited {
                Some(_) => (of_project, inherited),
                None => (of_project, Some(icon)),
            },
            None => match inherited {
                Some(before) => (before, None),
                None => (icon, None),
            },
        }
    }
}

/// Applies the active project's icon when a tab has no explicit user choice.
///
/// The first time a project applies, the tab's icon is kept, so that leaving
/// the project can restore it. An explicit choice, a hidden icon among them,
/// stays across entering, leaving, and switching projects.
pub fn apply_project_tab_icon(
    tab_id: u64,
    tab_icon: &mut Option<IconName>,
    tab_icon_override: TabIconOverride,
    project: Option<Option<IconName>>,
    inherited_tab_icons: &mut IdMap<Option<IconName>>,
)
    ensures
        (*final(tab_icon), final(inherited_tab_icons).value_of(tab_id)) == icon_in_project(
            *old(tab_icon),
            old(inherited_tab_icons).value_of(tab_id),
            tab_icon_override,
            project,
        ),
        forall|other: u64|
            other != tab_id ==> #[trigger] final(inherited_tab_icons).value_of(other) == old(
                inherited_tab_icons,
            ).value_of(other),
{
    if !matches!(tab_icon_override, TabIconOverride::Unset) {
        return;
    }
    match project {
        Some(of_project) => {
            if inherited_tab_icons.get(tab_id).is_none() {
                inherited_tab_icons.insert(tab_id, *tab_icon);
            }
            *tab_icon = of_project;
        },
        None => {
            if let Some(icon) = inherited_tab_icons.remove(tab_id) {
                *tab_icon = icon;
            }
        },
    }
}

/// Leaving a project restores the icon that the tab had before it came into
/// one, also where it went from one project to another in between.
pub proof fn law_leaving_restores_the_icon(
    icon: Option<IconName>,
    first: Option<IconName>,
    second: Option<IconName>,
)
    ensures
        ({
            let entered = icon_in_project(icon, None, TabIconOverride::Unset, Some(first));
            let moved = icon_in_project(
                entered.0,
                entered.1,
                TabIconOverride::Unset,
                Some(second),
            );
            &&& entered.0 == first
            &&& moved.0 == second
            &&& icon_in_project(entered.0, entered.1, TabIconOverride::Unset, None) == (
                icon,
                None::<Option<IconName>>,
            )
            &&& icon_in_project(moved.0, moved.1, TabIconOverride::Unset, None) == (
                icon,
                None::<Option<IconName>>,
            )
        }),
{
}

/// An icon that the user chose stays, whatever project the tab is in.
pub proof fn law_chosen_icon_stays(
    icon: Option<IconName>,
    inherited: Option<Option<IconName>>,
    chosen: TabIconOverride,
    project: Option<Option<IconName>>,
)
    requires
        chosen != TabIconOverride::Unset,
    ensures
        icon_in_project(icon, inherited, chosen, project).0 == icon,
{
}

} // verus!
