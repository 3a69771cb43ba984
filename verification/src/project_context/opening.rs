//! Opening projects, reading them again, and taking an offer.

use vstd::prelude::*;

use crate::id_map::IdMap;
use crate::mux::recovery::MuxControl;
use crate::pane::tab::Tab;
use crate::profile::Profile;
use crate::project::config::{config_file_of, project_config_path, ProjectConfig};
use crate::project::paths::{key_of, paths_equal, same_path, same_spelling, spellings_equal};
use crate::project::registry::ProjectRegistry;
use crate::project_context::ProjectState;
use crate::text::{joined, optional_text, texts};
use crate::zetta::Zetta;

verus! {

/// Whether a root is among some, in the same spelling.
pub open spec fn is_spelled_in(roots: Seq<Seq<char>>, root: Seq<char>, windows: bool) -> bool {
    exists|i: int| 0 <= i < roots.len() && same_spelling(#[trigger] roots[i], root, windows)
}

/// The roots of a list without those that one before them is the same as.
pub open spec fn distinct_roots(roots: Seq<Seq<char>>, windows: bool) -> Seq<Seq<char>>
    decreases roots.len(),
{
    if roots.len() == 0 {
        Seq::empty()
    } else {
        let before = distinct_roots(roots.drop_last(), windows);
        if is_spelled_in(before, roots.last(), windows) {
            before
        } else {
            before.push(roots.last())
        }
    }
}

/// Adds a root to a list, unless it is there in the same spelling.
pub fn push_distinct(list: &mut Vec<String>, root: &str, windows: bool)
    ensures
        texts(final(list)@) == if is_spelled_in(texts(old(list)@), root@, windows) {
            texts(old(list)@)
        } else {
            texts(old(list)@).push(root@)
        },
{
    let ghost before = list@;
    let mut index: usize = 0;
    while index < list.len()
        invariant
            index <= list@.len(),
            list@ == before,
            forall|i: int|
                0 <= i < index ==> !same_spelling(#[trigger] texts(before)[i], root@, windows),
        decreases list@.len() - index,
    {
        if spellings_equal(list[index].as_str(), root, windows) {
            proof {
                assert(texts(before)[index as int] == list@[index as int]@);
            }
            return;
        }
        index = index + 1;
    }
    list.push(root.to_owned());
    proof {
        assert(texts(list@) =~= texts(before).push(root@));
    }
}

/// The roots of some panes' projects, in the order of the panes.
pub open spec fn root_texts(roots: IdMap<String>, panes: Seq<u64>) -> Seq<Seq<char>>
    decreases panes.len(),
{
    if panes.len() == 0 {
        Seq::empty()
    } else {
        let before = root_texts(roots, panes.drop_last());
        match roots.value_of(panes.last()) {
            Some(root) => before.push(root@),
            None => before,
        }
    }
}

/// The roots whose projects are read again, each once. `panes` are the panes for
/// whose roots their own file counts.
pub fn roots_to_read(projects: &ProjectState, panes: &Vec<u64>) -> (result: Vec<String>)
    ensures
        texts(result@) == distinct_roots(
            root_texts(projects.pane_roots, panes@),
            projects.registry.windows,
        ),
{
    let windows = projects.registry.windows;
    let mut roots: Vec<String> = Vec::new();
    let mut index: usize = 0;
    proof {
        assert(panes@.take(0) == Seq::<u64>::empty());
        assert(texts(roots@) =~= Seq::<Seq<char>>::empty());
    }
    while index < panes.len()
        invariant
            index <= panes@.len(),
            windows == projects.registry.windows,
            texts(roots@) == distinct_roots(
                root_texts(projects.pane_roots, panes@.take(index as int)),
                windows,
            ),
        decreases panes@.len() - index,
    {
        proof {
            let longer = panes@.take(index + 1);
            assert(longer.drop_last() == panes@.take(index as int));
            assert(longer.last() == panes@[index as int]);
        }
        if let Some(root) = projects.pane_roots.get(panes[index]) {
            proof {
                let before = root_texts(projects.pane_roots, panes@.take(index as int));
                assert(before.push(root@).drop_last() == before);
            }
            push_distinct(&mut roots, root.as_str(), windows);
        }
        index = index + 1;
    }
    proof {
        assert(panes@.take(index as int) == panes@);
    }
    roots
}

/// What is said of a root that is no project.
pub open spec fn not_registered_text(root: Seq<char>) -> Seq<char> {
    root + " is not a registered Zetta project"@
}

/// What is said of a project that could not be opened.
pub open spec fn not_opened_text(root: Seq<char>, error: Seq<char>) -> Seq<char> {
    "Could not open project "@ + root + ": "@ + error
}

/// What is said of a project without a profile to open.
pub open spec fn no_profile_text(root: Seq<char>) -> Seq<char> {
    "Project "@ + root + " has no available default profile"@
}

/// What is said of a project that could not be read again.
pub open spec fn not_reread_text(root: Seq<char>, error: Seq<char>, windows: bool) -> Seq<char> {
    "Could not reload project configuration "@ + config_file_of(root, windows) + ": "@ + error
}

/// What is said of an offered project that could not be added.
pub open spec fn not_added_text(root: Seq<char>, error: Seq<char>) -> Seq<char> {
    "Could not add project "@ + root + ": "@ + error
}

fn told(lead: &str, subject: &str, error: &str) -> (result: String)
    ensures
        result@ == lead@ + subject@ + ": "@ + error@,
{
    let mut text = joined(lead, subject);
    text.push_str(": ");
    text.push_str(error);
    text
}

impl Zetta {
    /// Whether nothing differs but the error that is shown.
    pub open spec fn only_says(self, before: Zetta, error: Seq<char>) -> bool {
        &&& self == (Zetta {
            mux: MuxControl { configuration_error: self.mux.configuration_error, ..before.mux },
            ..before
        })
        &&& optional_text(self.mux.configuration_error) == Some(error)
    }

    /// The root by which a project is opened: as it was given where it is
    /// registered so, else its canonical form, where it has one.
    pub fn open_project(&self, root: String, canonical: Option<String>) -> (result: String)
        ensures
            result == match canonical {
                Some(canonical) if !self.projects.registry.registers(root@) => canonical,
                _ => root,
            },
    {
        if self.projects.registry.contains(root.as_str()) {
            root
        } else {
            match canonical {
                Some(canonical) => canonical,
                None => root,
            }
        }
    }

    /// The root whose project file is read to open a project's tab, which is
    /// none where the project is not registered. `resolved` is the root whose
    /// file counts for the tab's directory, where it has one.
    pub fn open_project_tab_with_working_directory(
        &mut self,
        root: String,
        resolved: Option<String>,
    ) -> (result: Option<String>)
        ensures
            if old(self).projects.registry.registers(root@) {
                &&& *final(self) == *old(self)
                &&& result == Some(
                    match resolved {
                        Some(resolved) => resolved,
                        None => root,
                    },
                )
            } else {
                &&& result is None
                &&& final(self).only_says(*old(self), not_registered_text(root@))
            },
    {
        if !self.projects.registry.contains(root.as_str()) {
            self.mux.configuration_error = Some(
                joined(root.as_str(), " is not a registered Zetta project"),
            );
            return None;
        }
        match resolved {
            Some(resolved) => Some(resolved),
            None => Some(root),
        }
    }

    /// The root whose project file is read to open a project's tab in the
    /// project's own directory.
    pub fn open_project_tab(&mut self, root: String) -> (result: Option<String>)
        ensures
            if old(self).projects.registry.registers(root@) {
                *final(self) == *old(self) && result == Some(root)
            } else {
                &&& result is None
                &&& final(self).only_says(*old(self), not_registered_text(root@))
            },
    {
        self.open_project_tab_with_working_directory(root, None)
    }

    /// Says that a project could not be opened.
    pub fn project_not_opened(&mut self, config_root: &str, error: &str)
        ensures
            final(self).only_says(*old(self), not_opened_text(config_root@, error@)),
    {
        self.mux.configuration_error = Some(told("Could not open project ", config_root, error));
    }

    /// Keeps a project that was read, and gives the profile that its tab is
    /// opened with.
    pub fn open_loaded_project_tab(&mut self, project: ProjectConfig) -> (result: Option<Profile>)
        requires
            old(self).wf(),
        ensures
            final(self).wf(),
            ({
                let chosen = project.effective.default_profile;
                let profiles = project.effective.profiles@;
                &&& *final(self) == (Zetta {
                    projects: ProjectState {
                        configs: final(self).projects.configs,
                        ..old(self).projects
                    },
                    mux: MuxControl {
                        configuration_error: final(self).mux.configuration_error,
                        ..old(self).mux
                    },
                    ..*old(self)
                })
                &&& forall|root: Seq<char>| #[trigger]
                    final(self).projects.config_at(root) == if same_spelling(
                        project.root@,
                        root,
                        old(self).projects.registry.windows,
                    ) {
                        Some(project)
                    } else {
                        old(self).projects.config_at(root)
                    }
                &&& if chosen < profiles.len() {
                    &&& result matches Some(profile) && profile.same(profiles[chosen as int])
                    &&& final(self).mux.configuration_error == old(self).mux.configuration_error
                } else {
                    &&& result is None
                    &&& optional_text(final(self).mux.configuration_error) == Some(
                        no_profile_text(project.root@),
                    )
                }
            }),
    {
        let chosen = project.effective.default_profile;
        let profile = if chosen < project.effective.profiles.len() {
            Some(project.effective.profiles[chosen].duplicate())
        } else {
            let mut text = joined("Project ", project.root.as_str());
            text.push_str(" has no available default profile");
            self.mux.configuration_error = Some(text);
            None
        };
        self.projects.insert_config(project);
        profile
    }

    /// Takes over a registry that was read again, after which every project is
    /// looked for anew.
    pub fn adopt_registry(&mut self, registry: ProjectRegistry)
        requires
            old(self).wf(),
            registry.windows == old(self).projects.registry.windows,
        ensures
            final(self).wf(),
            *final(self) == (Zetta {
                projects: ProjectState {
                    registry,
                    active_context: None,
                    detections: final(self).projects.detections,
                    ..old(self).projects
                },
                ..*old(self)
            }),
            forall|pane_id: u64| final(self).projects.detections.value_of(pane_id) is None,
    {
        self.projects.registry = registry;
        self.projects.active_context = None;
        self.projects.invalidate_detections();
    }

    /// Takes what came of reading a root's project again: a project that
    /// cannot be read is forgotten, and the window says so.
    pub fn take_reread_project(&mut self, root: &str, read: Result<ProjectConfig, String>)
        requires
            old(self).wf(),
        ensures
            final(self).wf(),
            match read {
                Ok(project) => {
                    &&& *final(self) == (Zetta {
                        projects: ProjectState {
                            configs: final(self).projects.configs,
                            ..old(self).projects
                        },
                        ..*old(self)
                    })
                    &&& forall|other: Seq<char>| #[trigger]
                        final(self).projects.config_at(other) == if same_spelling(
                            project.root@,
                            other,
                            old(self).projects.registry.windows,
                        ) {
                            Some(project)
                        } else {
                            old(self).projects.config_at(other)
                        }
                },
                Err(error) => {
                    &&& *final(self) == (Zetta {
                        projects: ProjectState {
                            configs: final(self).projects.configs,
                            ..old(self).projects
                        },
                        mux: MuxControl {
                            configuration_error: final(self).mux.configuration_error,
                            ..old(self).mux
                        },
                        ..*old(self)
                    })
                    &&& optional_text(final(self).mux.configuration_error) == Some(
                        not_reread_text(root@, error@, old(self).projects.registry.windows),
                    )
                    &&& forall|other: Seq<char>| #[trigger]
                        final(self).projects.config_at(other) == if same_spelling(
                            root@,
                            other,
                            old(self).projects.registry.windows,
                        ) {
                            None
                        } else {
                            old(self).projects.config_at(other)
                        }
                },
            },
    {
        match read {
            Ok(project) => {
                self.projects.insert_config(project);
            },
            Err(error) => {
                self.projects.remove_config(root);
                let path = project_config_path(root, self.projects.registry.windows);
                self.mux.configuration_error = Some(
                    told("Could not reload project configuration ", path.as_str(), error.as_str()),
                );
            },
        }
    }

    /// Takes a project that was offered for a pane and is registered now. The
    /// pane is in it where it is still there: `resolved` is the root of the
    /// project that its directory is in by the new registry.
    pub fn take_accepted_offer(
        &mut self,
        pane_id: u64,
        registry: ProjectRegistry,
        config: ProjectConfig,
        resolved: &Option<String>,
    )
        requires
            old(self).wf(),
            registry.windows == old(self).projects.registry.windows,
        ensures
            final(self).wf(),
            ({
                let still_inside = old(self).projects.detections.value_of(pane_id) is Some && (
                *resolved matches Some(resolved) && same_path(
                    resolved@,
                    config.root@,
                    registry.windows,
                ));
                &&& *final(self) == (Zetta {
                    projects: ProjectState {
                        registry,
                        configs: final(self).projects.configs,
                        pane_roots: final(self).projects.pane_roots,
                        offer: None,
                        ..old(self).projects
                    },
                    ..*old(self)
                })
                &&& forall|other: Seq<char>| #[trigger]
                    final(self).projects.config_at(other) == if same_spelling(
                        config.root@,
                        other,
                        registry.windows,
                    ) {
                        Some(config)
                    } else {
                        old(self).projects.config_at(other)
                    }
                &&& still_inside ==> optional_text(
                    final(self).projects.pane_roots.value_of(pane_id),
                ) == Some(config.root@) && final(self).projects.config_of(pane_id) == Some(config)
                &&& !still_inside ==> final(self).projects.pane_roots
                    == old(self).projects.pane_roots
                &&& forall|other: u64|
                    other != pane_id ==> #[trigger] final(self).projects.pane_roots.value_of(other)
                        == old(self).projects.pane_roots.value_of(other)
            }),
    {
        let windows = registry.windows;
        self.projects.registry = registry;
        proof {
            assert forall|other: Seq<char>|
                self.projects.config_at(other) == #[trigger] old(self).projects.config_at(
                    other,
                ) by {}
        }
        let root = config.root.clone();
        self.projects.insert_config(config);
        let ghost kept = self.projects;
        let inside = match resolved {
            Some(resolved) => paths_equal(resolved.as_str(), root.as_str(), windows),
            None => false,
        };
        if inside && self.projects.detections.get(pane_id).is_some() {
            self.projects.pane_roots.insert(pane_id, root);
        }
        self.projects.offer = None;
        proof {
            assert forall|other: Seq<char>|
                #[trigger] self.projects.config_at(other) == kept.config_at(other) by {}
            assert forall|other: Seq<char>|
                #[trigger] self.projects.config_near(other) == kept.config_near(other) by {}
        }
    }

    /// Says that a project that was offered could not be added.
    pub fn offer_not_taken(&mut self, root: &str, error: &str)
        ensures
            final(self).only_says(*old(self), not_added_text(root@, error@)),
    {
        self.mux.configuration_error = Some(told("Could not add project ", root, error));
    }

    /// Takes back an offer, for good.
    pub fn dismiss_project_offer(&mut self)
        requires
            old(self).wf(),
        ensures
            final(self).wf(),
            texts(final(self).projects.dismissed_offers@) == match old(self).projects.offer {
                Some(offer) => texts(old(self).projects.dismissed_offers@).push(
                    key_of(offer.root@, old(self).projects.registry.windows),
                ),
                None => texts(old(self).projects.dismissed_offers@),
            },
            *final(self) == (Zetta {
                projects: ProjectState {
                    offer: None,
                    dismissed_offers: final(self).projects.dismissed_offers,
                    ..old(self).projects
                },
                ..*old(self)
            }),
    {
        self.projects.dismiss_offer();
    }

    /// The panes whose projects are looked for when all are, by tab.
    pub fn panes_to_look_at(&self) -> (result: Vec<(u64, u64)>)
        ensures
            result@ == all_panes(self.tabs@),
    {
        let mut list: Vec<(u64, u64)> = Vec::new();
        let mut index: usize = 0;
        proof {
            assert(self.tabs@.take(0) == Seq::<Tab>::empty());
        }
        while index < self.tabs.len()
            invariant
                index <= self.tabs@.len(),
                list@ == all_panes(self.tabs@.take(index as int)),
            decreases self.tabs@.len() - index,
        {
            let tab = &self.tabs[index];
            let ghost before = list@;
            let mut position: usize = 0;
            while position < tab.panes.len()
                invariant
                    position <= tab.panes@.len(),
                    list@ == before + panes_of(*tab).take(position as int),
                decreases tab.panes@.len() - position,
            {
                list.push((tab.id, tab.panes[position].id));
                position = position + 1;
                proof {
                    assert(list@ =~= before + panes_of(*tab).take(position as int));
                }
            }
            proof {
                let longer = self.tabs@.take(index + 1);
                assert(longer.drop_last() == self.tabs@.take(index as int));
                assert(longer.last() == *tab);
                assert(panes_of(*tab).take(position as int) =~= panes_of(*tab));
            }
            index = index + 1;
        }
        proof {
            assert(self.tabs@.take(index as int) == self.tabs@);
        }
        list
    }
}

/// The panes of a tab, each with the tab.
pub open spec fn panes_of(tab: Tab) -> Seq<(u64, u64)> {
    Seq::new(tab.panes@.len(), |i: int| (tab.id, tab.panes@[i].id))
}

/// The panes of tabs, each with its tab.
pub open spec fn all_panes(tabs: Seq<Tab>) -> Seq<(u64, u64)>
    decreases tabs.len(),
{
    if tabs.len() == 0 {
        Seq::empty()
    } else {
        all_panes(tabs.drop_last()) + panes_of(tabs.last())
    }
}

} // verus!
