//! Finding the project that a pane is in.

use vstd::prelude::*;

use crate::project::config::{config_file_of, project_config_path, ProjectConfig};
use crate::project::paths::{key_of, paths_equal, same_path, same_spelling};
use crate::project::registry::{has_root, ProjectRegistry};
use crate::project::ProjectRootResolution;
use crate::project_context::{some_pane_in, ProjectOffer, ProjectState};
use crate::text::{clone_optional, joined, optional_text, texts};

verus! {

/// What has to be done to know a directory's project.
#[derive(Debug, PartialEq, Eq)]
pub enum DetectionPlan {
    /// The directory is in a registered project, whose file has to be read
    /// unless it was.
    Registered { root: String, config_root: String, load: bool },
    /// The directory is in none: it may be in one that could be.
    Unregistered,
}

/// Whether some list of roots has one.
pub open spec fn is_loaded(roots: Seq<String>, root: Seq<char>, windows: bool) -> bool {
    exists|i: int| 0 <= i < roots.len() && same_path((#[trigger] roots[i])@, root, windows)
}

/// What has to be done to know a directory's project. See [`DetectionPlan`].
pub fn plan_detection(
    resolution: ProjectRootResolution,
    loaded_roots: &Vec<String>,
    windows: bool,
) -> (result: DetectionPlan)
    ensures
        match resolution.root {
            None => result == DetectionPlan::Unregistered,
            Some(found) => result matches DetectionPlan::Registered { root, config_root, load } && {
                &&& root@ == found@
                &&& config_root@ == match resolution.config_root {
                    Some(config_root) => config_root@,
                    None => found@,
                }
                &&& load == !is_loaded(loaded_roots@, config_root@, windows)
            },
        },
{
    let root = match resolution.root {
        Some(root) => root,
        None => {
            return DetectionPlan::Unregistered;
        },
    };
    let config_root = match resolution.config_root {
        Some(config_root) => config_root,
        None => root.clone(),
    };
    let mut load = true;
    let mut index: usize = 0;
    while index < loaded_roots.len()
        invariant
            index <= loaded_roots@.len(),
            load == !(exists|i: int|
                0 <= i < index && same_path(
                    (#[trigger] loaded_roots@[i])@,
                    config_root@,
                    windows,
                )),
        decreases loaded_roots@.len() - index,
    {
        if paths_equal(loaded_roots[index].as_str(), config_root.as_str(), windows) {
            load = false;
        }
        index = index + 1;
    }
    DetectionPlan::Registered { root, config_root, load }
}

/// What is known of a directory's project.
#[derive(Debug, PartialEq, Eq)]
pub struct ProjectDetectionResult {
    pub registered_root: Option<String>,
    pub config_root: Option<String>,
    pub config: Option<Result<ProjectConfig, String>>,
    pub offer_root: Option<String>,
}

impl ProjectDetectionResult {
    /// The root whose file counts.
    pub open spec fn counted_root(self) -> Option<Seq<char>> {
        match (self.registered_root, self.config_root) {
            (Some(_), Some(config_root)) => Some(config_root@),
            (Some(root), None) => Some(root@),
            (None, _) => None,
        }
    }
}

/// What came of an answer.
#[derive(Debug, PartialEq, Eq)]
pub enum DetectionOutcome {
    /// The answer is about a directory that the pane has left.
    Stale,
    /// The answer counts, with an error where the project's file could not be
    /// read.
    Applied { error: Option<String> },
}

/// An offer, unless it is about a project that is registered by now.
pub open spec fn offer_besides(
    offer: Option<ProjectOffer>,
    result: ProjectDetectionResult,
    windows: bool,
) -> Option<ProjectOffer> {
    match (offer, result.registered_root, result.config) {
        (Some(offer), Some(root), Some(Ok(_))) if same_path(offer.root@, root@, windows) => None,
        _ => offer,
    }
}

/// An offer, unless it is a pane's that is somewhere else by now.
pub open spec fn offer_still_made(
    offer: Option<ProjectOffer>,
    pane_id: u64,
    offer_root: Option<String>,
    windows: bool,
) -> Option<ProjectOffer> {
    match offer {
        Some(made) if made.pane_id == pane_id => match offer_root {
            Some(root) if same_path(root@, made.root@, windows) => offer,
            _ => None,
        },
        _ => offer,
    }
}

/// The offer after an answer. `registered` says whether the root that could be
/// offered is in a registered project.
pub open spec fn offer_after(
    offer: Option<ProjectOffer>,
    pane_id: u64,
    result: ProjectDetectionResult,
    registered: bool,
    dismissed: Seq<Seq<char>>,
    windows: bool,
) -> Option<ProjectOffer> {
    match result.offer_root {
        Some(root) if !registered && !dismissed.contains(key_of(root@, windows)) => Some(
            ProjectOffer { root, pane_id },
        ),
        _ => offer_still_made(
            offer_besides(offer, result, windows),
            pane_id,
            result.offer_root,
            windows,
        ),
    }
}

/// What is said of a project's file that could not be read.
pub open spec fn unread_project_text(root: Seq<char>, error: Seq<char>, windows: bool) -> Seq<char> {
    "Could not load project configuration "@ + config_file_of(root, windows) + ": "@ + error
}

fn unread_project_error(root: &str, error: &str, windows: bool) -> (result: String)
    ensures
        result@ == unread_project_text(root@, error@, windows),
{
    let path = project_config_path(root, windows);
    let mut text = joined("Could not load project configuration ", path.as_str());
    text.push_str(": ");
    text.push_str(error);
    text
}

impl ProjectState {
    /// Whether an answer is about what was last asked for a pane.
    pub open spec fn awaits(self, pane_id: u64, directory: Seq<char>, generation: u64) -> bool {
        match self.detections.value_of(pane_id) {
            Some(state) => state.generation == generation && same_path(
                state.directory@,
                directory,
                self.registry.windows,
            ),
            None => false,
        }
    }

    /// Whether a directory is another than a pane's project was last looked for
    /// in.
    pub open spec fn looks_elsewhere(self, pane_id: u64, directory: Seq<char>) -> bool {
        match self.detections.value_of(pane_id) {
            Some(state) => !same_path(state.directory@, directory, self.registry.windows),
            None => true,
        }
    }

    /// Whether a pane is in a project other than the one whose root counts for
    /// its directory.
    pub open spec fn left_by(self, pane_id: u64, resolved: Option<Seq<char>>) -> bool {
        match (self.pane_roots.value_of(pane_id), resolved) {
            (Some(root), Some(resolved)) => !same_path(resolved, root@, self.registry.windows),
            (Some(_), None) => true,
            (None, _) => false,
        }
    }

    fn take_registered(
        &mut self,
        pane_id: u64,
        registered_root: &str,
        config_root: String,
        config: Option<Result<ProjectConfig, String>>,
    ) -> (result: Option<String>)
        requires
            old(self).wf(),
        ensures
            final(self).wf(),
            *final(self) == (ProjectState {
                pane_roots: final(self).pane_roots,
                configs: final(self).configs,
                offer: final(self).offer,
                ..*old(self)
            }),
            forall|other: u64| #[trigger]
                final(self).pane_roots.value_of(other) == if other == pane_id {
                    Some(config_root)
                } else {
                    old(self).pane_roots.value_of(other)
                },
            forall|root: Seq<char>| #[trigger]
                final(self).config_at(root) == match config {
                    Some(Ok(project)) if same_spelling(
                        project.root@,
                        root,
                        old(self).registry.windows,
                    ) => Some(project),
                    Some(Err(_)) if same_spelling(
                        config_root@,
                        root,
                        old(self).registry.windows,
                    ) => None,
                    _ => old(self).config_at(root),
                },
            optional_text(result) == match config {
                Some(Err(error)) => Some(
                    unread_project_text(config_root@, error@, old(self).registry.windows),
                ),
                _ => None,
            },
            final(self).offer == match (old(self).offer, config) {
                (Some(offer), Some(Ok(_))) if same_path(
                    offer.root@,
                    registered_root@,
                    old(self).registry.windows,
                ) => None,
                _ => old(self).offer,
            },
    {
        let ghost before = *self;
        let root = config_root.clone();
        self.pane_roots.insert(pane_id, config_root);
        let ghost placed = *self;
        proof {
            assert forall|root: Seq<char>| #[trigger] placed.config_at(root) == before.config_at(
                root,
            ) by {}
        }
        match config {
            Some(Ok(project)) => {
                self.insert_config(project);
                proof {
                    assert forall|root: Seq<char>| #[trigger]
                        self.config_at(root) == if same_spelling(
                            project.root@,
                            root,
                            before.registry.windows,
                        ) {
                            Some(project)
                        } else {
                            before.config_at(root)
                        } by {
                        assert(placed.config_at(root) == before.config_at(root));
                    }
                }
                let settled = match &self.offer {
                    Some(offer) => paths_equal(
                        offer.root.as_str(),
                        registered_root,
                        self.registry.windows,
                    ),
                    None => false,
                };
                let ghost inserted = *self;
                if settled {
                    self.offer = None;
                }
                proof {
                    assert forall|root: Seq<char>| #[trigger]
                        self.config_at(root) == inserted.config_at(root) by {}
                }
                None
            },
            Some(Err(error)) => {
                self.remove_config(root.as_str());
                proof {
                    assert forall|other: Seq<char>| #[trigger]
                        self.config_at(other) == if same_spelling(
                            root@,
                            other,
                            before.registry.windows,
                        ) {
                            None
                        } else {
                            before.config_at(other)
                        } by {
                        assert(placed.config_at(other) == before.config_at(other));
                    }
                }
                Some(unread_project_error(root.as_str(), error.as_str(), self.registry.windows))
            },
            None => None,
        }
    }

    /// Takes what is known of a directory's project, where the pane is still
    /// there. `registered` says whether the root that could be offered is in a
    /// registered project.
    pub fn apply_project_detection(
        &mut self,
        pane_id: u64,
        directory: &str,
        generation: u64,
        result: ProjectDetectionResult,
        registered: bool,
    ) -> (outcome: DetectionOutcome)
        requires
            old(self).wf(),
        ensures
            final(self).wf(),
            !old(self).awaits(pane_id, directory@, generation) ==> outcome
                == DetectionOutcome::Stale && *final(self) == *old(self),
            old(self).awaits(pane_id, directory@, generation) ==> {
                &&& outcome is Applied
                &&& optional_text(outcome->error) == match (result.counted_root(), result.config) {
                    (Some(root), Some(Err(error))) => Some(
                        unread_project_text(root, error@, old(self).registry.windows),
                    ),
                    _ => None,
                }
                &&& *final(self) == (ProjectState {
                    pane_roots: final(self).pane_roots,
                    configs: final(self).configs,
                    offer: final(self).offer,
                    ..*old(self)
                })
                &&& final(self).offer == offer_after(
                    old(self).offer,
                    pane_id,
                    result,
                    registered,
                    texts(old(self).dismissed_offers@),
                    old(self).registry.windows,
                )
                &&& optional_text(final(self).pane_roots.value_of(pane_id))
                    == result.counted_root()
                &&& forall|other: u64|
                    other != pane_id ==> #[trigger] final(self).pane_roots.value_of(other) == old(
                        self,
                    ).pane_roots.value_of(other)
                &&& result.counted_root() matches Some(counted) ==> forall|root: Seq<char>|
                    #[trigger]
                    final(self).config_at(root) == match result.config {
                        Some(Ok(project)) if same_spelling(
                            project.root@,
                            root,
                            old(self).registry.windows,
                        ) => Some(project),
                        Some(Err(_)) if same_spelling(
                            counted,
                            root,
                            old(self).registry.windows,
                        ) => None,
                        _ => old(self).config_at(root),
                    }
                &&& result.counted_root() is None ==> forall|root: Seq<char>| #[trigger]
                    final(self).config_at(root) == match old(self).pane_roots.value_of(pane_id) {
                        Some(left) if same_spelling(left@, root, old(self).registry.windows)
                            && !some_pane_in(
                            final(self).pane_roots,
                            left@,
                            old(self).registry.windows,
                        ) => None,
                        _ => old(self).config_at(root),
                    }
            },
    {
        let windows = self.registry.windows;
        let awaited = match self.detections.get(pane_id) {
            Some(state) => state.generation == generation && paths_equal(
                state.directory.as_str(),
                directory,
                windows,
            ),
            None => false,
        };
        if !awaited {
            return DetectionOutcome::Stale;
        }
        let ghost before = *self;
        let error = match result.registered_root {
            Some(registered_root) => {
                let config_root = match result.config_root {
                    Some(config_root) => config_root,
                    None => registered_root.clone(),
                };
                self.take_registered(
                    pane_id,
                    registered_root.as_str(),
                    config_root,
                    result.config,
                )
            },
            None => {
                self.clear_pane_root(pane_id);
                None
            },
        };
        let ghost taken = *self;
        let elsewhere = match &self.offer {
            Some(offer) => offer.pane_id == pane_id && match &result.offer_root {
                Some(root) => !paths_equal(root.as_str(), offer.root.as_str(), windows),
                None => true,
            },
            None => false,
        };
        if elsewhere {
            self.offer = None;
        }
        if let Some(root) = result.offer_root {
            if !registered && !self.offer_is_dismissed(root.as_str()) {
                self.offer = Some(ProjectOffer { root, pane_id });
            }
        }
        proof {
            assert forall|root: Seq<char>| #[trigger] self.config_at(root) == taken.config_at(
                root,
            ) by {}
        }
        DetectionOutcome::Applied { error }
    }

    /// Takes a pane out of a project that its directory is not in any more.
    /// `resolved` is the root whose file counts for the directory. Returns
    /// whether the pane left its project.
    pub fn leave_project_if_moved(&mut self, pane_id: u64, resolved: &Option<String>) -> (result: bool)
        requires
            old(self).wf(),
        ensures
            final(self).wf(),
            result == old(self).left_by(pane_id, optional_text(*resolved)),
            !result ==> *final(self) == *old(self),
            result ==> {
                &&& final(self).pane_roots.value_of(pane_id) is None
                &&& forall|other: u64|
                    other != pane_id ==> #[trigger] final(self).pane_roots.value_of(other) == old(
                        self,
                    ).pane_roots.value_of(other)
                &&& final(self).offer == match old(self).offer {
                    Some(offer) if offer.pane_id == pane_id => None,
                    _ => old(self).offer,
                }
                &&& *final(self) == (ProjectState {
                    pane_roots: final(self).pane_roots,
                    configs: final(self).configs,
                    active_context: None,
                    offer: final(self).offer,
                    ..*old(self)
                })
                &&& forall|root: Seq<char>| #[trigger]
                    final(self).config_at(root) == match old(self).pane_roots.value_of(pane_id) {
                        Some(left) if same_spelling(left@, root, old(self).registry.windows)
                            && !some_pane_in(
                            final(self).pane_roots,
                            left@,
                            old(self).registry.windows,
                        ) => None,
                        _ => old(self).config_at(root),
                    }
            },
    {
        let windows = self.registry.windows;
        let left = match self.pane_roots.get(pane_id) {
            Some(root) => match resolved {
                Some(resolved) => !paths_equal(resolved.as_str(), root.as_str(), windows),
                None => true,
            },
            None => false,
        };
        if !left {
            return false;
        }
        self.clear_pane_root(pane_id);
        let ghost cleared = *self;
        self.active_context = None;
        let about_pane = match &self.offer {
            Some(offer) => offer.pane_id == pane_id,
            None => false,
        };
        if about_pane {
            self.offer = None;
        }
        proof {
            assert forall|root: Seq<char>| #[trigger] self.config_at(root) == cleared.config_at(
                root,
            ) by {}
        }
        true
    }

    /// Makes a tab's project current, unless it was last. Returns whether
    /// anything follows from it.
    pub fn begin_activation(&mut self, tab_id: u64, pane_id: u64) -> (result: bool)
        requires
            old(self).wf(),
        ensures
            final(self).wf(),
            *final(self) == (ProjectState {
                active_context: Some(
                    (
                        tab_id,
                        match old(self).config_of(pane_id) {
                            Some(project) => Some(project.identity),
                            None => None,
                        },
                    ),
                ),
                ..*old(self)
            }),
            result == (final(self).active_context != old(self).active_context),
    {
        let identity: Option<u64> = match self.config_for_pane(pane_id) {
            Some(project) => Some(project.identity),
            None => None,
        };
        let same = match self.active_context {
            Some((tab, project)) => tab == tab_id && match (project, identity) {
                (Some(left), Some(right)) => left == right,
                (None, None) => true,
                _ => false,
            },
            None => false,
        };
        self.active_context = Some((tab_id, identity));
        !same
    }

    /// The split that a project asks for when a tab comes into it for the
    /// first time.
    pub fn initial_split_on_entry(&mut self, tab_id: u64, pane_id: u64) -> (result: Option<String>)
        requires
            old(self).wf(),
        ensures
            final(self).wf(),
            *final(self) == (ProjectState { entered: final(self).entered, ..*old(self) }),
            optional_text(result) == match old(self).config_of(pane_id) {
                Some(project) => if crate::project_context::has_entered(
                    old(self).entered@,
                    tab_id,
                    key_of(project.root@, old(self).registry.windows),
                ) {
                    None
                } else {
                    optional_text(project.initial_split)
                },
                None => None,
            },
            old(self).config_of(pane_id) matches Some(project)
                ==> crate::project_context::has_entered(
                final(self).entered@,
                tab_id,
                key_of(project.root@, old(self).registry.windows),
            ),
            crate::project_context::entered_view(final(self).entered@) == match old(
                self,
            ).config_of(pane_id) {
                Some(project) if !crate::project_context::has_entered(
                    old(self).entered@,
                    tab_id,
                    key_of(project.root@, old(self).registry.windows),
                ) => crate::project_context::entered_view(old(self).entered@).push(
                    (tab_id, key_of(project.root@, old(self).registry.windows)),
                ),
                _ => crate::project_context::entered_view(old(self).entered@),
            },
    {
        let (root, split) = match self.config_for_pane(pane_id) {
            Some(project) => (project.root.clone(), clone_optional(&project.initial_split)),
            None => {
                return None;
            },
        };
        let ghost before = crate::project_context::entered_view(self.entered@);
        let first = self.mark_entered(tab_id, root.as_str());
        proof {
            if first {
                let after = crate::project_context::entered_view(self.entered@);
                assert(after[before.len() as int] == (tab_id, key_of(
                    root@,
                    self.registry.windows,
                )));
            }
        }
        if first {
            split
        } else {
            None
        }
    }
}

/// The roots of a registry that another lacks.
pub open spec fn roots_lacking(roots: Seq<Seq<char>>, other: Seq<Seq<char>>, windows: bool) -> Seq<
    Seq<char>,
>
    decreases roots.len(),
{
    if roots.len() == 0 {
        Seq::empty()
    } else {
        let before = roots_lacking(roots.drop_last(), other, windows);
        if has_root(other, roots.last(), windows) {
            before
        } else {
            before.push(roots.last())
        }
    }
}

/// The projects that a newly read registry has no more.
pub fn removed_roots(before: &ProjectRegistry, after: &ProjectRegistry) -> (result: Vec<String>)
    ensures
        texts(result@) == roots_lacking(before.view(), after.view(), after.windows),
{
    let mut removed: Vec<String> = Vec::new();
    let mut index: usize = 0;
    let ghost all = before.view();
    proof {
        assert(all.take(0) == Seq::<Seq<char>>::empty());
        assert(texts(removed@) =~= Seq::<Seq<char>>::empty());
    }
    while index < before.roots.len()
        invariant
            index <= before.roots@.len(),
            all == texts(before.roots@),
            texts(removed@) == roots_lacking(all.take(index as int), after.view(), after.windows),
        decreases before.roots@.len() - index,
    {
        proof {
            let longer = all.take(index + 1);
            assert(longer.drop_last() == all.take(index as int));
            assert(longer.last() == before.roots@[index as int]@);
        }
        if !after.contains(before.roots[index].as_str()) {
            let ghost shown = removed@;
            removed.push(before.roots[index].clone());
            proof {
                assert(texts(removed@) =~= texts(shown).push(before.roots@[index as int]@));
            }
        }
        index = index + 1;
    }
    proof {
        assert(all.take(index as int) == all);
    }
    removed
}

/// An answer counts only for the directory that was last asked about: one that
/// came to an older question changes nothing.
pub proof fn law_older_answer_does_not_count(
    state: ProjectState,
    pane_id: u64,
    directory: Seq<char>,
    generation: u64,
)
    requires
        state.detections.value_of(pane_id) matches Some(asked) && asked.generation != generation,
    ensures
        !state.awaits(pane_id, directory, generation),
{
}

} // verus!
