//! Which project each pane is in, and what follows from it.

use vstd::prelude::*;

use crate::id_map::IdMap;
use crate::pane::tab::IconName;
use crate::project::config::ProjectConfig;
use crate::project::paths::{
    key_of, paths_equal, project_key, same_path, same_spelling, spellings_equal,
};
use crate::project::registry::ProjectRegistry;
use crate::text::{list_contains, optional_text, same_text, texts};

pub mod activation;
pub mod detection;
pub mod icons;
pub mod laws;
pub mod opening;
pub mod themes;
pub mod window;
pub mod wsl;

verus! {

/// A project that is not registered and could be.
#[derive(Debug, PartialEq, Eq)]
pub struct ProjectOffer {
    pub root: String,
    pub pane_id: u64,
}

/// Which directory a pane's project was last looked for in.
#[derive(Debug, PartialEq, Eq)]
pub struct ProjectDetectionState {
    pub directory: String,
    pub generation: u64,
}

/// The projects of a window.
#[derive(Debug, PartialEq, Eq)]
pub struct ProjectState {
    pub registry: ProjectRegistry,
    /// The projects that were read. No root occurs twice in one spelling.
    pub configs: Vec<ProjectConfig>,
    /// The root of each pane's project.
    pub pane_roots: IdMap<String>,
    pub detections: IdMap<ProjectDetectionState>,
    pub next_detection_generation: u64,
    /// The projects that tabs have been in, by tab and key.
    pub entered: Vec<(u64, String)>,
    /// The icons that tabs had before a project gave them its own.
    pub inherited_tab_icons: IdMap<Option<IconName>>,
    /// The tab and the project that were last made current.
    pub active_context: Option<(u64, Option<u64>)>,
    /// The offers that are not made again, by key.
    pub dismissed_offers: Vec<String>,
    pub offer: Option<ProjectOffer>,
}

/// The project of a root among some.
pub open spec fn config_in(configs: Seq<ProjectConfig>, root: Seq<char>, windows: bool) -> Option<
    ProjectConfig,
>
    decreases configs.len(),
{
    if configs.len() == 0 {
        None
    } else if same_spelling(configs.last().root@, root, windows) {
        Some(configs.last())
    } else {
        config_in(configs.drop_last(), root, windows)
    }
}

/// The last of some projects whose root is the given one, whatever its spelling.
pub open spec fn config_like(configs: Seq<ProjectConfig>, root: Seq<char>, windows: bool) -> Option<
    ProjectConfig,
>
    decreases configs.len(),
{
    if configs.len() == 0 {
        None
    } else if same_path(configs.last().root@, root, windows) {
        Some(configs.last())
    } else {
        config_like(configs.drop_last(), root, windows)
    }
}

/// A project is found by its root, whatever its spelling, where there is one.
/// Off Windows it is the one that was read from the root as it is spelled.
pub proof fn law_projects_are_found(configs: Seq<ProjectConfig>, root: Seq<char>, windows: bool)
    ensures
        match config_like(configs, root, windows) {
            Some(config) => configs.contains(config) && same_path(config.root@, root, windows),
            None => forall|i: int|
                0 <= i < configs.len() ==> !same_path((#[trigger] configs[i]).root@, root, windows),
        },
        !windows ==> config_like(configs, root, windows) == config_in(configs, root, windows),
    decreases configs.len(),
{
    if configs.len() > 0 {
        let shorter = configs.drop_last();
        law_projects_are_found(shorter, root, windows);
        assert(configs[configs.len() - 1] == configs.last());
        if let Some(config) = config_like(shorter, root, windows) {
            let i = choose|i: int| 0 <= i < shorter.len() && shorter[i] == config;
            assert(configs[i] == config);
        }
        if config_like(configs, root, windows) is None {
            assert forall|i: int| 0 <= i < configs.len() implies !same_path(
                (#[trigger] configs[i]).root@,
                root,
                windows,
            ) by {
                if i < shorter.len() {
                    assert(shorter[i] == configs[i]);
                }
            }
        }
    }
}

/// Whether no root occurs twice in one spelling.
pub open spec fn roots_differ(configs: Seq<ProjectConfig>, windows: bool) -> bool {
    forall|i: int, j: int|
        0 <= i < configs.len() && 0 <= j < configs.len() && i != j ==> !same_spelling(
            (#[trigger] configs[i]).root@,
            (#[trigger] configs[j]).root@,
            windows,
        )
}

proof fn lemma_config_at(configs: Seq<ProjectConfig>, index: int, root: Seq<char>, windows: bool)
    requires
        roots_differ(configs, windows),
        0 <= index < configs.len(),
        same_spelling(configs[index].root@, root, windows),
    ensures
        config_in(configs, root, windows) == Some(configs[index]),
    decreases configs.len(),
{
    if index < configs.len() - 1 {
        let shorter = configs.drop_last();
        assert(!same_spelling(configs[index].root@, configs[configs.len() - 1].root@, windows));
        assert forall|i: int, j: int|
            0 <= i < shorter.len() && 0 <= j < shorter.len() && i != j implies !same_spelling(
            (#[trigger] shorter[i]).root@,
            (#[trigger] shorter[j]).root@,
            windows,
        ) by {
            assert(shorter[i] == configs[i] && shorter[j] == configs[j]);
        }
        assert(shorter[index] == configs[index]);
        lemma_config_at(shorter, index, root, windows);
    }
}

proof fn lemma_no_config(configs: Seq<ProjectConfig>, root: Seq<char>, windows: bool)
    requires
        forall|i: int|
            0 <= i < configs.len() ==> !same_spelling((#[trigger] configs[i]).root@, root, windows),
    ensures
        config_in(configs, root, windows) is None,
    decreases configs.len(),
{
    if configs.len() > 0 {
        let shorter = configs.drop_last();
        assert(!same_spelling(configs[configs.len() - 1].root@, root, windows));
        assert forall|i: int| 0 <= i < shorter.len() implies !same_spelling(
            (#[trigger] shorter[i]).root@,
            root,
            windows,
        ) by {
            assert(shorter[i] == configs[i]);
        }
        lemma_no_config(shorter, root, windows);
    }
}

proof fn lemma_config_stands(configs: Seq<ProjectConfig>, root: Seq<char>, windows: bool)
    ensures
        config_in(configs, root, windows) matches Some(config) ==> exists|i: int|
            0 <= i < configs.len() && #[trigger] configs[i] == config && same_spelling(
                config.root@,
                root,
                windows,
            ),
    decreases configs.len(),
{
    if configs.len() > 0 {
        if same_spelling(configs.last().root@, root, windows) {
            assert(configs[configs.len() - 1] == configs.last());
        } else {
            let shorter = configs.drop_last();
            lemma_config_stands(shorter, root, windows);
            if let Some(config) = config_in(shorter, root, windows) {
                let i = choose|i: int| 0 <= i < shorter.len() && #[trigger] shorter[i] == config;
                assert(configs[i] == config);
            }
        }
    }
}

proof fn lemma_removed_config(configs: Seq<ProjectConfig>, index: int, windows: bool)
    requires
        roots_differ(configs, windows),
        0 <= index < configs.len(),
    ensures
        roots_differ(configs.remove(index), windows),
        forall|root: Seq<char>| #[trigger]
            config_in(configs.remove(index), root, windows) == if same_spelling(
                configs[index].root@,
                root,
                windows,
            ) {
                None
            } else {
                config_in(configs, root, windows)
            },
{
    let rest = configs.remove(index);
    assert forall|i: int, j: int|
        0 <= i < rest.len() && 0 <= j < rest.len() && i != j implies !same_spelling(
        (#[trigger] rest[i]).root@,
        (#[trigger] rest[j]).root@,
        windows,
    ) by {
        let a = if i < index {
            i
        } else {
            i + 1
        };
        let b = if j < index {
            j
        } else {
            j + 1
        };
        assert(rest[i] == configs[a] && rest[j] == configs[b]);
    }
    assert forall|root: Seq<char>| #[trigger]
        config_in(rest, root, windows) == if same_spelling(configs[index].root@, root, windows) {
            None
        } else {
            config_in(configs, root, windows)
        } by {
        if same_spelling(configs[index].root@, root, windows) {
            assert forall|i: int| 0 <= i < rest.len() implies !same_spelling(
                (#[trigger] rest[i]).root@,
                root,
                windows,
            ) by {
                let a = if i < index {
                    i
                } else {
                    i + 1
                };
                assert(rest[i] == configs[a]);
                assert(!same_spelling(configs[a].root@, configs[index].root@, windows));
            }
            lemma_no_config(rest, root, windows);
        } else if let Some(config) = config_in(configs, root, windows) {
            lemma_config_stands(configs, root, windows);
            let i = choose|i: int| 0 <= i < configs.len() && #[trigger] configs[i] == config
                && same_spelling(config.root@, root, windows);
            let at = if i < index {
                i
            } else {
                i - 1
            };
            assert(rest[at] == configs[i]);
            lemma_config_at(rest, at, root, windows);
        } else {
            lemma_config_stands(rest, root, windows);
            if let Some(config) = config_in(rest, root, windows) {
                let i = choose|i: int| 0 <= i < rest.len() && #[trigger] rest[i] == config
                    && same_spelling(config.root@, root, windows);
                let a = if i < index {
                    i
                } else {
                    i + 1
                };
                assert(rest[i] == configs[a]);
                lemma_config_at(configs, a, root, windows);
            }
        }
    }
}

/// Whether a pane's root is the given one.
pub open spec fn some_pane_in(roots: IdMap<String>, root: Seq<char>, windows: bool) -> bool {
    exists|id: u64|
        (#[trigger] roots.value_of(id)) matches Some(at) && same_path(at@, root, windows)
}

/// What was read from a root once one more pane was forgotten.
proof fn lemma_forgets_one_more(
    first: ProjectState,
    before: ProjectState,
    after: ProjectState,
    pane_ids: Seq<u64>,
    index: int,
    root: Seq<char>,
)
    requires
        0 <= index < pane_ids.len(),
        after.wf(),
        before.registry == first.registry,
        after.registry == first.registry,
        forall|other: u64| #[trigger]
            before.pane_roots.value_of(other) == if pane_ids.take(index).contains(other) {
                None
            } else {
                first.pane_roots.value_of(other)
            },
        forall|other: u64| #[trigger]
            after.pane_roots.value_of(other) == if other == pane_ids[index] {
                None
            } else {
                before.pane_roots.value_of(other)
            },
        before.config_at(root) == if first.forgets(pane_ids.take(index), root) {
            None
        } else {
            first.config_at(root)
        },
        after.config_at(root) == match before.pane_roots.value_of(pane_ids[index]) {
            Some(left) if same_spelling(left@, root, first.registry.windows) && !some_pane_in(
                after.pane_roots,
                left@,
                first.registry.windows,
            ) => None,
            _ => before.config_at(root),
        },
    ensures
        after.config_at(root) == if first.forgets(pane_ids.take(index + 1), root) {
            None
        } else {
            first.config_at(root)
        },
{
    let windows = first.registry.windows;
    let id = pane_ids[index];
    let shorter = pane_ids.take(index);
    let longer = pane_ids.take(index + 1);
    assert(longer.take(index) =~= shorter);
    assert(longer.take(index + 1) =~= longer);
    assert(longer[index] == id);
    assert forall|other: u64| longer.contains(other) == (shorter.contains(other) || other == id) by {
        if shorter.contains(other) {
            let at = choose|at: int| 0 <= at < shorter.len() && shorter[at] == other;
            assert(longer[at] == other);
        }
        if longer.contains(other) && other != id {
            let at = choose|at: int| 0 <= at < longer.len() && longer[at] == other;
            assert(shorter[at] == other);
        }
    }
    // The panes before are the same.
    assert forall|i: int| 0 <= i < index implies first.forgets_at(shorter, i, root)
        == #[trigger] first.forgets_at(longer, i, root) by {
        assert(shorter.take(i) =~= longer.take(i));
        assert(shorter.take(i + 1) =~= longer.take(i + 1));
        assert(shorter[i] == longer[i]);
    }
    if first.forgets(shorter, root) {
        let i = choose|i: int| #[trigger] first.forgets_at(shorter, i, root);
        assert(first.forgets_at(longer, i, root));
    }
    // The pane itself.
    if let Some(left) = before.pane_roots.value_of(id) {
        assert(first.pane_roots.value_of(id) == Some(left));
        if same_spelling(left@, root, windows) && !some_pane_in(
            after.pane_roots,
            left@,
            windows,
        ) {
            assert forall|other: u64| #[trigger]
                first.pane_is_in(other, left@) implies longer.contains(other) by {
                if !longer.contains(other) {
                    assert(after.pane_roots.value_of(other) == first.pane_roots.value_of(other));
                }
            }
            assert(first.forgets_at(longer, index, root));
        }
    }
    if first.forgets(longer, root) && !first.forgets(shorter, root) {
        let i = choose|i: int| #[trigger] first.forgets_at(longer, i, root);
        if i < index {
            assert(first.forgets_at(shorter, i, root));
        }
        assert(i == index);
        let left = first.pane_roots.value_of(id)->0;
        assert(before.pane_roots.value_of(id) == Some(left));
        if some_pane_in(after.pane_roots, left@, windows) {
            let other = choose|other: u64|
                (#[trigger] after.pane_roots.value_of(other)) matches Some(at) && same_path(
                    at@,
                    left@,
                    windows,
                );
            assert(before.pane_roots.value_of(other) == after.pane_roots.value_of(other));
            assert(first.pane_is_in(other, left@));
        }
    }
}

/// What is read of a root once one more pane was forgotten.
proof fn lemma_one_more_forgotten(
    first: ProjectState,
    before: ProjectState,
    after: ProjectState,
    pane_ids: Seq<u64>,
    index: int,
    root: Seq<char>,
)
    requires
        0 <= index < pane_ids.len(),
        !first.registry.windows,
        before.wf(),
        after.wf(),
        before.registry == first.registry,
        after.registry == first.registry,
        forall|other: u64| #[trigger]
            before.pane_roots.value_of(other) == if pane_ids.take(index).contains(other) {
                None
            } else {
                first.pane_roots.value_of(other)
            },
        forall|other: u64| #[trigger]
            after.pane_roots.value_of(other) == if other == pane_ids[index] {
                None
            } else {
                before.pane_roots.value_of(other)
            },
        before.config_at(root) == if first.some_is_in(pane_ids.take(index), root) && !some_pane_in(
            before.pane_roots,
            root,
            first.registry.windows,
        ) {
            None
        } else {
            first.config_at(root)
        },
        after.config_at(root) == match before.pane_roots.value_of(pane_ids[index]) {
            Some(left) if same_path(left@, root, first.registry.windows) && !some_pane_in(
                after.pane_roots,
                left@,
                first.registry.windows,
            ) => None,
            _ => before.config_at(root),
        },
    ensures
        after.config_at(root) == if first.some_is_in(pane_ids.take(index + 1), root)
            && !some_pane_in(after.pane_roots, root, first.registry.windows) {
            None
        } else {
            first.config_at(root)
        },
{
    let windows = first.registry.windows;
    let id = pane_ids[index];
    let shorter = pane_ids.take(index);
    let longer = pane_ids.take(index + 1);
    if first.some_is_in(shorter, root) {
        let i = choose|i: int|
            0 <= i < shorter.len() && first.pane_is_in(#[trigger] shorter[i], root);
        assert(longer[i] == shorter[i]);
        assert(first.some_is_in(longer, root));
    }
    if first.pane_is_in(id, root) {
        assert(longer[index] == id);
        assert(first.some_is_in(longer, root));
    }
    if first.some_is_in(longer, root) {
        let i = choose|i: int| 0 <= i < longer.len() && first.pane_is_in(#[trigger] longer[i], root);
        if i < index {
            assert(shorter[i] == longer[i]);
            assert(first.some_is_in(shorter, root));
        }
    }
    // A pane that was there and is not is the one that was forgotten.
    if some_pane_in(before.pane_roots, root, windows) && !some_pane_in(
        after.pane_roots,
        root,
        windows,
    ) {
        let other = choose|other: u64|
            (#[trigger] before.pane_roots.value_of(other)) matches Some(at) && same_path(
                at@,
                root,
                windows,
            );
        assert(after.pane_roots.value_of(other) is None);
        assert(other == id);
    }
    if some_pane_in(after.pane_roots, root, windows) {
        let other = choose|other: u64|
            (#[trigger] after.pane_roots.value_of(other)) matches Some(at) && same_path(
                at@,
                root,
                windows,
            );
        assert(before.pane_roots.value_of(other) == after.pane_roots.value_of(other));
    }
    if before.pane_is_in(id, root) {
        assert(first.pane_roots.value_of(id) == before.pane_roots.value_of(id));
        assert(first.pane_is_in(id, root));
    } else if first.pane_is_in(id, root) {
        let i = choose|i: int| 0 <= i < shorter.len() && shorter[i] == id;
        assert(first.pane_is_in(shorter[i], root));
    }
}

impl ProjectState {
    /// Nothing is kept twice.
    pub open spec fn wf(self) -> bool {
        roots_differ(self.configs@, self.registry.windows)
    }

    /// The project that was read from a root of this spelling.
    pub open spec fn config_at(self, root: Seq<char>) -> Option<ProjectConfig> {
        config_in(self.configs@, root, self.registry.windows)
    }

    /// The project that was read from a root, whatever its spelling.
    pub open spec fn config_near(self, root: Seq<char>) -> Option<ProjectConfig> {
        config_like(self.configs@, root, self.registry.windows)
    }

    /// The project that a pane is in, if it was read.
    pub open spec fn config_of(self, pane_id: u64) -> Option<ProjectConfig> {
        match self.pane_roots.value_of(pane_id) {
            Some(root) => self.config_near(root@),
            None => None,
        }
    }

    /// Whether a pane's project has the given root.
    pub open spec fn pane_is_in(self, pane_id: u64, root: Seq<char>) -> bool {
        self.pane_roots.value_of(pane_id) matches Some(at) && same_path(
            at@,
            root,
            self.registry.windows,
        )
    }

    /// Whether some of the given panes has its project at the given root.
    pub open spec fn some_is_in(self, pane_ids: Seq<u64>, root: Seq<char>) -> bool {
        exists|i: int| 0 <= i < pane_ids.len() && self.pane_is_in(#[trigger] pane_ids[i], root)
    }

    /// Whether forgetting panes, one after the other, forgets what was read from a
    /// root with the pane at an index: the root is that of this pane, and no pane
    /// is left in it.
    pub open spec fn forgets_at(self, pane_ids: Seq<u64>, index: int, root: Seq<char>) -> bool {
        let id = pane_ids[index];
        &&& 0 <= index < pane_ids.len()
        &&& !pane_ids.take(index).contains(id)
        &&& self.pane_roots.value_of(id) matches Some(left) && {
            &&& same_spelling(left@, root, self.registry.windows)
            &&& forall|other: u64| #[trigger]
                self.pane_is_in(other, left@) ==> pane_ids.take(index + 1).contains(other)
        }
    }

    /// Whether forgetting panes forgets what was read from a root.
    pub open spec fn forgets(self, pane_ids: Seq<u64>, root: Seq<char>) -> bool {
        exists|index: int| #[trigger] self.forgets_at(pane_ids, index, root)
    }

    /// No panes, and nothing read.
    pub fn new(registry: ProjectRegistry) -> (result: ProjectState)
        ensures
            result.wf(),
            result.registry == registry,
            result.configs@.len() == 0,
            forall|pane_id: u64| result.pane_roots.value_of(pane_id) is None,
            forall|pane_id: u64| result.detections.value_of(pane_id) is None,
            forall|tab_id: u64| result.inherited_tab_icons.value_of(tab_id) is None,
            forall|root: Seq<char>| result.config_at(root) is None,
            result.offer is None,
            result.active_context is None,
            result.entered@.len() == 0,
            result.dismissed_offers@.len() == 0,
            result.next_detection_generation == 0,
    {
        ProjectState {
            registry,
            configs: Vec::new(),
            pane_roots: IdMap::new(),
            detections: IdMap::new(),
            next_detection_generation: 0,
            entered: Vec::new(),
            inherited_tab_icons: IdMap::new(),
            active_context: None,
            dismissed_offers: Vec::new(),
            offer: None,
        }
    }

    /// The root of a pane's project.
    pub fn root_for_pane(&self, pane_id: u64) -> (result: Option<&String>)
        requires
            self.wf(),
        ensures
            match result {
                Some(root) => self.pane_roots.value_of(pane_id) == Some(*root),
                None => self.pane_roots.value_of(pane_id) is None,
            },
    {
        self.pane_roots.get(pane_id)
    }

    fn config_index(&self, root: &str) -> (result: Option<usize>)
        requires
            self.wf(),
        ensures
            match result {
                Some(index) => {
                    &&& index < self.configs@.len()
                    &&& same_spelling(
                        self.configs@[index as int].root@,
                        root@,
                        self.registry.windows,
                    )
                    &&& self.config_at(root@) == Some(self.configs@[index as int])
                },
                None => {
                    &&& self.config_at(root@) is None
                    &&& forall|i: int|
                        0 <= i < self.configs@.len() ==> !same_spelling(
                            (#[trigger] self.configs@[i]).root@,
                            root@,
                            self.registry.windows,
                        )
                },
            },
    {
        let mut index: usize = 0;
        while index < self.configs.len()
            invariant
                index <= self.configs@.len(),
                self.wf(),
                forall|i: int|
                    0 <= i < index ==> !same_spelling(
                        (#[trigger] self.configs@[i]).root@,
                        root@,
                        self.registry.windows,
                    ),
            decreases self.configs@.len() - index,
        {
            if spellings_equal(self.configs[index].root.as_str(), root, self.registry.windows) {
                proof {
                    lemma_config_at(self.configs@, index as int, root@, self.registry.windows);
                }
                return Some(index);
            }
            index = index + 1;
        }
        proof {
            lemma_no_config(self.configs@, root@, self.registry.windows);
        }
        None
    }

    fn like_index(&self, root: &str) -> (result: Option<usize>)
        ensures
            match result {
                Some(index) => index < self.configs@.len() && config_like(
                    self.configs@,
                    root@,
                    self.registry.windows,
                ) == Some(self.configs@[index as int]),
                None => config_like(self.configs@, root@, self.registry.windows) is None,
            },
    {
        let ghost windows = self.registry.windows;
        let mut end: usize = self.configs.len();
        proof {
            assert(self.configs@.take(end as int) == self.configs@);
        }
        while end > 0
            invariant
                end <= self.configs@.len(),
                windows == self.registry.windows,
                config_like(self.configs@, root@, windows) == config_like(
                    self.configs@.take(end as int),
                    root@,
                    windows,
                ),
            decreases end,
        {
            proof {
                let longer = self.configs@.take(end as int);
                assert(longer.drop_last() == self.configs@.take(end - 1));
                assert(longer.last() == self.configs@[end - 1]);
            }
            if paths_equal(self.configs[end - 1].root.as_str(), root, self.registry.windows) {
                return Some(end - 1);
            }
            end = end - 1;
        }
        None
    }

    /// The project that a pane is in, if it was read.
    pub fn config_for_pane(&self, pane_id: u64) -> (result: Option<&ProjectConfig>)
        requires
            self.wf(),
        ensures
            match result {
                Some(config) => self.config_of(pane_id) == Some(*config),
                None => self.config_of(pane_id) is None,
            },
    {
        match self.pane_roots.get(pane_id) {
            Some(root) => match self.like_index(root.as_str()) {
                Some(index) => Some(&self.configs[index]),
                None => None,
            },
            None => None,
        }
    }

    /// Forgets what was read from a root.
    pub fn remove_config(&mut self, root: &str)
        requires
            old(self).wf(),
        ensures
            final(self).wf(),
            *final(self) == (ProjectState { configs: final(self).configs, ..*old(self) }),
            forall|other: Seq<char>| #[trigger]
                final(self).config_at(other) == if same_spelling(
                    root@,
                    other,
                    old(self).registry.windows,
                ) {
                    None
                } else {
                    old(self).config_at(other)
                },
    {
        let ghost before = *self;
        match self.config_index(root) {
            Some(index) => {
                proof {
                    lemma_removed_config(self.configs@, index as int, self.registry.windows);
                }
                self.configs.remove(index);
                proof {
                    assert forall|other: Seq<char>| #[trigger]
                        self.config_at(other) == if same_spelling(
                            root@,
                            other,
                            before.registry.windows,
                        ) {
                            None
                        } else {
                            before.config_at(other)
                        } by {
                        assert(config_in(
                            before.configs@.remove(index as int),
                            other,
                            before.registry.windows,
                        ) == self.config_at(other));
                    }
                }
            },
            None => {
                proof {
                    assert forall|other: Seq<char>| #[trigger]
                        self.config_at(other) == if same_spelling(
                            root@,
                            other,
                            before.registry.windows,
                        ) {
                            None
                        } else {
                            before.config_at(other)
                        } by {
                        if same_spelling(root@, other, before.registry.windows) {
                            lemma_no_config(self.configs@, other, self.registry.windows);
                        }
                    }
                }
            },
        }
    }

    /// Keeps what was read from a project, in place of what was read before.
    pub fn insert_config(&mut self, config: ProjectConfig)
        requires
            old(self).wf(),
        ensures
            final(self).wf(),
            *final(self) == (ProjectState { configs: final(self).configs, ..*old(self) }),
            forall|root: Seq<char>| #[trigger]
                final(self).config_at(root) == if same_spelling(
                    config.root@,
                    root,
                    old(self).registry.windows,
                ) {
                    Some(config)
                } else {
                    old(self).config_at(root)
                },
            forall|root: Seq<char>|
                same_path(config.root@, root, old(self).registry.windows)
                    ==> #[trigger] final(self).config_near(root) == Some(config),
    {
        let ghost before = *self;
        self.remove_config(config.root.as_str());
        let ghost removed = *self;
        let ghost windows = self.registry.windows;
        proof {
            assert(removed.config_at(config.root@) is None);
            assert forall|i: int| 0 <= i < removed.configs@.len() implies !same_spelling(
                (#[trigger] removed.configs@[i]).root@,
                config.root@,
                windows,
            ) by {
                if same_spelling(removed.configs@[i].root@, config.root@, windows) {
                    lemma_config_at(removed.configs@, i, config.root@, windows);
                }
            }
        }
        self.configs.push(config);
        proof {
            let after = self.configs@;
            assert(after.drop_last() == removed.configs@);
            assert forall|i: int, j: int|
                0 <= i < after.len() && 0 <= j < after.len() && i != j implies !same_spelling(
                (#[trigger] after[i]).root@,
                (#[trigger] after[j]).root@,
                windows,
            ) by {
                if i < removed.configs@.len() && j < removed.configs@.len() {
                    assert(after[i] == removed.configs@[i] && after[j] == removed.configs@[j]);
                } else if i < removed.configs@.len() {
                    assert(after[i] == removed.configs@[i]);
                } else {
                    assert(after[j] == removed.configs@[j]);
                }
            }
            assert forall|root: Seq<char>| #[trigger]
                self.config_at(root) == if same_spelling(config.root@, root, windows) {
                    Some(config)
                } else {
                    before.config_at(root)
                } by {
                assert(removed.config_at(root) == config_in(removed.configs@, root, windows));
            }
        }
    }

    /// Notes that a tab has been in a project, and says whether it is the
    /// first time.
    pub fn mark_entered(&mut self, tab_id: u64, root: &str) -> (result: bool)
        ensures
            *final(self) == (ProjectState { entered: final(self).entered, ..*old(self) }),
            result == !has_entered(
                old(self).entered@,
                tab_id,
                key_of(root@, old(self).registry.windows),
            ),
            entered_view(final(self).entered@) == if result {
                entered_view(old(self).entered@).push(
                    (tab_id, key_of(root@, old(self).registry.windows)),
                )
            } else {
                entered_view(old(self).entered@)
            },
    {
        let key = project_key(root, self.registry.windows);
        let mut index: usize = 0;
        while index < self.entered.len()
            invariant
                index <= self.entered@.len(),
                *self == *old(self),
                key@ == key_of(root@, old(self).registry.windows),
                forall|i: int|
                    0 <= i < index ==> #[trigger] entered_view(self.entered@)[i] != (tab_id, key@),
            decreases self.entered@.len() - index,
        {
            if self.entered[index].0 == tab_id && same_text(
                self.entered[index].1.as_str(),
                key.as_str(),
            ) {
                proof {
                    assert(entered_view(self.entered@)[index as int] == (tab_id, key@));
                }
                return false;
            }
            proof {
                assert(entered_view(self.entered@)[index as int] == (
                    self.entered@[index as int].0,
                    self.entered@[index as int].1@,
                ));
            }
            index = index + 1;
        }
        let ghost before = self.entered@;
        self.entered.push((tab_id, key));
        proof {
            assert(entered_view(self.entered@) =~= entered_view(before).push((tab_id, key@)));
        }
        true
    }

    /// Takes back the offer, and never makes it again.
    pub fn dismiss_offer(&mut self)
        ensures
            *final(self) == (ProjectState {
                offer: None,
                dismissed_offers: final(self).dismissed_offers,
                ..*old(self)
            }),
            texts(final(self).dismissed_offers@) == match old(self).offer {
                Some(offer) => texts(old(self).dismissed_offers@).push(
                    key_of(offer.root@, old(self).registry.windows),
                ),
                None => texts(old(self).dismissed_offers@),
            },
    {
        if let Some(offer) = self.offer.take() {
            let ghost before = self.dismissed_offers@;
            let key = project_key(offer.root.as_str(), self.registry.windows);
            self.dismissed_offers.push(key);
            proof {
                assert(texts(self.dismissed_offers@) =~= texts(before).push(key@));
            }
        }
    }

    /// Whether the offer of a root is not made.
    pub fn offer_is_dismissed(&self, root: &str) -> (result: bool)
        ensures
            result == texts(self.dismissed_offers@).contains(key_of(root@, self.registry.windows)),
    {
        let key = project_key(root, self.registry.windows);
        list_contains(&self.dismissed_offers, key.as_str())
    }

    /// Makes no offer for a root that was taken out. `registered` is the
    /// project that the root is in now, `offered` is the one that the offer's
    /// root is in.
    pub fn suppress_offer_for(
        &mut self,
        root: &str,
        registered: &Option<String>,
        offered: &Option<String>,
    )
        ensures
            *final(self) == (ProjectState {
                offer: final(self).offer,
                dismissed_offers: final(self).dismissed_offers,
                ..*old(self)
            }),
            texts(final(self).dismissed_offers@) == {
                let with_root = texts(old(self).dismissed_offers@).push(
                    key_of(root@, old(self).registry.windows),
                );
                match *registered {
                    Some(registered) => with_root.push(
                        key_of(registered@, old(self).registry.windows),
                    ),
                    None => with_root,
                }
            },
            final(self).offer == if is_related_offer(
                old(self).offer,
                root@,
                optional_text(*offered),
                old(self).registry.windows,
            ) {
                None
            } else {
                old(self).offer
            },
    {
        let windows = self.registry.windows;
        let ghost before = self.dismissed_offers@;
        let key = project_key(root, windows);
        self.dismissed_offers.push(key);
        let ghost with_root = self.dismissed_offers@;
        proof {
            assert(texts(with_root) =~= texts(before).push(key@));
        }
        if let Some(registered) = registered {
            let key = project_key(registered.as_str(), windows);
            self.dismissed_offers.push(key);
            proof {
                assert(texts(self.dismissed_offers@) =~= texts(with_root).push(key@));
            }
        }
        let related = match &self.offer {
            Some(offer) => paths_equal(offer.root.as_str(), root, windows) || match offered {
                Some(offered) => paths_equal(offered.as_str(), root, windows),
                None => false,
            },
            None => false,
        };
        if related {
            self.offer = None;
        }
    }

    /// Forgets panes and projects of roots that are registered no more.
    /// `panes` are the panes whose roots are, `read` says which of the projects
    /// still are registered, `offered` whether the offer's root is by now.
    pub fn clear_removed_roots(&mut self, panes: &Vec<u64>, read: &Vec<bool>, offered: bool)
        requires
            old(self).wf(),
            read@.len() == old(self).configs@.len(),
        ensures
            final(self).wf(),
            *final(self) == (ProjectState {
                pane_roots: final(self).pane_roots,
                configs: final(self).configs,
                offer: final(self).offer,
                ..*old(self)
            }),
            forall|id: u64| #[trigger]
                final(self).pane_roots.value_of(id) == if panes@.contains(id) {
                    None
                } else {
                    old(self).pane_roots.value_of(id)
                },
            final(self).configs@ == kept_configs(old(self).configs@, read@),
            final(self).offer == if offered {
                None
            } else {
                old(self).offer
            },
    {
        self.forget_roots(panes);
        let ghost cleared = self.pane_roots;
        let ghost all = self.configs@;
        let ghost windows = self.registry.windows;
        proof {
            lemma_kept_configs(all, read@, windows);
            assert(all.skip(0) == all);
        }
        let mut index: usize = read.len();
        proof {
            assert(all.take(index as int) == all);
            assert(self.configs@ =~= all.take(index as int) + kept_configs_from(
                all,
                read@,
                index as int,
            ));
        }
        while index > 0
            invariant
                index <= read@.len() == all.len(),
                self.configs@ == all.take(index as int) + kept_configs_from(
                    all,
                    read@,
                    index as int,
                ),
                *self == (ProjectState {
                    pane_roots: self.pane_roots,
                    configs: self.configs,
                    ..*old(self)
                }),
                self.pane_roots == cleared,
            decreases index,
        {
            index = index - 1;
            proof {
                assert(all.take(index + 1) == all.take(index as int).push(all[index as int]));
            }
            if !read[index] {
                self.configs.remove(index);
                proof {
                    assert(self.configs@ =~= all.take(index as int) + kept_configs_from(
                        all,
                        read@,
                        index + 1,
                    ));
                }
            } else {
                proof {
                    assert(self.configs@ =~= all.take(index as int) + (seq![all[index as int]]
                        + kept_configs_from(all, read@, index + 1)));
                }
            }
        }
        proof {
            assert(all.take(0) == Seq::<ProjectConfig>::empty());
            assert(self.configs@ =~= kept_configs_from(all, read@, 0));
            lemma_kept_configs_from(all, read@, 0);
            assert(kept_configs(all.take(0), read@) == Seq::<ProjectConfig>::empty());
        }
        if offered {
            self.offer = None;
        }
    }

    fn forget_roots(&mut self, panes: &Vec<u64>)
        ensures
            *final(self) == (ProjectState { pane_roots: final(self).pane_roots, ..*old(self) }),
            forall|id: u64| #[trigger]
                final(self).pane_roots.value_of(id) == if panes@.contains(id) {
                    None
                } else {
                    old(self).pane_roots.value_of(id)
                },
    {
        let mut index: usize = 0;
        while index < panes.len()
            invariant
                index <= panes@.len(),
                *self == (ProjectState { pane_roots: self.pane_roots, ..*old(self) }),
                forall|id: u64| #[trigger]
                    self.pane_roots.value_of(id) == if panes@.take(index as int).contains(id) {
                        None
                    } else {
                        old(self).pane_roots.value_of(id)
                    },
            decreases panes@.len() - index,
        {
            let ghost before = self.pane_roots;
            self.pane_roots.remove(panes[index]);
            proof {
                let shorter = panes@.take(index as int);
                let longer = panes@.take(index + 1);
                assert(longer == shorter.push(panes@[index as int]));
                assert forall|id: u64| #[trigger]
                    self.pane_roots.value_of(id) == if longer.contains(id) {
                        None
                    } else {
                        old(self).pane_roots.value_of(id)
                    } by {
                    assert(longer[index as int] == panes@[index as int]);
                    if shorter.contains(id) {
                        let at = choose|at: int| 0 <= at < shorter.len() && shorter[at] == id;
                        assert(longer[at] == id);
                    } else if longer.contains(id) {
                        let at = choose|at: int| 0 <= at < longer.len() && longer[at] == id;
                        if at < index {
                            assert(shorter[at] == id);
                        }
                    }
                    assert(before.value_of(id) == if shorter.contains(id) {
                        None
                    } else {
                        old(self).pane_roots.value_of(id)
                    });
                }
            }
            index = index + 1;
        }
        proof {
            assert(panes@.take(index as int) == panes@);
        }
    }

    /// Makes the next look at the current project count as a change.
    pub fn invalidate_active_context(&mut self)
        ensures
            *final(self) == (ProjectState { active_context: None, ..*old(self) }),
    {
        self.active_context = None;
    }

    /// Makes the next look at each pane's directory count as the first.
    pub fn invalidate_detections(&mut self)
        ensures
            *final(self) == (ProjectState { detections: final(self).detections, ..*old(self) }),
            forall|pane_id: u64| final(self).detections.value_of(pane_id) is None,
    {
        self.detections = IdMap::new();
    }

    /// Begins to look for a pane's project, unless it was last looked for in
    /// the same directory. The number tells the answer from older ones.
    pub fn begin_detection(&mut self, pane_id: u64, directory: String) -> (result: Option<u64>)
        requires
            old(self).wf(),
        ensures
            final(self).wf(),
            match old(self).detections.value_of(pane_id) {
                Some(state) if same_path(
                    state.directory@,
                    directory@,
                    old(self).registry.windows,
                ) => result is None && *final(self) == *old(self),
                _ => {
                    &&& result == Some(final(self).next_detection_generation)
                    &&& *final(self) == (ProjectState {
                        detections: final(self).detections,
                        next_detection_generation: final(self).next_detection_generation,
                        ..*old(self)
                    })
                    &&& final(self).next_detection_generation == if old(
                        self,
                    ).next_detection_generation == u64::MAX {
                        0
                    } else {
                        old(self).next_detection_generation + 1
                    }
                    &&& forall|other: u64| #[trigger]
                        final(self).detections.value_of(other) == if other == pane_id {
                            Some(
                                ProjectDetectionState {
                                    directory,
                                    generation: final(self).next_detection_generation,
                                },
                            )
                        } else {
                            old(self).detections.value_of(other)
                        }
                },
            },
    {
        let repeated = match self.detections.get(pane_id) {
            Some(state) => paths_equal(
                state.directory.as_str(),
                directory.as_str(),
                self.registry.windows,
            ),
            None => false,
        };
        if repeated {
            return None;
        }
        self.next_detection_generation = self.next_detection_generation.wrapping_add(1);
        let generation = self.next_detection_generation;
        self.detections.insert(pane_id, ProjectDetectionState { directory, generation });
        Some(generation)
    }

    /// Puts a pane into the project of another.
    pub fn inherit_pane_root(&mut self, source_pane_id: u64, pane_id: u64)
        requires
            old(self).wf(),
        ensures
            final(self).wf(),
            *final(self) == (ProjectState { pane_roots: final(self).pane_roots, ..*old(self) }),
            forall|other: u64| #[trigger]
                final(self).pane_roots.value_of(other) == if other == pane_id && old(
                    self,
                ).pane_roots.value_of(source_pane_id) is Some {
                    old(self).pane_roots.value_of(source_pane_id)
                } else {
                    old(self).pane_roots.value_of(other)
                },
    {
        let root = match self.pane_roots.get(source_pane_id) {
            Some(root) => root.clone(),
            None => {
                return;
            },
        };
        self.pane_roots.insert(pane_id, root);
    }

    fn some_pane_is_in(&self, root: &str) -> (result: bool)
        ensures
            result == some_pane_in(self.pane_roots, root@, self.registry.windows),
    {
        let ids = self.pane_roots.ids();
        let mut index: usize = 0;
        while index < ids.len()
            invariant
                index <= ids@.len(),
                self.pane_roots.is_listed(ids@),
                forall|i: int|
                    0 <= i < index ==> !(self.pane_roots.value_of(#[trigger] ids@[i]) matches Some(
                        at,
                    ) && same_path(at@, root@, self.registry.windows)),
            decreases ids@.len() - index,
        {
            proof {
                assert(ids@.contains(ids@[index as int]));
            }
            if let Some(at) = self.pane_roots.get(ids[index]) {
                if paths_equal(at.as_str(), root, self.registry.windows) {
                    return true;
                }
            }
            index = index + 1;
        }
        proof {
            assert forall|id: u64| self.pane_roots.value_of(id) is Some implies !same_path(
                (#[trigger] self.pane_roots.value_of(id))->0@,
                root@,
                self.registry.windows,
            ) by {
                assert(ids@.contains(id));
                let i = choose|i: int| 0 <= i < ids@.len() && ids@[i] == id;
                assert(self.pane_roots.value_of(ids@[i]) is Some);
            }
        }
        false
    }

    /// Takes a pane out of its project. A project without panes is forgotten.
    pub fn clear_pane_root(&mut self, pane_id: u64)
        requires
            old(self).wf(),
        ensures
            final(self).wf(),
            *final(self) == (ProjectState {
                pane_roots: final(self).pane_roots,
                configs: final(self).configs,
                ..*old(self)
            }),
            forall|other: u64| #[trigger]
                final(self).pane_roots.value_of(other) == if other == pane_id {
                    None
                } else {
                    old(self).pane_roots.value_of(other)
                },
            forall|root: Seq<char>| #[trigger]
                final(self).config_at(root) == match old(self).pane_roots.value_of(pane_id) {
                    Some(left) if same_spelling(left@, root, old(self).registry.windows)
                        && !some_pane_in(
                        final(self).pane_roots,
                        left@,
                        old(self).registry.windows,
                    ) => None,
                    _ => old(self).config_at(root),
                },
    {
        let ghost before = *self;
        if let Some(root) = self.pane_roots.remove(pane_id) {
            if !self.some_pane_is_in(root.as_str()) {
                let ghost cleared = *self;
                self.remove_config(root.as_str());
                proof {
                    assert forall|other: Seq<char>| #[trigger]
                        self.config_at(other) == if same_spelling(
                            root@,
                            other,
                            before.registry.windows,
                        ) {
                            None
                        } else {
                            before.config_at(other)
                        } by {
                        assert(cleared.config_at(other) == before.config_at(other));
                    }
                }
            }
        }
    }

    /// Forgets a pane.
    pub fn forget_pane(&mut self, pane_id: u64)
        requires
            old(self).wf(),
        ensures
            final(self).wf(),
            final(self).registry == old(self).registry,
            final(self).entered == old(self).entered,
            final(self).inherited_tab_icons == old(self).inherited_tab_icons,
            final(self).dismissed_offers == old(self).dismissed_offers,
            final(self).next_detection_generation == old(self).next_detection_generation,
            final(self).active_context is None,
            final(self).offer == match old(self).offer {
                Some(offer) if offer.pane_id == pane_id => None,
                _ => old(self).offer,
            },
            forall|other: u64| #[trigger]
                final(self).pane_roots.value_of(other) == if other == pane_id {
                    None
                } else {
                    old(self).pane_roots.value_of(other)
                },
            forall|other: u64| #[trigger]
                final(self).detections.value_of(other) == if other == pane_id {
                    None
                } else {
                    old(self).detections.value_of(other)
                },
            forall|root: Seq<char>| #[trigger]
                final(self).config_at(root) == match old(self).pane_roots.value_of(pane_id) {
                    Some(left) if same_spelling(left@, root, old(self).registry.windows)
                        && !some_pane_in(
                        final(self).pane_roots,
                        left@,
                        old(self).registry.windows,
                    ) => None,
                    _ => old(self).config_at(root),
                },
    {
        self.clear_pane_root(pane_id);
        let ghost cleared = *self;
        self.detections.remove(pane_id);
        let about_pane = match &self.offer {
            Some(offer) => offer.pane_id == pane_id,
            None => false,
        };
        if about_pane {
            self.offer = None;
        }
        self.active_context = None;
        proof {
            assert forall|root: Seq<char>| #[trigger] self.config_at(root) == cleared.config_at(
                root,
            ) by {}
        }
    }

    /// Forgets a tab and its panes. A project in which no other pane is is
    /// forgotten with them.
    pub fn forget_tab(&mut self, tab_id: u64, pane_ids: &Vec<u64>)
        requires
            old(self).wf(),
        ensures
            final(self).wf(),
            final(self).registry == old(self).registry,
            final(self).dismissed_offers == old(self).dismissed_offers,
            final(self).next_detection_generation == old(self).next_detection_generation,
            final(self).active_context == if pane_ids@.len() > 0 {
                None
            } else {
                old(self).active_context
            },
            final(self).offer == match old(self).offer {
                Some(offer) if pane_ids@.contains(offer.pane_id) => None,
                _ => old(self).offer,
            },
            forall|root: Seq<char>| #[trigger]
                final(self).config_at(root) == if old(self).forgets(pane_ids@, root) {
                    None
                } else {
                    old(self).config_at(root)
                },
            !old(self).registry.windows ==> forall|root: Seq<char>| #[trigger]
                final(self).config_at(root) == if old(self).some_is_in(pane_ids@, root)
                    && !some_pane_in(final(self).pane_roots, root, false) {
                    None
                } else {
                    old(self).config_at(root)
                },
            forall|other: u64| #[trigger]
                final(self).pane_roots.value_of(other) == if pane_ids@.contains(other) {
                    None
                } else {
                    old(self).pane_roots.value_of(other)
                },
            forall|other: u64| #[trigger]
                final(self).detections.value_of(other) == if pane_ids@.contains(other) {
                    None
                } else {
                    old(self).detections.value_of(other)
                },
            forall|other: u64| #[trigger]
                final(self).inherited_tab_icons.value_of(other) == if other == tab_id {
                    None
                } else {
                    old(self).inherited_tab_icons.value_of(other)
                },
            entered_view(final(self).entered@) == entered_by_others(
                entered_view(old(self).entered@),
                tab_id,
            ),
    {
        let mut index: usize = 0;
        while index < pane_ids.len()
            invariant
                index <= pane_ids@.len(),
                self.wf(),
                self.registry == old(self).registry,
                self.dismissed_offers == old(self).dismissed_offers,
                self.entered == old(self).entered,
                self.inherited_tab_icons == old(self).inherited_tab_icons,
                self.next_detection_generation == old(self).next_detection_generation,
                self.active_context == if index > 0 {
                    None
                } else {
                    old(self).active_context
                },
                self.offer == match old(self).offer {
                    Some(offer) if pane_ids@.take(index as int).contains(offer.pane_id) => None,
                    _ => old(self).offer,
                },
                forall|root: Seq<char>| #[trigger]
                    self.config_at(root) == if old(self).forgets(
                        pane_ids@.take(index as int),
                        root,
                    ) {
                        None
                    } else {
                        old(self).config_at(root)
                    },
                !old(self).registry.windows ==> forall|root: Seq<char>| #[trigger]
                    self.config_at(root) == if old(self).some_is_in(
                        pane_ids@.take(index as int),
                        root,
                    ) && !some_pane_in(self.pane_roots, root, false) {
                        None
                    } else {
                        old(self).config_at(root)
                    },
                forall|other: u64| #[trigger]
                    self.pane_roots.value_of(other) == if pane_ids@.take(index as int).contains(
                        other,
                    ) {
                        None
                    } else {
                        old(self).pane_roots.value_of(other)
                    },
                forall|other: u64| #[trigger]
                    self.detections.value_of(other) == if pane_ids@.take(index as int).contains(
                        other,
                    ) {
                        None
                    } else {
                        old(self).detections.value_of(other)
                    },
            decreases pane_ids@.len() - index,
        {
            let ghost before = *self;
            self.forget_pane(pane_ids[index]);
            proof {
                let shorter = pane_ids@.take(index as int);
                let longer = pane_ids@.take(index + 1);
                assert(longer == shorter.push(pane_ids@[index as int]));
                assert forall|other: u64| longer.contains(other) == (shorter.contains(other)
                    || other == pane_ids@[index as int]) by {
                    if shorter.contains(other) {
                        let at = choose|at: int| 0 <= at < shorter.len() && shorter[at] == other;
                        assert(longer[at] == other);
                    }
                    assert(longer[index as int] == pane_ids@[index as int]);
                }
                assert forall|root: Seq<char>| #[trigger]
                    self.config_at(root) == if old(self).forgets(longer, root) {
                        None
                    } else {
                        old(self).config_at(root)
                    } by {
                    lemma_forgets_one_more(
                        *old(self),
                        before,
                        *self,
                        pane_ids@,
                        index as int,
                        root,
                    );
                }
                if !old(self).registry.windows {
                    assert forall|root: Seq<char>| #[trigger]
                        self.config_at(root) == if old(self).some_is_in(longer, root)
                            && !some_pane_in(self.pane_roots, root, false) {
                            None
                        } else {
                            old(self).config_at(root)
                        } by {
                        lemma_one_more_forgotten(
                            *old(self),
                            before,
                            *self,
                            pane_ids@,
                            index as int,
                            root,
                        );
                    }
                }
                assert forall|other: u64| #[trigger]
                    self.pane_roots.value_of(other) == if longer.contains(other) {
                        None
                    } else {
                        old(self).pane_roots.value_of(other)
                    } by {
                    assert(before.pane_roots.value_of(other) == if shorter.contains(other) {
                        None
                    } else {
                        old(self).pane_roots.value_of(other)
                    });
                }
                assert forall|other: u64| #[trigger]
                    self.detections.value_of(other) == if longer.contains(other) {
                        None
                    } else {
                        old(self).detections.value_of(other)
                    } by {
                    assert(before.detections.value_of(other) == if shorter.contains(other) {
                        None
                    } else {
                        old(self).detections.value_of(other)
                    });
                }
            }
            index = index + 1;
        }
        proof {
            assert(pane_ids@.take(index as int) == pane_ids@);
        }
        let ghost left = *self;
        self.forget_entered(tab_id);
        self.inherited_tab_icons.remove(tab_id);
        proof {
            assert forall|root: Seq<char>| #[trigger] self.config_at(root) == left.config_at(
                root,
            ) by {}
        }
    }

    fn forget_entered(&mut self, tab_id: u64)
        ensures
            *final(self) == (ProjectState { entered: final(self).entered, ..*old(self) }),
            entered_view(final(self).entered@) == entered_by_others(
                entered_view(old(self).entered@),
                tab_id,
            ),
    {
        let ghost all = entered_view(self.entered@);
        let mut kept: Vec<(u64, String)> = Vec::new();
        let mut index: usize = 0;
        proof {
            assert(all.take(0) == Seq::<(u64, Seq<char>)>::empty());
            assert(entered_view(kept@) =~= Seq::<(u64, Seq<char>)>::empty());
        }
        while index < self.entered.len()
            invariant
                index <= self.entered@.len(),
                all == entered_view(self.entered@),
                *self == *old(self),
                entered_view(kept@) == entered_by_others(all.take(index as int), tab_id),
            decreases self.entered@.len() - index,
        {
            proof {
                let longer = all.take(index + 1);
                assert(longer.drop_last() == all.take(index as int));
                assert(longer.last() == (
                    self.entered@[index as int].0,
                    self.entered@[index as int].1@,
                ));
            }
            if self.entered[index].0 != tab_id {
                let ghost before = kept@;
                let entry = (self.entered[index].0, self.entered[index].1.clone());
                kept.push(entry);
                proof {
                    assert(entered_view(kept@) =~= entered_view(before).push(
                        (entry.0, entry.1@),
                    ));
                }
            }
            index = index + 1;
        }
        proof {
            assert(all.take(index as int) == all);
        }
        self.entered = kept;
    }
}

/// The projects that tabs have been in, as they view.
pub open spec fn entered_view(entered: Seq<(u64, String)>) -> Seq<(u64, Seq<char>)> {
    entered.map_values(|entry: (u64, String)| (entry.0, entry.1@))
}

/// Whether a tab has been in a project.
pub open spec fn has_entered(entered: Seq<(u64, String)>, tab_id: u64, key: Seq<char>) -> bool {
    exists|i: int|
        0 <= i < entered_view(entered).len() && #[trigger] entered_view(entered)[i] == (tab_id, key)
}

/// The projects that other tabs have been in.
pub open spec fn entered_by_others(entered: Seq<(u64, Seq<char>)>, tab_id: u64) -> Seq<
    (u64, Seq<char>),
>
    decreases entered.len(),
{
    if entered.len() == 0 {
        Seq::empty()
    } else {
        let before = entered_by_others(entered.drop_last(), tab_id);
        if entered.last().0 == tab_id {
            before
        } else {
            before.push(entered.last())
        }
    }
}

/// Whether an offer is about a root, or about what is now a project with it.
pub open spec fn is_related_offer(
    offer: Option<ProjectOffer>,
    root: Seq<char>,
    offered: Option<Seq<char>>,
    windows: bool,
) -> bool {
    match offer {
        Some(offer) => same_path(offer.root@, root, windows) || match offered {
            Some(offered) => same_path(offered, root, windows),
            None => false,
        },
        None => false,
    }
}

/// The projects that are marked.
pub open spec fn kept_configs(configs: Seq<ProjectConfig>, keep: Seq<bool>) -> Seq<ProjectConfig>
    decreases configs.len(),
{
    if configs.len() == 0 {
        Seq::empty()
    } else {
        let before = kept_configs(configs.drop_last(), keep);
        if keep[configs.len() - 1] {
            before.push(configs.last())
        } else {
            before
        }
    }
}

spec fn kept_configs_from(configs: Seq<ProjectConfig>, keep: Seq<bool>, index: int) -> Seq<
    ProjectConfig,
>
    decreases configs.len() - index,
{
    if index >= configs.len() || index < 0 {
        Seq::empty()
    } else if keep[index] {
        seq![configs[index]] + kept_configs_from(configs, keep, index + 1)
    } else {
        kept_configs_from(configs, keep, index + 1)
    }
}

proof fn lemma_kept_configs_from(configs: Seq<ProjectConfig>, keep: Seq<bool>, index: int)
    requires
        0 <= index <= configs.len(),
    ensures
        kept_configs(configs.take(index), keep) + kept_configs_from(configs, keep, index)
            == kept_configs(configs, keep),
    decreases configs.len() - index,
{
    if index == configs.len() {
        assert(configs.take(index) == configs);
        assert(kept_configs(configs, keep) + Seq::<ProjectConfig>::empty() =~= kept_configs(
            configs,
            keep,
        ));
    } else {
        lemma_kept_configs_from(configs, keep, index + 1);
        let longer = configs.take(index + 1);
        assert(longer.drop_last() == configs.take(index));
        assert(longer.last() == configs[index]);
        let before = kept_configs(configs.take(index), keep);
        let behind = kept_configs_from(configs, keep, index + 1);
        if keep[index] {
            assert(before.push(configs[index]) + behind =~= before + (seq![configs[index]]
                + behind));
        }
    }
}

proof fn lemma_kept_configs(configs: Seq<ProjectConfig>, keep: Seq<bool>, windows: bool)
    requires
        roots_differ(configs, windows),
    ensures
        roots_differ(kept_configs(configs, keep), windows),
        forall|i: int|
            0 <= i < kept_configs(configs, keep).len() ==> configs.contains(
                #[trigger] kept_configs(configs, keep)[i],
            ),
    decreases configs.len(),
{
    if configs.len() > 0 {
        let shorter = configs.drop_last();
        let before = kept_configs(shorter, keep);
        let after = kept_configs(configs, keep);
        let last = configs.last();
        assert forall|i: int, j: int|
            0 <= i < shorter.len() && 0 <= j < shorter.len() && i != j implies !same_spelling(
            (#[trigger] shorter[i]).root@,
            (#[trigger] shorter[j]).root@,
            windows,
        ) by {
            assert(shorter[i] == configs[i] && shorter[j] == configs[j]);
        }
        lemma_kept_configs(shorter, keep, windows);
        assert forall|i: int| 0 <= i < before.len() implies configs.contains(#[trigger] before[i])
            && !same_spelling(before[i].root@, last.root@, windows) by {
            let at = choose|at: int| 0 <= at < shorter.len() && shorter[at] == before[i];
            assert(configs[at] == before[i]);
            assert(!same_spelling(configs[at].root@, configs[configs.len() - 1].root@, windows));
        }
        assert forall|i: int| 0 <= i < after.len() implies configs.contains(#[trigger] after[i]) by {
            if i < before.len() {
                assert(after[i] == before[i]);
            } else {
                assert(configs[configs.len() - 1] == last);
            }
        }
        assert forall|i: int, j: int|
            0 <= i < after.len() && 0 <= j < after.len() && i != j implies !same_spelling(
            (#[trigger] after[i]).root@,
            (#[trigger] after[j]).root@,
            windows,
        ) by {
            if i < before.len() && j < before.len() {
                assert(after[i] == before[i] && after[j] == before[j]);
            } else if i < before.len() {
                assert(after[i] == before[i]);
            } else {
                assert(after[j] == before[j]);
            }
        }
    }
}

} // verus!
