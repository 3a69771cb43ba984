//! Projects: where they are registered, and what their files say.

use vstd::prelude::*;

use crate::project::paths::{paths_equal, same_path, QueryPath};
use crate::project::registry::{deepest, law_found_project_is_around, ProjectRegistry};
use crate::text::optional_text;

pub mod config;
pub mod laws;
pub mod paths;
pub mod registry;

verus! {

/// A linked worktree of a repository.
#[derive(Debug, PartialEq, Eq)]
pub struct WorktreeMetadata {
    /// The root of the repository's main worktree.
    pub main_root: QueryPath,
    /// The root of this worktree.
    pub root: String,
    /// Whether this worktree has a project file of its own.
    pub has_config: bool,
}

/// Where a directory's project is.
#[derive(Debug, PartialEq, Eq)]
pub struct ProjectRootResolution {
    /// The registered project root used for registry identity and project
    /// opening. A managed worktree keeps its main repository here.
    pub root: Option<String>,
    /// The root whose project file supplies the effective project settings. A
    /// managed worktree with its own project file uses that file; otherwise it
    /// falls back to the registered main repository.
    pub config_root: Option<String>,
    /// Whether the project was reached through a managed worktree.
    pub managed_worktree: bool,
}

/// The root of the project around a directory.
pub open spec fn root_around(registry: ProjectRegistry, directory: QueryPath) -> Option<Seq<char>> {
    match deepest(
        registry.view(),
        directory.path@,
        optional_text(directory.canonical),
        registry.windows,
    ) {
        Some(index) => Some(registry.view()[index]),
        None => None,
    }
}

/// The registered project that a worktree belongs to.
pub open spec fn worktree_root(registry: ProjectRegistry, worktree: Option<WorktreeMetadata>) -> Option<
    Seq<char>,
> {
    match worktree {
        Some(worktree) => root_around(registry, worktree.main_root),
        None => None,
    }
}

/// The root of a directory's project.
pub open spec fn project_root(
    registry: ProjectRegistry,
    directory: QueryPath,
    worktree: Option<WorktreeMetadata>,
) -> Option<Seq<char>> {
    match worktree_root(registry, worktree) {
        Some(root) => Some(root),
        None => root_around(registry, directory),
    }
}

/// The root whose project file counts for a directory.
pub open spec fn project_config_root(
    registry: ProjectRegistry,
    directory: QueryPath,
    worktree: Option<WorktreeMetadata>,
) -> Option<Seq<char>> {
    match worktree_root(registry, worktree) {
        Some(root) => if (worktree->0).has_config {
            Some((worktree->0).root@)
        } else {
            Some(root)
        },
        None => root_around(registry, directory),
    }
}

fn find_root(registry: &ProjectRegistry, directory: &QueryPath) -> (result: Option<String>)
    ensures
        optional_text(result) == root_around(*registry, *directory),
{
    match registry.matching_root(directory) {
        Some(root) => {
            proof {
                let index = deepest(
                    registry.view(),
                    directory.path@,
                    optional_text(directory.canonical),
                    registry.windows,
                )->0;
                assert(registry.view()[index] == registry.roots@[index]@);
            }
            Some(root.clone())
        },
        None => None,
    }
}

/// Resolves a directory to a registered project without changing the registry.
///
/// A managed linked worktree lives beside its main repository, so a lexical
/// lookup cannot find the main project. `worktree` is what the directory's
/// metadata says of one; it is trusted only when the main root is already
/// registered. Everything else uses the directory based lookup.
pub fn resolve_registered_project(
    directory: &QueryPath,
    worktree: &Option<WorktreeMetadata>,
    registry: &ProjectRegistry,
) -> (result: ProjectRootResolution)
    ensures
        optional_text(result.root) == project_root(*registry, *directory, *worktree),
        optional_text(result.config_root) == project_config_root(*registry, *directory, *worktree),
        result.managed_worktree == (worktree_root(*registry, *worktree) is Some),
        result.root is Some == result.config_root is Some,
{
    if let Some(worktree) = worktree {
        if let Some(root) = find_root(registry, &worktree.main_root) {
            let config_root = if worktree.has_config {
                worktree.root.clone()
            } else {
                root.clone()
            };
            return ProjectRootResolution {
                root: Some(root),
                config_root: Some(config_root),
                managed_worktree: true,
            };
        }
    }
    let root = find_root(registry, directory);
    let config_root = crate::text::clone_optional(&root);
    ProjectRootResolution { root, config_root, managed_worktree: false }
}

/// The root of a directory's project.
pub fn resolve_registered_project_root(
    directory: &QueryPath,
    worktree: &Option<WorktreeMetadata>,
    registry: &ProjectRegistry,
) -> (result: Option<String>)
    ensures
        optional_text(result) == project_root(*registry, *directory, *worktree),
{
    resolve_registered_project(directory, worktree, registry).root
}

/// The root whose project file counts for a directory.
pub fn resolve_registered_project_config_root(
    directory: &QueryPath,
    worktree: &Option<WorktreeMetadata>,
    registry: &ProjectRegistry,
) -> (result: Option<String>)
    ensures
        optional_text(result) == project_config_root(*registry, *directory, *worktree),
{
    resolve_registered_project(directory, worktree, registry).config_root
}

/// Whether a root's own project file counts for it.
pub open spec fn is_config_root(
    registry: ProjectRegistry,
    root: QueryPath,
    worktree: Option<WorktreeMetadata>,
) -> bool {
    match project_config_root(registry, root, worktree) {
        Some(resolved) => same_path(resolved, root.path@, registry.windows),
        None => false,
    }
}

/// Whether a root's own project file counts for it.
pub fn is_registered_project_config_root(
    root: &QueryPath,
    worktree: &Option<WorktreeMetadata>,
    registry: &ProjectRegistry,
) -> (result: bool)
    ensures
        result == is_config_root(*registry, *root, *worktree),
{
    match resolve_registered_project_config_root(root, worktree, registry) {
        Some(resolved) => paths_equal(resolved.as_str(), root.path.as_str(), registry.windows),
        None => false,
    }
}

/// What was found where a repository's mark would stand.
#[derive(Debug, PartialEq, Eq)]
pub enum RepositoryMark {
    Present,
    Missing,
    Unreadable(String),
}

/// The first place with a mark, before which nothing was unreadable.
pub open spec fn first_marked(marks: Seq<RepositoryMark>) -> Result<Option<int>, Seq<char>>
    decreases marks.len(),
{
    if marks.len() == 0 {
        Ok(None)
    } else {
        match marks.first() {
            RepositoryMark::Present => Ok(Some(0)),
            RepositoryMark::Unreadable(error) => Err(error@),
            RepositoryMark::Missing => match first_marked(marks.drop_first()) {
                Ok(Some(index)) => Ok(Some(index + 1)),
                Ok(None) => Ok(None),
                Err(error) => Err(error),
            },
        }
    }
}

/// The repository around a directory, by what was found in the directory and
/// in each one above it.
pub fn find_repository_root(ancestors: &Vec<String>, marks: &Vec<RepositoryMark>) -> (result: Result<
    Option<String>,
    String,
>)
    requires
        marks@.len() == ancestors@.len(),
    ensures
        match first_marked(marks@) {
            Ok(Some(index)) => result matches Ok(Some(root)) && 0 <= index < ancestors@.len()
                && root@ == ancestors@[index]@,
            Ok(None) => result == Ok::<Option<String>, String>(None),
            Err(error) => result matches Err(reason) && reason@ == error,
        },
{
    let mut index: usize = 0;
    proof {
        assert(marks@.skip(0) == marks@);
    }
    while index < marks.len()
        invariant
            index <= marks@.len() == ancestors@.len(),
            match first_marked(marks@.skip(index as int)) {
                Ok(Some(later)) => first_marked(marks@) == Ok::<Option<int>, Seq<char>>(
                    Some(index + later),
                ),
                Ok(None) => first_marked(marks@) == Ok::<Option<int>, Seq<char>>(None),
                Err(error) => first_marked(marks@) == Err::<Option<int>, Seq<char>>(error),
            },
        decreases marks@.len() - index,
    {
        proof {
            assert(marks@.skip(index as int).first() == marks@[index as int]);
            assert(marks@.skip(index as int).drop_first() == marks@.skip(index + 1));
        }
        match &marks[index] {
            RepositoryMark::Present => {
                return Ok(Some(ancestors[index].clone()));
            },
            RepositoryMark::Unreadable(error) => {
                return Err(error.clone());
            },
            RepositoryMark::Missing => {},
        }
        index = index + 1;
    }
    Ok(None)
}

/// The repository around a directory that has a project file, where there is
/// one.
pub fn discover_project_config(repository: Option<String>, has_config: bool) -> (result: Option<
    String,
>)
    ensures
        result == if has_config {
            repository
        } else {
            None
        },
{
    if has_config {
        repository
    } else {
        None
    }
}

/// A worktree whose main repository is not registered changes nothing.
pub proof fn law_unregistered_worktree_is_ignored(
    registry: ProjectRegistry,
    directory: QueryPath,
    worktree: WorktreeMetadata,
)
    requires
        root_around(registry, worktree.main_root) is None,
    ensures
        project_root(registry, directory, Some(worktree)) == project_root(
            registry,
            directory,
            None,
        ),
        project_config_root(registry, directory, Some(worktree)) == project_config_root(
            registry,
            directory,
            None,
        ),
{
}

/// The settings of a directory come from where they are: from its registered
/// project's root, or from the worktree that it is reached through, where that one
/// has a project file of its own.
pub proof fn law_settings_are_where_the_file_is(
    registry: ProjectRegistry,
    directory: QueryPath,
    worktree: Option<WorktreeMetadata>,
)
    ensures
        ({
            let root = project_root(registry, directory, worktree);
            let settings = project_config_root(registry, directory, worktree);
            &&& root is Some == settings is Some
            &&& root matches Some(root) ==> registry.view().contains(root)
            &&& settings != root ==> worktree is Some && (worktree->0).has_config
            &&& worktree matches Some(worktree) ==> (!worktree.has_config ==> settings == root)
            &&& worktree matches Some(worktree) ==> (worktree.has_config && worktree_root(
                registry,
                Some(worktree),
            ) is Some ==> settings == Some(worktree.root@))
            &&& worktree is None ==> settings == root
        }),
{
    lemma_found_root_is_registered(registry, directory);
    if let Some(worktree) = worktree {
        lemma_found_root_is_registered(registry, worktree.main_root);
    }
}

proof fn lemma_found_root_is_registered(registry: ProjectRegistry, directory: QueryPath)
    ensures
        root_around(registry, directory) matches Some(root) ==> registry.view().contains(root),
{
    law_found_project_is_around(
        registry.view(),
        directory.path@,
        optional_text(directory.canonical),
        registry.windows,
    );
}

/// A directory in a managed worktree belongs to the project that its main
/// repository belongs to, whatever the directory.
pub proof fn law_worktree_belongs_to_its_main_project(
    registry: ProjectRegistry,
    directory: QueryPath,
    worktree: WorktreeMetadata,
)
    requires
        project_root(registry, worktree.main_root, None) is Some,
    ensures
        project_root(registry, directory, Some(worktree)) == project_root(
            registry,
            worktree.main_root,
            None,
        ),
{
}

/// The repository around a directory is the nearest one that is marked; a place
/// that cannot be read counts only where nothing nearer is marked.
pub proof fn law_nearest_mark_is_found(marks: Seq<RepositoryMark>)
    ensures
        match first_marked(marks) {
            Ok(Some(index)) => {
                &&& 0 <= index < marks.len()
                &&& marks[index] == RepositoryMark::Present
                &&& forall|i: int| 0 <= i < index ==> #[trigger] marks[i] == RepositoryMark::Missing
            },
            Ok(None) => forall|i: int|
                0 <= i < marks.len() ==> #[trigger] marks[i] == RepositoryMark::Missing,
            Err(error) => exists|index: int|
                0 <= index < marks.len() && (#[trigger] marks[index] matches RepositoryMark::Unreadable(
                    reason,
                ) && reason@ == error) && forall|i: int|
                    0 <= i < index ==> #[trigger] marks[i] == RepositoryMark::Missing,
        },
    decreases marks.len(),
{
    if marks.len() > 0 {
        let rest = marks.drop_first();
        law_nearest_mark_is_found(rest);
        assert forall|i: int| 0 < i < marks.len() implies #[trigger] marks[i] == rest[i - 1] by {}
        assert(marks[0] == marks.first());
        if marks.first() == RepositoryMark::Missing {
            if let Err(error) = first_marked(rest) {
                let at = choose|index: int|
                    0 <= index < rest.len() && (#[trigger] rest[index]
                        matches RepositoryMark::Unreadable(reason) && reason@ == error)
                        && forall|i: int|
                        0 <= i < index ==> #[trigger] rest[i] == RepositoryMark::Missing;
                assert(marks[at + 1] == rest[at]);
            }
        }
    }
}

} // verus!
