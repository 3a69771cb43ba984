//! `zetta project`: what its arguments ask for.

use vstd::prelude::*;

use crate::local_sessions::paths::str_view;
use crate::path::{below, join};
use crate::profile_cli::{any_help, find_word, first_word, is_option, wants_help};
use crate::project::paths::QueryPath;
use crate::project::registry::{deepest, ProjectRegistry};
use crate::project::{
    project_root, resolve_registered_project, resolve_registered_project_root, worktree_root, ProjectRootResolution,
    WorktreeMetadata,
};
use crate::text::{joined, optional_text, same_text, starts_with, texts};

verus! {

/// What is done with projects.
#[derive(Debug, PartialEq, Eq)]
pub enum ProjectCommand {
    Add { path: Option<String> },
    List,
    Remove { path: Option<String> },
    Open { path: Option<String> },
}

/// What is done with projects, as it views.
pub ghost enum ProjectCommandView {
    Add { path: Option<Seq<char>> },
    List,
    Remove { path: Option<Seq<char>> },
    Open { path: Option<Seq<char>> },
}

impl ProjectCommand {
    pub open spec fn view(self) -> ProjectCommandView {
        match self {
            ProjectCommand::Add { path } => ProjectCommandView::Add { path: optional_text(path) },
            ProjectCommand::List => ProjectCommandView::List,
            ProjectCommand::Remove { path } => ProjectCommandView::Remove {
                path: optional_text(path),
            },
            ProjectCommand::Open { path } => ProjectCommandView::Open { path: optional_text(path) },
        }
    }
}

/// Why the arguments are refused.
#[derive(Clone, Copy, Debug, PartialEq, Eq, Structural)]
pub enum ProjectArgsError {
    MissingOperation,
    UnknownOperation,
    ListTakesNoArguments,
    RepeatedPath,
    MissingPath,
    UnknownOption,
    SecondPath,
}

/// What the arguments ask for.
#[derive(Debug, PartialEq, Eq)]
pub enum ParsedProjectArgs {
    /// The help on an operation, or on all of them.
    Help { operation: Option<String> },
    Command(ProjectCommand),
}

/// What the arguments ask for, as it views.
pub ghost enum ParsedProjectView {
    Help { operation: Option<Seq<char>> },
    Command(ProjectCommandView),
}

impl ParsedProjectArgs {
    pub open spec fn view(self) -> ParsedProjectView {
        match self {
            ParsedProjectArgs::Help { operation } => ParsedProjectView::Help {
                operation: optional_text(operation),
            },
            ParsedProjectArgs::Command(command) => ParsedProjectView::Command(command.view()),
        }
    }
}

/// The path that arguments name, after some were read.
pub open spec fn path_read(arguments: Seq<Seq<char>>, path: Option<Seq<char>>) -> Result<
    Option<Seq<char>>,
    ProjectArgsError,
>
    decreases arguments.len(),
{
    if arguments.len() == 0 {
        Ok(path)
    } else if arguments[0] == "--path"@ || arguments[0] == "-p"@ {
        if path is Some {
            Err(ProjectArgsError::RepeatedPath)
        } else if arguments.len() == 1 {
            Err(ProjectArgsError::MissingPath)
        } else {
            path_read(arguments.skip(2), Some(arguments[1]))
        }
    } else if is_option(arguments[0]) {
        Err(ProjectArgsError::UnknownOption)
    } else if path is Some {
        Err(ProjectArgsError::SecondPath)
    } else {
        path_read(arguments.drop_first(), Some(arguments[0]))
    }
}

/// The path that the arguments from an index on name.
pub fn parse_path_command(arguments: &Vec<String>, start: usize) -> (result: Result<
    Option<String>,
    ProjectArgsError,
>)
    requires
        start <= arguments@.len(),
    ensures
        match result {
            Ok(path) => path_read(texts(arguments@).skip(start as int), None) == Ok::<
                Option<Seq<char>>,
                ProjectArgsError,
            >(optional_text(path)),
            Err(error) => path_read(texts(arguments@).skip(start as int), None) == Err::<
                Option<Seq<char>>,
                ProjectArgsError,
            >(error),
        },
{
    let ghost all = texts(arguments@);
    let mut path: Option<String> = None;
    let mut index: usize = start;
    let count: usize = arguments.len();
    while index < count
        invariant
            start <= index <= count == arguments@.len(),
            all == texts(arguments@),
            path_read(all.skip(start as int), None) == path_read(
                all.skip(index as int),
                optional_text(path),
            ),
        decreases count - index,
    {
        let argument = arguments[index].as_str();
        let last = count - index == 1;
        let ghost here = all.skip(index as int);
        proof {
            assert(here[0] == argument@);
            assert(here.drop_first() == all.skip(index + 1));
            if !last {
                assert(here[1] == arguments@[index + 1]@);
                assert(here.skip(2) == all.skip(index + 2));
            }
        }
        if same_text(argument, "--path") || same_text(argument, "-p") {
            if path.is_some() {
                return Err(ProjectArgsError::RepeatedPath);
            }
            if last {
                return Err(ProjectArgsError::MissingPath);
            }
            path = Some(arguments[index + 1].clone());
            index = index + 2;
        } else if starts_with(argument, "-") {
            return Err(ProjectArgsError::UnknownOption);
        } else {
            if path.is_some() {
                return Err(ProjectArgsError::SecondPath);
            }
            path = Some(argument.to_owned());
            index = index + 1;
        }
    }
    proof {
        assert(all.skip(index as int) == Seq::<Seq<char>>::empty());
    }
    Ok(path)
}

/// What the arguments of `zetta project` ask for.
pub open spec fn project_args(arguments: Seq<Seq<char>>) -> Result<
    ParsedProjectView,
    ProjectArgsError,
> {
    if any_help(arguments) {
        Ok(ParsedProjectView::Help { operation: first_word(arguments) })
    } else if arguments.len() == 0 {
        Err(ProjectArgsError::MissingOperation)
    } else {
        let rest = arguments.skip(1);
        if arguments[0] == "add"@ {
            match path_read(rest, None) {
                Ok(path) => Ok(ParsedProjectView::Command(ProjectCommandView::Add { path })),
                Err(error) => Err(error),
            }
        } else if arguments[0] == "list"@ {
            if rest.len() == 0 {
                Ok(ParsedProjectView::Command(ProjectCommandView::List))
            } else {
                Err(ProjectArgsError::ListTakesNoArguments)
            }
        } else if arguments[0] == "remove"@ {
            match path_read(rest, None) {
                Ok(path) => Ok(ParsedProjectView::Command(ProjectCommandView::Remove { path })),
                Err(error) => Err(error),
            }
        } else if arguments[0] == "open"@ {
            match path_read(rest, None) {
                Ok(path) => Ok(ParsedProjectView::Command(ProjectCommandView::Open { path })),
                Err(error) => Err(error),
            }
        } else {
            Err(ProjectArgsError::UnknownOperation)
        }
    }
}

/// What the arguments of `zetta project` ask for.
pub fn parse_project_args(arguments: &Vec<String>) -> (result: Result<
    ParsedProjectArgs,
    ProjectArgsError,
>)
    ensures
        match result {
            Ok(parsed) => project_args(texts(arguments@)) == Ok::<
                ParsedProjectView,
                ProjectArgsError,
            >(parsed.view()),
            Err(error) => project_args(texts(arguments@)) == Err::<
                ParsedProjectView,
                ProjectArgsError,
            >(error),
        },
{
    if wants_help(arguments) {
        return Ok(ParsedProjectArgs::Help { operation: find_word(arguments) });
    }
    proof {
        assert(texts(arguments@).len() == arguments@.len());
    }
    if arguments.len() == 0 {
        return Err(ProjectArgsError::MissingOperation);
    }
    let operation = arguments[0].as_str();
    proof {
        assert(texts(arguments@)[0] == operation@);
    }
    if same_text(operation, "add") {
        match parse_path_command(arguments, 1) {
            Ok(path) => Ok(ParsedProjectArgs::Command(ProjectCommand::Add { path })),
            Err(error) => Err(error),
        }
    } else if same_text(operation, "list") {
        if arguments.len() == 1 {
            Ok(ParsedProjectArgs::Command(ProjectCommand::List))
        } else {
            Err(ProjectArgsError::ListTakesNoArguments)
        }
    } else if same_text(operation, "remove") {
        match parse_path_command(arguments, 1) {
            Ok(path) => Ok(ParsedProjectArgs::Command(ProjectCommand::Remove { path })),
            Err(error) => Err(error),
        }
    } else if same_text(operation, "open") {
        match parse_path_command(arguments, 1) {
            Ok(path) => Ok(ParsedProjectArgs::Command(ProjectCommand::Open { path })),
            Err(error) => Err(error),
        }
    } else {
        Err(ProjectArgsError::UnknownOperation)
    }
}

/// The root that is registered for a requested directory: the main project of
/// a managed worktree, else the repository around the current directory where
/// no path was given, else the directory itself.
pub open spec fn root_to_add(
    requested: Seq<char>,
    path_given: bool,
    is_wsl: bool,
    managed: Option<Seq<char>>,
    repository: Option<Seq<char>>,
) -> Seq<char> {
    match managed {
        Some(root) => root,
        None => if !path_given && !is_wsl && repository is Some {
            repository->0
        } else {
            requested
        },
    }
}

/// The root that is registered for a requested directory. See [`root_to_add`].
/// `repository` is the repository around the directory.
pub fn project_root_to_add(
    requested: String,
    path_given: bool,
    is_wsl: bool,
    resolution: ProjectRootResolution,
    repository: Option<String>,
) -> (result: String)
    ensures
        result@ == root_to_add(
            requested@,
            path_given,
            is_wsl,
            if resolution.managed_worktree {
                optional_text(resolution.root)
            } else {
                None
            },
            optional_text(repository),
        ),
{
    if resolution.managed_worktree {
        if let Some(root) = resolution.root {
            return root;
        }
    }
    if !path_given && !is_wsl {
        match repository {
            Some(repository) => repository,
            None => requested,
        }
    } else {
        requested
    }
}

/// Where a project is opened.
#[derive(Debug, PartialEq, Eq)]
pub struct ProjectOpenTarget {
    pub root: String,
    /// A managed worktree keeps the directory from which the project was asked
    /// for, while an ordinary project uses its configured working directory.
    pub working_directory: Option<String>,
}

/// Where the project of a requested directory is opened, if it is in one.
/// `directory` is the canonical path of the request where it leads to a
/// directory.
pub fn resolve_open_target_in_registry(
    requested: &QueryPath,
    worktree: &Option<WorktreeMetadata>,
    directory: Option<String>,
    registry: &ProjectRegistry,
) -> (result: Option<ProjectOpenTarget>)
    ensures
        match project_root(*registry, *requested, *worktree) {
            None => result is None,
            Some(root) => result matches Some(target) && target.root@ == root
                && target.working_directory == if worktree_root(*registry, *worktree) is Some {
                directory
            } else {
                None
            },
        },
{
    let resolution = resolve_registered_project(requested, worktree, registry);
    match resolution.root {
        Some(root) => Some(
            ProjectOpenTarget {
                root,
                working_directory: if resolution.managed_worktree {
                    directory
                } else {
                    None
                },
            },
        ),
        None => None,
    }
}

/// Where the project of the current directory is opened, if it is in one.
pub fn current_project_target(
    current: &QueryPath,
    worktree: &Option<WorktreeMetadata>,
    registry: &ProjectRegistry,
) -> (result: Option<ProjectOpenTarget>)
    ensures
        match project_root(*registry, *current, *worktree) {
            None => result is None,
            Some(root) => result matches Some(target) && target.root@ == root && optional_text(
                target.working_directory,
            ) == if worktree_root(*registry, *worktree) is Some {
                Some(current.path@)
            } else {
                None
            },
        },
{
    resolve_open_target_in_registry(current, worktree, Some(current.path.clone()), registry)
}

/// What is said of a path that is in no project.
pub open spec fn outside_projects_text(path: Seq<char>) -> Seq<char> {
    path + " is not inside a registered Zetta project"@
}

/// What is said of a path that is in no project.
pub fn outside_projects_error(path: &str) -> (result: String)
    ensures
        result@ == outside_projects_text(path@),
{
    joined(path, " is not inside a registered Zetta project")
}

/// Takes out of a registry the project that a requested path is in, and gives
/// its root. `canonical` is the canonical path of the root that the request
/// resolves to, where it has one.
pub fn remove_requested_project(
    registry: &mut ProjectRegistry,
    requested: QueryPath,
    worktree: &Option<WorktreeMetadata>,
    canonical: Option<String>,
) -> (result: Result<String, String>)
    requires
        old(registry).wf(),
    ensures
        final(registry).wf(),
        ({
            let from = match project_root(*old(registry), requested, *worktree) {
                Some(root) => (root, optional_text(canonical)),
                None => (requested.path@, optional_text(requested.canonical)),
            };
            match deepest(old(registry).view(), from.0, from.1, old(registry).windows) {
                Some(index) => {
                    &&& 0 <= index < old(registry).view().len()
                    &&& result matches Ok(removed) && removed@ == old(registry).view()[index]
                    &&& final(registry).view() == old(registry).view().remove(index)
                    &&& final(registry).path == old(registry).path
                    &&& final(registry).windows == old(registry).windows
                },
                None => {
                    &&& result matches Err(error) && error@ == outside_projects_text(
                        requested.path@,
                    )
                    &&& *final(registry) == *old(registry)
                },
            }
        }),
{
    let error = outside_projects_error(requested.path.as_str());
    let removed = match resolve_registered_project_root(&requested, worktree, registry) {
        Some(root) => registry.remove(&QueryPath { path: root, canonical }),
        None => registry.remove(&requested),
    };
    match removed {
        Some(removed) => Ok(removed),
        None => Err(error),
    }
}

/// A path as it is meant from a directory: the directory where none is given.
pub fn absolute_path_without_requiring_existence(
    path: Option<&str>,
    is_absolute: bool,
    current: &str,
    windows: bool,
) -> (result: String)
    ensures
        result@ == match path {
            Some(path) => if is_absolute {
                path@
            } else {
                below(current@, path@, windows)
            },
            None => current@,
        },
{
    match path {
        Some(path) => if is_absolute {
            path.to_owned()
        } else {
            join(current, path, windows)
        },
        None => current.to_owned(),
    }
}

pub const ADD_HELP: &'static str = "Register a Zetta project\n\nUsage: zetta project add [PATH]\n       zetta project add --path PATH\n\nCreates PATH/.zetta/config.json with an empty object when it does not exist, validates it, and records the canonical project root. Without PATH, the nearest native Git repository root is used, falling back to the current directory. WSL uses the exact current directory and is never scanned. Register only trusted projects: pane templates may launch commands.\n\nOptions:\n";

pub const LIST_HELP: &'static str = "List registered Zetta projects\n\nUsage: zetta project list\n\nPrints one canonical project root per line.\n\nOptions:\n";

pub const REMOVE_HELP: &'static str = "Unregister a Zetta project\n\nUsage: zetta project remove [PATH]\n       zetta project remove --path PATH\n\nRemoves the containing project from Zetta's registry. The project's .zetta/config.json is never deleted.\n\nOptions:\n";

pub const OPEN_HELP: &'static str = "Open a registered Zetta project\n\nUsage: zetta project open [PATH]\n       zetta project open --path PATH\n\nOpens the containing registered project in a new active tab of the running Zetta process, or starts Zetta when needed. A Zetta-managed wt/* worktree uses the registered main repository's configuration while preserving the requested worktree directory.\n\nOptions:\n";

pub const PROJECT_HELP: &'static str = "Manage Zetta projects\n\nUsage: zetta project <COMMAND> [OPTIONS]\n\nCommands:\n";

pub const PROJECT_HELP_END: &'static str = "\n\nRun `zetta project <COMMAND> --help` for command-specific help.";

/// The rows of the table in the help on an operation.
pub open spec fn help_rows(operation: Option<Seq<char>>) -> Seq<(Seq<char>, Seq<char>)> {
    let help = ("-h, --help"@, "Print help"@);
    match operation {
        Some(name) => if name == "add"@ {
            seq![("-p, --path PATH"@, "Project root"@), help]
        } else if name == "list"@ {
            seq![help]
        } else if name == "remove"@ || name == "open"@ {
            seq![("-p, --path PATH"@, "Project root or a path inside it"@), help]
        } else {
            command_rows()
        },
        None => command_rows(),
    }
}

/// The rows of the table of operations.
pub open spec fn command_rows() -> Seq<(Seq<char>, Seq<char>)> {
    seq![
        ("add"@, "Create or validate project configuration and register the project"@),
        ("list"@, "List registered projects"@),
        ("remove"@, "Unregister a project without deleting its configuration"@),
        ("open"@, "Open a registered project in a new active tab"@),
    ]
}

/// Rows as they view.
pub open spec fn rows_view(rows: Seq<(&'static str, &'static str)>) -> Seq<(Seq<char>, Seq<char>)> {
    rows.map_values(|row: (&'static str, &'static str)| (row.0@, row.1@))
}

/// The rows of the table in the help on an operation.
pub fn project_help_rows(operation: Option<&str>) -> (result: Vec<(&'static str, &'static str)>)
    ensures
        rows_view(result@) == help_rows(str_view(operation)),
{
    let mut rows: Vec<(&'static str, &'static str)> = Vec::new();
    if let Some(name) = operation {
        let added = same_text(name, "add");
        let listed = same_text(name, "list");
        let found = same_text(name, "remove") || same_text(name, "open");
        if added || listed || found {
            if added {
                rows.push(("-p, --path PATH", "Project root"));
            } else if found && !listed {
                rows.push(("-p, --path PATH", "Project root or a path inside it"));
            }
            rows.push(("-h, --help", "Print help"));
            proof {
                assert(rows_view(rows@) =~= help_rows(str_view(operation)));
            }
            return rows;
        }
    }
    rows.push(("add", "Create or validate project configuration and register the project"));
    rows.push(("list", "List registered projects"));
    rows.push(("remove", "Unregister a project without deleting its configuration"));
    rows.push(("open", "Open a registered project in a new active tab"));
    proof {
        assert(rows_view(rows@) =~= command_rows());
    }
    rows
}

/// The help on an operation, with its table.
pub open spec fn help_with(operation: Option<Seq<char>>, table: Seq<char>) -> Seq<char> {
    match operation {
        Some(name) => if name == "add"@ {
            ADD_HELP@ + table
        } else if name == "list"@ {
            LIST_HELP@ + table
        } else if name == "remove"@ {
            REMOVE_HELP@ + table
        } else if name == "open"@ {
            OPEN_HELP@ + table
        } else {
            PROJECT_HELP@ + table + PROJECT_HELP_END@
        },
        None => PROJECT_HELP@ + table + PROJECT_HELP_END@,
    }
}

/// The help on an operation, with the table that its rows make.
pub fn project_help(operation: Option<&str>, table: &str) -> (result: String)
    ensures
        result@ == help_with(str_view(operation), table@),
{
    if let Some(name) = operation {
        if same_text(name, "add") {
            return joined(ADD_HELP, table);
        }
        if same_text(name, "list") {
            return joined(LIST_HELP, table);
        }
        if same_text(name, "remove") {
            return joined(REMOVE_HELP, table);
        }
        if same_text(name, "open") {
            return joined(OPEN_HELP, table);
        }
    }
    let mut text = joined(PROJECT_HELP, table);
    text.push_str(PROJECT_HELP_END);
    text
}

/// A command as one would type it behind `zetta project`.
pub open spec fn typed_project_command(command: ProjectCommandView) -> Seq<Seq<char>> {
    match command {
        ProjectCommandView::List => seq!["list"@],
        ProjectCommandView::Add { path: None } => seq!["add"@],
        ProjectCommandView::Add { path: Some(path) } => seq!["add"@, "--path"@, path],
        ProjectCommandView::Remove { path: None } => seq!["remove"@],
        ProjectCommandView::Remove { path: Some(path) } => seq!["remove"@, "--path"@, path],
        ProjectCommandView::Open { path: None } => seq!["open"@],
        ProjectCommandView::Open { path: Some(path) } => seq!["open"@, "--path"@, path],
    }
}

/// The path that a command is about, if it names one.
pub open spec fn path_of(command: ProjectCommandView) -> Option<Seq<char>> {
    match command {
        ProjectCommandView::List => None,
        ProjectCommandView::Add { path } => path,
        ProjectCommandView::Remove { path } => path,
        ProjectCommandView::Open { path } => path,
    }
}

proof fn lemma_path_word(path: Seq<char>)
    ensures
        path_read(seq!["--path"@, path], None) == Ok::<Option<Seq<char>>, ProjectArgsError>(
            Some(path),
        ),
        path_read(seq!["-p"@, path], None) == Ok::<Option<Seq<char>>, ProjectArgsError>(
            Some(path),
        ),
        !is_option(path) ==> path_read(seq![path], None) == Ok::<
            Option<Seq<char>>,
            ProjectArgsError,
        >(Some(path)),
{
    reveal_strlit("--path");
    reveal_strlit("-p");
    reveal_strlit("-");
    assert("--path"@.take(1) =~= "-"@ && "-p"@.take(1) =~= "-"@);
    reveal_with_fuel(path_read, 3);
    assert(seq!["--path"@, path].skip(2) =~= Seq::<Seq<char>>::empty());
    assert(seq!["-p"@, path].skip(2) =~= Seq::<Seq<char>>::empty());
    assert(seq![path].drop_first() =~= Seq::<Seq<char>>::empty());
}

/// Every command can be typed and is read as that command with its path, which
/// may also be given by `-p` or by itself.
pub proof fn law_typed_project_commands_are_read(command: ProjectCommandView)
    requires
        path_of(command) matches Some(path) ==> path != "--help"@ && path != "-h"@,
    ensures
        project_args(typed_project_command(command)) == Ok::<ParsedProjectView, ProjectArgsError>(
            ParsedProjectView::Command(command),
        ),
        path_of(command) matches Some(path) ==> project_args(
            typed_project_command(command).update(1, "-p"@),
        ) == Ok::<ParsedProjectView, ProjectArgsError>(ParsedProjectView::Command(command)),
        path_of(command) matches Some(path) ==> !is_option(path) ==> project_args(
            typed_project_command(command).remove(1),
        ) == Ok::<ParsedProjectView, ProjectArgsError>(ParsedProjectView::Command(command)),
{
    reveal_strlit("add");
    reveal_strlit("list");
    reveal_strlit("remove");
    reveal_strlit("open");
    reveal_strlit("--path");
    reveal_strlit("-p");
    reveal_strlit("--help");
    reveal_strlit("-h");
    reveal_strlit("-");
    assert("add"@.len() == 3 && "remove"@.len() == 6 && "list"@[0] == 'l' && "open"@[0] == 'o');
    assert("--help"@[2] == 'h' && "--path"@[2] == 'p' && "-p"@[1] == 'p' && "-h"@[1] == 'h');
    assert("list"@.len() == 4 && "open"@.len() == 4 && "-h"@.len() == 2 && "-p"@.len() == 2);
    assert("remove"@[0] == 'r' && "--help"@[0] == '-');
    let arguments = typed_project_command(command);
    match path_of(command) {
        None => {
            assert(arguments.len() == 1);
            assert(arguments.skip(1) =~= Seq::<Seq<char>>::empty());
            assert(!any_help(arguments));
        },
        Some(path) => {
            lemma_path_word(path);
            let short = arguments.update(1, "-p"@);
            let alone = arguments.remove(1);
            assert(arguments[1] == "--path"@ && arguments[2] == path && arguments.len() == 3);
            assert(arguments.skip(1) =~= seq!["--path"@, path]);
            assert(short =~= seq![arguments[0], "-p"@, path]);
            assert(short.skip(1) =~= seq!["-p"@, path]);
            assert(alone =~= seq![arguments[0], path]);
            assert(alone.skip(1) =~= seq![path]);
            assert(!any_help(arguments));
            assert(!any_help(short));
            assert(!any_help(alone));
        },
    }
}

/// A path that was given is registered itself, whatever repository is around it,
/// unless it lies in a managed worktree; and a managed worktree is never
/// registered for itself.
pub proof fn law_given_path_is_registered(
    requested: Seq<char>,
    path_given: bool,
    is_wsl: bool,
    managed: Option<Seq<char>>,
    repository: Option<Seq<char>>,
)
    ensures
        managed is None && path_given ==> root_to_add(
            requested,
            path_given,
            is_wsl,
            managed,
            repository,
        ) == requested,
        managed matches Some(main) ==> root_to_add(
            requested,
            path_given,
            is_wsl,
            managed,
            repository,
        ) == main,
        managed is None ==> (repository matches Some(around) ==> root_to_add(
            requested,
            false,
            false,
            managed,
            repository,
        ) == around),
        managed is None ==> root_to_add(requested, false, true, managed, repository) == requested,
{
}

/// The help on an operation is that of the operation, with the options it has.
pub proof fn law_project_help_is_on_the_operation(table: Seq<char>)
    ensures
        help_with(Some("add"@), table) == ADD_HELP@ + table,
        help_with(Some("list"@), table) == LIST_HELP@ + table,
        help_with(Some("remove"@), table) == REMOVE_HELP@ + table,
        help_with(Some("open"@), table) == OPEN_HELP@ + table,
        help_with(None, table) == PROJECT_HELP@ + table + PROJECT_HELP_END@,
        help_rows(Some("add"@)).len() == 2 && help_rows(Some("add"@))[0].0 == "-p, --path PATH"@,
        help_rows(Some("open"@)) == help_rows(Some("remove"@)),
        help_rows(Some("list"@)).len() == 1 && help_rows(Some("list"@))[0].0 == "-h, --help"@,
        help_rows(None).len() == 4,
{
    reveal_strlit("add");
    reveal_strlit("list");
    reveal_strlit("remove");
    reveal_strlit("open");
    assert("add"@.len() == 3 && "remove"@.len() == 6 && "list"@[0] == 'l' && "open"@[0] == 'o');
    assert("list"@.len() == 4 && "open"@.len() == 4);
}

} // verus!
