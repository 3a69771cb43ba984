//! What a project's file says.

use vstd::prelude::*;

use crate::json::{
    display, display_of_json, entries_view, find_other_key, first_other_key, get, json_of,
    lemma_object_view, lookup, names_view, parse, Json, JsonView,
};
use crate::pane::tab::IconName;
use crate::path::{below, join};
use crate::profile::Profile;
use crate::project::paths::{
    is_within, path_is_within, replace_backslashes, with_slashes, QueryPath,
};
use crate::project_commands::{
    commands_read, commands_view, environment_entry_error, pairs, parse_project_commands,
    reports_command_fault, validate_environment_entry, CommandFault, CommandView,
    EnvironmentEntryError, ProjectCommandsError, RegisteredProjectCommand,
};
use crate::text::{
    characters, has_prefix, list_contains, optional_text, pieces, same_text, split, starts_with,
    texts, trim, trimmed,
};

verus! {

pub const PROJECT_CONFIG_DIRECTORY: &'static str = ".zetta";

pub const PROJECT_CONFIG_FILE: &'static str = "config.json";

/// Where a project's file stands.
pub open spec fn config_file_of(root: Seq<char>, windows: bool) -> Seq<char> {
    below(below(root, PROJECT_CONFIG_DIRECTORY@, windows), PROJECT_CONFIG_FILE@, windows)
}

/// Where a project's file stands.
pub fn project_config_path(root: &str, windows: bool) -> (result: String)
    ensures
        result@ == config_file_of(root@, windows),
{
    let directory = join(root, PROJECT_CONFIG_DIRECTORY, windows);
    join(directory.as_str(), PROJECT_CONFIG_FILE, windows)
}

/// The fields that a project's file may have.
pub open spec fn project_fields() -> Seq<Seq<char>> {
    seq![
        "theme"@,
        "dark_theme"@,
        "working_directory"@,
        "default_profile"@,
        "profiles"@,
        "default_tab_icon"@,
        "env"@,
        "commands"@,
        "inactive_pane_opacity"@,
        "initial_split"@,
        "pane_split_templates"@,
    ]
}

/// The first field of a project's file that is not known, if there is one.
pub fn validate_project_fields(object: &Vec<(String, Json)>) -> (result: Result<(), String>)
    ensures
        match first_other_key(entries_view(object@), project_fields()) {
            Some(field) => result matches Err(name) && name@ == field,
            None => result is Ok,
        },
{
    let mut known: Vec<&'static str> = Vec::new();
    known.push("theme");
    known.push("dark_theme");
    known.push("working_directory");
    known.push("default_profile");
    known.push("profiles");
    known.push("default_tab_icon");
    known.push("env");
    known.push("commands");
    known.push("inactive_pane_opacity");
    known.push("initial_split");
    known.push("pane_split_templates");
    proof {
        assert(names_view(known@) =~= project_fields());
    }
    match find_other_key(object, &known) {
        Some(field) => Err(field),
        None => Ok(()),
    }
}

/// Why a project's environment is refused.
#[derive(Debug, PartialEq, Eq)]
pub enum ProjectEnvironmentError {
    NotAnObject,
    NotAText(String),
    Entry(String, EnvironmentEntryError),
}

/// What is wrong with a project's environment.
pub ghost enum EnvironmentProblem {
    NotAnObject,
    NotAText(Seq<char>),
    Entry(Seq<char>, EnvironmentEntryError),
}

impl ProjectEnvironmentError {
    pub open spec fn view(self) -> EnvironmentProblem {
        match self {
            ProjectEnvironmentError::NotAnObject => EnvironmentProblem::NotAnObject,
            ProjectEnvironmentError::NotAText(name) => EnvironmentProblem::NotAText(name@),
            ProjectEnvironmentError::Entry(name, error) => EnvironmentProblem::Entry(name@, error),
        }
    }
}

/// The variables of some entries, or what is wrong with the first that is no
/// variable.
pub open spec fn variables_in(entries: Seq<(Seq<char>, JsonView)>) -> Result<
    Seq<(Seq<char>, Seq<char>)>,
    EnvironmentProblem,
>
    decreases entries.len(),
{
    if entries.len() == 0 {
        Ok(Seq::empty())
    } else {
        match variables_in(entries.drop_last()) {
            Err(problem) => Err(problem),
            Ok(before) => {
                let (name, value) = entries.last();
                match value {
                    JsonView::Text(text) => match environment_entry_error(name, text) {
                        Some(error) => Err(EnvironmentProblem::Entry(name, error)),
                        None => Ok(before.push((name, text))),
                    },
                    _ => Err(EnvironmentProblem::NotAText(name)),
                }
            },
        }
    }
}

/// A project's environment.
pub open spec fn project_environment(value: JsonView) -> Result<
    Seq<(Seq<char>, Seq<char>)>,
    EnvironmentProblem,
> {
    match value {
        JsonView::Object(entries) => variables_in(entries),
        _ => Err(EnvironmentProblem::NotAnObject),
    }
}

/// Once an entry is no variable, what follows does not count.
proof fn lemma_variables_stop(entries: Seq<(Seq<char>, JsonView)>, count: int)
    requires
        0 <= count <= entries.len(),
        variables_in(entries.take(count)) is Err,
    ensures
        variables_in(entries) == variables_in(entries.take(count)),
    decreases entries.len(),
{
    if count < entries.len() {
        assert(entries.drop_last().take(count) == entries.take(count));
        lemma_variables_stop(entries.drop_last(), count);
    } else {
        assert(entries.take(count) == entries);
    }
}

/// Reads a project's environment.
pub fn parse_project_environment(value: &Json) -> (result: Result<
    Vec<(String, String)>,
    ProjectEnvironmentError,
>)
    ensures
        match result {
            Ok(environment) => project_environment(value.view()) == Ok::<
                Seq<(Seq<char>, Seq<char>)>,
                EnvironmentProblem,
            >(pairs(environment@)),
            Err(error) => project_environment(value.view()) == Err::<
                Seq<(Seq<char>, Seq<char>)>,
                EnvironmentProblem,
            >(error.view()),
        },
{
    let entries = match value {
        Json::Object(entries) => entries,
        _ => {
            return Err(ProjectEnvironmentError::NotAnObject);
        },
    };
    let ghost shown = entries_view(entries@);
    let mut environment: Vec<(String, String)> = Vec::new();
    let mut index: usize = 0;
    proof {
        lemma_object_view(*entries);
        assert(shown.take(0) == Seq::<(Seq<char>, JsonView)>::empty());
        assert(pairs(environment@) =~= Seq::<(Seq<char>, Seq<char>)>::empty());
    }
    while index < entries.len()
        invariant
            index <= entries@.len(),
            shown == entries_view(entries@),
            value.view() == JsonView::Object(shown),
            variables_in(shown.take(index as int)) == Ok::<
                Seq<(Seq<char>, Seq<char>)>,
                EnvironmentProblem,
            >(pairs(environment@)),
        decreases entries@.len() - index,
    {
        let name = entries[index].0.as_str();
        proof {
            let longer = shown.take(index + 1);
            assert(longer.drop_last() == shown.take(index as int));
            assert(longer.last() == (name@, entries@[index as int].1.view()));
        }
        match &entries[index].1 {
            Json::Text(text) => {
                if let Err(error) = validate_environment_entry(name, text.as_str()) {
                    proof {
                        lemma_variables_stop(shown, index + 1);
                    }
                    return Err(ProjectEnvironmentError::Entry(name.to_owned(), error));
                }
                let ghost before = environment@;
                environment.push((name.to_owned(), text.clone()));
                proof {
                    assert(pairs(environment@) =~= pairs(before).push((name@, text@)));
                }
            },
            _ => {
                proof {
                    lemma_variables_stop(shown, index + 1);
                }
                return Err(ProjectEnvironmentError::NotAText(name.to_owned()));
            },
        }
        index = index + 1;
    }
    proof {
        assert(shown.take(index as int) == shown);
    }
    Ok(environment)
}

/// Why a project's directory is refused.
#[derive(Clone, Copy, Debug, PartialEq, Eq, Structural)]
pub enum DirectoryError {
    NotAText,
    Blank,
    Outside,
    /// It could not be made canonical.
    Missing,
    /// It is no directory, or it lies outside of the project.
    NotInside,
}

/// Whether a text begins with the letter of a drive.
pub open spec fn names_drive(text: Seq<char>) -> bool {
    text.len() >= 2 && text[1] == ':' && ('a' <= text[0] <= 'z' || 'A' <= text[0] <= 'Z')
}

/// Whether a path is relative and never goes up.
pub open spec fn stays_inside(relative: Seq<char>, windows: bool) -> bool {
    let text = if windows {
        with_slashes(relative)
    } else {
        relative
    };
    &&& !has_prefix(text, "/"@)
    &&& !(windows && names_drive(text))
    &&& !pieces(text, '/').contains(".."@)
}

pub fn is_inside(relative: &str, windows: bool) -> (result: bool)
    ensures
        result == stays_inside(relative@, windows),
{
    let text = if windows {
        replace_backslashes(relative)
    } else {
        relative.to_owned()
    };
    if starts_with(text.as_str(), "/") {
        return false;
    }
    if windows {
        let content = characters(text.as_str());
        if content.len() >= 2 && content[1] == ':' && (('a' <= content[0] && content[0] <= 'z') || (
        'A' <= content[0] && content[0] <= 'Z')) {
            return false;
        }
    }
    let parts = split(text.as_str(), '/');
    !list_contains(&parts, "..")
}

/// Where a project's directory would stand.
pub open spec fn wanted_directory(root: Seq<char>, value: JsonView, windows: bool) -> Result<
    Seq<char>,
    DirectoryError,
> {
    match value {
        JsonView::Text(relative) => if trimmed(relative).len() == 0 {
            Err(DirectoryError::Blank)
        } else if !stays_inside(relative, windows) {
            Err(DirectoryError::Outside)
        } else {
            Ok(below(root, relative, windows))
        },
        _ => Err(DirectoryError::NotAText),
    }
}

/// Where a project's directory would stand.
pub fn project_directory_path(root: &str, value: &Json, windows: bool) -> (result: Result<
    String,
    DirectoryError,
>)
    ensures
        match result {
            Ok(path) => wanted_directory(root@, value.view(), windows) == Ok::<
                Seq<char>,
                DirectoryError,
            >(path@),
            Err(error) => wanted_directory(root@, value.view(), windows) == Err::<
                Seq<char>,
                DirectoryError,
            >(error),
        },
{
    let relative = match value {
        Json::Text(relative) => relative,
        _ => {
            return Err(DirectoryError::NotAText);
        },
    };
    if trim(relative.as_str()).as_str().is_empty() {
        return Err(DirectoryError::Blank);
    }
    if !is_inside(relative.as_str(), windows) {
        return Err(DirectoryError::Outside);
    }
    Ok(join(root, relative.as_str(), windows))
}

/// What there is where a project's directory would stand.
#[derive(Debug, PartialEq, Eq)]
pub enum FoundDirectory {
    /// Nothing that has a canonical path.
    Missing,
    /// The canonical path, and whether it leads to a directory.
    At { path: String, is_directory: bool },
}

/// A project's directory, by what there is where it would stand.
pub open spec fn directory_at(root: Seq<char>, found: FoundDirectory, windows: bool) -> Result<
    Seq<char>,
    DirectoryError,
> {
    match found {
        FoundDirectory::Missing => Err(DirectoryError::Missing),
        FoundDirectory::At { path, is_directory } => if is_directory && is_within(
            path@,
            Some(path@),
            root,
            windows,
        ) {
            Ok(path@)
        } else {
            Err(DirectoryError::NotInside)
        },
    }
}

/// A project's directory, by what there is where it would stand.
pub fn resolve_project_working_directory(
    root: &str,
    value: &Json,
    found: FoundDirectory,
    windows: bool,
) -> (result: Result<String, DirectoryError>)
    ensures
        match wanted_directory(root@, value.view(), windows) {
            Err(error) => result == Err::<String, DirectoryError>(error),
            Ok(_) => match directory_at(root@, found, windows) {
                Err(error) => result == Err::<String, DirectoryError>(error),
                Ok(path) => result matches Ok(directory) && directory@ == path,
            },
        },
{
    if let Err(error) = project_directory_path(root, value, windows) {
        return Err(error);
    }
    match found {
        FoundDirectory::Missing => Err(DirectoryError::Missing),
        FoundDirectory::At { path, is_directory } => {
            let query = QueryPath { path: path.clone(), canonical: Some(path.clone()) };
            if is_directory && path_is_within(&query, root, windows) {
                Ok(path)
            } else {
                Err(DirectoryError::NotInside)
            }
        },
    }
}

/// A project's own directory lies within the project.
pub proof fn law_project_directory_is_inside(
    root: Seq<char>,
    found: FoundDirectory,
    windows: bool,
)
    ensures
        directory_at(root, found, windows) matches Ok(directory) ==> is_within(
            directory,
            Some(directory),
            root,
            windows,
        ),
{
}

/// What the configuration comes to once a project's file is laid over it.
#[derive(Debug, PartialEq, Eq)]
pub struct EffectiveConfig {
    pub profiles: Vec<Profile>,
    pub hidden_profiles: Vec<String>,
    pub default_profile: usize,
    pub default_tab_icon: Option<IconName>,
    pub working_directory: Option<String>,
    pub working_directory_configured: bool,
    /// The names of the pane split templates.
    pub split_templates: Vec<String>,
    pub keymap_path: String,
    pub pane_controls_hidden_by_default: bool,
}

/// What a project's file comes to.
#[derive(Debug, PartialEq, Eq)]
pub struct ProjectConfig {
    pub root: String,
    pub effective: EffectiveConfig,
    /// The fields explicitly present in the project file. `effective` also
    /// contains inherited values, so it cannot be used to determine project
    /// precedence when selecting a mode-specific theme.
    pub theme: Option<String>,
    pub dark_theme: Option<String>,
    pub environment: Vec<(String, String)>,
    pub commands: Vec<RegisteredProjectCommand>,
    pub initial_split: Option<String>,
    /// Tells this reading of the file from others.
    pub identity: u64,
}

/// Why a project's file is refused.
#[derive(Debug, PartialEq, Eq)]
pub enum ProjectConfigError {
    NotJson,
    NotAnObject,
    UnknownField(String),
    Environment(ProjectEnvironmentError),
    Commands(ProjectCommandsError),
    SplitNotAText,
    SplitBlank,
    /// The fields that the configuration shares could not be laid over it.
    Overlay(String),
    ThemeNotAText,
    DarkThemeNotAText,
    Directory(DirectoryError),
    UnknownSplit(String),
}

/// What a project's file says itself.
#[derive(Debug, PartialEq, Eq)]
pub struct ProjectDraft {
    pub object: Vec<(String, Json)>,
    pub environment: Vec<(String, String)>,
    pub commands: Vec<RegisteredProjectCommand>,
    pub initial_split: Option<String>,
    /// The fields that the configuration shares, as JSON.
    pub overlay: String,
}

/// The fields that only a project's file has.
pub open spec fn is_own_field(key: Seq<char>) -> bool {
    key == "env"@ || key == "commands"@ || key == "initial_split"@
}

/// The fields that the configuration shares.
pub open spec fn shared_fields(entries: Seq<(Seq<char>, JsonView)>) -> Seq<(Seq<char>, JsonView)>
    decreases entries.len(),
{
    if entries.len() == 0 {
        Seq::empty()
    } else {
        let before = shared_fields(entries.drop_last());
        if is_own_field(entries.last().0) {
            before
        } else {
            before.push(entries.last())
        }
    }
}

fn copy_shared_fields(object: &Vec<(String, Json)>) -> (result: Vec<(String, Json)>)
    ensures
        entries_view(result@) == shared_fields(entries_view(object@)),
{
    let ghost shown = entries_view(object@);
    let mut shared: Vec<(String, Json)> = Vec::new();
    let mut index: usize = 0;
    proof {
        assert(shown.take(0) == Seq::<(Seq<char>, JsonView)>::empty());
        assert(entries_view(shared@) =~= Seq::<(Seq<char>, JsonView)>::empty());
    }
    while index < object.len()
        invariant
            index <= object@.len(),
            shown == entries_view(object@),
            entries_view(shared@) == shared_fields(shown.take(index as int)),
        decreases object@.len() - index,
    {
        let key = object[index].0.as_str();
        proof {
            let longer = shown.take(index + 1);
            assert(longer.drop_last() == shown.take(index as int));
            assert(longer.last() == (key@, object@[index as int].1.view()));
        }
        if !(same_text(key, "env") || same_text(key, "commands") || same_text(
            key,
            "initial_split",
        )) {
            let value = object[index].1.duplicate();
            let ghost before = shared@;
            shared.push((key.to_owned(), value));
            proof {
                assert(entries_view(shared@) =~= entries_view(before).push((key@, value.view())));
            }
        }
        index = index + 1;
    }
    proof {
        assert(shown.take(index as int) == shown);
    }
    shared
}

/// The environment that a file's fields give.
pub open spec fn environment_in(entries: Seq<(Seq<char>, JsonView)>) -> Result<
    Seq<(Seq<char>, Seq<char>)>,
    EnvironmentProblem,
> {
    match lookup(entries, "env"@) {
        Some(value) => project_environment(value),
        None => Ok(Seq::empty()),
    }
}

/// The commands that a file's fields give; `None` where they are no object.
pub open spec fn commands_in(entries: Seq<(Seq<char>, JsonView)>) -> Option<
    Result<Seq<CommandView>, CommandFault>,
> {
    match lookup(entries, "commands"@) {
        Some(JsonView::Object(commands)) => Some(commands_read(commands)),
        Some(_) => None,
        None => Some(Ok(Seq::empty())),
    }
}

/// Whether the template that a file's fields name is acceptable, as far as the
/// file says.
pub open spec fn split_error(entries: Seq<(Seq<char>, JsonView)>) -> Option<bool> {
    match lookup(entries, "initial_split"@) {
        Some(JsonView::Text(name)) => if trimmed(name).len() == 0 {
            Some(true)
        } else {
            None
        },
        Some(_) => Some(false),
        None => None,
    }
}

/// The template that a file's fields name.
pub open spec fn split_in(entries: Seq<(Seq<char>, JsonView)>) -> Option<Seq<char>> {
    match lookup(entries, "initial_split"@) {
        Some(JsonView::Text(name)) => Some(name),
        _ => None,
    }
}

/// Whether a file's fields are read as they say.
pub open spec fn drafted(
    entries: Seq<(Seq<char>, JsonView)>,
    result: Result<ProjectDraft, ProjectConfigError>,
) -> bool {
    match first_other_key(entries, project_fields()) {
        Some(field) => result matches Err(ProjectConfigError::UnknownField(name)) && name@ == field,
        None => match environment_in(entries) {
            Err(problem) => result matches Err(ProjectConfigError::Environment(error))
                && error.view() == problem,
            Ok(environment) => match commands_in(entries) {
                None => result == Err::<ProjectDraft, ProjectConfigError>(
                    ProjectConfigError::Commands(ProjectCommandsError::NotAnObject),
                ),
                Some(Err(fault)) => result matches Err(ProjectConfigError::Commands(error))
                    && reports_command_fault(error, fault),
                Some(Ok(commands)) => match split_error(entries) {
                    Some(true) => result matches Err(ProjectConfigError::SplitBlank),
                    Some(false) => result matches Err(ProjectConfigError::SplitNotAText),
                    None => result matches Ok(draft) && {
                        &&& entries_view(draft.object@) == entries
                        &&& pairs(draft.environment@) == environment
                        &&& commands_view(draft.commands@) == commands
                        &&& optional_text(draft.initial_split) == split_in(entries)
                        &&& draft.overlay@ == display_of_json(
                            JsonView::Object(shared_fields(entries)),
                        )
                    },
                },
            },
        },
    }
}

/// What a project's file comes to by itself, given the fields of its object.
pub fn draft_project(object: Vec<(String, Json)>) -> (result: Result<ProjectDraft, ProjectConfigError>)
    ensures
        drafted(entries_view(object@), result),
{
    let ghost entries = entries_view(object@);
    if let Err(field) = validate_project_fields(&object) {
        return Err(ProjectConfigError::UnknownField(field));
    }
    let environment = match get(&object, "env") {
        Some(value) => match parse_project_environment(value) {
            Ok(environment) => environment,
            Err(error) => {
                return Err(ProjectConfigError::Environment(error));
            },
        },
        None => {
            let none: Vec<(String, String)> = Vec::new();
            proof {
                assert(pairs(none@) =~= Seq::<(Seq<char>, Seq<char>)>::empty());
            }
            none
        },
    };
    let commands = match get(&object, "commands") {
        Some(value) => match parse_project_commands(value) {
            Ok(commands) => commands,
            Err(error) => {
                return Err(ProjectConfigError::Commands(error));
            },
        },
        None => {
            let none: Vec<RegisteredProjectCommand> = Vec::new();
            proof {
                assert(commands_view(none@) =~= Seq::<CommandView>::empty());
            }
            none
        },
    };
    let initial_split = match get(&object, "initial_split") {
        Some(Json::Text(name)) => {
            if trim(name.as_str()).as_str().is_empty() {
                return Err(ProjectConfigError::SplitBlank);
            }
            Some(name.clone())
        },
        Some(_) => {
            return Err(ProjectConfigError::SplitNotAText);
        },
        None => None,
    };
    let shared = copy_shared_fields(&object);
    proof {
        lemma_object_view(shared);
    }
    let overlay = display(&Json::Object(shared));
    Ok(ProjectDraft { object, environment, commands, initial_split, overlay })
}

/// A field that is a text, where it is there.
pub open spec fn text_field(entries: Seq<(Seq<char>, JsonView)>, key: Seq<char>) -> Result<
    Option<Seq<char>>,
    (),
> {
    match lookup(entries, key) {
        Some(JsonView::Text(text)) => Ok(Some(text)),
        Some(_) => Err(()),
        None => Ok(None),
    }
}

fn read_text_field(object: &Vec<(String, Json)>, key: &str) -> (result: Result<Option<String>, ()>)
    ensures
        match result {
            Ok(text) => text_field(entries_view(object@), key@) == Ok::<Option<Seq<char>>, ()>(
                optional_text(text),
            ),
            Err(_) => text_field(entries_view(object@), key@) is Err,
        },
{
    match get(object, key) {
        Some(Json::Text(text)) => Ok(Some(text.clone())),
        Some(_) => Err(()),
        None => Ok(None),
    }
}

/// The directory that a project's terminals start in: its own, else its root.
pub open spec fn directory_in(
    entries: Seq<(Seq<char>, JsonView)>,
    root: Seq<char>,
    found: FoundDirectory,
    windows: bool,
) -> Result<Seq<char>, DirectoryError> {
    match lookup(entries, "working_directory"@) {
        None => Ok(root),
        Some(value) => match wanted_directory(root, value, windows) {
            Err(error) => Err(error),
            Ok(_) => directory_at(root, found, windows),
        },
    }
}

impl ProjectConfig {
    /// Reads what a project's file says itself.
    pub fn parse(source: &str) -> (result: Result<ProjectDraft, ProjectConfigError>)
        ensures
            match json_of(source@) {
                None => result matches Err(ProjectConfigError::NotJson),
                Some(JsonView::Object(entries)) => drafted(entries, result),
                Some(_) => result matches Err(ProjectConfigError::NotAnObject),
            },
    {
        match parse(source) {
            None => Err(ProjectConfigError::NotJson),
            Some(Json::Object(object)) => {
                proof {
                    lemma_object_view(object);
                }
                draft_project(object)
            },
            Some(_) => Err(ProjectConfigError::NotAnObject),
        }
    }

    /// What a project's file comes to, once its fields that the configuration
    /// shares were laid over it: `overlaid` is what that gave, `found` is what
    /// there is where its directory would stand.
    pub fn complete(
        root: String,
        draft: ProjectDraft,
        overlaid: Result<EffectiveConfig, String>,
        found: FoundDirectory,
        windows: bool,
        identity: u64,
    ) -> (result: Result<ProjectConfig, ProjectConfigError>)
        ensures
            match overlaid {
                Err(error) => result == Err::<ProjectConfig, ProjectConfigError>(
                    ProjectConfigError::Overlay(error),
                ),
                Ok(effective) => {
                    let entries = entries_view(draft.object@);
                    if text_field(entries, "theme"@) is Err {
                        result matches Err(ProjectConfigError::ThemeNotAText)
                    } else if text_field(entries, "dark_theme"@) is Err {
                        result matches Err(ProjectConfigError::DarkThemeNotAText)
                    } else {
                        match directory_in(entries, root@, found, windows) {
                            Err(error) => result == Err::<ProjectConfig, ProjectConfigError>(
                                ProjectConfigError::Directory(error),
                            ),
                            Ok(directory) => match draft.initial_split {
                                Some(name) if !texts(effective.split_templates@).contains(name@) =>
                                    result matches Err(ProjectConfigError::UnknownSplit(unknown))
                                        && unknown == name,
                                _ => result matches Ok(project) && {
                                    &&& project.root == root
                                    &&& project.identity == identity
                                    &&& optional_text(project.theme) == text_field(
                                        entries,
                                        "theme"@,
                                    )->Ok_0
                                    &&& optional_text(project.dark_theme) == text_field(
                                        entries,
                                        "dark_theme"@,
                                    )->Ok_0
                                    &&& project.environment == draft.environment
                                    &&& project.commands == draft.commands
                                    &&& project.initial_split == draft.initial_split
                                    &&& project.effective == (EffectiveConfig {
                                        working_directory: project.effective.working_directory,
                                        working_directory_configured: true,
                                        ..effective
                                    })
                                    &&& optional_text(project.effective.working_directory) == Some(
                                        directory,
                                    )
                                },
                            },
                        }
                    }
                },
            },
    {
        let effective = match overlaid {
            Ok(effective) => effective,
            Err(error) => {
                return Err(ProjectConfigError::Overlay(error));
            },
        };
        let theme = match read_text_field(&draft.object, "theme") {
            Ok(theme) => theme,
            Err(_) => {
                return Err(ProjectConfigError::ThemeNotAText);
            },
        };
        let dark_theme = match read_text_field(&draft.object, "dark_theme") {
            Ok(theme) => theme,
            Err(_) => {
                return Err(ProjectConfigError::DarkThemeNotAText);
            },
        };
        let directory = match get(&draft.object, "working_directory") {
            Some(value) => match resolve_project_working_directory(
                root.as_str(),
                value,
                found,
                windows,
            ) {
                Ok(directory) => directory,
                Err(error) => {
                    return Err(ProjectConfigError::Directory(error));
                },
            },
            None => root.clone(),
        };
        if let Some(name) = &draft.initial_split {
            let known = list_contains(&effective.split_templates, name.as_str());
            proof {
                assert(known == texts(effective.split_templates@).contains(name@));
            }
            if !known {
                return Err(ProjectConfigError::UnknownSplit(name.clone()));
            }
        }
        Ok(
            ProjectConfig {
                root,
                effective: EffectiveConfig {
                    working_directory: Some(directory),
                    working_directory_configured: true,
                    ..effective
                },
                theme,
                dark_theme,
                environment: draft.environment,
                commands: draft.commands,
                initial_split: draft.initial_split,
                identity,
            },
        )
    }
}

} // verus!
