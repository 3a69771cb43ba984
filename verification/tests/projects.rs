use zetta::json::{parse, Json};
use zetta::pane::tab::{IconName, TabIconOverride};
use zetta::profile::{Profile, Shell};
use zetta::profile_icon::ProfileIcon;
use zetta::project::config::{
    draft_project, is_inside, parse_project_environment, project_config_path, project_directory_path,
    resolve_project_working_directory, DirectoryError, EffectiveConfig, FoundDirectory,
    ProjectConfig, ProjectConfigError, ProjectEnvironmentError,
};
use zetta::project::paths::{
    is_wsl_unc_path, path_depth, path_is_within, paths_equal, project_display_name, project_key,
    windows_paths_equal, QueryPath,
};
use zetta::project::registry::{ProjectRegistry, RegistryError};
use zetta::project::{
    discover_project_config, find_repository_root, resolve_registered_project, RepositoryMark,
    WorktreeMetadata,
};
use zetta::project_cli::{
    absolute_path_without_requiring_existence, current_project_target, outside_projects_error,
    parse_project_args, project_help, project_root_to_add, remove_requested_project,
    ParsedProjectArgs, ProjectArgsError, ProjectCommand,
};
use zetta::project_commands::{
    merge_command_environment, parse_command_environment, parse_project_command_args,
    parse_project_commands, validate_command_name, validate_command_string,
    validate_environment_entry, CommandEnvironmentError, CommandLineError, CommandNameError,
    CommandStringError, EnvironmentEntryError, ProjectCommandInvocation, ProjectCommandsError,
};
use zetta::project_context::detection::{
    plan_detection, removed_roots, DetectionOutcome, DetectionPlan, ProjectDetectionResult,
};
use zetta::project_context::icons::apply_project_tab_icon;
use zetta::project_context::themes::{
    resolve_terminal_theme, theme_for_tab, window_theme, ChromeTheme, ThemeSource,
};
use zetta::project_context::wsl::{wsl_distribution, wsl_reported_directory};
use zetta::project_context::ProjectState;
use zetta::project_form::fields::ProjectTextField;
use zetta::project_form::profiles::{arguments, parse_profile_form, profile_value};
use zetta::project_form::{FormContext, FormError, FormReadError, ProjectForm, TemplatesForm};
use zetta::id_map::IdMap;

fn words(list: &[&str]) -> Vec<String> {
    list.iter().map(|word| word.to_string()).collect()
}

fn query(path: &str) -> QueryPath {
    QueryPath { path: path.to_owned(), canonical: None }
}

fn profile(name: &str, theme: Option<&str>) -> Profile {
    Profile {
        name: name.to_owned(),
        command: Shell::Program("wsl.exe".to_owned()),
        theme: theme.map(str::to_owned),
        dark_theme: None,
        icon: ProfileIcon::Zetta,
    }
}

fn effective() -> EffectiveConfig {
    EffectiveConfig {
        profiles: vec![profile("Bash", None)],
        hidden_profiles: Vec::new(),
        default_profile: 0,
        default_tab_icon: None,
        working_directory: None,
        working_directory_configured: false,
        split_templates: words(&["two"]),
        keymap_path: "/k.json".to_owned(),
        pane_controls_hidden_by_default: false,
    }
}

fn project(root: &str, identity: u64) -> ProjectConfig {
    ProjectConfig {
        root: root.to_owned(),
        effective: effective(),
        theme: Some("Light".to_owned()),
        dark_theme: Some("Dark".to_owned()),
        environment: vec![("A".to_owned(), "1".to_owned())],
        commands: Vec::new(),
        initial_split: Some("two".to_owned()),
        identity,
    }
}

fn registry(roots: &[&str]) -> ProjectRegistry {
    let mut registry = ProjectRegistry::empty("/r.json".to_owned(), false);
    for root in roots {
        registry.add(root);
    }
    registry
}

#[test]
fn paths_are_compared_as_their_platform_does() {
    assert!(paths_equal("/a/b/", "/a//b", false));
    assert!(!paths_equal("/a/B", "/a/b", false));
    assert!(windows_paths_equal(r"C:\Work", r"\\?\c:\work"));
    assert!(windows_paths_equal(r"C:\ÄB", r"c:\äb"));
    assert!(path_is_within(&query("/a/b/c"), "/a/b", false));
    assert!(!path_is_within(&query("/a/bc"), "/a/b", false));
    assert!(path_depth("/a/b", false) > path_depth("/a", false));
    assert_eq!(project_display_name("/work/zetta", false), "zetta");
    assert_eq!(project_display_name("/", false), "Project");
    assert_eq!(project_display_name(r"C:\work\x", true), "x");
    assert_eq!(project_display_name(r"C:\", true), "Project");
    assert_eq!(project_key(r"C:\Work", true), project_key(r"c:\work", true));
    assert!(is_wsl_unc_path(r"\\wsl.localhost\Ubuntu\home"));
    assert!(!is_wsl_unc_path(r"C:\home"));
}

#[test]
fn the_deepest_registered_project_is_found() {
    let mut registry = registry(&["/work", "/work/zetta"]);
    assert_eq!(
        registry.matching_root(&query("/work/zetta/src")),
        Some(&"/work/zetta".to_owned())
    );
    assert_eq!(registry.matching_root(&query("/work/zetta")), Some(&"/work/zetta".to_owned()));
    assert_eq!(registry.matching_root(&query("/other")), None);
    assert!(!registry.add("/work/"));
    assert_eq!(registry.remove(&query("/work/zetta/src")), Some("/work/zetta".to_owned()));
    assert!(!registry.contains("/work/zetta"));
    assert!(registry.contains("/work"));
}

#[test]
fn windows_roots_are_found_from_themselves() {
    let mut registry = ProjectRegistry::empty("r.json".to_owned(), true);
    for root in [r"C:\Work\Zetta", r"C:\Work", r"D:\x"] {
        assert!(registry.add(root));
    }
    assert!(!registry.add(r"\\?\c:\work\"));
    for root in registry.roots.clone() {
        assert_eq!(registry.matching_root(&query(&root)), Some(&root));
    }
    assert_eq!(
        registry.matching_root(&query(r"c:\WORK\zetta\src")),
        Some(&r"C:\Work\Zetta".to_owned())
    );
}

#[test]
fn a_registry_is_read_with_care() {
    let roots = words(&["/b", "/a", "/b/"]);
    let read = ProjectRegistry::load_from("/r".to_owned(), 1, &roots, &vec![true; 3], false);
    assert_eq!(read.unwrap().roots, words(&["/a", "/b"]));
    assert_eq!(
        ProjectRegistry::load_from("/r".to_owned(), 2, &roots, &vec![true; 3], false),
        Err(RegistryError::UnsupportedVersion(2))
    );
    assert_eq!(
        ProjectRegistry::load_from("/r".to_owned(), 1, &words(&["x"]), &vec![false], false),
        Err(RegistryError::RelativeRoot)
    );
}

#[test]
fn a_worktree_counts_only_for_a_registered_project() {
    let worktree = |main: &str| {
        Some(WorktreeMetadata {
            main_root: query(main),
            root: "/trees/x".to_owned(),
            has_config: true,
        })
    };
    let registry = registry(&["/work"]);
    let found = resolve_registered_project(&query("/trees/x"), &worktree("/work"), &registry);
    assert_eq!(found.root, Some("/work".to_owned()));
    assert_eq!(found.config_root, Some("/trees/x".to_owned()));
    assert!(found.managed_worktree);
    let ignored = resolve_registered_project(&query("/trees/x"), &worktree("/else"), &registry);
    assert_eq!(ignored.root, None);
    let target = current_project_target(&query("/trees/x"), &worktree("/work"), &registry).unwrap();
    assert_eq!(target.root, "/work");
    assert_eq!(target.working_directory, Some("/trees/x".to_owned()));
}

#[test]
fn the_nearest_mark_is_the_repository() {
    let ancestors = words(&["/a/b", "/a", "/"]);
    assert_eq!(
        find_repository_root(
            &ancestors,
            &vec![RepositoryMark::Missing, RepositoryMark::Present, RepositoryMark::Present]
        ),
        Ok(Some("/a".to_owned()))
    );
    assert!(find_repository_root(
        &ancestors,
        &vec![
            RepositoryMark::Unreadable("denied".to_owned()),
            RepositoryMark::Present,
            RepositoryMark::Missing
        ]
    )
    .is_err());
    assert_eq!(
        discover_project_config(Some("/a".to_owned()), true),
        Some("/a".to_owned())
    );
    assert_eq!(discover_project_config(Some("/a".to_owned()), false), None);
}

#[test]
fn a_project_file_is_read_field_by_field() {
    let draft = ProjectConfig::parse(
        r#"{"env": {"B": "2", "A": "1"}, "initial_split": "two", "theme": "One",
            "commands": {"build": "make", "test": {"command": "make test",
            "env": {"CI": "1"}}}}"#,
    )
    .unwrap();
    assert_eq!(draft.commands.len(), 2);
    let config = ProjectConfig::complete(
        "/work".to_owned(),
        draft,
        Ok(effective()),
        FoundDirectory::Missing,
        false,
        5,
    )
    .unwrap();
    assert_eq!(config.theme, Some("One".to_owned()));
    assert_eq!(config.initial_split, Some("two".to_owned()));
    assert_eq!(config.environment.len(), 2);
}

#[test]
fn each_mistake_in_a_project_file_is_told_apart() {
    let error = |source: &str| ProjectConfig::parse(source).unwrap_err();
    assert_eq!(error("{"), ProjectConfigError::NotJson);
    assert_eq!(error("[]"), ProjectConfigError::NotAnObject);
    assert_eq!(error(r#"{"x": 1}"#), ProjectConfigError::UnknownField("x".to_owned()));
    assert_eq!(error(r#"{"initial_split": 3}"#), ProjectConfigError::SplitNotAText);
    assert_eq!(error(r#"{"initial_split": " "}"#), ProjectConfigError::SplitBlank);
    assert_eq!(
        error(r#"{"env": []}"#),
        ProjectConfigError::Environment(ProjectEnvironmentError::NotAnObject)
    );
    assert_eq!(
        error(r#"{"commands": []}"#),
        ProjectConfigError::Commands(ProjectCommandsError::NotAnObject)
    );
    let draft = ProjectConfig::parse(r#"{"initial_split": "three"}"#).unwrap();
    assert_eq!(
        ProjectConfig::complete(
            "/w".to_owned(),
            draft,
            Ok(effective()),
            FoundDirectory::Missing,
            false,
            1
        ),
        Err(ProjectConfigError::UnknownSplit("three".to_owned()))
    );
    let draft = ProjectConfig::parse("{}").unwrap();
    assert_eq!(
        ProjectConfig::complete(
            "/w".to_owned(),
            draft,
            Err("bad".to_owned()),
            FoundDirectory::Missing,
            false,
            1
        ),
        Err(ProjectConfigError::Overlay("bad".to_owned()))
    );
    assert_eq!(
        parse_project_environment(&parse(r#"{"A": 1}"#).unwrap()),
        Err(ProjectEnvironmentError::NotAText("A".to_owned()))
    );
}

#[test]
fn a_project_directory_lies_inside_the_project() {
    assert!(is_inside("src/app", false));
    assert!(!is_inside("../x", false));
    assert!(!is_inside("/x", false));
    let text = |value: &str| Json::Text(value.to_owned());
    assert_eq!(project_directory_path("/w", &text("src"), false), Ok("/w/src".to_owned()));
    assert_eq!(
        project_directory_path("/w", &text("../x"), false),
        Err(DirectoryError::Outside)
    );
    assert_eq!(project_directory_path("/w", &text(" "), false), Err(DirectoryError::Blank));
    assert_eq!(project_directory_path("/w", &Json::Null, false), Err(DirectoryError::NotAText));
    assert_eq!(
        resolve_project_working_directory("/w", &text("src"), FoundDirectory::Missing, false),
        Err(DirectoryError::Missing)
    );
    assert_eq!(
        resolve_project_working_directory(
            "/w",
            &text("src"),
            FoundDirectory::At { path: "/else".to_owned(), is_directory: true },
            false
        ),
        Err(DirectoryError::NotInside)
    );
    assert_eq!(
        resolve_project_working_directory(
            "/w",
            &text("src"),
            FoundDirectory::At { path: "/w/src".to_owned(), is_directory: true },
            false
        ),
        Ok("/w/src".to_owned())
    );
    assert_eq!(project_config_path("/w", false), "/w/.zetta/config.json");
    assert_eq!(project_config_path(r"C:\w", true), r"C:\w\.zetta\config.json");
}

#[test]
fn commands_are_validated() {
    assert_eq!(validate_command_name("build"), Ok(()));
    assert_eq!(validate_command_name(""), Err(CommandNameError::Empty));
    assert_eq!(validate_command_name("-x"), Err(CommandNameError::LeadingDash));
    assert_eq!(validate_command_name("a b"), Err(CommandNameError::WhitespaceOrControl));
    assert_eq!(validate_command_string(" "), Err(CommandStringError::Blank));
    assert_eq!(validate_command_string("a\0"), Err(CommandStringError::Nul));
    assert_eq!(
        validate_command_string(&"x".repeat(65_537)),
        Err(CommandStringError::TooLong)
    );
    assert_eq!(validate_environment_entry("A", "1"), Ok(()));
    assert_eq!(
        validate_environment_entry("A=B", "1"),
        Err(EnvironmentEntryError::InvalidName)
    );
    assert_eq!(
        validate_environment_entry("A", "\0"),
        Err(EnvironmentEntryError::NulInValue)
    );
    assert_eq!(
        parse_command_environment(&parse(r#"{"1A": "x"}"#).unwrap()),
        Err(CommandEnvironmentError::Entry(
            "1A".to_owned(),
            EnvironmentEntryError::NotAnIdentifier
        ))
    );
    assert_eq!(
        parse_project_commands(&parse(r#"{"x": {"command": "y", "z": 1}}"#).unwrap()),
        Err(ProjectCommandsError::UnknownField("z".to_owned()))
    );
    assert_eq!(
        parse_project_commands(&parse(r#"{"x": {}}"#).unwrap()),
        Err(ProjectCommandsError::MissingCommand("x".to_owned()))
    );
}

#[test]
fn a_command_line_runs_or_lists_commands() {
    assert_eq!(
        parse_project_command_args(&words(&["build", "--", "-j4"])),
        Ok(ProjectCommandInvocation::Run {
            name: "build".to_owned(),
            arguments: words(&["-j4"])
        })
    );
    assert_eq!(
        parse_project_command_args(&words(&["build", "x"])),
        Err(CommandLineError::ArgumentsWithoutDelimiter)
    );
    assert_eq!(
        parse_project_command_args(&words(&[])),
        Err(CommandLineError::MissingName)
    );
    assert_eq!(
        merge_command_environment(
            &vec![("A".to_owned(), "1".to_owned()), ("B".to_owned(), "2".to_owned())],
            &vec![("B".to_owned(), "3".to_owned())]
        ),
        vec![("A".to_owned(), "1".to_owned()), ("B".to_owned(), "3".to_owned())]
    );
}

#[test]
fn project_arguments_ask_for_one_thing() {
    assert_eq!(
        parse_project_args(&words(&["add", "--path", "/w"])),
        Ok(ParsedProjectArgs::Command(ProjectCommand::Add { path: Some("/w".to_owned()) }))
    );
    assert_eq!(
        parse_project_args(&words(&["list"])),
        Ok(ParsedProjectArgs::Command(ProjectCommand::List))
    );
    let error = |list: &[&str]| parse_project_args(&words(list)).unwrap_err();
    assert_eq!(error(&[]), ProjectArgsError::MissingOperation);
    assert_eq!(error(&["fly"]), ProjectArgsError::UnknownOperation);
    assert_eq!(error(&["list", "x"]), ProjectArgsError::ListTakesNoArguments);
    assert_eq!(error(&["add", "--path"]), ProjectArgsError::MissingPath);
    assert_eq!(error(&["add", "--x"]), ProjectArgsError::UnknownOption);
    assert_eq!(error(&["add", "a", "b"]), ProjectArgsError::SecondPath);
    assert_eq!(
        error(&["add", "--path", "a", "--path", "b"]),
        ProjectArgsError::RepeatedPath
    );
    assert!(matches!(
        parse_project_args(&words(&["add", "--help"])),
        Ok(ParsedProjectArgs::Help { .. })
    ));
    assert!(project_help(None, "TABLE").contains("TABLE"));
    assert_eq!(absolute_path_without_requiring_existence(Some("x"), false, "/w", false), "/w/x");
    assert_eq!(absolute_path_without_requiring_existence(None, false, "/w", false), "/w");
}

#[test]
fn a_project_is_added_at_its_repository_and_removed_from_inside() {
    let nothing = resolve_registered_project(&query("/w/x"), &None, &registry(&[]));
    assert_eq!(
        project_root_to_add("/w/x".to_owned(), false, false, nothing, Some("/w".to_owned())),
        "/w"
    );
    let nothing = resolve_registered_project(&query("/w/x"), &None, &registry(&[]));
    assert_eq!(
        project_root_to_add("/w/x".to_owned(), true, false, nothing, Some("/w".to_owned())),
        "/w/x"
    );
    let mut list = registry(&["/w"]);
    let kept = list.path.clone();
    assert_eq!(
        remove_requested_project(&mut list, query("/else"), &None, None),
        Err(outside_projects_error("/else"))
    );
    assert_eq!(
        remove_requested_project(&mut list, query("/w/x"), &None, None),
        Ok("/w".to_owned())
    );
    assert!(list.roots.is_empty());
    assert_eq!(list.path, kept);
}

#[test]
fn an_older_answer_does_not_count() {
    let mut state = ProjectState::new(registry(&["/w"]));
    let first = state.begin_detection(1, "/w/a".to_owned()).unwrap();
    assert_eq!(state.begin_detection(1, "/w/a/".to_owned()), None);
    let second = state.begin_detection(1, "/w/b".to_owned()).unwrap();
    let answer = || ProjectDetectionResult {
        registered_root: Some("/w".to_owned()),
        config_root: Some("/w".to_owned()),
        config: Some(Ok(project("/w", 1))),
        offer_root: None,
    };
    assert_eq!(
        state.apply_project_detection(1, "/w/a", first, answer(), false),
        DetectionOutcome::Stale
    );
    assert_eq!(state.root_for_pane(1), None);
    assert_eq!(
        state.apply_project_detection(1, "/w/b", second, answer(), false),
        DetectionOutcome::Applied { error: None }
    );
    assert_eq!(state.root_for_pane(1), Some(&"/w".to_owned()));
    assert_eq!(state.config_for_pane(1), Some(&project("/w", 1)));
    assert!(state.leave_project_if_moved(1, &None));
    assert_eq!(state.config_for_pane(1), None);
}

#[test]
fn a_project_is_read_once() {
    let resolution = || resolve_registered_project(&query("/w/a"), &None, &registry(&["/w"]));
    assert_eq!(
        plan_detection(resolution(), &words(&[]), false),
        DetectionPlan::Registered {
            root: "/w".to_owned(),
            config_root: "/w".to_owned(),
            load: true
        }
    );
    assert!(matches!(
        plan_detection(resolution(), &words(&["/w/"]), false),
        DetectionPlan::Registered { load: false, .. }
    ));
    assert_eq!(
        removed_roots(&registry(&["/a", "/b"]), &registry(&["/b"])),
        words(&["/a"])
    );
}

#[test]
fn leaving_a_project_restores_the_icon() {
    let mut inherited: IdMap<Option<IconName>> = IdMap::new();
    let mut icon = Some(IconName { number: 1 });
    let own = Some(Some(IconName { number: 2 }));
    apply_project_tab_icon(7, &mut icon, TabIconOverride::Unset, own, &mut inherited);
    assert_eq!(icon, Some(IconName { number: 2 }));
    apply_project_tab_icon(7, &mut icon, TabIconOverride::Unset, Some(None), &mut inherited);
    assert_eq!(icon, None);
    apply_project_tab_icon(7, &mut icon, TabIconOverride::Unset, None, &mut inherited);
    assert_eq!(icon, Some(IconName { number: 1 }));
    apply_project_tab_icon(7, &mut icon, TabIconOverride::Hidden, own, &mut inherited);
    assert_eq!(icon, Some(IconName { number: 1 }));
}

#[test]
fn a_chosen_theme_wins() {
    let project = project("/w", 1);
    assert_eq!(
        resolve_terminal_theme(Some("p"), Some("t"), Some(&project), true),
        ThemeSource::Pane("p".to_owned())
    );
    assert_eq!(
        resolve_terminal_theme(None, Some("t"), Some(&project), true),
        ThemeSource::Tab("t".to_owned())
    );
    assert_eq!(
        resolve_terminal_theme(None, None, Some(&project), false),
        ThemeSource::Project("Dark".to_owned())
    );
    assert_eq!(resolve_terminal_theme(None, None, None, false), ThemeSource::Profile);
    assert_eq!(theme_for_tab(Some("x"), false, Some("y"), true), ChromeTheme::Project);
    assert_eq!(window_theme(None, true), ChromeTheme::Fallback);
}

#[test]
fn a_distribution_reports_its_directory() {
    let named = profile("WSL: Ubuntu", None);
    assert_eq!(wsl_distribution(&named, true), Some("Ubuntu".to_owned()));
    assert_eq!(wsl_distribution(&named, false), None);
    assert_eq!(
        wsl_reported_directory(&named, true, "/home/u"),
        Some(r"\\wsl.localhost\Ubuntu\home\u".to_owned())
    );
    assert_eq!(wsl_reported_directory(&named, true, "/home/../x"), None);
    assert_eq!(wsl_reported_directory(&named, true, "home"), None);
    let given = Profile {
        command: Shell::WithArguments {
            program: "wsl.exe".to_owned(),
            args: words(&["-d", "Debian"]),
            title_override: None,
        },
        ..profile("x", None)
    };
    assert_eq!(wsl_distribution(&given, true), Some("Debian".to_owned()));
}

fn form_context() -> FormContext {
    FormContext {
        templates: Ok(TemplatesForm {
            names: words(&["two"]),
            renamed: Vec::new(),
            error: None,
            entries: Vec::new(),
        }),
        icon: None,
        opacity_in_range: true,
        profile_names: words(&["Bash", "fish"]),
    }
}

#[test]
fn the_fields_of_a_file_are_read_one_by_one() {
    let text = |value: &str| Json::Text(value.to_owned());
    let field = |name: &str, value: Json| (name.to_owned(), value);
    let draft = draft_project(vec![
        field("theme", text("Light")),
        field("env", Json::Object(vec![field("A", text("1"))])),
        field("initial_split", text("two")),
    ])
    .unwrap();
    assert_eq!(draft.environment, vec![("A".to_owned(), "1".to_owned())]);
    assert_eq!(draft.initial_split, Some("two".to_owned()));
    assert_eq!(draft.overlay, r#"{"theme":"Light"}"#);
    assert_eq!(
        draft_project(vec![field("thme", text("x"))]),
        Err(ProjectConfigError::UnknownField("thme".to_owned()))
    );
    let form = ProjectForm::read(&vec![field("theme", text("Light"))], form_context()).unwrap();
    assert_eq!(form.inherited_profiles, words(&["Bash", "fish"]));
    assert!(ProjectForm::read(&vec![field("thme", text("x"))], form_context()).is_err());
}

#[test]
fn the_form_reads_back_what_it_wrote() {
    let source = r#"{
        "theme": "One",
        "working_directory": "src",
        "env": {"A": "1"},
        "initial_split": "two",
        "profiles": [{"name": "Mine", "program": "zsh", "args": ["-l"]}]
    }"#;
    let form = ProjectForm::parse(source, form_context()).unwrap();
    assert_eq!(form.working_directory, "src");
    assert_eq!(form.profiles[0].program, "zsh");
    assert_eq!(form.validate(false), Ok(()));
    let written = form.to_json(false).unwrap();
    let again = ProjectForm::parse(&written, form_context()).unwrap();
    assert_eq!(again, form);
    let value = profile_value(&form.profiles[0]);
    assert_eq!(parse_profile_form(&value), Ok(form.profiles.into_iter().next().unwrap()));
    assert_eq!(arguments(" -l ,, -i"), words(&["-l", "-i"]));
}

#[test]
fn mistakes_in_the_form_are_told_apart() {
    let mut form = ProjectForm::parse("{}", form_context()).unwrap();
    form.working_directory = "../x".to_owned();
    assert_eq!(form.validate(false), Err(FormError::Directory));
    form.working_directory = String::new();
    form.initial_split = Some("three".to_owned());
    assert_eq!(form.validate(false), Err(FormError::UnknownSplit("three".to_owned())));
    assert!(matches!(
        ProjectForm::parse("{", form_context()),
        Err(FormReadError::NotJson)
    ));
    assert!(matches!(
        ProjectForm::parse(r#"{"x": 1}"#, form_context()),
        Err(FormReadError::UnknownField(_))
    ));
}

#[test]
fn texts_of_the_form_are_typed_into() {
    let mut form = ProjectForm::parse(r#"{"env": {"A": "1"}}"#, form_context()).unwrap();
    form.text_mut(ProjectTextField::EnvironmentValue(0)).unwrap().push('2');
    assert_eq!(form.environment[0].value, "12");
    assert!(form.text_mut(ProjectTextField::ProfileName(0)).is_none());
}
