use zetta::profile::{Profile, Shell};
use zetta::profile_cli::help::{profile_operation_help, reload_notice};
use zetta::profile_cli::mutation::{mutated_config, CurrentProfiles, MutationError};
use zetta::profile_cli::{
    parse_profile_args, validate_profile_argument, ParsedProfileArgs, ProfileArgsError,
    ProfileCommand, ProfileOperation,
};
use zetta::profile_icon::ProfileIcon;

fn words(list: &[&str]) -> Vec<String> {
    list.iter().map(|word| word.to_string()).collect()
}

fn command(list: &[&str]) -> ProfileCommand {
    match parse_profile_args(&words(list), None).unwrap() {
        ParsedProfileArgs::Command { command, .. } => command,
        ParsedProfileArgs::Help { .. } => panic!("help"),
    }
}

fn current() -> CurrentProfiles {
    let profile = |name: &str| Profile {
        name: name.to_owned(),
        command: Shell::Program("sh".to_owned()),
        theme: None,
        dark_theme: None,
        icon: ProfileIcon::Zetta,
    };
    CurrentProfiles {
        profiles: vec![profile("Bash"), profile("Fish"), profile("Mine")],
        default_profile: 0,
        detected: words(&["Bash", "Fish"]),
        themes: words(&["One", "Two"]),
    }
}

fn change(source: &str, list: &[&str]) -> Result<Option<String>, MutationError> {
    mutated_config(source, &current(), &command(list))
}

#[test]
fn operations_are_read_with_their_options() {
    assert_eq!(
        parse_profile_args(&words(&["-c", "/c.json", "disable", "Bash"]), None),
        Ok(ParsedProfileArgs::Command {
            config_path: Some("/c.json".to_owned()),
            command: ProfileCommand::Disable { profile: "Bash".to_owned() }
        })
    );
    assert_eq!(
        command(&["add", "Mine", "--program", "zsh", "-a", "-l", "-t", "One"]),
        ProfileCommand::Add {
            name: "Mine".to_owned(),
            program: "zsh".to_owned(),
            args: words(&["-l"]),
            theme: Some("One".to_owned())
        }
    );
    assert_eq!(
        command(&["theme", "Bash", "--reset"]),
        ProfileCommand::Theme { profile: "Bash".to_owned(), theme: None }
    );
    assert_eq!(command(&["list"]), ProfileCommand::List);
}

#[test]
fn each_mistake_is_told_apart_in_the_arguments() {
    let error = |list: &[&str]| parse_profile_args(&words(list), None).unwrap_err();
    assert_eq!(error(&[]), ProfileArgsError::MissingOperation);
    assert_eq!(error(&["fly"]), ProfileArgsError::UnknownOperation);
    assert_eq!(
        error(&["list", "x"]),
        ProfileArgsError::TakesNoArguments(ProfileOperation::List)
    );
    assert_eq!(
        error(&["enable"]),
        ProfileArgsError::TakesOneProfile(ProfileOperation::Enable)
    );
    assert_eq!(error(&["theme", "Bash"]), ProfileArgsError::ThemeUsage);
    assert_eq!(error(&["add", "Mine"]), ProfileArgsError::MissingProgram);
    assert_eq!(error(&["add", "--program", "x"]), ProfileArgsError::MissingName);
    assert_eq!(error(&["list", "-c"]), ProfileArgsError::MissingConfigPath);
    assert_eq!(error(&["-c", "a", "-c", "b", "list"]), ProfileArgsError::RepeatedConfig);
    assert_eq!(
        validate_profile_argument(" "),
        Err(ProfileArgsError::InvalidProfileName)
    );
}

#[test]
fn a_change_is_made_once() {
    let once = change("{}", &["disable", "fish"]).unwrap().unwrap();
    assert!(once.contains("\"hidden\": true"));
    assert_eq!(change(&once, &["disable", "Fish"]), Ok(None));
    let back = change(&once, &["enable", "Fish"]).unwrap().unwrap();
    assert!(!back.contains("\"hidden\": true"));
    let themed = change("{}", &["theme", "Bash", "Two"]).unwrap().unwrap();
    assert!(themed.contains("\"theme\": \"Two\""));
    assert_eq!(change(&themed, &["theme", "Bash", "Two"]), Ok(None));
}

#[test]
fn a_removed_profile_is_gone() {
    let source = r#"{"profiles": [{"name": "Mine", "program": "zsh"}]}"#;
    let removed = change(source, &["remove", "mine"]).unwrap().unwrap();
    assert!(!removed.contains("Mine"));
}

#[test]
fn mutations_are_refused_with_a_reason() {
    assert_eq!(change("{", &["disable", "Bash"]), Err(MutationError::NotJson));
    assert_eq!(change("[]", &["disable", "Bash"]), Err(MutationError::NotAnObject));
    assert_eq!(
        change(r#"{"profiles": 3}"#, &["disable", "Bash"]),
        Err(MutationError::ProfilesNotAnArray)
    );
    assert_eq!(change("{}", &["disable", "Nope"]), Err(MutationError::UnknownProfile));
    assert_eq!(change("{}", &["theme", "Bash", "No"]), Err(MutationError::UnknownTheme));
    assert_eq!(
        change("{}", &["add", "bash", "--program", "x"]),
        Err(MutationError::ProfileExists)
    );
    assert_eq!(change("{}", &["remove", "Fish"]), Err(MutationError::DetectedProfile));
    let by_default = CurrentProfiles { default_profile: 2, ..current() };
    assert_eq!(
        mutated_config("{}", &by_default, &command(&["remove", "Mine"])),
        Err(MutationError::DefaultProfile)
    );
}

#[test]
fn help_is_given_for_each_operation() {
    assert!(profile_operation_help(Some("list")).starts_with("List all resolved profiles"));
    assert!(profile_operation_help(None).starts_with("Manage Zetta profiles"));
    assert_eq!(reload_notice(Ok(true)), None);
    assert!(reload_notice(Ok(false)).unwrap().starts_with("Notice: the profile change was saved"));
    assert!(reload_notice(Err("gone".to_owned())).unwrap().contains("(gone)"));
}
