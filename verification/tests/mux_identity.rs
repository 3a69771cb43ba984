use zetta::mux_identity::{
    command_uses_an_identity, configured_identity_paths_with_fallback, expand_home,
};

fn config_with(persistence: &str) -> String {
    format!(r#"{{"sessions": {{"persistence": {persistence}}}}}"#)
}

#[test]
fn reads_the_configured_identity() {
    let config = config_with(r#"{"identity": "/keys/zetta.txt"}"#);
    assert_eq!(
        configured_identity_paths_with_fallback(
            Some(config.as_str()),
            Some("/home/test/.ssh/id_ed25519".to_owned()),
            Some("/home/test"),
            false
        ),
        vec!["/keys/zetta.txt".to_owned()]
    );
}

#[test]
fn expands_a_leading_home_shorthand() {
    let config = config_with(r#"{"identity": "~/keys/zetta.txt"}"#);
    let resolved =
        configured_identity_paths_with_fallback(Some(config.as_str()), None, Some("/home/test"), false);
    assert_eq!(resolved.len(), 1);
    assert!(resolved[0].ends_with("keys/zetta.txt"));
    assert!(!resolved[0].starts_with("~"));
    assert_eq!(resolved[0], "/home/test/keys/zetta.txt");
}

#[test]
fn absent_unset_and_blank_identities_all_read_as_none() {
    for persistence in [r#"{}"#, r#"{"identity": null}"#, r#"{"identity": "  "}"#] {
        let config = config_with(persistence);
        assert!(
            configured_identity_paths_with_fallback(
                Some(config.as_str()),
                None,
                Some("/home/test"),
                false
            )
            .is_empty(),
            "{persistence} should resolve to no identity"
        );
    }
}

#[test]
fn uses_the_default_ssh_identity_when_no_identity_is_configured() {
    let config = config_with(r#"{}"#);
    let default = "/home/test/.ssh/id_ed25519".to_owned();
    assert_eq!(
        configured_identity_paths_with_fallback(
            Some(config.as_str()),
            Some(default.clone()),
            Some("/home/test"),
            false
        ),
        vec![default]
    );
}

#[test]
fn an_explicit_identity_takes_precedence_over_the_default_ssh_identity() {
    let config = config_with(r#"{"identity":"~/configured.txt"}"#);
    let default = "/home/test/.ssh/id_ed25519".to_owned();
    let resolved = configured_identity_paths_with_fallback(
        Some(config.as_str()),
        Some(default),
        Some("/home/test"),
        false
    );
    assert_eq!(resolved.len(), 1);
    assert!(resolved[0].ends_with("configured.txt"));
    assert!(!resolved[0].ends_with("id_ed25519"));
}

/// A command line that cannot read configuration still uses an explicitly
/// supplied fallback, rather than refusing to run at all.
#[test]
fn an_unreadable_or_malformed_configuration_yields_no_identity() {
    assert!(configured_identity_paths_with_fallback(None, None, Some("/home/test"), false).is_empty());
    assert!(configured_identity_paths_with_fallback(
        Some("{ this is not json"),
        None,
        Some("/home/test"),
        false
    )
    .is_empty());
    assert_eq!(
        configured_identity_paths_with_fallback(None, Some("/id".to_owned()), None, false),
        vec!["/id".to_owned()]
    );
}

#[test]
fn only_the_commands_that_can_need_an_identity_ask_for_one() {
    let arguments = |command: &str| vec![command.to_owned()];
    assert!(command_uses_an_identity(&arguments("resume")));
    assert!(command_uses_an_identity(&arguments("reconnect")));
    for command in ["attach", "kill", "share", "unshare", "forget"] {
        assert!(
            command_uses_an_identity(&arguments(command)),
            "{command} should load configuration"
        );
    }
    for command in ["list", "stop"] {
        assert!(
            !command_uses_an_identity(&arguments(command)),
            "{command} should not load configuration"
        );
    }
    assert!(!command_uses_an_identity(&vec![]));
}

#[test]
fn without_a_home_the_shorthand_means_the_current_directory() {
    assert_eq!(expand_home("~/a", None, false), "./a");
    assert_eq!(expand_home("~a", Some("/home/x"), false), "~a");
}
