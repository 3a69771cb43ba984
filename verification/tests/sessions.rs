use zetta::local_sessions::auth::{
    failed_authentication_delay, AuthenticationError, ProtectionIdentities, SessionAuthentication,
    SessionSecret,
};
use zetta::local_sessions::catalog::{
    application_from_command_line, is_catalog_file, read_session_catalogs, PublishAction,
    SessionCatalogPublisher,
};
use zetta::local_sessions::paths::{platform_config_dir, ConfigVariables, session_catalog_dir};
use zetta::local_sessions::protocol::{
    background_pane_layout, default_background_pane_split_ratio, BackgroundPaneExit,
    BackgroundPaneExitReason, BackgroundPaneExitSource, BackgroundPaneLayout, BackgroundPaneState,
    BackgroundPaneSummary, BackgroundSessionCatalog, BackgroundSessionSummary,
};
use zetta::pane::layout::{PaneLayout, SplitAxis};
use zetta::secrets::secrets_equal;

fn session(id: u64, protected: bool) -> BackgroundSessionSummary {
    BackgroundSessionSummary {
        id,
        title: "work".to_owned(),
        authentication_required: protected,
        active_pane: 1,
        layout: BackgroundPaneLayout::Pane { pane_id: 1 },
        panes: vec![BackgroundPaneSummary {
            id: 1,
            label: "shell".to_owned(),
            profile: "Bash".to_owned(),
            configured_command: "bash".to_owned(),
            application: "vim".to_owned(),
            foreground_command: Some(vec!["vim".to_owned()]),
            terminal_title: Some("vim".to_owned()),
            working_directory: Some("/work".to_owned()),
            state: BackgroundPaneState::Running,
            exit: None,
        }],
        held: false,
        scoped_to: None,
        key_envelope: None,
    }
}

#[test]
fn a_session_is_opened_by_its_secret_only() {
    let salt: Vec<u8> = (0..16).collect();
    let mut identities = ProtectionIdentities::new();
    let authentication =
        SessionAuthentication::with_salt("open sesame", &salt, identities.give()).unwrap();
    assert!(authentication.verify("open sesamE").is_none());
    let verified = authentication.verify("open sesame").unwrap();
    assert!(authentication.authorizes(&verified));
    let other =
        SessionAuthentication::with_salt("open sesame", &salt, identities.give()).unwrap();
    assert!(!other.authorizes(&verified));
}

#[test]
fn a_session_is_protected_with_a_fresh_salt() {
    let mut identities = ProtectionIdentities::new();
    let first = SessionAuthentication::create("secret", identities.give()).unwrap();
    let second = SessionAuthentication::create("secret", identities.give()).unwrap();
    let verified = first.verify("secret").unwrap();
    assert!(first.duplicate().authorizes(&verified));
    assert!(second.verify("secret").is_some());
    assert!(second.verify("Secret").is_none());
    assert!(!second.authorizes(&verified));
    assert!(matches!(
        SessionAuthentication::create("", identities.give()),
        Err(AuthenticationError::EmptySecret)
    ));
}

#[test]
fn a_key_envelope_is_kept_beside_the_verifier() {
    let salt = vec![9; 16];
    let authentication = SessionAuthentication::with_salt("s", &salt, ProtectionIdentities::new().give())
        .unwrap()
        .with_key_envelope("sealed".to_owned());
    assert_eq!(authentication.key_envelope(), Some("sealed"));
    let copy = authentication.duplicate();
    assert_eq!(copy.key_envelope(), Some("sealed"));
    assert!(copy.verify("s").is_some());
}

#[test]
fn secrets_are_compared_whole() {
    assert!(secrets_equal("abc", "abc"));
    assert!(!secrets_equal("abc", "abd"));
    assert!(!secrets_equal("abc", "abcd"));
    let secret = SessionSecret::new("x".to_owned());
    assert_eq!(secret.expose(), "x");
    assert!(secret.equals(&SessionSecret::new("x".to_owned())));
}

#[test]
fn failed_attempts_are_slowed_down() {
    let delays: Vec<u64> = (0..8).map(failed_authentication_delay).collect();
    for pair in delays.windows(2) {
        assert!(pair[0] <= pair[1]);
    }
    assert_eq!(failed_authentication_delay(40), 30);
    assert_eq!(failed_authentication_delay(u32::MAX), 30);
}

#[test]
fn a_published_layout_shows_the_same_tree() {
    let layout = PaneLayout::Split {
        axis: SplitAxis::Vertical,
        first_ratio: 300,
        first: Box::new(PaneLayout::Pane(4)),
        second: Box::new(PaneLayout::Pane(2)),
    };
    match background_pane_layout(&layout) {
        BackgroundPaneLayout::Split { first_ratio, first, second, .. } => {
            assert_eq!(first_ratio, 300);
            assert_eq!(*first, BackgroundPaneLayout::Pane { pane_id: 4 });
            assert_eq!(*second, BackgroundPaneLayout::Pane { pane_id: 2 });
        }
        BackgroundPaneLayout::Pane { .. } => panic!("not a split"),
    }
    assert_eq!(default_background_pane_split_ratio(), 500);
}

#[test]
fn a_public_catalog_hides_what_protected_sessions_run() {
    let open = session(1, false).for_public_catalog();
    assert_eq!(open, session(1, false));
    let protected = session(2, true).for_public_catalog();
    assert_eq!(protected.id, 2);
    assert_ne!(protected, session(2, true));
    for pane in &protected.panes {
        assert_eq!(pane.foreground_command, None);
        assert_eq!(pane.working_directory, None);
    }
}

#[test]
fn catalogs_are_published_once_and_listed_in_order() {
    let mut publisher = SessionCatalogPublisher::new("/run/zetta", 42, 7, false);
    assert_eq!(publisher.runner_id(), 7);
    assert_eq!(publisher.publish(0, &b"x".to_vec()), PublishAction::Remove);
    assert_eq!(publisher.publish(1, &b"x".to_vec()), PublishAction::Replace);
    publisher.published(b"x".to_vec());
    assert_eq!(publisher.publish(1, &b"x".to_vec()), PublishAction::Keep);
    assert_eq!(publisher.publish(1, &b"y".to_vec()), PublishAction::Replace);
    publisher.clear();
    assert_eq!(publisher.publish(1, &b"x".to_vec()), PublishAction::Replace);
    let name = publisher.path.rsplit('/').next().unwrap();
    assert!(is_catalog_file(name));

    let catalog = |process_id: u32| BackgroundSessionCatalog {
        version: 1,
        process_id,
        runner_id: 1,
        sessions: vec![session(1, false)],
    };
    let listed = read_session_catalogs(vec![Some(catalog(9)), None, Some(catalog(3))]);
    let ids: Vec<u32> = listed.iter().map(|catalog| catalog.process_id).collect();
    assert_eq!(ids, vec![3, 9]);
    let made = publisher.catalog_of(5, vec![session(1, false)]);
    assert_eq!((made.version, made.process_id, made.runner_id), (1, 5, 7));
}

#[test]
fn an_application_goes_by_the_name_of_its_program() {
    assert_eq!(
        application_from_command_line(Some(&vec!["/usr/bin/vim".to_owned(), "x".to_owned()])),
        Some("vim".to_owned())
    );
    assert_eq!(application_from_command_line(Some(&vec![])), None);
    assert_eq!(application_from_command_line(None), None);
}

fn variables<'a>(
    app_data: Option<&'a str>,
    xdg_config_home: Option<&'a str>,
    home: Option<&'a str>,
) -> ConfigVariables<'a> {
    ConfigVariables { app_data, xdg_config_home, home }
}

#[test]
fn session_files_stand_below_the_configuration() {
    assert_eq!(
        platform_config_dir(
            variables(Some("C:\\app"), Some("/xdg"), Some("/home/u")),
            "C:\\tmp",
            true
        ),
        "C:\\app\\Zetta"
    );
    assert_eq!(
        platform_config_dir(variables(None, Some("/xdg"), Some("/home/u")), "C:\\tmp", true),
        "C:\\tmp\\zetta"
    );
    assert_eq!(
        platform_config_dir(variables(None, Some("/xdg"), Some("/home/u")), "/tmp", false),
        "/xdg/zetta"
    );
    assert_eq!(
        platform_config_dir(variables(Some("C:\\app"), None, Some("/home/u")), "/tmp", false),
        "/home/u/.config/zetta"
    );
    assert!(session_catalog_dir("/xdg/zetta", false).starts_with("/xdg/zetta/"));
}

#[test]
fn only_short_commands_are_published() {
    assert!(BackgroundPaneExit::foreground_command_is_publishable("vim"));
    assert!(!BackgroundPaneExit::foreground_command_is_publishable(""));
    assert!(!BackgroundPaneExit::foreground_command_is_publishable(&"x".repeat(65)));
    let exit = BackgroundPaneExit {
        source: BackgroundPaneExitSource::Child,
        reason: BackgroundPaneExitReason::ForegroundCommand,
        exit_code: Some(2),
        child_pid: Some(1),
        input_sent: true,
        foreground_is_shell: Some(false),
        foreground_command: Some("vim".to_owned()),
    };
    assert!(!exit.heading().is_empty());
    assert!(exit.reason_text().contains("vim"));
    assert_eq!(BackgroundPaneState::Failed.name(), "failed");
}
