use zetta::default_terminal::desktop::{
    desktop_environment_from_values, first_xdg_terminal_entry, gsettings_terminal_schema,
    update_xdg_terminal_list, valid_xdg_desktop_name, xdg_terminal_config_filename,
    xdg_terminal_list_prefers_zetta, DesktopEnvironment,
};
use zetta::default_terminal::ini::{update_ini_section, update_xfce_helpers};
use zetta::default_terminal::macos::{
    accepted_script_extension, macos_script_handlers_are_zetta, register_macos_script_handlers,
    rejected_scripts_notice, script_command, script_paths_from_urls, Registration,
};
use zetta::default_terminal::{
    default_terminal_notice, is_default_terminal, kde_terminal_preference, linux_preferences,
    set_default_terminal, set_linux_default_terminal, user_config_path, Platform, PreferenceKind,
    PreferenceReport,
};
use zetta::linux_desktop::{
    desktop_entry_update, escape_desktop_string, is_managed_desktop_entry, is_writable,
    profile_actions_generation, quote_exec_argument, render_managed_desktop_entry,
    replace_managed_block, user_desktop_entry_path, valid_profile_name_for_desktop,
};
use zetta::profile::{Profile, Shell};
use zetta::profile_icon::ProfileIcon;

fn profile(name: &str) -> Profile {
    Profile {
        name: name.to_owned(),
        command: Shell::Program("sh".to_owned()),
        theme: None,
        dark_theme: None,
        icon: ProfileIcon::Zetta,
    }
}

const ENTRY: &str = "[Desktop Entry]\nName=Zetta\nExec=zetta\n\
# ZETTA MANAGED PROFILE ACTIONS BEGIN\nActions=new-window;\n# ZETTA MANAGED PROFILE ACTIONS END\n\
\n[Desktop Action new-window]\nName=New Window\nExec=zetta --new-window\n\
# ZETTA MANAGED PROFILE GROUPS BEGIN\n# ZETTA MANAGED PROFILE GROUPS END\n";

#[test]
fn profiles_become_actions_of_the_entry() {
    assert!(is_managed_desktop_entry(ENTRY));
    let profiles = vec![profile("Bash"), profile("Hidden"), profile("My; Shell")];
    let hidden = vec![false, true, false];
    let updated =
        render_managed_desktop_entry(ENTRY, "/opt/zetta", &profiles, &hidden).unwrap();
    assert!(updated.contains("Actions=new-window;profile-1;profile-2;\n"));
    assert!(updated.contains(
        "[Desktop Action profile-1]\nName=Bash\nExec=/opt/zetta --new-window --profile Bash"
    ));
    assert!(updated.contains(
        "Name=My\\; Shell\nExec=/opt/zetta --new-window --profile \"My; Shell\""
    ));
    assert!(!updated.contains("Hidden"));
    assert!(updated.contains("Exec=/opt/zetta --zetta-profile-actions-generation "));
    assert_eq!(
        render_managed_desktop_entry(&updated, "/opt/zetta", &profiles, &hidden),
        Some(updated.clone())
    );
    assert_eq!(desktop_entry_update(&updated, "/opt/zetta", &profiles, &hidden), None);
    assert!(desktop_entry_update(ENTRY, "/opt/zetta", &profiles, &hidden).is_some());
    assert_eq!(render_managed_desktop_entry("[Desktop Entry]\n", "z", &profiles, &hidden), None);
    assert_eq!(render_managed_desktop_entry(ENTRY, "/opt/\u{7}zetta", &profiles, &hidden), None);
}

#[test]
fn a_list_among_the_groups_goes_with_them() {
    let entry = "[Desktop Entry]\nExec=zetta\n\n[Desktop Action new-window]\n\
# ZETTA MANAGED PROFILE GROUPS BEGIN\n# ZETTA MANAGED PROFILE ACTIONS BEGIN\n\
# ZETTA MANAGED PROFILE ACTIONS END\n# ZETTA MANAGED PROFILE GROUPS END\n";
    let profiles = vec![profile("Bash")];
    let hidden = vec![false];
    let updated = render_managed_desktop_entry(entry, "/opt/zetta", &profiles, &hidden).unwrap();
    assert!(!is_managed_desktop_entry(&updated));
    assert_eq!(render_managed_desktop_entry(&updated, "/opt/zetta", &profiles, &hidden), None);
}

#[test]
fn a_block_is_replaced_once() {
    let once = replace_managed_block("a\nB\nold\nE\nz\n", "B", "E", "B\nnew\nE").unwrap();
    assert_eq!(once, "a\nB\nnew\nE\nz\n");
    assert_eq!(
        replace_managed_block(&once, "B", "E", "B\nnew\nE"),
        Some(once.clone())
    );
    assert_eq!(replace_managed_block("E\nB\n", "B", "E", "x"), None);
    assert_eq!(replace_managed_block("B\nB\nE\n", "B", "E", "x"), None);
}

#[test]
fn strings_are_escaped_and_arguments_quoted() {
    assert_eq!(escape_desktop_string("a\\b;c\td"), "a\\\\b\\;c\\td");
    assert_eq!(quote_exec_argument("plain"), "plain");
    assert_eq!(quote_exec_argument(""), "\"\"");
    assert_eq!(quote_exec_argument("a $b%"), "\"a \\$b%%\"");
    assert!(valid_profile_name_for_desktop("Bash"));
    assert!(!valid_profile_name_for_desktop(""));
    assert!(!valid_profile_name_for_desktop("a\u{7}"));
}

#[test]
fn the_generation_changes_with_the_names() {
    assert_eq!(profile_actions_generation(&vec![]), 0xcbf29ce484222325);
    assert_eq!(
        profile_actions_generation(&vec!["a".to_owned()]),
        ((0xcbf29ce484222325u64 ^ 0x61).wrapping_mul(0x100000001b3) ^ 0xff)
            .wrapping_mul(0x100000001b3)
    );
    assert_ne!(
        profile_actions_generation(&vec!["a".to_owned(), "b".to_owned()]),
        profile_actions_generation(&vec!["ab".to_owned()])
    );
    assert_eq!(
        user_desktop_entry_path("/home/u"),
        "/home/u/.local/share/applications/Zetta.desktop"
    );
    assert!(is_writable(false, 0o644));
    assert!(!is_writable(false, 0o444));
    assert!(!is_writable(true, 0o644));
}

#[test]
fn the_desktop_is_told_from_its_variables() {
    assert_eq!(
        desktop_environment_from_values(Some("ubuntu:GNOME"), None, false),
        Some(DesktopEnvironment::Gnome)
    );
    assert_eq!(
        desktop_environment_from_values(None, Some("xfce"), false),
        Some(DesktopEnvironment::Xfce)
    );
    assert_eq!(
        desktop_environment_from_values(None, None, true),
        Some(DesktopEnvironment::Kde)
    );
    assert_eq!(desktop_environment_from_values(None, None, false), None);
    assert!(gsettings_terminal_schema(DesktopEnvironment::Mate).is_some());
    assert_eq!(gsettings_terminal_schema(DesktopEnvironment::Kde), None);
}

#[test]
fn an_updated_list_prefers_zetta() {
    for contents in ["", "kitty.desktop\n", "# note\r\nkitty.desktop\r\nZetta.desktop\r\n"] {
        let updated = update_xdg_terminal_list(contents);
        assert!(xdg_terminal_list_prefers_zetta(&updated), "{contents:?}");
        assert_eq!(updated.matches("Zetta.desktop").count(), 1);
        assert_eq!(update_xdg_terminal_list(&updated), updated);
        assert_eq!(
            first_xdg_terminal_entry(&updated),
            Some("Zetta.desktop".to_owned())
        );
    }
    assert!(!xdg_terminal_list_prefers_zetta("kitty.desktop\nZetta.desktop\n"));
    assert_eq!(valid_xdg_desktop_name("../x"), None);
    assert_eq!(
        xdg_terminal_config_filename(Some("GNOME")),
        "gnome-xdg-terminals.list"
    );
    assert_eq!(xdg_terminal_config_filename(None), "xdg-terminals.list");
}

#[test]
fn a_section_has_its_values() {
    let updates = vec![("A".to_owned(), "1".to_owned()), ("B".to_owned(), "2".to_owned())];
    assert_eq!(
        update_ini_section("[x]\nA=0\nC=3\n[y]\nA=9\n", "x", &updates),
        "[x]\nA=1\nC=3\nB=2\n[y]\nA=9\n"
    );
    for contents in ["", "\n", "[x]\nA=0\nC=3\n[y]\nA=9\n", "[y]\r\nA=9\r\n\r\n", "[x]\nA"] {
        let once = update_ini_section(contents, "x", &updates);
        assert_eq!(update_ini_section(&once, "x", &updates), once, "{contents:?}");
    }
    let made = update_ini_section("", "x", &updates);
    assert!(made.contains("[x]\nA=1\nB=2"));
    assert!(update_xfce_helpers("", "/opt/zetta").contains("TerminalEmulator="));
    assert!(kde_terminal_preference("", "/opt/zetta").contains("/opt/zetta"));
}

#[test]
fn one_preference_is_enough() {
    let report = |kind: PreferenceKind, outcome: Result<String, String>| PreferenceReport {
        kind,
        outcome,
    };
    assert!(set_linux_default_terminal(
        &vec![
            report(PreferenceKind::XdgTerminalExec, Err("denied".to_owned())),
            report(PreferenceKind::GSettings, Ok("done".to_owned())),
        ],
        false,
        false
    )
    .is_ok());
    assert!(set_linux_default_terminal(
        &vec![report(PreferenceKind::XdgTerminalExec, Err("denied".to_owned()))],
        false,
        false
    )
    .is_err());
    let kinds = linux_preferences(Some(DesktopEnvironment::Kde), true, true);
    assert!(kinds.contains(&PreferenceKind::Kde));
    assert!(kinds.contains(&PreferenceKind::UpdateAlternatives));
    assert!(!linux_preferences(None, true, false).contains(&PreferenceKind::UpdateAlternatives));
    assert!(set_default_terminal(Platform::Other, Ok("x".to_owned())).is_err());
    assert!(!is_default_terminal(Platform::Other, true));
    assert!(is_default_terminal(Platform::Linux, true));
    assert_eq!(
        default_terminal_notice(Err("denied".to_owned())),
        "Could not set Zetta as the default terminal: denied"
    );
    assert_eq!(
        user_config_path(None, Some("/home/u"), "kdeglobals"),
        Some("/home/u/.config/kdeglobals".to_owned())
    );
}

#[test]
fn only_scripts_are_opened() {
    assert!(accepted_script_extension("/x/run.sh"));
    assert!(accepted_script_extension("/x/RUN.SH"));
    assert!(!accepted_script_extension("/x/run.txt"));
    let urls = vec![
        "file:///x/a%20b.sh".to_owned(),
        "https://example.com/run.sh".to_owned(),
        "file:///x/note.txt".to_owned(),
        "not a url".to_owned(),
    ];
    let paths = script_paths_from_urls(&urls);
    assert_eq!(paths.len(), 1);
    assert_eq!(paths[0].text, "/x/a b.sh");
    assert_eq!(paths[0].bytes, b"/x/a b.sh");
    let odd = script_paths_from_urls(&vec!["file:///x/%FF.sh".to_owned()]);
    assert_eq!(odd[0].text, "/x/\u{fffd}.sh");
    assert_eq!(odd[0].bytes, b"/x/\xff.sh");
    assert_eq!(script_command("/x/run.sh").command, vec!["/x/run.sh".to_owned()]);
    assert_eq!(rejected_scripts_notice(0), None);
    assert_eq!(
        rejected_scripts_notice(2),
        Some("Could not open 2 shell-script file(s) in Zetta".to_owned())
    );
}

#[test]
fn every_handler_has_to_be_registered() {
    let outcomes = vec![Registration::Status(0); 6];
    assert_eq!(register_macos_script_handlers(true, &outcomes), Ok(()));
    assert!(register_macos_script_handlers(false, &outcomes).is_err());
    assert!(register_macos_script_handlers(true, &vec![Registration::NoTag]).is_err());
    assert!(register_macos_script_handlers(true, &vec![Registration::Status(-5)]).is_err());
    assert!(macos_script_handlers_are_zetta(true, &vec![Some(true); 6]));
    assert!(!macos_script_handlers_are_zetta(true, &vec![Some(true), Some(false)]));
    assert!(!macos_script_handlers_are_zetta(true, &vec![None]));
    assert!(!macos_script_handlers_are_zetta(true, &vec![Some(true); 5]));
    assert!(!macos_script_handlers_are_zetta(true, &Vec::new()));
}
