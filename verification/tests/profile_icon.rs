use zetta::json::Json;
use zetta::profile::Shell;
use zetta::profile_icon::{
    automatic_for_program, executable_basename, swap_red_and_blue, ProfileIcon, ProfileIconError,
};

#[test]
fn parses_profile_icon_values() {
    assert_eq!(ProfileIcon::parse(&Json::Null).unwrap(), None);
    assert_eq!(
        ProfileIcon::parse(&Json::Text("auto".into())).unwrap(),
        None
    );
    assert_eq!(
        ProfileIcon::parse(&Json::Text("BASH".into())).unwrap(),
        Some(ProfileIcon::Bash)
    );
    assert!(ProfileIcon::parse(&Json::Text("terminal".into())).is_err());
}

#[test]
fn icons_are_read_by_their_names_in_any_case() {
    for icon in [ProfileIcon::Bash, ProfileIcon::Fish, ProfileIcon::Zsh, ProfileIcon::Zetta] {
        let name = icon.name().unwrap().to_ascii_uppercase();
        assert_eq!(ProfileIcon::parse(&Json::Text(name)).unwrap(), Some(icon));
    }
}

#[test]
fn maps_shell_executable_basenames() {
    assert_eq!(
        ProfileIcon::automatic_for_program_name("/opt/homebrew/bin/bash"),
        ProfileIcon::Bash
    );
    assert_eq!(
        ProfileIcon::automatic_for_program_name(r"C:\\tools\\zsh.exe"),
        ProfileIcon::Zsh
    );
    assert_eq!(
        ProfileIcon::automatic_for_program_name("custom-shell"),
        ProfileIcon::Zetta
    );
}

#[test]
fn automatic_programs_fall_back_to_bundled_shell_icons() {
    assert_eq!(
        ProfileIcon::automatic_for_program(r"C:\missing\fish.exe"),
        ProfileIcon::Fish
    );
    assert_eq!(
        ProfileIcon::automatic_for_program("/missing/zsh"),
        ProfileIcon::Zsh
    );
}

#[test]
fn special_profiles_use_their_platform_icon() {
    assert_eq!(
        ProfileIcon::automatic_for_profile("WSL: Ubuntu", &Shell::Program("wsl.exe".into())),
        ProfileIcon::Tux
    );
    assert_eq!(
        ProfileIcon::automatic_for_profile(
            "WSL: Ubuntu (Zsh)",
            &Shell::Program("wsl.exe".into()),
        ),
        ProfileIcon::Tux
    );
    assert_eq!(
        ProfileIcon::automatic_for_profile(
            "MSYS2: Zsh",
            &Shell::WithArguments {
                program: "cmd.exe".into(),
                args: Vec::new(),
                title_override: None,
            },
        ),
        ProfileIcon::Zsh
    );
}

#[test]
fn refuses_what_names_no_icon() {
    assert_eq!(
        ProfileIcon::parse(&Json::Bool(true)),
        Err(ProfileIconError::NotAName)
    );
    assert_eq!(
        ProfileIcon::parse_name("Terminal"),
        Err(ProfileIconError::UnknownName("Terminal".to_owned()))
    );
}

#[test]
fn icon_names_read_back_as_their_icons() {
    for icon in [
        ProfileIcon::Zetta,
        ProfileIcon::Bash,
        ProfileIcon::Zsh,
        ProfileIcon::Fish,
    ] {
        let name = icon.name().unwrap();
        assert_eq!(ProfileIcon::parse_name(name), Ok(Some(icon)));
    }
    assert_eq!(ProfileIcon::Tux.name(), None);
    assert_eq!(ProfileIcon::selector_label(None), "Automatic");
    assert_eq!(ProfileIcon::selector_label(Some(&ProfileIcon::Fish)), "Fish");
}

#[test]
fn an_executable_icon_comes_before_the_bundled_ones() {
    assert_eq!(
        automatic_for_program("zsh", Some("/bin/zsh".to_owned())),
        ProfileIcon::Executable("/bin/zsh".to_owned())
    );
    assert_eq!(
        ProfileIcon::Bash.jump_list_icon_location("zetta.exe", false),
        ("zetta.exe".to_owned(), 2)
    );
    assert_eq!(ProfileIcon::Tux.asset_path(), "icons/profile/tux.png");
}

#[test]
fn a_program_goes_by_its_name() {
    assert_eq!(executable_basename("/usr/bin/Fish.EXE"), Some("fish".to_owned()));
    assert_eq!(executable_basename("/"), None);
}

#[test]
fn pixels_have_red_and_blue_swapped() {
    let mut pixels = vec![1, 2, 3, 4, 5, 6, 7, 8];
    swap_red_and_blue(&mut pixels);
    assert_eq!(pixels, vec![3, 2, 1, 4, 7, 6, 5, 8]);
}
