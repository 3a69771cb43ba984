use std::collections::{HashMap, HashSet};

use zetta::actions::{action_is_enabled_in_build, BuildFeatures};
use zetta::configuration_reload::applying::{
    project_roots_to_reload, reloaded_projects, reset_pane_controls_visibility, LoadedConfiguration,
};
use zetta::configuration_reload::{
    ConfigurationReloadFeedback, EditStep, ReloadOutcome, CONFIGURATION_RELOAD_SUCCESS_MESSAGE,
};
use zetta::id_map::IdMap;
use zetta::json::{parse, Json};
use zetta::keymap_file::{
    build_action, load_binding, ActionRequest, KeymapFile, KeymapFileLoadResult, KeymapSection, SectionOutcome,
};
use zetta::mux::recovery::{mux_degraded_notice, MuxControl, RecoveryStep};
use zetta::mux::{
    adopt_mux_pane, mux_provider_for_tab, release_mux_pane, MuxPanes, MuxPtyProvider,
    MuxRetentionState, MuxRuntime, OpenedPane, ProviderStep, Retention,
};
use zetta::mux_stub;
use zetta::pane::layout::{PaneLayout, SplitAxis};
use zetta::pane::overlay::{
    HslaColor, HsvColor, OverlayFontSize, OverlayOpacity, OverlayPickerSection, RgbaColor,
};
use zetta::pane::stack::{PaneStackSelection, StackedPane, StackedPaneState};
use zetta::pane::tab::{IconName, Tab, TabClosePolicy, TabIconOverride};
use zetta::pane::TerminalPane;
use zetta::pane_overlay::{overlay_opacity_stops, overlay_picker_summary, HexKey};
use zetta::pane_render::edges::PaneWindowEdges;
use zetta::pane_render::stacked::{stacked_entry_status, stacked_row_controls, stacked_rows, RowClose};
use zetta::pane_render::{
    pane_content, render_pane_body, render_pane_leaf, render_pane_split, BackgroundSource,
    OpacitySource, PaneContent, PaneModes, ViewState,
};
use zetta::pane_theme_picker::{
    theme_picker_palette, ClipboardOutcome, PaletteKey, PickerStep, ThemeAction, ThemeChange,
};
use zetta::process_control::ThemeScope;
use zetta::profile::{LaunchTheme, LaunchThemes, Profile, Shell};
use zetta::profile_icon::ProfileIcon;
use zetta::project::config::{EffectiveConfig, ProjectConfig};
use zetta::project::registry::ProjectRegistry;
use zetta::project_context::themes::ThemeSource;
use zetta::project_context::{ProjectOffer, ProjectState};
use zetta::zetta::{WindowEffect, Zetta};

fn profile(name: &str, theme: Option<&str>) -> Profile {
    Profile {
        name: name.to_owned(),
        command: Shell::Program("sh".to_owned()),
        theme: theme.map(str::to_owned),
        dark_theme: None,
        icon: ProfileIcon::Zetta,
    }
}

fn effective(profiles: Vec<Profile>, hidden: bool) -> EffectiveConfig {
    EffectiveConfig {
        profiles,
        hidden_profiles: Vec::new(),
        default_profile: 0,
        default_tab_icon: Some(IconName { number: 8 }),
        working_directory: Some("/home".to_owned()),
        working_directory_configured: false,
        split_templates: Vec::new(),
        keymap_path: "/k.json".to_owned(),
        pane_controls_hidden_by_default: hidden,
    }
}

fn project(root: &str, identity: u64) -> ProjectConfig {
    ProjectConfig {
        root: root.to_owned(),
        effective: effective(vec![profile("Bash", Some("Of project"))], false),
        theme: Some("Light".to_owned()),
        dark_theme: None,
        environment: vec![("A".to_owned(), "1".to_owned())],
        commands: Vec::new(),
        initial_split: Some("two".to_owned()),
        identity,
    }
}

fn tab(id: u64, panes: &[u64]) -> Tab {
    let layout = PaneLayout::tiled(&panes.to_vec()).unwrap();
    let mut tab = Tab {
        id,
        attention_id: id,
        attention: None,
        panes: Vec::new(),
        pane_indices: HashMap::new(),
        next_pane_label: 1,
        theme_override: None,
        layout,
        active_pane: panes[0],
        focus_history: Vec::new(),
        maximized_pane: None,
        minimized_panes: Vec::new(),
        selected_minimized_pane: None,
        broadcast_input: false,
        silent_mode: false,
        close_policy: TabClosePolicy::Close,
        shared: false,
        custom_title: None,
        worktree_seed_title: None,
        process_title: None,
        icon: Some(IconName { number: 1 }),
        icon_override: TabIconOverride::Unset,
        pinned: false,
        renaming_pane: None,
        rename_buffer: None,
        editing_overlay_pane: None,
        overlay_buffer: None,
        overlay_style_picker: None,
    };
    for pane in panes {
        let mut terminal = TerminalPane::new(*pane, profile("Bash", None));
        terminal.view = Some(1000 + pane);
        terminal.terminal = Some(2000 + pane);
        tab.push_pane(terminal);
    }
    tab
}

fn window(tabs: Vec<Tab>) -> Zetta {
    let mut registry = ProjectRegistry::empty("/r.json".to_owned(), false);
    registry.add("/w");
    Zetta {
        tabs,
        active_tab: 0,
        background_sessions: Vec::new(),
        projects: ProjectState::new(registry),
        config_path: "/c.json".to_owned(),
        launch_config: effective(vec![profile("Bash", Some("Launch"))], false),
        launch_theme_override: LaunchThemes::unset(),
        profiles: Vec::new(),
        working_directory: None,
        profile_shortcut_slots: 0,
        pane_controls_hidden_for: HashSet::new(),
        pane_controls_visible_for: Some(1),
        command_palette_open: true,
        theme_picker: None,
        theme_picker_scope: ThemeScope::Pane,
        theme_picker_current: None,
        remote_clipboard_paste_tabs: HashSet::new(),
        mux: MuxControl {
            runtime: None,
            recovery_generation: 0,
            recovering: false,
            configuration_generation: 0,
            configuration_error: None,
        },
        configuration_reload_feedback: ConfigurationReloadFeedback::default(),
    }
}

#[test]
fn the_theme_picker_lists_every_theme_once() {
    let names = vec!["Two".to_owned(), "One".to_owned(), "Two".to_owned()];
    let picker = theme_picker_palette(ThemeScope::Pane, &names, &Some("Two".to_owned()));
    let listed: Vec<&str> = picker.commands.iter().map(|command| command.name.as_str()).collect();
    assert_eq!(listed, vec!["Reset to tab default", "One", "Two"]);
    assert_eq!(picker.selected, 2);
    let other = theme_picker_palette(ThemeScope::Tab, &names, &Some("Gone".to_owned()));
    assert_eq!(other.commands[0].name, "Reset to configured theme");
    assert_eq!(other.selected, 0);
}

#[test]
fn the_theme_picker_opens_filters_and_runs() {
    let mut window = window(vec![tab(1, &[1])]);
    let names = vec!["One".to_owned(), "Two".to_owned()];
    assert_eq!(
        window.change_tab_theme(&names, None, "One".to_owned()),
        WindowEffect::FocusThemePicker
    );
    assert_eq!(window.theme_picker_current, Some("One".to_owned()));
    let view = window.render_pane_theme_picker_overlay(&vec![1, 2]).unwrap();
    assert_eq!(view.placeholder, "Search tab themes");
    assert!(view.rows[0].is_current);
    assert_eq!(
        window.theme_picker_key_down(ClipboardOutcome::Edited, true, PaletteKey::Ignored),
        PickerStep::Refilter
    );
    assert_eq!(window.theme_picker.as_ref().unwrap().selected, 0);
    assert_eq!(
        window.theme_picker_key_down(ClipboardOutcome::Ignored, true, PaletteKey::Redraw),
        PickerStep::Dismiss
    );
    assert_eq!(
        window.run_pane_theme_picker_command(2),
        Some(ThemeAction::Apply { name: "Two".to_owned() })
    );
    assert_eq!(window.run_pane_theme_picker_command(0), None);
    window.change_pane_theme(&names, Some("Two".to_owned()), "One".to_owned());
    assert_eq!(window.dismiss_pane_theme_picker(), WindowEffect::FocusActive);
    assert_eq!(window.theme_picker, None);
}

#[test]
fn a_chosen_theme_is_taken_back_by_a_reset() {
    let mut window = window(vec![tab(1, &[1])]);
    assert_eq!(
        window.set_theme(ThemeScope::Pane, Some("No".to_owned()), false, true),
        ThemeChange::Refused
    );
    assert_eq!(
        window.apply_theme(ThemeScope::Pane, "One".to_owned(), true, true),
        ThemeChange::View { view: 1001, theme: ThemeSource::Pane("One".to_owned()) }
    );
    assert_eq!(
        window.apply_theme(ThemeScope::Tab, "Two".to_owned(), true, true),
        ThemeChange::Tab { tab_id: 1 }
    );
    assert_eq!(
        window.refresh_terminal_themes_in_tab(1, true),
        vec![(1001, ThemeSource::Pane("One".to_owned()))]
    );
    assert_eq!(
        window.reset_pane_theme(true),
        ThemeChange::View { view: 1001, theme: ThemeSource::Tab("Two".to_owned()) }
    );
    assert_eq!(window.tabs[0].panes[0].theme_override, None);
    assert_eq!(window.reset_tab_theme(true), ThemeChange::Tab { tab_id: 1 });
    assert_eq!(window.tabs[0].theme_override, None);
    window.active_tab = 5;
    assert_eq!(window.reset_theme(ThemeScope::Tab, true), ThemeChange::Refused);
}

#[test]
fn coming_into_a_project_changes_what_counts() {
    let mut window = window(vec![tab(1, &[1])]);
    window.projects.insert_config(project("/w", 4));
    window.projects.pane_roots.insert(1, "/w".to_owned());
    let activation = window.activate_current_project(3, false, true, true).unwrap();
    assert!(activation.rebind);
    assert_eq!(activation.initial_split, Some("two".to_owned()));
    assert_eq!(activation.themes, vec![(1001, ThemeSource::Project("Light".to_owned()))]);
    assert_eq!(window.profiles, vec![profile("Bash", Some("Of project"))]);
    assert_eq!(window.tabs[0].icon, Some(IconName { number: 8 }));
    assert_eq!(window.tabs[0].panes[0].profile.theme, Some("Of project".to_owned()));
    assert_eq!(
        window.mux.configuration_error,
        Some("Could not apply project theme \"Light\" for /w".to_owned())
    );
    assert_eq!(window.activate_current_project(3, true, true, true), None);
    assert_eq!(
        window.project_environment_for_tab(1),
        vec![("A".to_owned(), "1".to_owned())]
    );

    window.projects.next_detection_generation = u64::MAX;
    window.projects.insert_config(project("/kept", 9));
    window.projects.offer = Some(ProjectOffer { root: "/x".to_owned(), pane_id: 1 });
    let scheduled = window
        .schedule_project_detection_for_pane(1, 1, Some("/else".to_owned()), &None)
        .unwrap();
    assert!(scheduled.activate);
    assert_eq!(scheduled.generation, 0);
    assert_eq!(window.projects.offer, None);
    let kept: Vec<u64> = window.projects.configs.iter().map(|config| config.identity).collect();
    assert_eq!(kept, vec![9]);
    assert_eq!(
        window.schedule_project_detection_for_pane(1, 1, Some("/else".to_owned()), &None),
        None
    );
    assert_eq!(
        window.schedule_project_detection_for_pane(1, 9, Some("/x".to_owned()), &None),
        None
    );
    let left = window.activate_current_project(3, true, true, true).unwrap();
    assert_eq!(left.initial_split, None);
    assert_eq!(window.tabs[0].icon, Some(IconName { number: 1 }));
    assert_eq!(window.tabs[0].panes[0].profile.theme, Some("Launch".to_owned()));
}

#[test]
fn projects_are_opened_by_their_roots() {
    let mut window = window(vec![tab(1, &[1])]);
    assert_eq!(window.open_project("/w".to_owned(), Some("/x".to_owned())), "/w");
    assert_eq!(window.open_project("/l".to_owned(), Some("/w".to_owned())), "/w");
    assert_eq!(window.open_project_tab("/no".to_owned()), None);
    assert_eq!(
        window.mux.configuration_error,
        Some("/no is not a registered Zetta project".to_owned())
    );
    assert_eq!(
        window.open_project_tab_with_working_directory("/w".to_owned(), Some("/t".to_owned())),
        Some("/t".to_owned())
    );
    assert_eq!(
        window.open_loaded_project_tab(project("/w", 1)),
        Some(profile("Bash", Some("Of project")))
    );
    let mut bare = project("/w", 2);
    bare.effective.profiles.clear();
    assert_eq!(window.open_loaded_project_tab(bare), None);
    assert_eq!(
        window.mux.configuration_error,
        Some("Project /w has no available default profile".to_owned())
    );
    window.take_reread_project("/w", Err("gone".to_owned()));
    assert!(window.projects.configs.is_empty());
    assert_eq!(
        window.mux.configuration_error,
        Some("Could not reload project configuration /w/.zetta/config.json: gone".to_owned())
    );
    assert_eq!(window.panes_to_look_at(), vec![(1, 1)]);
}

#[test]
fn an_accepted_offer_takes_the_pane_in() {
    let mut window = window(vec![tab(1, &[1])]);
    window.projects.begin_detection(1, "/n/src".to_owned());
    let mut registry = ProjectRegistry::empty("/r.json".to_owned(), false);
    registry.add("/n");
    window.take_accepted_offer(1, registry, project("/n", 3), &Some("/n".to_owned()));
    assert_eq!(window.active_project_config(), Some(&project("/n", 3)));
    assert_eq!(window.projects.offer, None);
}

#[test]
fn a_reload_forgets_choices_and_takes_over_profiles() {
    let mut window = window(vec![tab(1, &[1, 2])]);
    window.background_sessions = vec![tab(2, &[7])];
    window.background_sessions[0].theme_override = Some("x".to_owned());
    window.tabs[0].theme_override = Some("x".to_owned());
    window.tabs[0].panes[1].theme_override = Some("y".to_owned());
    let colour = HslaColor { hue: 1, saturation: 2, lightness: 3, alpha: 4 };
    window.set_active_pane_overlay(
        Some("note".to_owned()),
        Some(OverlayFontSize::Large),
        Some(OverlayOpacity::Percent(40)),
        Some(colour),
    );
    window.background_sessions[0].panes[0].overlay_text = Some("kept?".to_owned());
    window.projects.insert_config(project("/w", 4));
    window.projects.pane_roots.insert(1, "/w".to_owned());
    assert_eq!(project_roots_to_reload(&window.projects), vec!["/w".to_owned()]);
    let loaded = LoadedConfiguration {
        config_path: "/c.json".to_owned(),
        config: effective(vec![profile("Bash", Some("New"))], true),
        visible_profiles: 1,
        projects: Ok(vec![project("/w", 5)]),
    };
    let applied = window
        .apply_loaded_configuration(
            loaded,
            Err("unused".to_owned()),
            Ok(()),
            1,
                false,
        )
        .unwrap();
    assert!(!applied.rebind);
    assert_eq!(applied.notice, None);
    assert_eq!(
        applied.themes,
        vec![(1001, ThemeSource::Profile), (1002, ThemeSource::Profile)]
    );
    assert_eq!(window.tabs[0].theme_override, None);
    assert_eq!(window.tabs[0].panes[1].theme_override, None);
    assert_eq!(window.background_sessions[0].theme_override, None);
    assert_eq!(window.tabs[0].panes[0].overlay_text, None);
    assert_eq!(window.tabs[0].panes[0].overlay_font_size, None);
    assert_eq!(window.tabs[0].panes[0].overlay_opacity, None);
    assert_eq!(window.tabs[0].panes[0].overlay_color, None);
    assert_eq!(window.background_sessions[0].panes[0].overlay_text, None);
    assert_eq!(window.tabs[0].panes[0].profile.theme, Some("Of project".to_owned()));
    assert_eq!(window.tabs[0].panes[1].profile.theme, Some("New".to_owned()));
    assert_eq!(window.profiles, vec![profile("Bash", Some("Of project"))]);
    assert!(window.pane_controls_hidden_for.contains(&1));
    assert!(window.pane_controls_hidden_for.contains(&2));
    assert_eq!(window.pane_controls_visible_for, None);
    assert!(!window.command_palette_open);
    assert_eq!(window.mux.configuration_generation, 1);
    assert_eq!(window.active_project_config().unwrap().identity, 5);
    assert!(reset_pane_controls_visibility(false, &window.tabs).is_empty());
}

#[test]
fn a_theme_of_the_launch_stays() {
    let mut window = window(vec![tab(1, &[1, 2])]);
    window.tabs[0].panes[1].profile = profile("Gone", Some("Old"));
    window.launch_theme_override = LaunchThemes {
        theme: LaunchTheme::Replaced(Some("Given".to_owned())),
        dark_theme: LaunchTheme::Kept,
    };
    window.projects.insert_config(project("/w", 4));
    window.projects.pane_roots.insert(1, "/w".to_owned());
    window.activate_current_project(1, true, true, true).unwrap();
    assert_eq!(window.tabs[0].panes[0].profile.theme, Some("Given".to_owned()));
    assert_eq!(window.tabs[0].panes[1].profile.theme, Some("Given".to_owned()));
    window.tabs[0].panes[0].profile.theme = None;
    let mut configured = profile("Bash", Some("New"));
    configured.dark_theme = Some("Night".to_owned());
    let loaded = LoadedConfiguration {
        config_path: "/c.json".to_owned(),
        config: effective(vec![configured], false),
        visible_profiles: 1,
        projects: Ok(Vec::new()),
    };
    window.apply_loaded_configuration(loaded, Err(String::new()), Ok(()), 1, true).unwrap();
    let panes = &window.tabs[0].panes;
    assert_eq!(panes[0].profile.theme, Some("Given".to_owned()));
    assert_eq!(panes[0].profile.dark_theme, Some("Night".to_owned()));
    assert_eq!(panes[1].profile.theme, Some("Given".to_owned()));
    assert_eq!(panes[1].profile.dark_theme, None);
    assert_eq!(window.launch_config.profiles[0].theme, Some("New".to_owned()));
    window.launch_theme_override.theme = LaunchTheme::Replaced(None);
    window.apply_effective_themes_to_tab(1, true);
    assert_eq!(window.tabs[0].panes[0].profile.theme, None);
}

#[test]
fn a_closed_tab_takes_its_projects_along() {
    let mut window = window(vec![tab(1, &[1])]);
    let projects = &mut window.projects;
    projects.insert_config(project("/w", 1));
    projects.insert_config(project("/v", 2));
    projects.insert_config(project("/u", 3));
    for (pane, root) in [(1, "/w"), (2, "/w"), (3, "/v"), (4, "/v/")] {
        projects.pane_roots.insert(pane, root.to_owned());
    }
    projects.offer = Some(ProjectOffer { root: "/x".to_owned(), pane_id: 2 });
    projects.active_context = Some((1, None));
    projects.forget_tab(9, &Vec::new());
    assert_eq!(projects.active_context, Some((1, None)));
    projects.forget_tab(1, &vec![1, 2, 3]);
    assert_eq!(projects.active_context, None);
    assert_eq!(projects.offer, None);
    assert_eq!(projects.root_for_pane(1), None);
    assert_eq!(projects.config_for_pane(4).unwrap().identity, 2);
    let kept: Vec<u64> = projects.configs.iter().map(|config| config.identity).collect();
    assert_eq!(kept, vec![2, 3]);
}

#[test]
fn on_windows_projects_are_kept_by_their_spelling() {
    let registry = ProjectRegistry::empty("r.json".to_owned(), true);
    let mut projects = ProjectState::new(registry);
    projects.insert_config(project(r"C:\W", 1));
    projects.insert_config(project(r"c:\W\", 2));
    assert_eq!(projects.configs.len(), 1);
    projects.insert_config(project(r"C:\w", 3));
    assert_eq!(projects.configs.len(), 2);
    projects.pane_roots.insert(1, r"C:\W".to_owned());
    assert_eq!(projects.config_for_pane(1).unwrap().identity, 3);
    projects.clear_pane_root(1);
    assert_eq!(projects.configs.len(), 1);
    assert_eq!(projects.configs[0].identity, 3);
}

#[test]
fn an_inactive_pane_is_drawn_as_the_project_says() {
    let mut window = window(vec![tab(1, &[1, 2])]);
    window.projects.insert_config(project("/w", 4));
    window.projects.pane_roots.insert(1, "/w".to_owned());
    let state =
        ViewState { focused: false, has_context_menu: false, has_search: false, has_theme: true };
    let tab = &window.tabs[0];
    let body = render_pane_body(tab, &tab.panes[1], state, None, &window.projects);
    assert!(!body.active);
    assert_eq!(body.inactive_opacity, OpacitySource::Project(4));
    assert_eq!(body.backgrounds, BackgroundSource::View(1002));
    let empty = ProjectState::new(ProjectRegistry::empty("/r.json".to_owned(), false));
    let plain = ViewState { has_theme: false, ..state };
    let body = render_pane_body(tab, &tab.panes[1], plain, Some(1), &empty);
    assert_eq!(body.inactive_opacity, OpacitySource::Launch);
    assert_eq!(body.backgrounds, BackgroundSource::Window);
}

#[test]
fn the_first_unread_project_refuses_a_configuration() {
    let roots = vec!["/a".to_owned(), "/b".to_owned()];
    let read = reloaded_projects(&roots, vec![Ok(project("/a", 1)), Ok(project("/b", 2))], false);
    assert_eq!(read, Ok(vec![project("/a", 1), project("/b", 2)]));
    assert_eq!(
        reloaded_projects(&roots, vec![Ok(project("/a", 1)), Err("gone".to_owned())], false),
        Err("reloading project configuration /b/.zetta/config.json: gone".to_owned())
    );
}

#[test]
fn a_refused_configuration_changes_nothing_else() {
    let mut window = window(vec![tab(1, &[1])]);
    window.tabs[0].theme_override = Some("x".to_owned());
    let loaded = || LoadedConfiguration {
        config_path: "/c.json".to_owned(),
        config: effective(Vec::new(), true),
        visible_profiles: 0,
        projects: Ok(Vec::new()),
    };
    let refused = window.reload_configuration_from_process(
        loaded(),
        Ok(MuxRetentionState::exact(Retention::Disk)),
        Err("bad font".to_owned()),
        0,
        true,
    );
    assert_eq!(refused, Err("bad font".to_owned()));
    assert_eq!(window.tabs[0].theme_override, Some("x".to_owned()));
    window.mux.runtime = Some(MuxRuntime::connected(1, Retention::Disk));
    let refused = window.apply_loaded_configuration(
        loaded(),
        Err("daemon".to_owned()),
        Ok(()),
        0,
        true,
    );
    assert_eq!(refused, Err("daemon".to_owned()));
    let before = window.mux.recovery_generation;
    let unread = LoadedConfiguration { projects: Err("gone".to_owned()), ..loaded() };
    let refused = window.apply_loaded_configuration(
        unread,
        Ok(MuxRetentionState::exact(Retention::Disk)),
        Ok(()),
        0,
        true,
    );
    assert_eq!(refused, Err("gone".to_owned()));
    assert_eq!(window.mux.recovery_generation, before + 1);
}

#[test]
fn a_reload_tells_what_came_of_it() {
    let mut window = window(vec![tab(1, &[1])]);
    let path = window.begin_configuration_reload();
    assert_eq!(path, "/c.json");
    assert_eq!(
        window.reload_configuration(&path, ReloadOutcome::NotLoaded("bad".to_owned())),
        None
    );
    assert_eq!(
        window.mux.configuration_error,
        Some("Could not load /c.json: bad".to_owned())
    );
    window.reload_configuration(&path, ReloadOutcome::NotApplied("bad".to_owned()));
    assert_eq!(
        window.mux.configuration_error,
        Some("Could not apply /c.json: bad".to_owned())
    );
    let first = window.reload_configuration(&path, ReloadOutcome::Applied).unwrap();
    assert!(window.configuration_reload_feedback.is_visible());
    assert_eq!(window.mux.configuration_error, None);
    window.begin_configuration_reload();
    let second = window.reload_configuration(&path, ReloadOutcome::Applied).unwrap();
    assert!(!window.dismiss_reload_success(first));
    assert!(window.dismiss_reload_success(second));
    assert!(!window.dismiss_reload_success(second));
    assert_eq!(CONFIGURATION_RELOAD_SUCCESS_MESSAGE, "Configuration reloaded");
}

#[test]
fn settings_are_edited_from_the_active_pane() {
    let mut window = window(vec![tab(1, &[1])]);
    assert_eq!(window.edit_config_file(), "/c.json");
    assert_eq!(window.edit_keymap_file(), "/k.json");
    assert_eq!(
        window.edit_settings_file_in_active_pane(Some("vi".to_owned()), false),
        EditStep::Submit { terminal: 2001, command: "vi".to_owned() }
    );
    assert_eq!(
        window.edit_settings_file_in_active_pane(Some("vi".to_owned()), true),
        EditStep::OpenInNewPane { tab_id: 1, pane_id: 1, command: "vi".to_owned() }
    );
    assert_eq!(window.edit_settings_file_in_active_pane(None, true), EditStep::Nothing);
    window.active_tab = 4;
    assert_eq!(
        window.edit_settings_file_in_active_pane(Some("vi".to_owned()), false),
        EditStep::Nothing
    );
}

#[test]
fn toggling_the_clipboard_twice_changes_nothing() {
    let mut window = window(vec![tab(6, &[1, 2])]);
    let granted = window.toggle_remote_clipboard_paste().unwrap();
    assert!(granted.allowed);
    assert_eq!(granted.terminals, vec![2001, 2002]);
    assert!(window.remote_clipboard_paste_tabs.contains(&6));
    let revoked = window.toggle_remote_clipboard_paste().unwrap();
    assert!(!revoked.allowed);
    assert!(window.remote_clipboard_paste_tabs.is_empty());
}

#[test]
fn the_style_picker_edits_the_active_pane() {
    let mut window = window(vec![tab(1, &[1])]);
    window.set_active_pane_overlay(Some("note".to_owned()), None, None, None);
    assert_eq!(
        window.begin_overlay_style_picker(
            1,
            HsvColor { hue: 0, saturation: 0, value: 0 },
            "#ffffff".to_owned(),
            50
        ),
        WindowEffect::FocusStylePicker
    );
    let shown = HslaColor { hue: 1, saturation: 2, lightness: 3, alpha: 4 };
    window.set_overlay_font_size(OverlayFontSize::Large, shown);
    assert_eq!(window.tabs[0].panes[0].overlay_font_size, Some(OverlayFontSize::Large));
    window.adjust_overlay_picker_section(1);
    let view = window.render_overlay_style_picker_overlay().unwrap();
    assert_eq!(view.font_size, OverlayFontSize::Large);
    assert_eq!(view.section, OverlayPickerSection::Opacity);
    let picker = window.tabs[0].overlay_style_picker.as_ref().unwrap();
    assert!(!overlay_picker_summary(picker).is_empty());
    window.cancel_overlay_style_picker();
    assert_eq!(window.tabs[0].panes[0].overlay_font_size, None);
    assert!(!window.is_picking_overlay_style());
    assert!(overlay_opacity_stops().contains(&100));
}

#[test]
fn a_typed_colour_is_shown_as_keys_come_and_go() {
    let mut window = window(vec![tab(1, &[1])]);
    let white = HsvColor { hue: 0, saturation: 0, value: 1 };
    let typed = HsvColor { hue: 7, saturation: 8, value: 9 };
    let shown = HslaColor { hue: 1, saturation: 2, lightness: 3, alpha: 4 };
    let taken_back = HslaColor { hue: 5, saturation: 6, lightness: 7, alpha: 8 };
    window.set_active_pane_overlay(
        Some("note".to_owned()),
        Some(OverlayFontSize::Small),
        Some(OverlayOpacity::Percent(30)),
        Some(taken_back),
    );
    assert_eq!(window.overlay_hex_backspace(typed, shown), None);
    window.begin_overlay_style_picker(1, white, "#abcd".to_owned(), 30);
    let whole = Some(RgbaColor { red: 0xaa, green: 0xbb, blue: 0xcc, alpha: 0xff });
    assert_eq!(window.overlay_color_after_key(HexKey::Backspace), whole);
    assert_eq!(window.overlay_hex_backspace(typed, shown), whole);
    assert_eq!(window.tabs[0].overlay_style_picker.as_ref().unwrap().hex_buffer, "#abc");
    assert_eq!(window.tabs[0].overlay_style_picker.as_ref().unwrap().color, typed);
    assert_eq!(window.tabs[0].panes[0].overlay_color, Some(shown));
    assert_eq!(window.overlay_hex_input('d', white, taken_back), None);
    assert_eq!(window.overlay_hex_input('g', white, taken_back), None);
    assert_eq!(window.overlay_hex_input('e', white, taken_back), None);
    assert_eq!(window.tabs[0].panes[0].overlay_color, Some(shown));
    let six = Some(RgbaColor { red: 0xab, green: 0xcd, blue: 0xef, alpha: 0xff });
    assert_eq!(window.overlay_color_after_key(HexKey::Digit('f')), six);
    assert_eq!(window.overlay_hex_input('f', white, taken_back), six);
    assert_eq!(window.tabs[0].panes[0].overlay_color, Some(taken_back));
    window.set_overlay_font_size(OverlayFontSize::Large, shown);
    window.set_overlay_opacity_percent(90, shown);
    window.cancel_overlay_style_picker();
    let pane = &window.tabs[0].panes[0];
    assert_eq!(pane.overlay_text, Some("note".to_owned()));
    assert_eq!(pane.overlay_font_size, Some(OverlayFontSize::Small));
    assert_eq!(pane.overlay_opacity, Some(OverlayOpacity::Percent(30)));
    assert_eq!(pane.overlay_color, Some(taken_back));
}

#[test]
fn an_overlay_is_edited_on_the_active_pane() {
    let mut window = window(vec![tab(1, &[1, 2])]);
    window.tabs[0].active_pane = 2;
    assert_eq!(window.set_pane_overlay("old".to_owned()), WindowEffect::FocusField);
    assert_eq!(window.tabs[0].editing_overlay_pane, Some(2));
    window.tabs.clear();
    assert_eq!(window.set_pane_overlay("old".to_owned()), WindowEffect::Nothing);
}

#[test]
fn a_pane_shows_its_view_first() {
    let shown = tab(1, &[1, 2]);
    assert_eq!(pane_content(&shown.panes[0]), PaneContent::View(1001));
    let mut failed = TerminalPane::new(3, profile("Bash", None));
    failed.error = Some("no shell".to_owned());
    assert!(matches!(pane_content(&failed), PaneContent::Failed { .. }));
    let starting = TerminalPane::new(4, profile("Bash", None));
    assert!(matches!(pane_content(&starting), PaneContent::Starting { .. }));
    let modes = PaneModes { resizing: false, moving: false, controls_visible_for: None };
    assert!(render_pane_leaf(&shown, 1, Some((80, 24)), modes).is_some());
    assert!(render_pane_leaf(&shown, 9, None, modes).is_none());
    let split =
        render_pane_split(&shown, &shown.layout, PaneWindowEdges::all(), modes).unwrap();
    assert_eq!(split.first_share + split.second_share, 1000);
}

#[test]
fn each_corner_has_one_pane() {
    let edges = PaneWindowEdges::all();
    let (first, second) = (edges.first(SplitAxis::Vertical), edges.second(SplitAxis::Vertical));
    assert!(first.left && !first.right);
    assert!(second.right && !second.left);
    let corners = second.client_corners(None);
    assert!(!corners.bottom_left);
}

#[test]
fn rows_are_for_what_is_not_shown() {
    let mut pane = TerminalPane::new(1, profile("Bash", None));
    let mut entry = StackedPane::new(5, "make".to_owned(), profile("Bash", None), None, None);
    entry.state = StackedPaneState::Completed;
    entry.exit_code = Some(2);
    let status = stacked_entry_status(&entry);
    assert_eq!(status, "exit 2");
    pane.stack.push(entry);
    let rows = stacked_rows(&pane);
    assert_eq!(rows.len(), 1);
    assert_eq!(rows[0].selection, PaneStackSelection::Base);
    let controls = stacked_row_controls(3, 1, PaneStackSelection::Stacked(5));
    assert_eq!(controls.close, RowClose::Entry { tab_id: 3, pane_id: 1, entry_id: 5 });
}

#[test]
fn a_tab_is_one_session() {
    let mut panes = MuxPanes::new();
    let first = panes.session_for_tab(1);
    assert_eq!(panes.session_for_tab(1), first);
    assert_eq!(panes.session_id(1), None);
    let mut provider = MuxPtyProvider::provider_with_restore_replay(first, Some(b"old".to_vec()));
    let replay = provider.open(
        &mut panes,
        OpenedPane { session_id: 70, pane_id: 5 },
        b"new".to_vec(),
    );
    assert_eq!(replay, b"old".to_vec());
    assert_eq!(panes.session_id(1), Some(70));
    assert_eq!(
        adopt_mux_pane(&mut panes, 1, 11, Some(&provider)),
        Some(OpenedPane { session_id: 70, pane_id: 5 })
    );
    assert_eq!(panes.mux_pane_id(11), Some(5));
    assert!(panes.holds_session(70));
    let release = release_mux_pane(&mut panes, 1, 11, true);
    assert_eq!(release.forget_reporters, Some(5));
    assert_eq!(release.close, Some(OpenedPane { session_id: 70, pane_id: 5 }));
    panes.adopt_session(1, 80);
    assert_eq!(panes.session_id(1), Some(80));
    assert_ne!(panes.session_for_tab(1), first);
    assert_eq!(panes.cells[first.cell], Some(70));
    panes.forget_tab(1);
    assert!(!panes.holds_session(80));
    assert_eq!(mux_provider_for_tab(true, false), ProviderStep::Local);
    assert_eq!(mux_provider_for_tab(false, false), ProviderStep::Connect);
    assert_eq!(mux_provider_for_tab(false, true), ProviderStep::Provide);
}

#[test]
fn a_recovery_is_tried_until_it_is_replaced() {
    let degraded = || MuxRetentionState {
        requested: Retention::Disk,
        effective: Retention::Memory { bytes: 10 },
        degraded_reason: Some("full".to_owned()),
    };
    let mut control = MuxControl {
        runtime: None,
        recovery_generation: 0,
        recovering: false,
        configuration_generation: 0,
        configuration_error: None,
    };
    let (notice, recovery) =
        control.install_mux_runtime(MuxRuntime::connected_with(1, degraded()));
    assert_eq!(notice, Some(mux_degraded_notice("full")));
    let mut recovery = recovery.unwrap();
    let first = recovery.delay();
    assert_eq!(control.recovery_attempt(&mut recovery, Ok(degraded())), RecoveryStep::Retry);
    assert!(recovery.delay() >= first);
    assert_eq!(
        control.recovery_attempt(&mut recovery, Ok(MuxRetentionState::exact(Retention::Disk))),
        RecoveryStep::Restored
    );
    control.install_mux_runtime(MuxRuntime::connected_with(1, degraded()));
    assert!(!control.current_mux_recovery(&recovery));
    assert_eq!(
        control.recovery_attempt(&mut recovery, Ok(degraded())),
        RecoveryStep::Superseded
    );
}

#[test]
fn good_bindings_are_kept() {
    let section = |context: &str, keys: &[&str]| KeymapSection {
        context: context.to_owned(),
        use_key_equivalents: false,
        bindings: keys.iter().map(|key| (key.to_string(), Json::Null)).collect(),
    };
    let file = KeymapFile { sections: vec![section("", &["a", "b"]), section("Pane &&", &["c"])] };
    let outcomes = vec![
        SectionOutcome { context_error: None, bindings: vec![Ok(1), Err("no".to_owned())] },
        SectionOutcome { context_error: Some("odd".to_owned()), bindings: vec![Ok(3)] },
    ];
    match file.load_keymap(&outcomes) {
        KeymapFileLoadResult::SomeFailedToLoad { key_bindings, error_message } => {
            assert_eq!(key_bindings, vec![1]);
            assert_eq!(
                error_message,
                "in context \"\", binding \"b\": no; \
                 in context \"Pane &&\": could not parse the context: odd"
            );
        }
        _ => panic!("all loaded"),
    }
    let action = parse(r#"["zetta::Go", {"x": 1}]"#).unwrap();
    match build_action(&action).unwrap() {
        ActionRequest::Named { name, text, .. } => {
            assert_eq!(name, "zetta::Go");
            assert_eq!(text, Some(r#"{"x":1}"#.to_owned()));
        }
        ActionRequest::NoAction => panic!("no action"),
    }
    assert_eq!(build_action(&Json::Null), Ok(ActionRequest::NoAction));
    assert!(build_action(&Json::Bool(true)).is_err());
    assert_eq!(
        load_binding(build_action(&Json::Null), Err("ctrl-".to_owned())),
        Err("invalid keystroke \"ctrl-\"".to_owned())
    );
    assert_eq!(load_binding(build_action(&Json::Null), Ok(4)), Ok(4));
    assert!(KeymapFile::allow_partial_failure(
        "keymap.json",
        KeymapFileLoadResult::JsonParseFailure { error: "bad".to_owned() }
    )
    .is_err());
}

#[test]
fn a_build_offers_what_it_was_made_with() {
    let features = BuildFeatures {
        serial_console: false,
        http_server: true,
        tftp_server: false,
        macos: false,
    };
    assert!(!action_is_enabled_in_build("zetta::ToggleSerialConsole", features));
    assert!(action_is_enabled_in_build("zetta::StartHttpServer", features));
    assert!(!action_is_enabled_in_build("zetta::StartTftpServer", features));
    assert!(!action_is_enabled_in_build("zetta::RequestFocusStatusAccess", features));
    assert!(action_is_enabled_in_build("zetta::NewTab", features));
}

#[test]
fn without_the_multiplexer_nothing_is_shared() {
    let mut panes = mux_stub::MuxPanes;
    assert!(!panes.is_remote_tab(1));
    assert_eq!(panes.session_id(1), None);
    panes.forget_tab(1);
    let mut window = window(vec![tab(1, &[1])]);
    assert!(!window.has_shared_tab_binding(1));
    assert!(!window.request_shared_pane_close(1, 1));
    assert!(!window.shared_pane_is_closing(1));
    let map: IdMap<u8> = IdMap::new();
    assert_eq!(map.get(1), None);
}
