use std::collections::{HashMap, HashSet, VecDeque};

use zetta::pane::layout::{
    PaneDirection, PaneLayout, PaneRotationDirection, PaneSplitTemplate, SplitAxis, SplitMeasure,
    SplitPosition,
};
use zetta::pane::overlay::{
    normalize_overlay_color_hex, overlay_color_from_hex, overlay_color_from_value, HslaColor,
    HsvColor, OverlayColorPreset, OverlayFontSize, OverlayOpacity, OverlayPickerSection,
    OverlayStylePicker, RgbaColor,
};
use zetta::pane::stack::{PaneStack, PaneStackSelection, StackedPane};
use zetta::pane::tab::{IconName, Tab, TabClosePolicy, TabIconOverride};
use zetta::pane::{
    begin_coalesced_notification, can_add_panes, clone_or_take_for_final_spawn,
    pane_layout_from_configured_template, prepare_pane_launches, select_current_directory,
    terminal_size_label, BoundedLaunchQueue, PaneSplitTemplateConfig, ReportedDirectory,
    TerminalPane,
};
use zetta::profile::{Profile, Shell};
use zetta::profile_icon::ProfileIcon;

fn profile(name: &str) -> Profile {
    Profile {
        name: name.to_owned(),
        command: Shell::Program("sh".to_owned()),
        theme: None,
        dark_theme: None,
        icon: ProfileIcon::Zetta,
    }
}

fn leaf(id: u64) -> Box<PaneLayout> {
    Box::new(PaneLayout::Pane(id))
}

fn beside(first: Box<PaneLayout>, second: Box<PaneLayout>) -> PaneLayout {
    PaneLayout::Split { axis: SplitAxis::Vertical, first_ratio: 500, first, second }
}

fn above(first: Box<PaneLayout>, second: Box<PaneLayout>) -> PaneLayout {
    PaneLayout::Split { axis: SplitAxis::Horizontal, first_ratio: 300, first, second }
}

fn tab(ids: &[u64], layout: PaneLayout, active: u64) -> Tab {
    let mut tab = Tab {
        id: 1,
        attention_id: 1,
        attention: None,
        panes: Vec::new(),
        pane_indices: HashMap::new(),
        next_pane_label: 1,
        theme_override: None,
        layout,
        active_pane: active,
        focus_history: Vec::new(),
        maximized_pane: None,
        minimized_panes: Vec::new(),
        selected_minimized_pane: None,
        broadcast_input: false,
        silent_mode: false,
        close_policy: TabClosePolicy::Close,
        shared: false,
        custom_title: None,
        worktree_seed_title: None,
        process_title: None,
        icon: None,
        icon_override: TabIconOverride::Unset,
        pinned: false,
        renaming_pane: None,
        rename_buffer: None,
        editing_overlay_pane: None,
        overlay_buffer: None,
        overlay_style_picker: None,
    };
    for id in ids {
        let label = tab.next_pane_label;
        tab.push_pane(TerminalPane::new(*id, profile("Bash")).with_label_number(label));
    }
    tab
}

#[test]
fn splitting_is_undone_by_closing() {
    let mut layout = beside(leaf(1), leaf(2));
    assert!(layout.split(2, SplitAxis::Horizontal, 3, SplitPosition::Before));
    assert_eq!(layout.pane_ids(), vec![1, 3, 2]);
    assert!(!layout.split(9, SplitAxis::Horizontal, 4, SplitPosition::After));
    assert_eq!(layout.without(3), Some(beside(leaf(1), leaf(2))));
    assert_eq!(PaneLayout::Pane(1).without(1), None);
}

#[test]
fn closing_several_panes_keeps_the_others_in_place() {
    let layout = beside(leaf(1), Box::new(above(leaf(2), leaf(3))));
    let gone: HashSet<u64> = [1, 3].into_iter().collect();
    assert_eq!(layout.without_all(&gone), Some(PaneLayout::Pane(2)));
    assert_eq!(
        layout.without_all(&HashSet::new()),
        Some(beside(leaf(1), Box::new(above(leaf(2), leaf(3)))))
    );
}

#[test]
fn four_rotations_are_none() {
    let original = beside(leaf(1), Box::new(above(leaf(2), leaf(3))));
    let mut layout = original.duplicate();
    layout.rotate_geometry(PaneRotationDirection::Clockwise);
    assert_ne!(layout, original);
    layout.rotate_geometry(PaneRotationDirection::CounterClockwise);
    assert_eq!(layout, original);
    for _ in 0..4 {
        layout.rotate_geometry(PaneRotationDirection::Clockwise);
    }
    assert_eq!(layout, original);
}

#[test]
fn rotating_a_pane_turns_a_split_around_it() {
    let mut layout = beside(leaf(1), leaf(2));
    let measures = vec![SplitMeasure {
        areas_equal: true,
        active_covers_first: true,
        active_covers_second: false,
    }];
    assert!(layout.rotate_pane(1, PaneRotationDirection::Clockwise, &measures));
    assert_eq!(layout.pane_ids().len(), 2);
    let mut single = PaneLayout::Pane(1);
    assert!(!single.rotate_pane(1, PaneRotationDirection::Clockwise, &vec![]));
}

#[test]
fn moving_a_pane_swaps_it_with_what_lies_there() {
    let mut layout = beside(leaf(1), leaf(2));
    assert!(layout.move_pane(1, PaneDirection::Right));
    assert_eq!(layout.pane_ids(), vec![2, 1]);
    assert!(!layout.move_pane(1, PaneDirection::Right));
    assert!(!layout.move_pane(1, PaneDirection::Up));
    let mut nested = beside(Box::new(beside(leaf(1), leaf(2))), leaf(3));
    assert!(nested.swap_panes(1, 3));
    assert_eq!(nested.pane_ids(), vec![3, 2, 1]);
    assert!(nested.swap_panes(1, 3));
    assert_eq!(nested.pane_ids(), vec![1, 2, 3]);
    assert!(!nested.swap_panes(1, 9));
}

#[test]
fn a_split_is_resized_within_bounds() {
    let mut layout = beside(leaf(1), leaf(2));
    assert_eq!(layout.split_ratio(1, 2, SplitAxis::Vertical), Some(500));
    assert!(layout.adjust_split_ratio(1, 2, SplitAxis::Vertical, 100));
    assert_eq!(layout.split_ratio(1, 2, SplitAxis::Vertical), Some(600));
    assert_eq!(layout.split_ratio(1, 2, SplitAxis::Horizontal), None);
    assert!(layout.adjust_resize_boundary(1, SplitAxis::Vertical, -50));
    assert_eq!(layout.split_ratio(1, 2, SplitAxis::Vertical), Some(550));
    assert_eq!(
        layout.split_panes(1, 2, SplitAxis::Vertical),
        Some((vec![1], vec![2]))
    );
    let boundary = layout.resize_boundary(1, SplitAxis::Vertical).unwrap();
    assert!(boundary.active_is_first);
    assert_eq!(boundary.sibling_panes, vec![2]);
}

#[test]
fn the_pane_that_was_focused_last_is_the_closest() {
    let layout = beside(leaf(1), Box::new(above(leaf(2), leaf(3))));
    assert_eq!(layout.adjacent_pane(1, &vec![false, true, true], &vec![3, 2]), Some(2));
    assert_eq!(layout.adjacent_pane(1, &vec![false, true, true], &vec![2, 3]), Some(3));
    assert_eq!(layout.adjacent_pane(1, &vec![false, true, true], &vec![]), Some(2));
    assert_eq!(layout.adjacent_pane(1, &vec![false, false, false], &vec![]), None);
}

#[test]
fn tiles_and_templates_use_their_panes_in_order() {
    let layout = PaneLayout::tiled(&vec![4, 5, 6, 7, 8]).unwrap();
    assert_eq!(layout.pane_ids(), vec![4, 5, 6, 7, 8]);
    assert_eq!(PaneLayout::tiled(&vec![]), None);
    let template = PaneSplitTemplate::Split {
        axis: SplitAxis::Vertical,
        first: Box::new(PaneSplitTemplate::Pane(())),
        second: Box::new(PaneSplitTemplate::Pane(())),
    };
    let mut ids: VecDeque<u64> = [7, 9].into_iter().collect();
    let templates = vec![PaneSplitTemplateConfig { name: "two".to_owned(), layout: template }];
    assert_eq!(
        pane_layout_from_configured_template(&templates, "two", &mut ids),
        Some(beside(leaf(7), leaf(9)))
    );
    assert!(ids.is_empty());
    assert_eq!(pane_layout_from_configured_template(&templates, "none", &mut ids), None);
}

#[test]
fn renumbering_keeps_places() {
    let mut layout = beside(leaf(1), leaf(2));
    let map: HashMap<u64, u64> = [(1, 11), (2, 12)].into_iter().collect();
    layout.remap_pane_ids(&map);
    assert_eq!(layout, beside(leaf(11), leaf(12)));
    let mut shown = tab(&[1, 2], beside(leaf(1), leaf(2)), 2);
    let mut next = 40;
    let map = shown.reassign_ids(9, &mut next);
    assert_eq!(shown.id, 9);
    assert_eq!(next, 42);
    assert_eq!(shown.active_pane, map[&2]);
    assert_eq!(shown.layout, beside(leaf(40), leaf(41)));
    assert!(shown.pane(40).is_some());
    assert!(shown.pane(1).is_none());
}

#[test]
fn closing_the_active_pane_focuses_the_one_before() {
    let mut shown = tab(&[1, 2, 3], beside(leaf(1), Box::new(above(leaf(2), leaf(3)))), 1);
    shown.activate_pane(3);
    shown.activate_pane(2);
    assert_eq!(shown.active_pane, 2);
    assert!(shown.remove_pane(2).is_some());
    shown.restore_focus_after_close(2, 1);
    assert_eq!(shown.active_pane, 3);
    assert!(shown.remove_pane(2).is_none());
}

#[test]
fn restoring_undoes_minimizing() {
    let mut shown = tab(&[1, 2], beside(leaf(1), leaf(2)), 1);
    assert!(shown.minimize(1));
    assert!(!shown.pane_is_visible(1));
    assert_eq!(shown.visible_layout(), Some(PaneLayout::Pane(2)));
    assert_eq!(shown.active_pane, 2);
    assert!(shown.restore_minimized(1));
    assert!(shown.pane_is_visible(1));
    assert_eq!(shown.visible_layout(), Some(beside(leaf(1), leaf(2))));
    assert!(!shown.restore_last_minimized());
}

#[test]
fn a_maximized_pane_is_shown_alone() {
    let mut shown = tab(&[1, 2], beside(leaf(1), leaf(2)), 1);
    assert!(shown.toggle_maximize(2));
    assert_eq!(shown.visible_layout(), Some(PaneLayout::Pane(2)));
    assert!(shown.toggle_maximize(2));
    assert_eq!(shown.maximized_pane, None);
}

#[test]
fn a_chosen_icon_is_marked_as_chosen() {
    let mut shown = tab(&[1], PaneLayout::Pane(1), 1);
    shown.set_icon_override(Some(IconName { number: 3 }));
    assert_eq!(shown.icon_override, TabIconOverride::Icon(IconName { number: 3 }));
    shown.set_icon_override(None);
    assert_eq!(shown.icon, None);
    assert_eq!(shown.icon_override, TabIconOverride::Hidden);
}

fn entry(id: u64) -> StackedPane {
    let mut entry = StackedPane::new(id, "make".to_owned(), profile("Bash"), None, None);
    entry.view = Some(100 + id);
    entry
}

#[test]
fn cycling_back_undoes_cycling_on() {
    let mut stack = PaneStack::new();
    assert_eq!(stack.cycle(true), None);
    assert!(stack.push(entry(5)));
    assert!(stack.push(entry(6)));
    stack.select(PaneStackSelection::Base);
    assert_eq!(stack.cycle(true), Some(PaneStackSelection::Stacked(5)));
    assert_eq!(stack.selected_view(Some(1)), Some(105));
    assert_eq!(stack.cycle(false), Some(PaneStackSelection::Base));
    assert_eq!(stack.cycle(false), Some(PaneStackSelection::Stacked(6)));
    assert!(!stack.select(PaneStackSelection::Stacked(9)));
    assert!(stack.remove(6).is_some());
    stack.repair_selection();
    assert_ne!(stack.selected, PaneStackSelection::Stacked(6));
}

#[test]
fn a_pane_names_the_terminals_of_its_stack() {
    let mut pane = TerminalPane::new(1, profile("Bash"));
    pane.terminal = Some(7);
    let mut stacked = entry(2);
    stacked.terminal = Some(8);
    pane.stack.push(stacked);
    assert_eq!(pane.all_terminals(), vec![7, 8]);
    assert_eq!(pane.all_views(), vec![102]);
}

#[test]
fn launches_are_bounded() {
    let mut queue = BoundedLaunchQueue::new(2);
    queue.extend(vec![1, 2, 3]);
    assert_eq!(queue.pop_ready(), Some(1));
    assert_eq!(queue.pop_ready(), Some(2));
    assert_eq!(queue.pop_ready(), None);
    queue.complete();
    assert_eq!(queue.pop_ready(), Some(3));
    assert_eq!(queue.pop_ready(), None);
    assert_eq!(
        prepare_pane_launches(&vec![4, 5], |id: u64| id * 2),
        vec![(4, 8), (5, 10)]
    );
}

#[test]
fn small_pane_rules_hold() {
    assert_eq!(terminal_size_label(80, 24), "80 × 24");
    assert!(can_add_panes(60, 4));
    assert!(!can_add_panes(60, 5));
    assert!(!can_add_panes(usize::MAX, 1));
    let mut pending = false;
    assert!(begin_coalesced_notification(&mut pending));
    assert!(!begin_coalesced_notification(&mut pending));
    let mut list = vec!["a".to_owned()];
    assert_eq!(clone_or_take_for_final_spawn(&mut list, false), vec!["a".to_owned()]);
    assert_eq!(list.len(), 1);
    assert_eq!(clone_or_take_for_final_spawn(&mut list, true), vec!["a".to_owned()]);
    assert!(list.is_empty());
}

#[test]
fn a_reported_directory_wins_where_it_is_tracked() {
    let reported = Some("/r".to_owned());
    let process = Some("/p".to_owned());
    assert_eq!(
        select_current_directory(reported.clone(), process.clone(), true, true),
        Some(("/r".to_owned(), true))
    );
    assert_eq!(
        select_current_directory(None, process.clone(), true, true),
        Some(("/p".to_owned(), true))
    );
    assert_eq!(
        select_current_directory(None, process, false, false),
        Some(("/p".to_owned(), false))
    );
    assert_eq!(select_current_directory(None, None, true, true), None);
}

#[test]
fn overlay_sizes_and_sections_step_and_read_back() {
    assert_eq!(OverlayFontSize::default_size(), OverlayFontSize::ExtraLarge);
    for (index, size) in OverlayFontSize::ALL.into_iter().enumerate() {
        assert_eq!(size.index(), index);
        assert_eq!(size.cli_name(), OverlayFontSize::CLI_NAMES[index]);
        assert_eq!(OverlayFontSize::parse(size.cli_name()), Some(size));
    }
    assert_eq!(OverlayFontSize::ALL[5], OverlayFontSize::ExtraExtraExtraLarge);
    assert_eq!(OverlayPickerSection::ALL[1], OverlayPickerSection::Opacity);
    assert_eq!(OverlayFontSize::parse("huge"), None);
    assert_eq!(OverlayFontSize::Base.step(1), OverlayFontSize::Large);
    assert_eq!(OverlayFontSize::Large.step(-1), OverlayFontSize::Base);
    for section in [
        OverlayPickerSection::FontSize,
        OverlayPickerSection::Color,
        OverlayPickerSection::ColorPresets,
        OverlayPickerSection::Opacity,
    ] {
        assert_eq!(section.step(1).step(-1), section);
        assert_eq!(section.step(4), section);
    }
}

#[test]
fn colors_are_read_by_name_and_digits() {
    assert_eq!(
        overlay_color_from_hex("#ff8000"),
        Some(RgbaColor { red: 255, green: 128, blue: 0, alpha: 255 })
    );
    assert_eq!(
        overlay_color_from_hex("#ff80"),
        Some(RgbaColor { red: 255, green: 255, blue: 136, alpha: 0 })
    );
    assert_eq!(overlay_color_from_hex("#ff800"), None);
    let preset = OverlayColorPreset::at(0);
    assert_eq!(overlay_color_from_value(preset.name), overlay_color_from_hex(preset.hex));
    assert_eq!(OverlayColorPreset::position_of_name(preset.name), Some(0));
    assert_eq!(OverlayColorPreset::position_of_hex("#123456"), None);
    assert_eq!(normalize_overlay_color_hex("##FF8000"), "#FF8000");
}

#[test]
fn cancelling_the_picker_restores_the_style() {
    let mut shown = tab(&[1], PaneLayout::Pane(1), 1);
    shown.set_overlay(
        1,
        Some("note".to_owned()),
        Some(OverlayFontSize::Small),
        Some(OverlayOpacity::Percent(40)),
        None,
    );
    let color = HsvColor { hue: 1, saturation: 2, value: 3 };
    assert!(shown.begin_style_picker(1, color, "#ff8000".to_owned(), 40));
    assert!(shown.preview_style(HslaColor { hue: 1, saturation: 2, lightness: 3, alpha: 4 }));
    assert!(shown.pane(1).unwrap().overlay_color.is_some());
    assert!(shown.cancel_style_picker());
    let pane = shown.pane(1).unwrap();
    assert_eq!(pane.overlay_color, None);
    assert_eq!(pane.overlay_font_size, Some(OverlayFontSize::Small));
    assert!(shown.overlay_style_picker.is_none());
    assert!(!shown.cancel_style_picker());
}

#[test]
fn digits_are_typed_into_the_picker() {
    let mut picker = OverlayStylePicker {
        pane_id: 1,
        section: OverlayPickerSection::Color,
        font_size: OverlayFontSize::Base,
        original_font_size: None,
        color: HsvColor { hue: 0, saturation: 0, value: 0 },
        original_color: None,
        preset_index: 0,
        opacity_percent: 50,
        original_opacity: None,
        hex_buffer: "#ff80".to_owned(),
    };
    assert_eq!(picker.hex_input('z'), None);
    assert_eq!(picker.hex_input('0'), None);
    assert_eq!(
        picker.hex_input('0'),
        Some(RgbaColor { red: 255, green: 128, blue: 0, alpha: 255 })
    );
    assert_eq!(picker.hex_backspace(), None);
    assert_eq!(picker.hex_buffer, "#ff800");
    assert_eq!(
        picker.hex_backspace(),
        Some(RgbaColor { red: 255, green: 255, blue: 136, alpha: 0 })
    );
    assert_eq!(picker.hex_buffer, "#ff80");
}

#[test]
fn a_pane_is_where_its_shell_says() {
    let mut pane = TerminalPane::new(1, profile("Bash"));
    let report = || Some(ReportedDirectory::Native { path: "/r".to_owned(), is_absolute: true });
    assert_eq!(pane.current_directory(report(), None, true, true), None);
    pane.terminal = Some(1);
    assert_eq!(
        pane.current_directory(report(), None, true, true),
        Some(("/r".to_owned(), true))
    );
    let relative = Some(ReportedDirectory::Native { path: "r".to_owned(), is_absolute: false });
    assert_eq!(pane.current_directory(relative, None, true, true), None);
    let layer = Some(ReportedDirectory::PosixLayer { native: Some("C:\\r".to_owned()) });
    assert_eq!(
        pane.current_directory(layer, Some("/p".to_owned()), true, false),
        Some(("/p".to_owned(), true))
    );
    assert_eq!(
        pane.working_directory(true, Some("/home".to_owned()), Some(("/p".to_owned(), true))),
        Some("/home".to_owned())
    );
    assert_eq!(
        pane.working_directory(false, None, Some(("/p".to_owned(), false))),
        Some("/p".to_owned())
    );
}
