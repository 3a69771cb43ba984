//! The picker of themes for the active pane or tab.

use vstd::prelude::*;

use crate::order::{sort_unique, strictly_ordered};
use crate::pane::overlay_editing::{pane_of, pane_replaced};
use crate::pane::profiles::lemma_same_ids;
use crate::pane::stack::{first_index, lemma_first_index_found, PaneStack, PaneStackSelection, StackedPane};
use crate::pane::tab::Tab;
use crate::pane::TerminalPane;
use crate::pane_render::shown_view;
use crate::process_control::ThemeScope;
use crate::project_context::themes::{
    deciding_theme, resolve_terminal_theme, theme_of_project, ThemeSource, ThemeSourceView,
};
use crate::text::{as_text, optional_text, same_text, texts};
use crate::zetta::{lemma_still_indexed, WindowEffect, Zetta};

pub mod laws;

verus! {

/// What an entry of the picker does.
#[derive(Debug, PartialEq, Eq)]
pub enum ThemeAction {
    Reset,
    Apply { name: String },
}

/// An entry of the picker.
#[derive(Debug, PartialEq, Eq)]
pub struct ThemeCommand {
    pub name: String,
    pub action: ThemeAction,
}

/// The picker's list, and which entry is selected.
#[derive(Debug, PartialEq, Eq)]
pub struct ThemePicker {
    pub scope: ThemeScope,
    pub commands: Vec<ThemeCommand>,
    pub selected: usize,
}

/// The name of the entry that takes a choice back.
pub open spec fn reset_name(scope: ThemeScope) -> Seq<char> {
    match scope {
        ThemeScope::Pane => "Reset to tab default"@,
        ThemeScope::Tab => "Reset to configured theme"@,
    }
}

/// The names of entries.
pub open spec fn command_names(commands: Seq<ThemeCommand>) -> Seq<Seq<char>> {
    commands.map_values(|command: ThemeCommand| command.name@)
}

/// Where a name first stands, or the beginning where it does not.
pub open spec fn selection_for(names: Seq<Seq<char>>, current: Option<Seq<char>>) -> int {
    match current {
        Some(name) if names.contains(name) => first_of(names, name),
        _ => 0,
    }
}

/// Where a name first stands.
pub open spec fn first_of(names: Seq<Seq<char>>, name: Seq<char>) -> int
    decreases names.len(),
{
    if names.len() == 0 || names.first() == name {
        0
    } else {
        1 + first_of(names.drop_first(), name)
    }
}

/// Whether a picker lists the themes for a scope: first the entry that takes a
/// choice back, then every installed theme once, in the order of their names, each
/// of which applies itself. The selection is on the theme that is showing.
pub open spec fn lists_themes(
    picker: ThemePicker,
    scope: ThemeScope,
    theme_names: Seq<Seq<char>>,
    current: Option<Seq<char>>,
) -> bool {
    let commands = picker.commands@;
    let names = command_names(commands.skip(1));
    &&& picker.scope == scope
    &&& commands.len() > 0
    &&& commands[0].name@ == reset_name(scope)
    &&& commands[0].action == ThemeAction::Reset
    &&& strictly_ordered(names)
    &&& forall|name: Seq<char>| names.contains(name) == #[trigger] theme_names.contains(name)
    &&& forall|i: int|
        0 < i < commands.len() ==> ((#[trigger] commands[i]).action matches ThemeAction::Apply {
            name,
        } && name@ == commands[i].name@)
    &&& picker.selected == selection_for(command_names(commands), current)
}

/// The picker's list for a scope: the entry that takes a choice back pinned
/// first, then every installed theme once, in the order of their names. The
/// selection is on the theme that is showing.
pub fn theme_picker_palette(
    scope: ThemeScope,
    theme_names: &Vec<String>,
    current: &Option<String>,
) -> (result: ThemePicker)
    ensures
        lists_themes(result, scope, texts(theme_names@), optional_text(*current)),
{
    let names = sort_unique(theme_names);
    let mut commands: Vec<ThemeCommand> = Vec::new();
    let reset = match scope {
        ThemeScope::Pane => "Reset to tab default",
        ThemeScope::Tab => "Reset to configured theme",
    };
    commands.push(ThemeCommand { name: reset.to_owned(), action: ThemeAction::Reset });
    let mut index: usize = 0;
    while index < names.len()
        invariant
            index <= names@.len(),
            commands@.len() == index + 1,
            commands@[0].name@ == reset_name(scope),
            commands@[0].action == ThemeAction::Reset,
            command_names(commands@.skip(1)) == texts(names@).take(index as int),
            forall|i: int|
                0 < i < commands@.len() ==> ((#[trigger] commands@[i]).action
                    matches ThemeAction::Apply { name } && name@ == commands@[i].name@),
        decreases names@.len() - index,
    {
        let ghost before = commands@;
        let name = names[index].clone();
        let command = ThemeCommand {
            name: name.clone(),
            action: ThemeAction::Apply { name },
        };
        commands.push(command);
        proof {
            assert(command_names(commands@.skip(1)) =~= command_names(before.skip(1)).push(
                command.name@,
            ));
            assert(texts(names@).take(index + 1) =~= texts(names@).take(index as int).push(
                names@[index as int]@,
            ));
        }
        index = index + 1;
    }
    proof {
        assert(texts(names@).take(index as int) == texts(names@));
        assert forall|name: Seq<char>|
            command_names(commands@.skip(1)).contains(name) == #[trigger] texts(
                theme_names@,
            ).contains(name) by {
            assert(texts(names@).contains(name) == texts(theme_names@).contains(name));
        }
    }
    let selected = match current {
        Some(name) => find_command(&commands, name.as_str()),
        None => 0,
    };
    ThemePicker { scope, commands, selected }
}

fn find_command(commands: &Vec<ThemeCommand>, name: &str) -> (result: usize)
    ensures
        result == selection_for(command_names(commands@), Some(name@)),
{
    let ghost all = command_names(commands@);
    let mut index: usize = 0;
    proof {
        assert(all.skip(0) == all);
    }
    while index < commands.len()
        invariant
            index <= commands@.len(),
            all == command_names(commands@),
            first_of(all, name@) == index + first_of(all.skip(index as int), name@),
            forall|i: int| 0 <= i < index ==> all[i] != name@,
        decreases commands@.len() - index,
    {
        proof {
            assert(all.skip(index as int).first() == commands@[index as int].name@);
            assert(all.skip(index as int).drop_first() == all.skip(index + 1));
        }
        if same_text(commands[index].name.as_str(), name) {
            proof {
                assert(all[index as int] == name@);
            }
            return index;
        }
        index = index + 1;
    }
    0
}

/// The entry that is selected when the picker opens is the theme that is
/// showing, where it is installed.
pub proof fn law_showing_theme_is_selected(names: Seq<Seq<char>>, current: Seq<char>)
    requires
        names.contains(current),
    ensures
        0 <= selection_for(names, Some(current)) < names.len(),
        names[selection_for(names, Some(current))] == current,
    decreases names.len(),
{
    if names.first() != current {
        let rest = names.drop_first();
        let at = choose|at: int| 0 <= at < names.len() && names[at] == current;
        assert(rest[at - 1] == current);
        law_showing_theme_is_selected(rest, current);
    }
}

/// What a key of the picker came to, as its list takes it.
#[derive(Clone, Copy, Debug, PartialEq, Eq, Structural)]
pub enum PaletteKey {
    Ignored,
    Redraw,
    Accept(usize),
}

/// What a shortcut of the clipboard did to the field of the picker.
#[derive(Clone, Copy, Debug, PartialEq, Eq, Structural)]
pub enum ClipboardOutcome {
    Ignored,
    Unchanged,
    Edited,
}

/// What is done about a key of the picker.
#[derive(Clone, Copy, Debug, PartialEq, Eq, Structural)]
pub enum PickerStep {
    Nothing,
    Redraw,
    /// The list is made anew for what is in the field.
    Refilter,
    Dismiss,
    Run(usize),
}

/// The theme that is showing.
pub open spec fn showing(window: Zetta, shown: Option<String>, window_theme: String) -> String {
    match shown {
        Some(name) if window.has_active() => name,
        _ => window_theme,
    }
}

impl Zetta {
    /// Opens the picker for a scope. `theme_names` are the installed themes,
    /// `shown` is the one that the active pane or tab is drawn with, if it has
    /// one. Where it has none the window's is the one that is showing.
    pub fn open_theme_picker(
        &mut self,
        scope: ThemeScope,
        theme_names: &Vec<String>,
        shown: Option<String>,
        window_theme: String,
    ) -> (result: WindowEffect)
        ensures
            result == WindowEffect::FocusThemePicker,
            *final(self) == (Zetta {
                theme_picker: final(self).theme_picker,
                theme_picker_scope: scope,
                theme_picker_current: Some(showing(*old(self), shown, window_theme)),
                ..*old(self)
            }),
            final(self).theme_picker matches Some(picker) && lists_themes(
                picker,
                scope,
                texts(theme_names@),
                Some(showing(*old(self), shown, window_theme)@),
            ),
    {
        let current = match shown {
            Some(name) if self.active_tab < self.tabs.len() => Some(name),
            _ => Some(window_theme),
        };
        let picker = theme_picker_palette(scope, theme_names, &current);
        self.theme_picker_scope = scope;
        self.theme_picker_current = current;
        self.theme_picker = Some(picker);
        WindowEffect::FocusThemePicker
    }

    /// Opens the picker for the active pane.
    pub fn change_pane_theme(
        &mut self,
        theme_names: &Vec<String>,
        shown: Option<String>,
        window_theme: String,
    ) -> (result: WindowEffect)
        ensures
            result == WindowEffect::FocusThemePicker,
            *final(self) == (Zetta {
                theme_picker: final(self).theme_picker,
                theme_picker_scope: ThemeScope::Pane,
                theme_picker_current: Some(showing(*old(self), shown, window_theme)),
                ..*old(self)
            }),
            final(self).theme_picker matches Some(picker) && lists_themes(
                picker,
                ThemeScope::Pane,
                texts(theme_names@),
                Some(showing(*old(self), shown, window_theme)@),
            ),
    {
        self.open_theme_picker(ThemeScope::Pane, theme_names, shown, window_theme)
    }

    /// Opens the picker for the active tab.
    pub fn change_tab_theme(
        &mut self,
        theme_names: &Vec<String>,
        shown: Option<String>,
        window_theme: String,
    ) -> (result: WindowEffect)
        ensures
            result == WindowEffect::FocusThemePicker,
            *final(self) == (Zetta {
                theme_picker: final(self).theme_picker,
                theme_picker_scope: ThemeScope::Tab,
                theme_picker_current: Some(showing(*old(self), shown, window_theme)),
                ..*old(self)
            }),
            final(self).theme_picker matches Some(picker) && lists_themes(
                picker,
                ThemeScope::Tab,
                texts(theme_names@),
                Some(showing(*old(self), shown, window_theme)@),
            ),
    {
        self.open_theme_picker(ThemeScope::Tab, theme_names, shown, window_theme)
    }

    /// Closes the picker, and changes nothing.
    pub fn dismiss_pane_theme_picker(&mut self) -> (result: WindowEffect)
        ensures
            result == WindowEffect::FocusActive,
            *final(self) == (Zetta {
                theme_picker: None,
                theme_picker_current: None,
                ..*old(self)
            }),
    {
        self.theme_picker = None;
        self.theme_picker_current = None;
        WindowEffect::FocusActive
    }

    /// Closes the picker, and gives what its entry does, where there is such an
    /// entry.
    pub fn run_pane_theme_picker_command(&mut self, command_index: usize) -> (result: Option<
        ThemeAction,
    >)
        ensures
            *final(self) == (Zetta { theme_picker: None, ..*old(self) }),
            match old(self).theme_picker {
                Some(picker) if command_index < picker.commands@.len() => result matches Some(
                    action,
                ) && match (action, picker.commands@[command_index as int].action) {
                    (ThemeAction::Reset, ThemeAction::Reset) => true,
                    (ThemeAction::Apply { name }, ThemeAction::Apply { name: wanted }) => name@
                        == wanted@,
                    _ => false,
                },
                _ => result is None,
            },
    {
        let action = match &self.theme_picker {
            Some(picker) => if command_index < picker.commands.len() {
                match &picker.commands[command_index].action {
                    ThemeAction::Reset => Some(ThemeAction::Reset),
                    ThemeAction::Apply { name } => Some(ThemeAction::Apply { name: name.clone() }),
                }
            } else {
                None
            },
            None => None,
        };
        self.theme_picker = None;
        action
    }

    /// What is done about a key while the picker is open: the clipboard's
    /// shortcuts come before the picker's own keys.
    /// The list is made anew, and its first entry selected, where the field's text
    /// was edited.
    pub fn theme_picker_key_down(
        &mut self,
        clipboard: ClipboardOutcome,
        is_escape: bool,
        key: PaletteKey,
    ) -> (result: PickerStep)
        ensures
            *final(self) == (Zetta { theme_picker: final(self).theme_picker, ..*old(self) }),
            match old(self).theme_picker {
                Some(picker) if clipboard == ClipboardOutcome::Edited => final(self).theme_picker
                    == Some(ThemePicker { selected: 0, ..picker }),
                _ => final(self).theme_picker == old(self).theme_picker,
            },
            result == if old(self).theme_picker is None {
                PickerStep::Nothing
            } else {
                match clipboard {
                    ClipboardOutcome::Unchanged => PickerStep::Redraw,
                    ClipboardOutcome::Edited => PickerStep::Refilter,
                    ClipboardOutcome::Ignored => if is_escape {
                        PickerStep::Dismiss
                    } else {
                        match key {
                            PaletteKey::Ignored => PickerStep::Nothing,
                            PaletteKey::Redraw => PickerStep::Redraw,
                            PaletteKey::Accept(command) => PickerStep::Run(command),
                        }
                    },
                }
            },
    {
        let picker = match &mut self.theme_picker {
            Some(picker) => picker,
            None => {
                return PickerStep::Nothing;
            },
        };
        match clipboard {
            ClipboardOutcome::Unchanged => PickerStep::Redraw,
            ClipboardOutcome::Edited => {
                picker.selected = 0;
                PickerStep::Refilter
            },
            ClipboardOutcome::Ignored => if is_escape {
                PickerStep::Dismiss
            } else {
                match key {
                    PaletteKey::Ignored => PickerStep::Nothing,
                    PaletteKey::Redraw => PickerStep::Redraw,
                    PaletteKey::Accept(command) => PickerStep::Run(command),
                }
            },
        }
    }
}

/// What came of choosing a theme.
#[derive(Debug, PartialEq, Eq)]
pub enum ThemeChange {
    /// There is nothing to choose it for, or no such theme.
    Refused,
    /// The terminals of a tab are drawn with what counts for them now.
    Tab { tab_id: u64 },
    /// A view is drawn with what counts for it now.
    View { view: u64, theme: ThemeSource },
}

/// A pane for whose base, or for an entry of whose stack, a theme is chosen.
pub open spec fn with_theme(
    pane: TerminalPane,
    after: TerminalPane,
    name: Option<String>,
) -> bool {
    match pane.stack.selected {
        PaneStackSelection::Base => after == (TerminalPane { theme_override: name, ..pane }),
        PaneStackSelection::Stacked(id) => {
            let index = first_index(pane.stack.ids(), id);
            &&& after == (TerminalPane {
                stack: PaneStack { entries: after.stack.entries, ..pane.stack },
                ..pane
            })
            &&& after.stack.entries@ == pane.stack.entries@.update(
                index,
                StackedPane { theme_override: name, ..pane.stack.entries@[index] },
            )
        },
    }
}

fn set_pane_theme(pane: &mut TerminalPane, name: Option<String>) -> (result: Option<u64>)
    ensures
        result == shown_view(*old(pane)),
        match result {
            Some(_) => with_theme(*old(pane), *final(pane), name),
            None => *final(pane) == *old(pane),
        },
        final(pane).id == old(pane).id,
{
    let view = match pane.selected_view() {
        Some(view) => view,
        None => {
            return None;
        },
    };
    match pane.stack.selected {
        PaneStackSelection::Base => {
            pane.theme_override = name;
        },
        PaneStackSelection::Stacked(id) => {
            match pane.stack.position(id) {
                Some(index) => {
                    proof {
                        lemma_first_index_found(pane.stack.ids(), id);
                    }
                    pane.stack.entries[index].theme_override = name;
                },
                None => {},
            }
        },
    }
    Some(view)
}

/// The id under which the project of what a pane shows is kept.
pub open spec fn shown_id(pane: TerminalPane) -> u64 {
    match pane.stack.selected {
        PaneStackSelection::Base => pane.id,
        PaneStackSelection::Stacked(id) => id,
    }
}

/// What decides the theme of the active pane, once a theme was chosen for it.
pub open spec fn theme_shown(window: Zetta, name: Option<String>, is_light: bool) -> ThemeSourceView {
    let tab = window.active();
    deciding_theme(
        optional_text(name),
        optional_text(tab.theme_override),
        match window.projects.config_of(shown_id(pane_of(tab, tab.active_pane))) {
            Some(project) => theme_of_project(project, is_light),
            None => None,
        },
    )
}

/// A window in which a theme was chosen for the active pane or tab, or a choice
/// was taken back, and what came of it.
pub open spec fn theme_chosen(
    before: Zetta,
    after: Zetta,
    scope: ThemeScope,
    name: Option<String>,
    exists: bool,
    is_light: bool,
    result: ThemeChange,
) -> bool {
    let known = name is None || exists;
    let tab = before.active();
    match scope {
        ThemeScope::Tab => if before.has_active() && known {
            &&& result == ThemeChange::Tab { tab_id: tab.id }
            &&& after.only_active_differs(before)
            &&& after.active() == (Tab { theme_override: name, ..tab })
        } else {
            &&& result == ThemeChange::Refused
            &&& after == (Zetta { tabs: after.tabs, ..before })
            &&& after.tabs@ == before.tabs@
        },
        ThemeScope::Pane => if before.has_active() && known && tab.index_of(tab.active_pane) is Some
            && shown_view(pane_of(tab, tab.active_pane)) is Some {
            &&& result matches ThemeChange::View { view, theme } && {
                &&& Some(view) == shown_view(pane_of(tab, tab.active_pane))
                &&& theme.view() == theme_shown(before, name, is_light)
            }
            &&& after.only_active_differs(before)
            &&& pane_replaced(
                tab,
                after.active(),
                tab.active_pane,
                pane_of(after.active(), tab.active_pane),
            )
            &&& with_theme(
                pane_of(tab, tab.active_pane),
                pane_of(after.active(), tab.active_pane),
                name,
            )
        } else {
            &&& result == ThemeChange::Refused
            &&& after == (Zetta { tabs: after.tabs, ..before })
            &&& after.tabs@ == before.tabs@
        },
    }
}

impl Zetta {
    /// Chooses a theme for the active pane or tab, or takes the choice back.
    /// `exists` says whether there is such a theme. The configuration is never
    /// touched: the choice follows the pane or the tab, and goes with a reset,
    /// with its closing, or with the next reload of the configuration.
    pub fn set_theme(
        &mut self,
        scope: ThemeScope,
        theme_name: Option<String>,
        exists: bool,
        is_light: bool,
    ) -> (result: ThemeChange)
        requires
            old(self).wf(),
        ensures
            final(self).wf(),
            theme_chosen(*old(self), *final(self), scope, theme_name, exists, is_light, result),
    {
        if self.active_tab >= self.tabs.len() || (theme_name.is_some() && !exists) {
            return ThemeChange::Refused;
        }
        let ghost tabs = self.tabs@;
        let index = self.active_tab;
        match scope {
            ThemeScope::Tab => {
                let tab_id = self.tabs[index].id;
                self.tabs[index].theme_override = theme_name;
                proof {
                    assert(tabs[index as int].indexed());
                    assert(self.tabs@[index as int].indexed());
                    lemma_still_indexed(tabs, index as int, self.tabs@[index as int]);
                    assert(self.tabs@ =~= tabs.update(index as int, self.tabs@[index as int]));
                }
                ThemeChange::Tab { tab_id }
            },
            ThemeScope::Pane => {
                let theme = self.active_theme_source(&theme_name, is_light);
                let pane_id = self.tabs[index].active_pane;
                let view = set_tab_pane_theme(&mut self.tabs[index], pane_id, theme_name);
                proof {
                    lemma_still_indexed(tabs, index as int, self.tabs@[index as int]);
                    assert(self.tabs@ =~= tabs.update(index as int, self.tabs@[index as int]));
                    if view is None {
                        assert(self.tabs@ =~= tabs);
                    }
                }
                match (view, theme) {
                    (Some(view), Some(theme)) => ThemeChange::View { view, theme },
                    _ => ThemeChange::Refused,
                }
            },
        }
    }

    fn active_theme_source(&self, name: &Option<String>, is_light: bool) -> (result: Option<ThemeSource>)
        requires
            self.wf(),
            self.has_active(),
        ensures
            match result {
                Some(theme) => self.active().index_of(self.active().active_pane) is Some
                    && theme.view() == theme_shown(*self, *name, is_light),
                None => self.active().index_of(self.active().active_pane) is None,
            },
    {
        let tab = &self.tabs[self.active_tab];
        proof {
            assert(self.tabs@[self.active_tab as int].indexed());
        }
        match tab.pane(tab.active_pane) {
            Some(pane) => {
                let shown = match pane.stack.selected {
                    PaneStackSelection::Base => pane.id,
                    PaneStackSelection::Stacked(id) => id,
                };
                Some(
                    resolve_terminal_theme(
                        as_text(name),
                        as_text(&tab.theme_override),
                        self.projects.config_for_pane(shown),
                        is_light,
                    ),
                )
            },
            None => None,
        }
    }

    /// Chooses a theme that was picked. See [`Zetta::set_theme`].
    pub fn apply_theme(&mut self, scope: ThemeScope, name: String, exists: bool, is_light: bool) -> (result:
        ThemeChange)
        requires
            old(self).wf(),
        ensures
            final(self).wf(),
            theme_chosen(*old(self), *final(self), scope, Some(name), exists, is_light, result),
    {
        self.set_theme(scope, Some(name), exists, is_light)
    }

    /// Takes back the choice of a theme. See [`Zetta::set_theme`].
    pub fn reset_theme(&mut self, scope: ThemeScope, is_light: bool) -> (result: ThemeChange)
        requires
            old(self).wf(),
        ensures
            final(self).wf(),
            theme_chosen(*old(self), *final(self), scope, None, true, is_light, result),
    {
        self.set_theme(scope, None, true, is_light)
    }

    /// Takes back the choice of a theme for the active pane.
    pub fn reset_pane_theme(&mut self, is_light: bool) -> (result: ThemeChange)
        requires
            old(self).wf(),
        ensures
            final(self).wf(),
            theme_chosen(*old(self), *final(self), ThemeScope::Pane, None, true, is_light, result),
    {
        self.set_theme(ThemeScope::Pane, None, true, is_light)
    }

    /// Takes back the choice of a theme for the active tab.
    pub fn reset_tab_theme(&mut self, is_light: bool) -> (result: ThemeChange)
        requires
            old(self).wf(),
        ensures
            final(self).wf(),
            theme_chosen(*old(self), *final(self), ThemeScope::Tab, None, true, is_light, result),
    {
        self.set_theme(ThemeScope::Tab, None, true, is_light)
    }
}

fn set_tab_pane_theme(tab: &mut Tab, pane_id: u64, name: Option<String>) -> (result: Option<u64>)
    requires
        old(tab).indexed(),
    ensures
        final(tab).indexed(),
        result == if old(tab).index_of(pane_id) is Some {
            shown_view(pane_of(*old(tab), pane_id))
        } else {
            None
        },
        match result {
            Some(_) => {
                &&& pane_replaced(*old(tab), *final(tab), pane_id, pane_of(*final(tab), pane_id))
                &&& with_theme(pane_of(*old(tab), pane_id), pane_of(*final(tab), pane_id), name)
            },
            None => *final(tab) == (Tab { panes: final(tab).panes, ..*old(tab) })
                && final(tab).panes@ == old(tab).panes@ && final(tab).panes == old(tab).panes,
        },
{
    let ghost before = *tab;
    let shown = match tab.pane(pane_id) {
        Some(pane) => pane.selected_view(),
        None => None,
    };
    if shown.is_none() {
        return None;
    }
    let view = match tab.pane_mut(pane_id) {
        Some(pane) => set_pane_theme(pane, name),
        None => None,
    };
    proof {
        let index = before.index_of(pane_id)->0;
        assert(tab.panes@[index] == pane_of(*tab, pane_id));
        lemma_same_ids(before, *tab);
    }
    view
}

/// Taking a choice back leaves a pane as if nothing had been chosen for it.
pub proof fn law_reset_takes_the_choice_back(
    before: TerminalPane,
    chosen: TerminalPane,
    after: TerminalPane,
    name: Option<String>,
)
    requires
        with_theme(before, chosen, name),
        with_theme(chosen, after, None),
        before.stack.selected matches PaneStackSelection::Stacked(id) ==> before.stack.ids().contains(
            id,
        ),
    ensures
        with_theme(before, after, None),
{
    if let PaneStackSelection::Stacked(id) = before.stack.selected {
        lemma_first_index_found(before.stack.ids(), id);
        let index = first_index(before.stack.ids(), id);
        assert(chosen.stack.ids() =~= before.stack.ids());
        assert(after.stack.entries@ =~= before.stack.entries@.update(
            index,
            StackedPane { theme_override: None, ..before.stack.entries@[index] },
        ));
    }
}

/// What the picker shows of an entry: whether it is the theme that was showing
/// when the picker was opened.
#[derive(Debug, PartialEq, Eq)]
pub struct ThemeRow {
    pub command_index: usize,
    pub name: String,
    pub is_current: bool,
    pub is_selected: bool,
}

/// What the picker shows besides its rows.
#[derive(Debug, PartialEq, Eq)]
pub struct ThemePickerView {
    pub placeholder: &'static str,
    pub rows: Vec<ThemeRow>,
    /// What is said where no theme is left.
    pub empty_text: &'static str,
    pub note: &'static str,
}

impl Zetta {
    /// What the picker shows, if it is open. `matches` are the entries that the
    /// text in its field leaves.
    pub fn render_pane_theme_picker_overlay(&self, matches: &Vec<usize>) -> (result: Option<
        ThemePickerView,
    >)
        requires
            self.theme_picker matches Some(picker) ==> forall|i: int|
                0 <= i < matches@.len() ==> (#[trigger] matches@[i]) < picker.commands@.len(),
        ensures
            match self.theme_picker {
                None => result is None,
                Some(picker) => result matches Some(view) && {
                    &&& view.placeholder@ == match self.theme_picker_scope {
                        ThemeScope::Pane => "Search pane themes"@,
                        ThemeScope::Tab => "Search tab themes"@,
                    }
                    &&& view.empty_text@ == "No matching themes"@
                    &&& view.note@ == "Change is not saved to the profile or configuration"@
                    &&& view.rows@.len() == matches@.len()
                    &&& forall|i: int|
                        0 <= i < matches@.len() ==> {
                            let row = #[trigger] view.rows@[i];
                            let command = picker.commands@[matches@[i] as int];
                            &&& row.command_index == matches@[i]
                            &&& row.name@ == command.name@
                            &&& row.is_current == (optional_text(self.theme_picker_current)
                                == Some(command.name@))
                            &&& row.is_selected == (i == picker.selected)
                        }
                },
            },
    {
        let picker = match &self.theme_picker {
            Some(picker) => picker,
            None => {
                return None;
            },
        };
        let mut rows: Vec<ThemeRow> = Vec::new();
        let mut position: usize = 0;
        while position < matches.len()
            invariant
                position <= matches@.len(),
                self.theme_picker == Some(*picker),
                forall|i: int|
                    0 <= i < matches@.len() ==> (#[trigger] matches@[i]) < picker.commands@.len(),
                rows@.len() == position,
                forall|i: int|
                    0 <= i < position ==> {
                        let row = #[trigger] rows@[i];
                        let command = picker.commands@[matches@[i] as int];
                        &&& row.command_index == matches@[i]
                        &&& row.name@ == command.name@
                        &&& row.is_current == (optional_text(self.theme_picker_current) == Some(
                            command.name@,
                        ))
                        &&& row.is_selected == (i == picker.selected)
                    },
            decreases matches@.len() - position,
        {
            let command_index = matches[position];
            let name = picker.commands[command_index].name.clone();
            let is_current = match &self.theme_picker_current {
                Some(current) => same_text(current.as_str(), name.as_str()),
                None => false,
            };
            rows.push(
                ThemeRow {
                    command_index,
                    name,
                    is_current,
                    is_selected: position == picker.selected,
                },
            );
            position = position + 1;
        }
        Some(
            ThemePickerView {
                placeholder: match self.theme_picker_scope {
                    ThemeScope::Pane => "Search pane themes",
                    ThemeScope::Tab => "Search tab themes",
                },
                rows,
                empty_text: "No matching themes",
                note: "Change is not saved to the profile or configuration",
            },
        )
    }
}

} // verus!
