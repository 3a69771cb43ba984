//! The state of a window.

use vstd::prelude::*;
use std::collections::HashSet;

use crate::configuration_reload::ConfigurationReloadFeedback;
use crate::mux::recovery::MuxControl;
use crate::pane::tab::Tab;
use crate::pane_theme_picker::ThemePicker;
use crate::process_control::ThemeScope;
use crate::profile::{LaunchThemes, Profile};
use crate::project::config::{EffectiveConfig, ProjectConfig};
use crate::project_context::ProjectState;

verus! {

/// What a window does after its state changed.
#[derive(Clone, Copy, Debug, PartialEq, Eq, Structural)]
pub enum WindowEffect {
    Nothing,
    /// The window is drawn again.
    Redraw,
    /// The field for names takes the keyboard, and the window is drawn again.
    FocusField,
    /// The picker of an overlay's style takes the keyboard, and the window is
    /// drawn again.
    FocusStylePicker,
    /// The picker of themes takes the keyboard, and the window is drawn again.
    FocusThemePicker,
    /// The active pane takes the keyboard, and the window is drawn again.
    FocusActive,
}

/// A window: its tabs, its configuration, and what is open over them.
pub struct Zetta {
    pub tabs: Vec<Tab>,
    pub active_tab: usize,
    /// The tabs that run on without being shown.
    pub background_sessions: Vec<Tab>,
    pub projects: ProjectState,
    pub config_path: String,
    pub launch_config: EffectiveConfig,
    /// The themes that the launch puts in the place of the configured ones.
    pub launch_theme_override: LaunchThemes,
    pub profiles: Vec<Profile>,
    pub working_directory: Option<String>,
    pub profile_shortcut_slots: usize,
    pub pane_controls_hidden_for: HashSet<u64>,
    pub pane_controls_visible_for: Option<u64>,
    pub command_palette_open: bool,
    pub theme_picker: Option<ThemePicker>,
    pub theme_picker_scope: ThemeScope,
    /// The theme that was showing when the picker was opened.
    pub theme_picker_current: Option<String>,
    /// The tabs whose remote panes may read the clipboard.
    pub remote_clipboard_paste_tabs: HashSet<u64>,
    pub mux: MuxControl,
    pub configuration_reload_feedback: ConfigurationReloadFeedback,
}

/// Whether each tab finds its panes.
pub open spec fn all_indexed(tabs: Seq<Tab>) -> bool {
    forall|i: int| 0 <= i < tabs.len() ==> (#[trigger] tabs[i]).indexed()
}

impl Zetta {
    /// Each tab finds its panes, and nothing is kept twice.
    pub open spec fn wf(self) -> bool {
        &&& all_indexed(self.tabs@)
        &&& all_indexed(self.background_sessions@)
        &&& self.projects.wf()
    }

    /// Whether there is an active tab.
    pub open spec fn has_active(self) -> bool {
        self.active_tab < self.tabs@.len()
    }

    /// The active tab, where there is one.
    pub open spec fn active(self) -> Tab {
        self.tabs@[self.active_tab as int]
    }

    /// Whether nothing differs but the active tab.
    pub open spec fn only_active_differs(self, before: Zetta) -> bool {
        &&& self == (Zetta { tabs: self.tabs, ..before })
        &&& self.tabs@ == before.tabs@.update(before.active_tab as int, self.active())
    }

    /// The project that the active pane is in, if it was read.
    pub open spec fn active_project(self) -> Option<ProjectConfig> {
        if self.has_active() {
            self.projects.config_of(self.active().active_pane)
        } else {
            None
        }
    }

    /// The configuration that counts: the active project's, or the launch's.
    pub open spec fn effective(self) -> EffectiveConfig {
        match self.active_project() {
            Some(project) => project.effective,
            None => self.launch_config,
        }
    }

    /// The project that the active pane is in, if it was read.
    pub fn active_project_config(&self) -> (result: Option<&ProjectConfig>)
        requires
            self.wf(),
        ensures
            match result {
                Some(project) => self.active_project() == Some(*project),
                None => self.active_project() is None,
            },
    {
        if self.active_tab < self.tabs.len() {
            self.projects.config_for_pane(self.tabs[self.active_tab].active_pane)
        } else {
            None
        }
    }

    /// The configuration that counts.
    pub fn effective_config(&self) -> (result: &EffectiveConfig)
        requires
            self.wf(),
        ensures
            *result == self.effective(),
    {
        match self.active_project_config() {
            Some(project) => &project.effective,
            None => &self.launch_config,
        }
    }
}

/// A tab in the place of another leaves the others as they find their panes.
pub proof fn lemma_still_indexed(tabs: Seq<Tab>, index: int, tab: Tab)
    requires
        all_indexed(tabs),
        0 <= index < tabs.len(),
        tab.indexed(),
    ensures
        all_indexed(tabs.update(index, tab)),
{
    assert forall|i: int| 0 <= i < tabs.len() implies (#[trigger] tabs.update(
        index,
        tab,
    )[i]).indexed() by {
        if i != index {
            assert(tabs[i].indexed());
        }
    }
}

} // verus!
