//! Taking over a configuration that changed.

use vstd::prelude::*;

use crate::mux::recovery::{next_generation, MuxControl};
use crate::text::joined;
use crate::zetta::Zetta;

pub mod applying;
pub mod laws;

verus! {

/// What is shown once a configuration was taken over.
pub const CONFIGURATION_RELOAD_SUCCESS_MESSAGE: &'static str = "Configuration reloaded";

/// For how many seconds it is shown.
pub const CONFIGURATION_RELOAD_SUCCESS_SECONDS: u64 = 3;

/// Whether a reload's success is shown, and which reload it is about.
#[derive(Clone, Copy, Debug, PartialEq, Eq, Structural)]
pub struct ConfigurationReloadFeedback {
    pub visible: bool,
    pub generation: u64,
}

impl Default for ConfigurationReloadFeedback {
    fn default() -> (result: ConfigurationReloadFeedback)
        ensures
            result == (ConfigurationReloadFeedback { visible: false, generation: 0 }),
    {
        ConfigurationReloadFeedback { visible: false, generation: 0 }
    }
}

impl ConfigurationReloadFeedback {
    /// What is shown once the success of a number was dismissed.
    pub open spec fn dismissed(self, generation: u64) -> ConfigurationReloadFeedback {
        if self.generation == generation && self.visible {
            ConfigurationReloadFeedback { visible: false, ..self }
        } else {
            self
        }
    }

    /// Hides the last success while a reload is tried.
    pub fn begin_attempt(&mut self)
        ensures
            *final(self) == (ConfigurationReloadFeedback {
                visible: false,
                generation: next_generation(old(self).generation),
            }),
            feedback_step(*old(self), *final(self)),
    {
        self.visible = false;
        self.generation = self.generation.wrapping_add(1);
    }

    /// Shows a success. The number tells it from others.
    pub fn show_success(&mut self) -> (result: u64)
        ensures
            *final(self) == (ConfigurationReloadFeedback {
                visible: true,
                generation: next_generation(old(self).generation),
            }),
            result == final(self).generation,
            feedback_step(*old(self), *final(self)),
    {
        self.visible = true;
        self.generation = self.generation.wrapping_add(1);
        self.generation
    }

    /// Hides the success of a number, unless another reload came after it.
    /// Returns whether it was shown.
    pub fn dismiss_if_current(&mut self, generation: u64) -> (result: bool)
        ensures
            result == (old(self).generation == generation && old(self).visible),
            *final(self) == old(self).dismissed(generation),
            feedback_step(*old(self), *final(self)),
    {
        if self.generation != generation || !self.visible {
            return false;
        }
        self.visible = false;
        true
    }

    /// Whether a success is shown.
    pub fn is_visible(&self) -> (result: bool)
        ensures
            result == self.visible,
    {
        self.visible
    }
}

/// Whether something was done between two states that reloads go through: an
/// attempt was begun, a success was shown, or one was hidden.
pub open spec fn feedback_step(
    before: ConfigurationReloadFeedback,
    after: ConfigurationReloadFeedback,
) -> bool {
    ||| after.generation == next_generation(before.generation)
    ||| after == (ConfigurationReloadFeedback { visible: false, ..before })
    ||| after == before
}

/// How many attempts were begun and successes shown in the course of some
/// states.
pub open spec fn numbers_given(history: Seq<ConfigurationReloadFeedback>) -> nat
    decreases history.len(),
{
    if history.len() < 2 {
        0
    } else {
        let before = history.drop_last();
        numbers_given(before) + if history.last().generation != before.last().generation {
            1nat
        } else {
            0nat
        }
    }
}

proof fn lemma_numbers_given(history: Seq<ConfigurationReloadFeedback>)
    requires
        history.len() > 0,
        forall|i: int|
            0 <= i < history.len() - 1 ==> feedback_step(#[trigger] history[i], history[i + 1]),
        numbers_given(history) <= u64::MAX,
    ensures
        ({
            let given = history.first().generation + numbers_given(history);
            history.last().generation == if given <= u64::MAX {
                given
            } else {
                given - u64::MAX - 1
            }
        }),
    decreases history.len(),
{
    if history.len() > 1 {
        let before = history.drop_last();
        assert forall|i: int| 0 <= i < before.len() - 1 implies feedback_step(
            #[trigger] before[i],
            before[i + 1],
        ) by {
            assert(before[i] == history[i] && before[i + 1] == history[i + 1]);
        }
        lemma_numbers_given(before);
        let at = history.len() - 2;
        assert(feedback_step(history[at], history[at + 1]));
        assert(before.last() == history[at]);
        assert(before.first() == history.first());
    }
}

/// A success that other attempts came after hides nothing: in the course of
/// whatever is done, the number that it was shown under is not the current one
/// again before all numbers were given, and dismissing it changes nothing.
pub proof fn law_older_success_hides_nothing(history: Seq<ConfigurationReloadFeedback>)
    requires
        history.len() > 0,
        forall|i: int|
            0 <= i < history.len() - 1 ==> feedback_step(#[trigger] history[i], history[i + 1]),
        0 < numbers_given(history) <= u64::MAX,
    ensures
        history.last().generation != history.first().generation,
        history.last().dismissed(history.first().generation) == history.last(),
{
    lemma_numbers_given(history);
}

/// How a file of settings is opened.
#[derive(Debug, PartialEq, Eq)]
pub enum EditStep {
    Nothing,
    /// The command runs in a pane of its own beside the given one.
    OpenInNewPane { tab_id: u64, pane_id: u64, command: String },
    /// The command is typed into the shell of the terminal.
    Submit { terminal: u64, command: String },
}

/// What came of a reload of the configuration.
#[derive(Debug, PartialEq, Eq)]
pub enum ReloadOutcome {
    NotLoaded(String),
    NotApplied(String),
    Applied,
}

/// What is said of a configuration that could not be taken over.
pub open spec fn reload_error_text(lead: Seq<char>, path: Seq<char>, error: Seq<char>) -> Seq<char> {
    lead + path + ": "@ + error
}

fn reload_error(lead: &str, path: &str, error: &str) -> (result: String)
    ensures
        result@ == reload_error_text(lead@, path@, error@),
{
    let mut text = joined(lead, path);
    text.push_str(": ");
    text.push_str(error);
    text
}

impl Zetta {
    /// The file that is opened to edit the configuration.
    pub fn edit_config_file(&self) -> (result: String)
        ensures
            result@ == self.config_path@,
    {
        self.config_path.clone()
    }

    /// The file that is opened to edit the keymap.
    pub fn edit_keymap_file(&self) -> (result: String)
        ensures
            result@ == self.launch_config.keymap_path@,
    {
        self.launch_config.keymap_path.clone()
    }

    /// The terminal whose shell a file of settings is opened from.
    pub open spec fn editing_terminal(self) -> Option<u64> {
        if self.has_active() {
            let tab = self.active();
            match tab.index_of(tab.active_pane) {
                Some(index) => tab.panes@[index].terminal,
                None => None,
            }
        } else {
            None
        }
    }

    /// How a file of settings is opened from the active pane: in its shell, or
    /// in a pane of its own where something else runs there. `command` and
    /// `in_new_pane` are what the pane's terminal says of the file.
    pub fn edit_settings_file_in_active_pane(&self, command: Option<String>, in_new_pane: bool) -> (result:
        EditStep)
        requires
            self.wf(),
        ensures
            result == match (self.editing_terminal(), command) {
                (Some(terminal), Some(command)) => if in_new_pane {
                    EditStep::OpenInNewPane {
                        tab_id: self.active().id,
                        pane_id: self.active().active_pane,
                        command,
                    }
                } else {
                    EditStep::Submit { terminal, command }
                },
                _ => EditStep::Nothing,
            },
    {
        if self.active_tab >= self.tabs.len() {
            return EditStep::Nothing;
        }
        let tab = &self.tabs[self.active_tab];
        proof {
            assert(self.tabs@[self.active_tab as int].indexed());
        }
        let terminal = match tab.pane(tab.active_pane) {
            Some(pane) => pane.terminal,
            None => None,
        };
        match (terminal, command) {
            (Some(terminal), Some(command)) => if in_new_pane {
                EditStep::OpenInNewPane { tab_id: tab.id, pane_id: tab.active_pane, command }
            } else {
                EditStep::Submit { terminal, command }
            },
            _ => EditStep::Nothing,
        }
    }

    /// Begins a reload of the configuration, and gives the file that is read.
    pub fn begin_configuration_reload(&mut self) -> (result: String)
        ensures
            result@ == old(self).config_path@,
            *final(self) == (Zetta {
                configuration_reload_feedback: ConfigurationReloadFeedback {
                    visible: false,
                    generation: next_generation(old(self).configuration_reload_feedback.generation),
                },
                mux: MuxControl {
                    recovery_generation: next_generation(old(self).mux.recovery_generation),
                    recovering: false,
                    ..old(self).mux
                },
                ..*old(self)
            }),
    {
        self.configuration_reload_feedback.begin_attempt();
        self.mux.invalidate_mux_recovery();
        self.config_path.clone()
    }

    /// Says what came of a reload of the configuration at a path. Gives the
    /// number of the success that is shown, where it is one.
    pub fn reload_configuration(&mut self, path: &str, outcome: ReloadOutcome) -> (result: Option<u64>)
        ensures
            match outcome {
                ReloadOutcome::Applied => {
                    let feedback = ConfigurationReloadFeedback {
                        visible: true,
                        generation: next_generation(
                            old(self).configuration_reload_feedback.generation,
                        ),
                    };
                    &&& result == Some(feedback.generation)
                    &&& *final(self) == (Zetta {
                        configuration_reload_feedback: feedback,
                        mux: MuxControl { configuration_error: None, ..old(self).mux },
                        ..*old(self)
                    })
                },
                ReloadOutcome::NotLoaded(error) => result is None && final(self).only_says(
                    *old(self),
                    reload_error_text("Could not load "@, path@, error@),
                ),
                ReloadOutcome::NotApplied(error) => result is None && final(self).only_says(
                    *old(self),
                    reload_error_text("Could not apply "@, path@, error@),
                ),
            },
    {
        match outcome {
            ReloadOutcome::Applied => {
                self.mux.configuration_error = None;
                Some(self.configuration_reload_feedback.show_success())
            },
            ReloadOutcome::NotLoaded(error) => {
                self.mux.configuration_error = Some(
                    reload_error("Could not load ", path, error.as_str()),
                );
                None
            },
            ReloadOutcome::NotApplied(error) => {
                self.mux.configuration_error = Some(
                    reload_error("Could not apply ", path, error.as_str()),
                );
                None
            },
        }
    }

    /// Hides a success after its time, unless another reload came after it.
    /// Returns whether the window has to be drawn again.
    pub fn dismiss_reload_success(&mut self, generation: u64) -> (result: bool)
        ensures
            result == (old(self).configuration_reload_feedback.generation == generation && old(
                self,
            ).configuration_reload_feedback.visible),
            *final(self) == (Zetta {
                configuration_reload_feedback: ConfigurationReloadFeedback {
                    visible: old(self).configuration_reload_feedback.visible && !result,
                    ..old(self).configuration_reload_feedback
                },
                ..*old(self)
            }),
    {
        self.configuration_reload_feedback.dismiss_if_current(generation)
    }
}

} // verus!
