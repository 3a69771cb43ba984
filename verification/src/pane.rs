//! Panes and the tabs that hold them.
//!
//! The root owns `TerminalPane` itself — a pane's identity, its profile, its
//! directory, and the settings a spawn is made with. The rest is split by what
//! it acts on: `layout` (the split tree), `tab` (the tab and what it shows),
//! `stack` (the command terminals sharing a pane's region), and `overlay` (the
//! overlay's text and colour model).

use std::collections::VecDeque;

use vstd::prelude::*;

use crate::local_sessions::protocol::BackgroundPaneExit;
use crate::pane::layout::{PaneLayout, PaneSplitTemplate};
use crate::pane::overlay::{HslaColor, OverlayFontSize, OverlayOpacity};
use crate::pane::stack::{first_index, PaneStack, PaneStackSelection, StackedPane};
use crate::profile::{Profile, Shell};
use crate::profile_icon::{is_separator, lemma_tail_part, tail_part};
use crate::text::{
    characters, clone_texts, contains_character, decimal, decimal_text, eq_ignore_ascii_case,
    optional_text, same_ignoring_case, same_text, text_between,
};

pub mod layout;
pub mod layout_geometry;
pub mod layout_laws;
pub mod overlay;
pub mod overlay_laws;
pub mod overlay_editing;
pub mod profiles;
pub mod renumbering;
pub mod stack;
pub mod stack_laws;
pub mod tab;
pub mod tab_laws;

verus! {

/// How many panes a tab may have.
pub const MAX_PANES_PER_TAB: usize = 64;

/// How many commands of one batch start at the same time.
pub const MAX_CONCURRENT_MULTI_COMMAND_SPAWNS: usize = 4;

/// A terminal's size for people to read.
pub fn terminal_size_label(columns: usize, rows: usize) -> (result: String)
    ensures
        result@ == decimal_text(columns as nat) + " × "@ + decimal_text(rows as nat),
{
    let mut label = decimal(columns as u64);
    label.push_str(" × ");
    label.push_str(decimal(rows as u64).as_str());
    label
}

/// Whether a tab has room for more panes.
pub fn can_add_panes(current: usize, additional: usize) -> (result: bool)
    ensures
        result == (current + additional <= MAX_PANES_PER_TAB),
{
    current <= MAX_PANES_PER_TAB && additional <= MAX_PANES_PER_TAB - current
}

/// Begins a notification unless one is pending. Returns whether it did.
pub fn begin_coalesced_notification(pending: &mut bool) -> (result: bool)
    ensures
        result == !*old(pending),
        *final(pending),
{
    if *pending {
        false
    } else {
        *pending = true;
        true
    }
}

/// Begins saving a pane's output unless a save is in progress. Returns whether
/// it did.
pub fn begin_pane_output_save(in_progress: &mut bool) -> (result: bool)
    ensures
        result == !*old(in_progress),
        *final(in_progress),
{
    if *in_progress {
        false
    } else {
        *in_progress = true;
        true
    }
}

/// Ends saving a pane's output.
pub fn finish_pane_output_save(in_progress: &mut bool)
    ensures
        !*final(in_progress),
{
    *in_progress = false;
}

/// What each pane is to be launched with, in the order of the panes.
pub fn prepare_pane_launches<T, Prepare: Fn(u64) -> T>(
    pane_ids: &Vec<u64>,
    prepare: Prepare,
) -> (result: Vec<(u64, T)>)
    requires
        forall|id: u64| pane_ids@.contains(id) ==> #[trigger] prepare.requires((id,)),
    ensures
        result@.len() == pane_ids@.len(),
        forall|i: int|
            0 <= i < pane_ids@.len() ==> {
                let launch = #[trigger] result@[i];
                launch.0 == pane_ids@[i] && prepare.ensures((pane_ids@[i],), launch.1)
            },
{
    let mut launches: Vec<(u64, T)> = Vec::new();
    let mut index: usize = 0;
    while index < pane_ids.len()
        invariant
            index <= pane_ids@.len(),
            launches@.len() == index,
            forall|id: u64| pane_ids@.contains(id) ==> #[trigger] prepare.requires((id,)),
            forall|i: int|
                0 <= i < index ==> {
                    let launch = #[trigger] launches@[i];
                    launch.0 == pane_ids@[i] && prepare.ensures((pane_ids@[i],), launch.1)
                },
        decreases pane_ids@.len() - index,
    {
        let id = pane_ids[index];
        proof {
            assert(pane_ids@.contains(pane_ids@[index as int]));
        }
        let launch = prepare(id);
        launches.push((id, launch));
        index = index + 1;
    }
    launches
}

/// A named arrangement of panes.
#[derive(Debug, PartialEq, Eq)]
pub struct PaneSplitTemplateConfig<Leaf> {
    pub name: String,
    pub layout: PaneSplitTemplate<Leaf>,
}

/// The first template with the name.
pub open spec fn template_named<Leaf>(
    templates: Seq<PaneSplitTemplateConfig<Leaf>>,
    name: Seq<char>,
) -> Option<PaneSplitTemplate<Leaf>>
    decreases templates.len(),
{
    if templates.len() == 0 {
        None
    } else if templates.first().name@ == name {
        Some(templates.first().layout)
    } else {
        template_named(templates.drop_first(), name)
    }
}

/// The layout of the template with the name, its panes numbered from the front
/// of `pane_ids`, which they are taken from.
pub fn pane_layout_from_configured_template<Leaf>(
    templates: &Vec<PaneSplitTemplateConfig<Leaf>>,
    name: &str,
    pane_ids: &mut VecDeque<u64>,
) -> (result: Option<PaneLayout>)
    requires
        template_named(templates@, name@) matches Some(template) ==> template.leaves() <= old(
            pane_ids,
        )@.len(),
    ensures
        match template_named(templates@, name@) {
            Some(template) => {
                &&& result == Some(template.layout(old(pane_ids)@))
                &&& final(pane_ids)@ == old(pane_ids)@.skip(template.leaves() as int)
            },
            None => result is None && final(pane_ids)@ == old(pane_ids)@,
        },
{
    let mut index: usize = 0;
    proof {
        assert(templates@.skip(0) == templates@);
    }
    while index < templates.len()
        invariant
            index <= templates@.len(),
            template_named(templates@, name@) == template_named(
                templates@.skip(index as int),
                name@,
            ),
            pane_ids@ == old(pane_ids)@,
            template_named(templates@, name@) matches Some(template) ==> template.leaves() <= old(
                pane_ids,
            )@.len(),
        decreases templates@.len() - index,
    {
        proof {
            assert(templates@.skip(index as int).first() == templates@[index as int]);
            assert(templates@.skip(index as int).drop_first() == templates@.skip(index + 1));
        }
        if same_text(templates[index].name.as_str(), name) {
            return Some(PaneLayout::from_template(&templates[index].layout, pane_ids));
        }
        index = index + 1;
    }
    None
}

/// The directory that counts of the one that was reported and the one that the
/// process in front is in, and whether the shell is in it.
pub open spec fn counted_directory(
    reported: Option<String>,
    process: Option<String>,
    process_is_shell: bool,
    prefer_reported: bool,
) -> Option<(String, bool)> {
    match (reported, process) {
        (None, None) => None,
        (Some(reported), None) => Some((reported, true)),
        (None, Some(process)) => Some((process, process_is_shell)),
        (Some(reported), Some(process)) => if !prefer_reported && process_is_shell {
            Some((process, true))
        } else {
            Some((reported, true))
        },
    }
}

/// The directory that represents a pane, and whether it is authoritative for
/// shell-owned state.
///
/// A shell that reports its directory is believed first. For others the
/// process's own directory is preferred while the shell owns the foreground;
/// once a child is running, a process-only result is not authoritative.
pub fn select_current_directory(
    reported_directory: Option<String>,
    process_directory: Option<String>,
    foreground_process_is_shell: bool,
    prefer_reported_directory: bool,
) -> (result: Option<(String, bool)>)
    ensures
        result == counted_directory(
            reported_directory,
            process_directory,
            foreground_process_is_shell,
            prefer_reported_directory,
        ),
{
    if !prefer_reported_directory && foreground_process_is_shell {
        match process_directory {
            Some(directory) => Some((directory, true)),
            None => match reported_directory {
                Some(directory) => Some((directory, true)),
                None => None,
            },
        }
    } else {
        match reported_directory {
            Some(directory) => Some((directory, true)),
            None => match process_directory {
                Some(directory) => Some((directory, foreground_process_is_shell)),
                None => None,
            },
        }
    }
}

/// A directory that a shell reported, before it counts.
#[derive(Debug, PartialEq, Eq)]
pub enum ReportedDirectory {
    /// The shell of a POSIX layer reported it, and this is how the host names
    /// it, where it does.
    PosixLayer { native: Option<String> },
    /// A native shell reported it.
    Native { path: String, is_absolute: bool },
}

/// The directory that a report comes to: a relative one of a native shell says
/// nothing.
pub open spec fn counted_report(reported: Option<ReportedDirectory>) -> Option<String> {
    match reported {
        Some(ReportedDirectory::PosixLayer { native }) => native,
        Some(ReportedDirectory::Native { path, is_absolute }) => if is_absolute {
            Some(path)
        } else {
            None
        },
        None => None,
    }
}

/// The names of the native Windows shells that report their directory.
pub open spec fn is_tracked_shell_name(name: Seq<char>) -> bool {
    ||| same_ignoring_case(name, "cmd"@)
    ||| same_ignoring_case(name, "cmd.exe"@)
    ||| same_ignoring_case(name, "powershell"@)
    ||| same_ignoring_case(name, "powershell.exe"@)
    ||| same_ignoring_case(name, "pwsh"@)
    ||| same_ignoring_case(name, "pwsh.exe"@)
}

/// Whether a shell reports its own directory. Only Windows shells do: those of
/// a POSIX layer, the system's own, and the native ones by name.
pub fn shell_reports_current_directory(shell: &Shell, on_windows: bool, posix_layer: bool) -> (result:
    bool)
    ensures
        result == (on_windows && (posix_layer || match *shell {
            Shell::System(_) => true,
            _ => is_tracked_shell_name(tail_part(shell.program_text())),
        })),
{
    if !on_windows {
        return false;
    }
    if posix_layer {
        return true;
    }
    match shell {
        Shell::System(_) => true,
        _ => {
            let program = characters(shell.program());
            let end: usize = program.len();
            let mut start: usize = end;
            while start > 0 && program[start - 1] != '/' && program[start - 1] != '\\'
                invariant
                    start <= end,
                    end == program@.len(),
                    forall|i: int| start <= i < end ==> !is_separator(#[trigger] program@[i]),
                decreases start,
            {
                start = start - 1;
            }
            proof {
                lemma_tail_part(program@, start as int);
                assert(program@.skip(start as int) == program@.subrange(start as int, end as int));
            }
            let name = text_between(&program, start, end);
            let name = name.as_str();
            eq_ignore_ascii_case(name, "cmd") || eq_ignore_ascii_case(name, "cmd.exe")
                || eq_ignore_ascii_case(name, "powershell") || eq_ignore_ascii_case(
                name,
                "powershell.exe",
            ) || eq_ignore_ascii_case(name, "pwsh") || eq_ignore_ascii_case(name, "pwsh.exe")
        },
    }
}

/// Launches waiting for their turn: at most `limit` are under way at a time,
/// and they start in the order they were queued.
pub struct BoundedLaunchQueue<T> {
    pub pending: VecDeque<T>,
    pub in_flight: usize,
    pub limit: usize,
}

impl<T> BoundedLaunchQueue<T> {
    /// Some launch may be under way, and no more than the limit are.
    pub open spec fn wf(self) -> bool {
        0 < self.limit && self.in_flight <= self.limit
    }

    /// A queue that lets `limit` launches be under way at a time.
    pub fn new(limit: usize) -> (result: BoundedLaunchQueue<T>)
        requires
            limit > 0,
        ensures
            result.pending@.len() == 0,
            result.in_flight == 0,
            result.limit == limit,
            result.wf(),
    {
        BoundedLaunchQueue { pending: VecDeque::new(), in_flight: 0, limit }
    }

    /// Queues launches behind those that wait.
    pub fn extend(&mut self, launches: Vec<T>)
        requires
            old(self).wf(),
        ensures
            final(self).pending@ == old(self).pending@ + launches@,
            final(self).in_flight == old(self).in_flight,
            final(self).limit == old(self).limit,
            final(self).wf(),
    {
        let ghost waiting = self.pending@;
        let ghost given = launches@;
        let mut reversed: Vec<T> = Vec::new();
        let mut launches = launches;
        while launches.len() > 0
            invariant
                launches@.len() <= given.len(),
                launches@ == given.take(launches@.len() as int),
                reversed@.len() == given.len() - launches@.len(),
                forall|i: int|
                    0 <= i < reversed@.len() ==> #[trigger] reversed@[i] == given[given.len() - 1
                        - i],
            decreases launches@.len(),
        {
            let ghost count = launches@.len();
            match launches.pop() {
                Some(launch) => {
                    reversed.push(launch);
                },
                None => {},
            }
            proof {
                assert(launches@ == given.take(count - 1));
            }
        }
        proof {
            assert(waiting + given.take(0) == waiting);
        }
        while reversed.len() > 0
            invariant
                reversed@.len() <= given.len(),
                forall|i: int|
                    0 <= i < reversed@.len() ==> #[trigger] reversed@[i] == given[given.len() - 1
                        - i],
                self.pending@ == waiting + given.take(given.len() - reversed@.len()),
                self.in_flight == old(self).in_flight,
                self.limit == old(self).limit,
                self.wf(),
            decreases reversed@.len(),
        {
            let ghost done = given.len() - reversed@.len();
            proof {
                assert(reversed@[reversed@.len() - 1] == given[done]);
                assert(waiting + given.take(done + 1) == (waiting + given.take(done)).push(
                    given[done],
                ));
            }
            match reversed.pop() {
                Some(launch) => {
                    self.pending.push_back(launch);
                },
                None => {},
            }
        }
        proof {
            assert(given.take(given.len() as int) == given);
        }
    }

    /// Starts the launch that has waited longest, if one may start.
    pub fn pop_ready(&mut self) -> (result: Option<T>)
        requires
            old(self).wf(),
        ensures
            if old(self).in_flight >= old(self).limit || old(self).pending@.len() == 0 {
                result is None && *final(self) == *old(self)
            } else {
                &&& result == Some(old(self).pending@.first())
                &&& final(self).pending@ == old(self).pending@.drop_first()
                &&& final(self).in_flight == old(self).in_flight + 1
                &&& final(self).limit == old(self).limit
            },
            final(self).wf(),
    {
        if self.in_flight >= self.limit || self.pending.len() == 0 {
            return None;
        }
        match self.pending.pop_front() {
            Some(launch) => {
                self.in_flight = self.in_flight + 1;
                Some(launch)
            },
            None => None,
        }
    }

    /// Records that a launch that was under way is done.
    pub fn complete(&mut self)
        requires
            old(self).wf(),
            old(self).in_flight > 0,
        ensures
            final(self).pending == old(self).pending,
            final(self).in_flight == old(self).in_flight - 1,
            final(self).limit == old(self).limit,
            final(self).wf(),
    {
        self.in_flight = self.in_flight - 1;
    }
}

/// The value itself where it is needed for the last time, a copy otherwise.
pub fn clone_or_take_for_final_spawn(value: &mut Vec<String>, final_spawn: bool) -> (result: Vec<
    String,
>)
    ensures
        result@ == old(value)@,
        final(value)@ == if final_spawn {
            Seq::empty()
        } else {
            old(value)@
        },
{
    if final_spawn {
        let mut taken: Vec<String> = Vec::new();
        taken.append(value);
        proof {
            assert(taken@ == old(value)@);
        }
        taken
    } else {
        clone_texts(value)
    }
}

/// The settings that the terminals of one batch are spawned with.
pub struct TerminalSpawnSettings {
    pub max_scroll_history_lines: Option<usize>,
    pub path_hyperlink_regexes: Vec<String>,
    pub path_hyperlink_timeout_ms: u64,
}

impl TerminalSpawnSettings {
    /// The patterns for a spawn: the last one of the batch takes them along.
    pub fn path_hyperlink_regexes(&mut self, final_spawn: bool) -> (result: Vec<String>)
        ensures
            result@ == old(self).path_hyperlink_regexes@,
            final(self).path_hyperlink_regexes@ == if final_spawn {
                Seq::empty()
            } else {
                old(self).path_hyperlink_regexes@
            },
            final(self).max_scroll_history_lines == old(self).max_scroll_history_lines,
            final(self).path_hyperlink_timeout_ms == old(self).path_hyperlink_timeout_ms,
    {
        clone_or_take_for_final_spawn(&mut self.path_hyperlink_regexes, final_spawn)
    }
}

/// One pane of a tab. Its terminal and its view go by their handles.
pub struct TerminalPane {
    pub id: u64,
    /// Stable subprocess routing identity. Unlike `id`, this is not changed
    /// when a tab moves to a window whose pane-id namespace must be remapped.
    pub routing_id: u64,
    pub label_number: usize,
    pub generated_label: Option<String>,
    pub custom_label: Option<String>,
    /// Free-form text shown over this pane's terminal content. Ephemeral: it
    /// is lost when the pane closes.
    pub overlay_text: Option<String>,
    /// Font size for `overlay_text`; falls back to the default size.
    pub overlay_font_size: Option<OverlayFontSize>,
    /// Opacity for `overlay_text`; falls back to a partly transparent default.
    pub overlay_opacity: Option<OverlayOpacity>,
    /// Text color for `overlay_text`; falls back to the theme's text color.
    pub overlay_color: Option<HslaColor>,
    pub profile: Profile,
    /// A session-scoped theme selected explicitly for this pane. Kept on the
    /// logical pane rather than in window state so transfers and id remapping
    /// cannot detach the choice from the terminal it belongs to.
    pub theme_override: Option<String>,
    /// Environment overrides requested by a pane split template. Keeping the
    /// unexpanded overrides on the pane lets template application determine
    /// whether the active terminal actually needs to be restarted.
    pub environment_overrides: Vec<(String, String)>,
    pub terminal: Option<u64>,
    pub view: Option<u64>,
    pub error: Option<String>,
    /// Sanitized metadata for an unexpected interactive-terminal exit.
    pub exit: Option<BackgroundPaneExit>,
    /// Set when the original interactive shell has exited while stacked
    /// entries are still retaining this pane's region.
    pub base_exited: bool,
    pub wsl_cwd_file: Option<String>,
    pub pending_command: Option<String>,
    /// The command most recently reported by shell integration. Unlike a
    /// foreground process argv this is shell input the user actually started,
    /// so it is safe to offer as restore prefill.
    pub active_command: Option<String>,
    /// Automatically detected linked-worktree name for this pane's
    /// interactive-shell directory.
    pub detected_worktree_title: Option<String>,
    /// Shell directory associated with the current detection generation.
    pub worktree_detection_directory: Option<String>,
    pub worktree_detection_generation: u64,
    /// Whether the current detection directory came from an authoritative
    /// shell CWD (or the shell-owned process CWD), so a non-worktree result
    /// may clear the detected title.
    pub worktree_detection_can_clear: bool,
    /// Command terminals that share this pane's layout region. They are
    /// intentionally not part of the layout: only the selected entry is
    /// expanded, while the others occupy compact status rows.
    pub stack: PaneStack,
}

impl TerminalPane {
    /// A pane that has just been made.
    pub open spec fn is_new(self, id: u64, profile: Profile) -> bool {
        &&& self.id == id
        &&& self.routing_id == id
        &&& self.label_number == 0
        &&& self.generated_label is None
        &&& self.custom_label is None
        &&& self.overlay_text is None
        &&& self.overlay_font_size is None
        &&& self.overlay_opacity is None
        &&& self.overlay_color is None
        &&& self.profile == profile
        &&& self.theme_override is None
        &&& self.environment_overrides@.len() == 0
        &&& self.terminal is None
        &&& self.view is None
        &&& self.error is None
        &&& self.exit is None
        &&& !self.base_exited
        &&& self.wsl_cwd_file is None
        &&& self.pending_command is None
        &&& self.active_command is None
        &&& self.detected_worktree_title is None
        &&& self.worktree_detection_directory is None
        &&& self.worktree_detection_generation == 0
        &&& !self.worktree_detection_can_clear
        &&& self.stack.entries@.len() == 0
        &&& self.stack.selected is Base
    }

    /// A new pane for a profile.
    pub fn new(id: u64, profile: Profile) -> (result: TerminalPane)
        ensures
            result.is_new(id, profile),
    {
        TerminalPane {
            id,
            routing_id: id,
            label_number: 0,
            generated_label: None,
            custom_label: None,
            overlay_text: None,
            overlay_font_size: None,
            overlay_opacity: None,
            overlay_color: None,
            profile,
            theme_override: None,
            environment_overrides: Vec::new(),
            terminal: None,
            view: None,
            error: None,
            exit: None,
            base_exited: false,
            wsl_cwd_file: None,
            pending_command: None,
            active_command: None,
            detected_worktree_title: None,
            worktree_detection_directory: None,
            worktree_detection_generation: 0,
            worktree_detection_can_clear: false,
            stack: PaneStack::new(),
        }
    }

    /// The pane with a label number.
    pub fn with_label_number(self, label_number: usize) -> (result: TerminalPane)
        ensures
            result == (TerminalPane { label_number, ..self }),
    {
        let mut result = self;
        result.label_number = label_number;
        result
    }

    /// The pane with a generated label.
    pub fn with_generated_label(self, label: String) -> (result: TerminalPane)
        ensures
            result == (TerminalPane { generated_label: Some(label), ..self }),
    {
        let mut result = self;
        result.generated_label = Some(label);
        result
    }

    /// The pane with a command to run once it has started.
    pub fn with_pending_command(self, command: Option<String>) -> (result: TerminalPane)
        ensures
            result == (TerminalPane { pending_command: command, ..self }),
    {
        let mut result = self;
        result.pending_command = command;
        result
    }

    /// The pane with the file that its WSL shell reports its directory in.
    pub fn with_wsl_cwd_file(self, file: Option<String>) -> (result: TerminalPane)
        ensures
            result == (TerminalPane { wsl_cwd_file: file, ..self }),
    {
        let mut result = self;
        result.wsl_cwd_file = file;
        result
    }

    /// The pane with environment overrides.
    pub fn with_environment_overrides(self, environment: Vec<(String, String)>) -> (result:
        TerminalPane)
        ensures
            result == (TerminalPane { environment_overrides: environment, ..self }),
    {
        let mut result = self;
        result.environment_overrides = environment;
        result
    }

    /// The label that the pane goes by: the one given to it, or else the
    /// generated one, or else its number.
    pub open spec fn label_text(self) -> Seq<char> {
        match self.custom_label {
            Some(label) => label@,
            None => match self.generated_label {
                Some(label) => label@,
                None => "Pane "@ + decimal_text(self.label_number as nat),
            },
        }
    }

    /// The label that the pane goes by.
    pub fn label(&self) -> (result: String)
        ensures
            result@ == self.label_text(),
    {
        match &self.custom_label {
            Some(label) => label.clone(),
            None => match &self.generated_label {
                Some(label) => label.clone(),
                None => {
                    let mut label = "Pane ".to_owned();
                    label.push_str(decimal(self.label_number as u64).as_str());
                    label
                },
            },
        }
    }

    /// The directory inside WSL that the pane is in: the one its terminal
    /// reported, or else the one in its file.
    pub fn wsl_working_directory(
        &self,
        is_wsl: bool,
        reported: Option<String>,
        file_contents: Option<&str>,
    ) -> (result: Option<String>)
        ensures
            if !is_wsl {
                result is None
            } else {
                match (reported, self.wsl_cwd_file, file_contents) {
                    (Some(directory), _, _) => result == Some(directory),
                    (None, Some(_), Some(contents)) => optional_text(result)
                        == reported_wsl_directory(contents@),
                    _ => result is None,
                }
            },
    {
        if !is_wsl {
            return None;
        }
        match reported {
            Some(directory) => Some(directory),
            None => match (&self.wsl_cwd_file, file_contents) {
                (Some(_), Some(contents)) => wsl_directory_in(contents),
                _ => None,
            },
        }
    }

    /// The directory that represents the pane, and whether it is authoritative
    /// for shell-owned state. See [`select_current_directory`].
    pub fn current_directory(
        &self,
        reported: Option<ReportedDirectory>,
        process_directory: Option<String>,
        foreground_process_is_shell: bool,
        prefer_reported_directory: bool,
    ) -> (result: Option<(String, bool)>)
        ensures
            result == if self.terminal is None {
                None
            } else {
                counted_directory(
                    counted_report(reported),
                    process_directory,
                    foreground_process_is_shell,
                    prefer_reported_directory,
                )
            },
    {
        if self.terminal.is_none() {
            return None;
        }
        let counted = match reported {
            Some(ReportedDirectory::PosixLayer { native }) => native,
            Some(ReportedDirectory::Native { path, is_absolute }) => if is_absolute {
                Some(path)
            } else {
                None
            },
            None => None,
        };
        select_current_directory(
            counted,
            process_directory,
            foreground_process_is_shell,
            prefer_reported_directory,
        )
    }

    /// The directory that a terminal is opened in beside the pane. `inside` is
    /// what a terminal in WSL says of its own: the host sees only the directory
    /// of the program that bridges to it.
    pub fn working_directory(
        &self,
        is_wsl: bool,
        inside: Option<String>,
        current: Option<(String, bool)>,
    ) -> (result: Option<String>)
        ensures
            result == if is_wsl {
                if self.terminal is Some {
                    inside
                } else {
                    None
                }
            } else {
                match current {
                    Some((directory, _)) => Some(directory),
                    None => None,
                }
            },
    {
        if is_wsl {
            if self.terminal.is_some() {
                inside
            } else {
                None
            }
        } else {
            match current {
                Some((directory, _)) => Some(directory),
                None => None,
            }
        }
    }

    /// The view that the pane shows.
    pub fn selected_view(&self) -> (result: Option<u64>)
        ensures
            result == self.stack.shown(self.view, |entry: StackedPane| entry.view),
    {
        self.stack.selected_view(self.view)
    }

    /// The terminal that the pane shows.
    pub fn selected_terminal(&self) -> (result: Option<u64>)
        ensures
            result == self.stack.shown(self.terminal, |entry: StackedPane| entry.terminal),
    {
        self.stack.selected_terminal(self.terminal)
    }

    /// The theme chosen for the base or for an entry.
    pub fn theme_override(&self, selection: PaneStackSelection) -> (result: Option<&str>)
        ensures
            ({
                let theme = match selection {
                    PaneStackSelection::Base => self.theme_override,
                    PaneStackSelection::Stacked(id) => if self.stack.ids().contains(id) {
                        self.stack.entries@[first_index(self.stack.ids(), id)].theme_override
                    } else {
                        None
                    },
                };
                match result {
                    Some(name) => optional_text(theme) == Some(name@),
                    None => theme is None,
                }
            }),
    {
        let theme = match selection {
            PaneStackSelection::Base => &self.theme_override,
            PaneStackSelection::Stacked(id) => match self.stack.position(id) {
                Some(index) => &self.stack.entries[index].theme_override,
                None => {
                    return None;
                },
            },
        };
        match theme {
            Some(name) => Some(name.as_str()),
            None => None,
        }
    }

    /// The stack entry represented by the focused terminal view. The model
    /// selection normally tracks focus, but keeping this fallback makes close
    /// actions reliable while a newly spawned stack view is replacing the host
    /// view's focus.
    pub fn focused_stack_selection(&self, focused_view: Option<u64>) -> (result: PaneStackSelection)
        ensures
            match first_entry_viewed(self.stack.entries@, focused_view) {
                Some(index) => result == PaneStackSelection::Stacked(
                    self.stack.entries@[index].id,
                ),
                None => result == match self.stack.selected {
                    PaneStackSelection::Stacked(id) if !self.stack.ids().contains(id) => if
                    self.view is Some && self.view == focused_view {
                        PaneStackSelection::Base
                    } else {
                        self.stack.selected
                    },
                    _ => self.stack.selected,
                },
            },
    {
        let mut index: usize = 0;
        proof {
            assert(self.stack.entries@.skip(0) == self.stack.entries@);
        }
        while index < self.stack.entries.len()
            invariant
                index <= self.stack.entries@.len(),
                match first_entry_viewed(self.stack.entries@.skip(index as int), focused_view) {
                    Some(later) => first_entry_viewed(self.stack.entries@, focused_view) == Some(
                        index + later,
                    ),
                    None => first_entry_viewed(self.stack.entries@, focused_view) is None,
                },
            decreases self.stack.entries@.len() - index,
        {
            proof {
                let rest = self.stack.entries@.skip(index as int);
                assert(rest.first() == self.stack.entries@[index as int]);
                assert(rest.drop_first() == self.stack.entries@.skip(index + 1));
            }
            if same_handle(self.stack.entries[index].view, focused_view) {
                return PaneStackSelection::Stacked(self.stack.entries[index].id);
            }
            index = index + 1;
        }
        match self.stack.selected {
            PaneStackSelection::Base => PaneStackSelection::Base,
            PaneStackSelection::Stacked(id) => {
                if self.stack.position(id).is_some() {
                    self.stack.selected
                } else if same_handle(self.view, focused_view) {
                    PaneStackSelection::Base
                } else {
                    self.stack.selected
                }
            },
        }
    }

    /// The terminals of the pane: the base's and those of its entries.
    pub open spec fn terminals(self) -> Seq<u64> {
        handles(self.terminal, self.stack.entries@, |entry: StackedPane| entry.terminal)
    }

    /// The terminals of the pane. See [`TerminalPane::terminals`].
    pub fn all_terminals(&self) -> (result: Vec<u64>)
        ensures
            result@ == self.terminals(),
    {
        let ghost of = |entry: StackedPane| entry.terminal;
        let mut result: Vec<u64> = Vec::new();
        if let Some(terminal) = self.terminal {
            result.push(terminal);
        }
        let mut index: usize = 0;
        proof {
            assert(self.stack.entries@.take(0) == Seq::<StackedPane>::empty());
            assert(result@ == handles(self.terminal, self.stack.entries@.take(0), of));
        }
        while index < self.stack.entries.len()
            invariant
                of == (|entry: StackedPane| entry.terminal),
                index <= self.stack.entries@.len(),
                result@ == handles(self.terminal, self.stack.entries@.take(index as int), of),
            decreases self.stack.entries@.len() - index,
        {
            proof {
                let longer = self.stack.entries@.take(index + 1);
                assert(longer.drop_last() == self.stack.entries@.take(index as int));
                assert(longer.last() == self.stack.entries@[index as int]);
            }
            if let Some(terminal) = self.stack.entries[index].terminal {
                result.push(terminal);
            }
            index = index + 1;
        }
        proof {
            assert(self.stack.entries@.take(index as int) == self.stack.entries@);
        }
        result
    }

    /// The views of the pane: the base's and those of its entries.
    pub fn all_views(&self) -> (result: Vec<u64>)
        ensures
            result@ == handles(self.view, self.stack.entries@, |entry: StackedPane| entry.view),
    {
        let ghost of = |entry: StackedPane| entry.view;
        let mut result: Vec<u64> = Vec::new();
        if let Some(view) = self.view {
            result.push(view);
        }
        let mut index: usize = 0;
        proof {
            assert(self.stack.entries@.take(0) == Seq::<StackedPane>::empty());
            assert(result@ == handles(self.view, self.stack.entries@.take(0), of));
        }
        while index < self.stack.entries.len()
            invariant
                of == (|entry: StackedPane| entry.view),
                index <= self.stack.entries@.len(),
                result@ == handles(self.view, self.stack.entries@.take(index as int), of),
            decreases self.stack.entries@.len() - index,
        {
            proof {
                let longer = self.stack.entries@.take(index + 1);
                assert(longer.drop_last() == self.stack.entries@.take(index as int));
                assert(longer.last() == self.stack.entries@[index as int]);
            }
            if let Some(view) = self.stack.entries[index].view {
                result.push(view);
            }
            index = index + 1;
        }
        proof {
            assert(self.stack.entries@.take(index as int) == self.stack.entries@);
        }
        result
    }
}

/// The handles of a base and of the entries that have one.
pub open spec fn handles(
    base: Option<u64>,
    entries: Seq<StackedPane>,
    of: spec_fn(StackedPane) -> Option<u64>,
) -> Seq<u64>
    decreases entries.len(),
{
    if entries.len() == 0 {
        match base {
            Some(handle) => seq![handle],
            None => Seq::empty(),
        }
    } else {
        let before = handles(base, entries.drop_last(), of);
        match of(entries.last()) {
            Some(handle) => before.push(handle),
            None => before,
        }
    }
}

/// The first entry whose view is the focused one.
pub open spec fn first_entry_viewed(entries: Seq<StackedPane>, focused_view: Option<u64>) -> Option<
    int,
>
    decreases entries.len(),
{
    if entries.len() == 0 {
        None
    } else if entries.first().view is Some && entries.first().view == focused_view {
        Some(0)
    } else {
        match first_entry_viewed(entries.drop_first(), focused_view) {
            Some(index) => Some(index + 1),
            None => None,
        }
    }
}

fn same_handle(left: Option<u64>, right: Option<u64>) -> (result: bool)
    ensures
        result == (left is Some && left == right),
{
    match (left, right) {
        (Some(left), Some(right)) => left == right,
        _ => false,
    }
}

/// The text without the line breaks it ends with.
pub open spec fn without_final_breaks(text: Seq<char>) -> Seq<char>
    decreases text.len(),
{
    if text.len() > 0 && (text.last() == '\r' || text.last() == '\n') {
        without_final_breaks(text.drop_last())
    } else {
        text
    }
}

/// The directory that a WSL shell wrote into its file: an absolute path on a
/// line of its own.
pub open spec fn reported_wsl_directory(contents: Seq<char>) -> Option<Seq<char>> {
    let directory = without_final_breaks(contents);
    if directory.len() > 0 && directory.first() == '/' && !directory.contains('\r')
        && !directory.contains('\n') && !directory.contains('\0') {
        Some(directory)
    } else {
        None
    }
}

/// The directory that a WSL shell wrote into its file.
fn wsl_directory_in(contents: &str) -> (result: Option<String>)
    ensures
        optional_text(result) == reported_wsl_directory(contents@),
{
    let content = characters(contents);
    let mut end: usize = content.len();
    proof {
        assert(content@.take(end as int) == contents@);
    }
    while end > 0 && (content[end - 1] == '\r' || content[end - 1] == '\n')
        invariant
            end <= content@.len(),
            without_final_breaks(contents@) == without_final_breaks(content@.take(end as int)),
        decreases end,
    {
        proof {
            assert(content@.take(end as int).drop_last() == content@.take(end - 1));
        }
        end = end - 1;
    }
    let directory = text_between(&content, 0, end);
    proof {
        assert(content@.take(end as int) == content@.subrange(0, end as int));
        if end > 0 {
            assert(content@.take(end as int).last() == content@[end - 1]);
        }
    }
    if end > 0 && content[0] == '/' && !contains_character(directory.as_str(), '\r')
        && !contains_character(directory.as_str(), '\n') && !contains_character(
        directory.as_str(),
        '\0',
    ) {
        Some(directory)
    } else {
        None
    }
}

} // verus!
