//! The per-process control socket.
//!
//! This module owns the wire format: [`ControlRequest`], [`ControlResponse`],
//! the payload types they carry, and the [`ControlRequestCommand`] a decoded
//! request becomes.
//!
//! - `decode` — [`ControlRequest`] to [`ControlRequestCommand`].

use vstd::prelude::*;
use vstd::string::StringSliceAdditionalSpecFns;

use crate::command_panes::{
    bytes_within, direction_name, direction_named, pane_direction_name, parse_pane_direction,
    total_bytes, PaneCommand, ShellCommandRequest, MAX_PANE_COMMAND_BYTES,
};
use crate::local_sessions::auth::SessionSecret;
use crate::pane::layout::PaneDirection;
use crate::pane::overlay::{
    color_of_value, overlay_color_from_value, OverlayFontSize, OverlayOpacity, PaneOverlayRequest,
};
use crate::pane::tab::IconName;
use crate::project_commands::{
    byte_len, command_environment_entry_error, command_string_error, copy_pairs, pairs,
    validate_command_environment_entry, validate_command_string, MAX_SHELL_COMMAND_BYTES,
};
use crate::run_command::RunWaitRequest;
use crate::text::{
    clone_optional, clone_texts, contains_character, eq_ignore_ascii_case, optional_text,
    same_ignoring_case, texts,
};

pub mod client;
pub mod commands;
pub mod decode;
pub mod endpoint;
pub mod laws;
pub mod server;

verus! {

/// How long a control message may be, with its line feed. A 64 KiB argv
/// payload can expand substantially when it contains many one-character
/// arguments and each value is represented as JSON. This keeps enough framing
/// headroom for that worst case as well as the endpoint token.
pub const MAX_CONTROL_MESSAGE_BYTES: usize = 262_144;

/// How long a window's activation token may be.
pub const MAX_ACTIVATION_TOKEN_BYTES: usize = 4096;

/// How long an SSH target may be.
pub const MAX_SSH_TARGET_BYTES: usize = 4096;

/// What a theme applies to.
#[derive(Clone, Copy, Debug, PartialEq, Eq, Structural)]
pub enum ThemeScope {
    Pane,
    Tab,
}

impl ThemeScope {
    /// The scope's word.
    pub open spec fn word(self) -> Seq<char> {
        match self {
            ThemeScope::Pane => "pane"@,
            ThemeScope::Tab => "tab"@,
        }
    }

    /// The scope's word.
    pub fn name(self) -> (result: &'static str)
        ensures
            result@ == self.word(),
    {
        match self {
            ThemeScope::Pane => "pane",
            ThemeScope::Tab => "tab",
        }
    }
}

/// How reconnecting a session came out.
#[derive(Clone, Copy, Debug, PartialEq, Eq, Structural)]
pub enum ReconnectSessionResult {
    Reconnected,
    AuthenticationFailed,
    SessionNotFound,
    StillStarting,
    Rejected,
}

/// A request whose fields have been checked.
#[allow(inconsistent_fields)]
pub enum ControlRequestCommand {
    ReloadConfiguration { config_path: String },
    OpenWindow,
    OpenNewWindow { profile: Option<String>, activation_token: Option<String> },
    OpenProject { root: String, working_directory: Option<String> },
    ReloadProjects,
    ReplacePane { split: Option<String>, profile: Option<String>, theme: Option<String> },
    OpenCommand { request: PaneCommand, working_directory: Option<String> },
    RunPane { request: PaneCommand },
    RunShellCommand { request: ShellCommandRequest },
    RunWait { request: RunWaitRequest },
    RunComplete { id: u64, exit_code: Option<i32> },
    ListPaneLabels { attention_id: Option<u64> },
    ReconnectSession {
        runner_id: u64,
        session_id: u64,
        attention_id: Option<u64>,
        secret: Option<SessionSecret>,
    },
    OpenRemoteSession {
        target: String,
        port: Option<u16>,
        session_id: u64,
        secret: Option<SessionSecret>,
    },
    ResumeDiskSession {
        session_id: u64,
        identity_paths: Vec<String>,
        identity_passphrases: Vec<Option<SessionSecret>>,
        secret: Option<SessionSecret>,
    },
    SetTabIcon { icon: Option<IconName> },
    SetTheme { scope: ThemeScope, theme: Option<String> },
    ListThemes,
    GetPaneTheme {
        attention_id: u64,
        pane_id: Option<u64>,
        /// The revision the client already has. When it matches, the answer is
        /// "unchanged" and the main thread is never involved.
        known_revision: Option<u64>,
    },
    SetPaneOverlay {
        text: Option<String>,
        font_size: Option<OverlayFontSize>,
        opacity: Option<OverlayOpacity>,
        color: Option<String>,
    },
    SetTabAttention { attention_id: u64, summary: String, body: Option<String> },
    FocusTab { attention_id: u64 },
    SetTabName { attention_id: u64, name: Option<String> },
    SetWorktreeName { attention_id: u64, name: Option<String> },
    GetSilentMode { attention_id: Option<u64> },
}

/// A request on the wire. Every field but `token` and `command` is optional,
/// and a request sets only the ones its command actually carries: decoding is
/// what enforces which fields a command may carry.
pub struct ControlRequest {
    pub token: String,
    pub command: String,
    pub runner_id: Option<u64>,
    pub session_id: Option<u64>,
    pub secret: Option<String>,
    pub ssh_target: Option<String>,
    pub ssh_port: Option<u16>,
    pub icon: Option<String>,
    pub pane_theme: Option<String>,
    /// The pane-theme revision the client already knows, so an unchanged theme
    /// can be answered without involving the main thread.
    pub pane_theme_revision: Option<u64>,
    pub pane_id: Option<u64>,
    pub pane_overlay: Option<String>,
    pub pane_overlay_font_size: Option<String>,
    pub pane_overlay_opacity: Option<u8>,
    pub pane_overlay_color: Option<String>,
    pub attention_id: Option<u64>,
    pub attention_summary: Option<String>,
    pub attention_body: Option<String>,
    pub tab_name: Option<String>,
    pub worktree_name: Option<String>,
    pub config_path: Option<String>,
    pub working_directory: Option<String>,
    pub split: Option<String>,
    pub profile: Option<String>,
    pub theme: Option<String>,
    pub scope: Option<String>,
    pub pane_request: Option<PaneControlRequest>,
    pub shell_command: Option<ShellCommandControlRequest>,
}

/// The request with a token and a command and nothing else.
pub open spec fn bare_request(token: String, command: String) -> ControlRequest {
    ControlRequest {
        token,
        command,
        runner_id: None,
        session_id: None,
        secret: None,
        ssh_target: None,
        ssh_port: None,
        icon: None,
        pane_theme: None,
        pane_theme_revision: None,
        pane_id: None,
        pane_overlay: None,
        pane_overlay_font_size: None,
        pane_overlay_opacity: None,
        pane_overlay_color: None,
        attention_id: None,
        attention_summary: None,
        attention_body: None,
        tab_name: None,
        worktree_name: None,
        config_path: None,
        working_directory: None,
        split: None,
        profile: None,
        theme: None,
        scope: None,
        pane_request: None,
        shell_command: None,
    }
}

impl ControlRequest {
    /// The request with a token and a command and nothing else.
    pub fn bare(token: String, command: String) -> (result: ControlRequest)
        ensures
            result == bare_request(token, command),
    {
        ControlRequest {
            token,
            command,
            runner_id: None,
            session_id: None,
            secret: None,
            ssh_target: None,
            ssh_port: None,
            icon: None,
            pane_theme: None,
            pane_theme_revision: None,
            pane_id: None,
            pane_overlay: None,
            pane_overlay_font_size: None,
            pane_overlay_opacity: None,
            pane_overlay_color: None,
            attention_id: None,
            attention_summary: None,
            attention_body: None,
            tab_name: None,
            worktree_name: None,
            config_path: None,
            working_directory: None,
            split: None,
            profile: None,
            theme: None,
            scope: None,
            pane_request: None,
            shell_command: None,
        }
    }
}

/// What a `run_wait` request carries.
#[derive(Debug, PartialEq, Eq)]
pub struct RunWaitPayload {
    pub dependencies: Vec<String>,
    pub allow_failure: bool,
    pub command: Vec<String>,
}

/// What a `resume_disk_session` request carries: an identity file and maybe
/// its passphrase, pairwise.
pub struct ResumeIdentityPayload {
    pub identity_paths: Vec<String>,
    pub identity_passphrases: Vec<Option<SessionSecret>>,
}

/// A shell command on the wire.
#[derive(Debug, PartialEq, Eq)]
pub struct ShellCommandControlRequest {
    pub command: String,
    pub arguments: Vec<String>,
    pub environment: Vec<(String, String)>,
}

/// How many bytes names and values take together.
pub open spec fn pair_bytes(list: Seq<(Seq<char>, Seq<char>)>) -> nat
    decreases list.len(),
{
    if list.len() == 0 {
        0
    } else {
        pair_bytes(list.drop_last()) + byte_len(list.last().0) + byte_len(list.last().1)
    }
}

proof fn lemma_pair_bytes_grow(list: Seq<(Seq<char>, Seq<char>)>, length: int)
    requires
        0 <= length <= list.len(),
    ensures
        pair_bytes(list.take(length)) <= pair_bytes(list),
    decreases list.len() - length,
{
    if length < list.len() {
        assert(list.take(length + 1).drop_last() == list.take(length));
        lemma_pair_bytes_grow(list, length + 1);
    } else {
        assert(list.take(length) == list);
    }
}

/// How many bytes names and values take together, if within a limit.
fn pair_bytes_within(list: &Vec<(String, String)>, limit: usize) -> (result: Option<usize>)
    ensures
        match result {
            Some(total) => total == pair_bytes(pairs(list@)) && total <= limit,
            None => pair_bytes(pairs(list@)) > limit,
        },
{
    let ghost shown = pairs(list@);
    let mut total: usize = 0;
    let mut index: usize = 0;
    proof {
        assert(shown.take(0) == Seq::<(Seq<char>, Seq<char>)>::empty());
    }
    while index < list.len()
        invariant
            shown == pairs(list@),
            index <= list@.len(),
            total == pair_bytes(shown.take(index as int)),
            total <= limit,
        decreases list@.len() - index,
    {
        proof {
            let longer = shown.take(index + 1);
            assert(longer.drop_last() == shown.take(index as int));
            assert(longer.last() == (list@[index as int].0@, list@[index as int].1@));
            lemma_pair_bytes_grow(shown, index + 1);
        }
        let name: usize = list[index].0.as_str().as_bytes().len();
        let value: usize = list[index].1.as_str().as_bytes().len();
        if name > limit - total || value > limit - total - name {
            return None;
        }
        total = total + name + value;
        index = index + 1;
    }
    proof {
        assert(shown.take(index as int) == shown);
    }
    Some(total)
}

/// Whether every entry is acceptable and no name occurs twice, up to case.
pub open spec fn environment_acceptable(list: Seq<(Seq<char>, Seq<char>)>) -> bool {
    &&& forall|i: int|
        0 <= i < list.len() ==> command_environment_entry_error(
            (#[trigger] list[i]).0,
            list[i].1,
        ) is None
    &&& forall|i: int, j: int|
        #![trigger list[i], list[j]]
        0 <= i < j < list.len() ==> !same_ignoring_case(list[i].0, list[j].0)
}

fn acceptable_environment(list: &Vec<(String, String)>) -> (result: bool)
    ensures
        result == environment_acceptable(pairs(list@)),
{
    let ghost shown = pairs(list@);
    let mut index: usize = 0;
    while index < list.len()
        invariant
            shown == pairs(list@),
            index <= list@.len(),
            forall|i: int|
                0 <= i < index ==> command_environment_entry_error(
                    (#[trigger] shown[i]).0,
                    shown[i].1,
                ) is None,
            forall|i: int, j: int|
                #![trigger shown[i], shown[j]]
                0 <= i < j < index ==> !same_ignoring_case(shown[i].0, shown[j].0),
        decreases list@.len() - index,
    {
        let name = list[index].0.as_str();
        proof {
            assert(shown[index as int] == (list@[index as int].0@, list@[index as int].1@));
        }
        if validate_command_environment_entry(name, list[index].1.as_str()).is_err() {
            return false;
        }
        let mut earlier: usize = 0;
        while earlier < index
            invariant
                shown == pairs(list@),
                index < list@.len(),
                name@ == shown[index as int].0,
                earlier <= index,
                forall|i: int|
                    0 <= i < earlier ==> !same_ignoring_case((#[trigger] shown[i]).0, name@),
            decreases index - earlier,
        {
            if eq_ignore_ascii_case(list[earlier].0.as_str(), name) {
                proof {
                    assert(same_ignoring_case(shown[earlier as int].0, shown[index as int].0));
                }
                return false;
            }
            earlier = earlier + 1;
        }
        index = index + 1;
    }
    true
}

/// Whether some text has NUL in it.
pub open spec fn some_nul(list: Seq<Seq<char>>) -> bool {
    exists|i: int| 0 <= i < list.len() && (#[trigger] list[i]).contains('\0')
}

fn has_nul(list: &Vec<String>) -> (result: bool)
    ensures
        result == some_nul(texts(list@)),
{
    let mut index: usize = 0;
    while index < list.len()
        invariant
            index <= list@.len(),
            forall|i: int| 0 <= i < index ==> !(#[trigger] texts(list@)[i]).contains('\0'),
        decreases list@.len() - index,
    {
        if contains_character(list[index].as_str(), '\0') {
            proof {
                assert(texts(list@)[index as int].contains('\0'));
            }
            return true;
        }
        index = index + 1;
    }
    false
}

impl ShellCommandControlRequest {
    /// Whether the command may be run: its parts are acceptable and small
    /// enough together.
    pub open spec fn acceptable(self) -> bool {
        &&& command_string_error(self.command@) is None
        &&& !some_nul(texts(self.arguments@))
        &&& environment_acceptable(pairs(self.environment@))
        &&& byte_len(self.command@) + total_bytes(texts(self.arguments@)) + pair_bytes(
            pairs(self.environment@),
        ) <= MAX_SHELL_COMMAND_BYTES
    }

    /// The command for the wire.
    pub fn from_request(request: &ShellCommandRequest) -> (result: ShellCommandControlRequest)
        ensures
            result.command@ == request.command@,
            texts(result.arguments@) == texts(request.arguments@),
            pairs(result.environment@) == pairs(request.environment@),
    {
        ShellCommandControlRequest {
            command: request.command.clone(),
            arguments: clone_texts(&request.arguments),
            environment: copy_pairs(&request.environment),
        }
    }

    /// The command to run, if it may be.
    pub fn into_request(self) -> (result: Option<ShellCommandRequest>)
        ensures
            result == if self.acceptable() {
                Some(
                    ShellCommandRequest {
                        command: self.command,
                        arguments: self.arguments,
                        environment: self.environment,
                    },
                )
            } else {
                None
            },
    {
        if validate_command_string(self.command.as_str()).is_err() || has_nul(&self.arguments)
            || !acceptable_environment(&self.environment) {
            return None;
        }
        let command_bytes: usize = self.command.as_str().as_bytes().len();
        let left: usize = MAX_SHELL_COMMAND_BYTES - command_bytes;
        let argument_bytes: usize = match bytes_within(&self.arguments, left) {
            Some(bytes) => bytes,
            None => {
                return None;
            },
        };
        if pair_bytes_within(&self.environment, left - argument_bytes).is_none() {
            return None;
        }
        Some(
            ShellCommandRequest {
                command: self.command,
                arguments: self.arguments,
                environment: self.environment,
            },
        )
    }
}

/// A pane command on the wire.
#[derive(Debug, PartialEq, Eq)]
pub struct PaneControlRequest {
    pub direction: Option<String>,
    pub label: Option<String>,
    pub pane: Option<String>,
    pub overlay: Option<PaneControlOverlayRequest>,
    pub stack: bool,
    pub command: Vec<String>,
}

/// A pane overlay on the wire.
#[derive(Debug, PartialEq, Eq)]
pub struct PaneControlOverlayRequest {
    pub text: Option<String>,
    pub font_size: Option<String>,
    pub opacity: Option<u8>,
    pub color: Option<String>,
}

/// The font size that a command-line name stands for.
pub open spec fn font_size_named(name: Seq<char>) -> Option<OverlayFontSize> {
    if exists|size: OverlayFontSize| #[trigger] size.spelling() == name {
        Some(choose|size: OverlayFontSize| #[trigger] size.spelling() == name)
    } else {
        None
    }
}

/// The font size that a command-line name stands for.
pub fn parse_font_size(name: &str) -> (result: Option<OverlayFontSize>)
    ensures
        result == font_size_named(name@),
{
    let result = OverlayFontSize::parse(name);
    proof {
        if let Some(size) = result {
            assert(size.spelling() == name@);
            let chosen = choose|size: OverlayFontSize| #[trigger] size.spelling() == name@;
            crate::pane::overlay::law_font_size_names_are_distinct(size, chosen);
        }
    }
    result
}

impl PaneControlOverlayRequest {
    /// The overlay, if it is acceptable: it has a text, a size and a colour
    /// that exist, and no more than all of the opacity.
    pub open spec fn overlay(self) -> Option<PaneOverlayRequest> {
        if self.text is None || (self.opacity matches Some(opacity) && opacity > 100) || (
        self.font_size matches Some(name) && font_size_named(name@) is None) || (
        self.color matches Some(color) && color_of_value(color@) is None) {
            None
        } else {
            Some(
                PaneOverlayRequest {
                    text: self.text,
                    font_size: match self.font_size {
                        Some(name) => font_size_named(name@),
                        None => None,
                    },
                    opacity: self.opacity,
                    color: self.color,
                },
            )
        }
    }

    /// The overlay for the wire.
    pub fn from_request(request: &PaneOverlayRequest) -> (result: PaneControlOverlayRequest)
        ensures
            overlay_sent_as(Some(*request), Some(result)),
    {
        PaneControlOverlayRequest {
            text: clone_optional(&request.text),
            font_size: match request.font_size {
                Some(size) => Some(size.cli_name().to_owned()),
                None => None,
            },
            opacity: request.opacity,
            color: clone_optional(&request.color),
        }
    }

    /// The overlay, if it is acceptable.
    pub fn into_request(self) -> (result: Option<PaneOverlayRequest>)
        ensures
            result == self.overlay(),
    {
        if self.text.is_none() {
            return None;
        }
        if let Some(opacity) = self.opacity {
            if opacity > 100 {
                return None;
            }
        }
        let font_size = match &self.font_size {
            Some(name) => match parse_font_size(name.as_str()) {
                Some(size) => Some(size),
                None => {
                    return None;
                },
            },
            None => None,
        };
        if let Some(color) = &self.color {
            if overlay_color_from_value(color.as_str()).is_none() {
                return None;
            }
        }
        Some(
            PaneOverlayRequest {
                text: self.text,
                font_size,
                opacity: self.opacity,
                color: self.color,
            },
        )
    }
}

/// Whether a text is there and empty.
pub open spec fn given_empty(text: Option<String>) -> bool {
    text matches Some(text) && text@.len() == 0
}

/// Whether a text is there and empty.
pub(crate) fn is_given_empty(text: &Option<String>) -> (result: bool)
    ensures
        result == given_empty(*text),
{
    match text {
        Some(text) => text.as_str().is_empty(),
        None => false,
    }
}

/// Whether an overlay on the wire says what an overlay says.
pub open spec fn overlay_sent_as(
    overlay: Option<PaneOverlayRequest>,
    sent: Option<PaneControlOverlayRequest>,
) -> bool {
    match (overlay, sent) {
        (Some(overlay), Some(sent)) => {
            &&& sent.text == overlay.text
            &&& optional_text(sent.font_size) == match overlay.font_size {
                Some(size) => Some(size.spelling()),
                None => None,
            }
            &&& sent.opacity == overlay.opacity
            &&& sent.color == overlay.color
        },
        (None, None) => true,
        _ => false,
    }
}

/// Whether a pane command on the wire says what a pane command says.
pub open spec fn pane_command_sent_as(command: PaneCommand, sent: PaneControlRequest) -> bool {
    &&& optional_text(sent.direction) == match command.direction {
        Some(direction) => Some(direction_name(direction)),
        None => None,
    }
    &&& sent.label == command.label
    &&& sent.pane == command.pane
    &&& overlay_sent_as(command.overlay, sent.overlay)
    &&& sent.stack == command.stack
    &&& texts(sent.command@) == texts(command.command@)
}

/// Whether a pane command can be asked for: the same rules that a request is
/// held to.
pub open spec fn can_be_asked(command: PaneCommand) -> bool {
    &&& !command.list
    &&& command.command@.len() > 0
    &&& total_bytes(texts(command.command@)) <= MAX_PANE_COMMAND_BYTES
    &&& !given_empty(command.label)
    &&& !given_empty(command.pane)
    &&& command.label is Some ==> command.direction is Some
    &&& command.overlay is Some ==> command.direction is Some
    &&& command.direction is Some ==> command.pane is None && !command.stack
    &&& command.overlay matches Some(overlay) ==> {
        &&& overlay.text is Some
        &&& overlay.opacity matches Some(opacity) ==> opacity <= 100
        &&& overlay.color matches Some(color) ==> color_of_value(color@) is Some
    }
}

/// Whether two pane commands ask for the same.
pub open spec fn same_pane_command(left: PaneCommand, right: PaneCommand) -> bool {
    &&& left.direction == right.direction
    &&& left.label == right.label
    &&& left.pane == right.pane
    &&& left.overlay == right.overlay
    &&& left.stack == right.stack
    &&& left.list == right.list
    &&& texts(left.command@) == texts(right.command@)
}

/// A pane command that can be asked for comes off the wire as it went on.
pub proof fn law_pane_command_survives_the_wire(command: PaneCommand, sent: PaneControlRequest)
    requires
        can_be_asked(command),
        pane_command_sent_as(command, sent),
    ensures
        sent.pane_command() matches Some(back) && same_pane_command(back, command),
{
    if let Some(direction) = command.direction {
        crate::command_panes::law_direction_names_read_back(direction);
    }
    assert(texts(sent.command@).len() == texts(command.command@).len());
    if let Some(overlay) = command.overlay {
        if let Some(size) = overlay.font_size {
            assert(size.spelling() == sent.overlay->0.font_size->0@);
            let chosen = choose|other: OverlayFontSize| #[trigger]
                other.spelling() == size.spelling();
            crate::pane::overlay::law_font_size_names_are_distinct(size, chosen);
        }
    }
}

impl PaneControlRequest {
    /// The direction that is asked for, if any.
    pub open spec fn wanted_direction(self) -> Option<PaneDirection> {
        match self.direction {
            Some(name) => direction_named(name@),
            None => None,
        }
    }

    /// The overlay that is asked for, if any.
    pub open spec fn wanted_overlay(self) -> Option<PaneOverlayRequest> {
        match self.overlay {
            Some(overlay) => overlay.overlay(),
            None => None,
        }
    }

    /// Whether the parts of the request go together: there is a command, not
    /// too long; names are not empty; a label and an overlay are for a new pane
    /// in a direction, which is neither an existing pane nor a stacked one.
    pub open spec fn acceptable(self) -> bool {
        &&& self.direction is Some ==> self.wanted_direction() is Some
        &&& self.overlay is Some ==> self.wanted_overlay() is Some
        &&& self.command@.len() > 0
        &&& total_bytes(texts(self.command@)) <= MAX_PANE_COMMAND_BYTES
        &&& !given_empty(self.label)
        &&& !given_empty(self.pane)
        &&& self.label is Some ==> self.direction is Some
        &&& self.overlay is Some ==> self.direction is Some
        &&& self.direction is Some ==> self.pane is None && !self.stack
    }

    /// The command that the request stands for, if it is acceptable.
    pub open spec fn pane_command(self) -> Option<PaneCommand> {
        if self.acceptable() {
            Some(
                PaneCommand {
                    direction: self.wanted_direction(),
                    label: self.label,
                    pane: self.pane,
                    overlay: self.wanted_overlay(),
                    stack: self.stack,
                    list: false,
                    command: self.command,
                },
            )
        } else {
            None
        }
    }

    /// The command for the wire.
    pub fn from_command(request: &PaneCommand) -> (result: PaneControlRequest)
        ensures
            pane_command_sent_as(*request, result),
    {
        PaneControlRequest {
            direction: match request.direction {
                Some(direction) => Some(pane_direction_name(direction).to_owned()),
                None => None,
            },
            label: clone_optional(&request.label),
            pane: clone_optional(&request.pane),
            overlay: match &request.overlay {
                Some(overlay) => Some(PaneControlOverlayRequest::from_request(overlay)),
                None => None,
            },
            stack: request.stack,
            command: clone_texts(&request.command),
        }
    }

    /// The command that the request stands for, if it is acceptable.
    pub fn into_command(self) -> (result: Option<PaneCommand>)
        ensures
            result == self.pane_command(),
    {
        let direction = match &self.direction {
            Some(name) => match parse_pane_direction(name.as_str()) {
                Some(direction) => Some(direction),
                None => {
                    return None;
                },
            },
            None => None,
        };
        let overlay = match self.overlay {
            Some(overlay) => match overlay.into_request() {
                Some(overlay) => Some(overlay),
                None => {
                    return None;
                },
            },
            None => None,
        };
        if self.command.len() == 0 || bytes_within(&self.command, MAX_PANE_COMMAND_BYTES).is_none()
            || is_given_empty(&self.label) || is_given_empty(&self.pane) || (self.label.is_some()
            && direction.is_none()) || (overlay.is_some() && direction.is_none()) || (
        direction.is_some() && (self.pane.is_some() || self.stack)) {
            return None;
        }
        Some(
            PaneCommand {
                direction,
                label: self.label,
                pane: self.pane,
                overlay,
                stack: self.stack,
                list: false,
                command: self.command,
            },
        )
    }
}

/// Why a request was not served.
#[derive(Debug, PartialEq, Eq)]
pub struct ControlError {
    pub code: String,
    pub message: String,
}

/// An answer on the wire.
#[derive(Debug, PartialEq, Eq)]
pub struct ControlResponse {
    pub status: String,
    pub run_id: Option<u64>,
    pub themes: Vec<String>,
    pub pane_theme: Option<String>,
    /// The revision the returned pane theme was resolved at.
    pub pane_theme_revision: Option<u64>,
    pub silent_mode: bool,
    pub pane_labels: Vec<String>,
    pub error: Option<ControlError>,
}

} // verus!
