//! Decoding a [`ControlRequest`] off the wire into the [`ControlRequestCommand`]
//! the server acts on.
//!
//! [`ControlRequest`] is one wide struct shared by every command, so which
//! fields a command may carry cannot be expressed by the type. It is expressed
//! by [`allowed_fields`] instead: one table, checked once, rather than a chain
//! of tests repeated per command. A field added to [`ControlRequest`] is
//! rejected for every command until it is named there, which is the safe
//! default.
//!
//! What the table cannot say is checked in the command's own arm: that a value
//! is present, non-empty, non-zero, or consistent with another field.
//!
//! Every rejection zeroizes the request's secrets. [`decode_control_request`]
//! is the only entry point and does that in one place, so everything below it
//! just returns `None` and leaves them where they are.

use vstd::prelude::*;
use vstd::string::StringSliceAdditionalSpecFns;

use crate::command_panes::{bytes_within, total_bytes, PaneCommand, MAX_PANE_COMMAND_BYTES};
use crate::local_sessions::auth::SessionSecret;
use crate::pane::overlay::{color_of_value, overlay_color_from_value, OverlayOpacity};
use crate::pane::tab::IconName;
use crate::process_control::commands::{command_named, CommandName};
use crate::process_control::{
    font_size_named, given_empty, is_given_empty, parse_font_size, ControlRequest,
    ControlRequestCommand, ResumeIdentityPayload, RunWaitPayload, ThemeScope,
    MAX_ACTIVATION_TOKEN_BYTES, MAX_SSH_TARGET_BYTES,
};
use crate::project_commands::byte_len;
use crate::run_command::{RunPaneIdentity, RunWaitRequest};
use crate::secrets::{secrets_equal, wipe_text};
use crate::text::{
    has_prefix, same_text, signed_decimal, signed_text, starts_with, texts,
};

verus! {

/// One flag per optional [`ControlRequest`] field. The two mandatory fields,
/// `token` and `command`, have none: every request carries them.
#[derive(Clone, Copy, Debug, PartialEq, Eq, Structural)]
pub struct ControlFields {
    pub runner_id: bool,
    pub session_id: bool,
    pub secret: bool,
    pub ssh_target: bool,
    pub ssh_port: bool,
    pub icon: bool,
    pub pane_theme: bool,
    pub pane_theme_revision: bool,
    pub pane_id: bool,
    pub pane_overlay: bool,
    pub pane_overlay_font_size: bool,
    pub pane_overlay_opacity: bool,
    pub pane_overlay_color: bool,
    pub attention_id: bool,
    pub attention_summary: bool,
    pub attention_body: bool,
    pub tab_name: bool,
    pub worktree_name: bool,
    pub config_path: bool,
    pub working_directory: bool,
    pub split: bool,
    pub profile: bool,
    pub theme: bool,
    pub scope: bool,
    pub pane_request: bool,
    pub shell_command: bool,
}

impl ControlFields {
    /// No field at all.
    pub open spec fn nothing() -> ControlFields {
        ControlFields {
            runner_id: false,
            session_id: false,
            secret: false,
            ssh_target: false,
            ssh_port: false,
            icon: false,
            pane_theme: false,
            pane_theme_revision: false,
            pane_id: false,
            pane_overlay: false,
            pane_overlay_font_size: false,
            pane_overlay_opacity: false,
            pane_overlay_color: false,
            attention_id: false,
            attention_summary: false,
            attention_body: false,
            tab_name: false,
            worktree_name: false,
            config_path: false,
            working_directory: false,
            split: false,
            profile: false,
            theme: false,
            scope: false,
            pane_request: false,
            shell_command: false,
        }
    }

    /// Whether every field of one set is also in another.
    pub open spec fn within(self, allowed: ControlFields) -> bool {
        &&& self.runner_id ==> allowed.runner_id
        &&& self.session_id ==> allowed.session_id
        &&& self.secret ==> allowed.secret
        &&& self.ssh_target ==> allowed.ssh_target
        &&& self.ssh_port ==> allowed.ssh_port
        &&& self.icon ==> allowed.icon
        &&& self.pane_theme ==> allowed.pane_theme
        &&& self.pane_theme_revision ==> allowed.pane_theme_revision
        &&& self.pane_id ==> allowed.pane_id
        &&& self.pane_overlay ==> allowed.pane_overlay
        &&& self.pane_overlay_font_size ==> allowed.pane_overlay_font_size
        &&& self.pane_overlay_opacity ==> allowed.pane_overlay_opacity
        &&& self.pane_overlay_color ==> allowed.pane_overlay_color
        &&& self.attention_id ==> allowed.attention_id
        &&& self.attention_summary ==> allowed.attention_summary
        &&& self.attention_body ==> allowed.attention_body
        &&& self.tab_name ==> allowed.tab_name
        &&& self.worktree_name ==> allowed.worktree_name
        &&& self.config_path ==> allowed.config_path
        &&& self.working_directory ==> allowed.working_directory
        &&& self.split ==> allowed.split
        &&& self.profile ==> allowed.profile
        &&& self.theme ==> allowed.theme
        &&& self.scope ==> allowed.scope
        &&& self.pane_request ==> allowed.pane_request
        &&& self.shell_command ==> allowed.shell_command
    }

    fn none() -> (result: ControlFields)
        ensures
            result == ControlFields::nothing(),
    {
        ControlFields {
            runner_id: false,
            session_id: false,
            secret: false,
            ssh_target: false,
            ssh_port: false,
            icon: false,
            pane_theme: false,
            pane_theme_revision: false,
            pane_id: false,
            pane_overlay: false,
            pane_overlay_font_size: false,
            pane_overlay_opacity: false,
            pane_overlay_color: false,
            attention_id: false,
            attention_summary: false,
            attention_body: false,
            tab_name: false,
            worktree_name: false,
            config_path: false,
            working_directory: false,
            split: false,
            profile: false,
            theme: false,
            scope: false,
            pane_request: false,
            shell_command: false,
        }
    }

    /// Whether every field this set names is also named by `allowed`.
    pub fn is_subset_of(self, allowed: ControlFields) -> (result: bool)
        ensures
            result == self.within(allowed),
    {
        (!self.runner_id || allowed.runner_id)
            && (!self.session_id || allowed.session_id)
            && (!self.secret || allowed.secret)
            && (!self.ssh_target || allowed.ssh_target)
            && (!self.ssh_port || allowed.ssh_port)
            && (!self.icon || allowed.icon)
            && (!self.pane_theme || allowed.pane_theme)
            && (!self.pane_theme_revision || allowed.pane_theme_revision)
            && (!self.pane_id || allowed.pane_id)
            && (!self.pane_overlay || allowed.pane_overlay)
            && (!self.pane_overlay_font_size || allowed.pane_overlay_font_size)
            && (!self.pane_overlay_opacity || allowed.pane_overlay_opacity)
            && (!self.pane_overlay_color || allowed.pane_overlay_color)
            && (!self.attention_id || allowed.attention_id)
            && (!self.attention_summary || allowed.attention_summary)
            && (!self.attention_body || allowed.attention_body)
            && (!self.tab_name || allowed.tab_name)
            && (!self.worktree_name || allowed.worktree_name)
            && (!self.config_path || allowed.config_path)
            && (!self.working_directory || allowed.working_directory)
            && (!self.split || allowed.split)
            && (!self.profile || allowed.profile)
            && (!self.theme || allowed.theme)
            && (!self.scope || allowed.scope)
            && (!self.pane_request || allowed.pane_request)
            && (!self.shell_command || allowed.shell_command)
    }
}

/// The fields that a request sets.
pub open spec fn fields_of(request: ControlRequest) -> ControlFields {
    ControlFields {
        runner_id: request.runner_id is Some,
        session_id: request.session_id is Some,
        secret: request.secret is Some,
        ssh_target: request.ssh_target is Some,
        ssh_port: request.ssh_port is Some,
        icon: request.icon is Some,
        pane_theme: request.pane_theme is Some,
        pane_theme_revision: request.pane_theme_revision is Some,
        pane_id: request.pane_id is Some,
        pane_overlay: request.pane_overlay is Some,
        pane_overlay_font_size: request.pane_overlay_font_size is Some,
        pane_overlay_opacity: request.pane_overlay_opacity is Some,
        pane_overlay_color: request.pane_overlay_color is Some,
        attention_id: request.attention_id is Some,
        attention_summary: request.attention_summary is Some,
        attention_body: request.attention_body is Some,
        tab_name: request.tab_name is Some,
        worktree_name: request.worktree_name is Some,
        config_path: request.config_path is Some,
        working_directory: request.working_directory is Some,
        split: request.split is Some,
        profile: request.profile is Some,
        theme: request.theme is Some,
        scope: request.scope is Some,
        pane_request: request.pane_request is Some,
        shell_command: request.shell_command is Some,
    }
}

/// The fields a request actually sets.
pub fn control_request_fields(request: &ControlRequest) -> (result: ControlFields)
    ensures
        result == fields_of(*request),
{
    ControlFields {
        runner_id: request.runner_id.is_some(),
        session_id: request.session_id.is_some(),
        secret: request.secret.is_some(),
        ssh_target: request.ssh_target.is_some(),
        ssh_port: request.ssh_port.is_some(),
        icon: request.icon.is_some(),
        pane_theme: request.pane_theme.is_some(),
        pane_theme_revision: request.pane_theme_revision.is_some(),
        pane_id: request.pane_id.is_some(),
        pane_overlay: request.pane_overlay.is_some(),
        pane_overlay_font_size: request.pane_overlay_font_size.is_some(),
        pane_overlay_opacity: request.pane_overlay_opacity.is_some(),
        pane_overlay_color: request.pane_overlay_color.is_some(),
        attention_id: request.attention_id.is_some(),
        attention_summary: request.attention_summary.is_some(),
        attention_body: request.attention_body.is_some(),
        tab_name: request.tab_name.is_some(),
        worktree_name: request.worktree_name.is_some(),
        config_path: request.config_path.is_some(),
        working_directory: request.working_directory.is_some(),
        split: request.split.is_some(),
        profile: request.profile.is_some(),
        theme: request.theme.is_some(),
        scope: request.scope.is_some(),
        pane_request: request.pane_request.is_some(),
        shell_command: request.shell_command.is_some(),
    }
}

/// The pane-styling fields that the oldest commands accept, whether they read
/// them or not.
pub open spec fn style_fields() -> ControlFields {
    ControlFields {
        icon: true,
        pane_theme: true,
        pane_overlay: true,
        pane_overlay_font_size: true,
        pane_overlay_opacity: true,
        pane_overlay_color: true,
        split: true,
        profile: true,
        theme: true,
        ..ControlFields::nothing()
    }
}

fn style() -> (result: ControlFields)
    ensures
        result == style_fields(),
{
    ControlFields {
        icon: true,
        pane_theme: true,
        pane_overlay: true,
        pane_overlay_font_size: true,
        pane_overlay_opacity: true,
        pane_overlay_color: true,
        split: true,
        profile: true,
        theme: true,
        ..ControlFields::none()
    }
}

/// The fields each command may carry.
///
/// This is the whole cross-field allow-list. Read it as "a `set_tab_name`
/// request may name an attention target and a name, and nothing else"; a
/// request that sets anything outside its command's row is rejected before the
/// command is decoded.
pub open spec fn allowed_fields(name: CommandName) -> ControlFields {
    match name {
        CommandName::ReloadConfiguration => ControlFields { config_path: true, split: true, profile: true, theme: true, ..ControlFields::nothing() },
        CommandName::OpenWindow => style_fields(),
        CommandName::NewWindow => ControlFields { profile: true, config_path: true, ..ControlFields::nothing() },
        CommandName::OpenProject => ControlFields { config_path: true, working_directory: true, ..ControlFields::nothing() },
        CommandName::ReloadProjects => ControlFields::nothing(),
        CommandName::GetSilentMode => ControlFields { attention_id: true, ..ControlFields::nothing() },
        CommandName::ReplacePane => ControlFields { split: true, profile: true, theme: true, ..ControlFields::nothing() },
        CommandName::RunWait => ControlFields { attention_id: true, pane_id: true, config_path: true, ..ControlFields::nothing() },
        CommandName::RunComplete => ControlFields { session_id: true, config_path: true, ..ControlFields::nothing() },
        CommandName::RunPane => ControlFields { pane_request: true, ..ControlFields::nothing() },
        CommandName::RunShellCommand => ControlFields { shell_command: true, ..ControlFields::nothing() },
        CommandName::OpenCommand => ControlFields { config_path: true, pane_request: true, ..ControlFields::nothing() },
        CommandName::ListPanes => ControlFields { attention_id: true, ..ControlFields::nothing() },
        CommandName::OpenRemoteSession => ControlFields { session_id: true, secret: true, ssh_target: true, ssh_port: true, ..ControlFields::nothing() },
        CommandName::ReconnectSession => ControlFields { runner_id: true, session_id: true, secret: true, attention_id: true, ..ControlFields::nothing() },
        CommandName::ResumeDiskSession => ControlFields { session_id: true, secret: true, config_path: true, ..ControlFields::nothing() },
        CommandName::SetTabIcon => style_fields(),
        CommandName::SetTheme => ControlFields { scope: true, ..style_fields() },
        CommandName::ListThemes => ControlFields { pane_overlay: true, pane_overlay_font_size: true, pane_overlay_opacity: true, pane_overlay_color: true, split: true, profile: true, ..ControlFields::nothing() },
        CommandName::GetPaneTheme => ControlFields { attention_id: true, pane_id: true, pane_theme_revision: true, ..ControlFields::nothing() },
        CommandName::SetOverlay => style_fields(),
        CommandName::SetTabAttention => ControlFields { attention_id: true, attention_summary: true, attention_body: true, ..ControlFields::nothing() },
        CommandName::FocusTab => ControlFields { attention_id: true, ..ControlFields::nothing() },
        CommandName::SetTabName => ControlFields { attention_id: true, tab_name: true, ..ControlFields::nothing() },
        CommandName::SetWorktreeName => ControlFields { attention_id: true, worktree_name: true, ..ControlFields::nothing() },
    }
}

/// The fields each command may carry. See [`allowed_fields`].
pub fn allowed_control_fields(name: CommandName) -> (result: ControlFields)
    ensures
        result == allowed_fields(name),
{
    match name {
        CommandName::ReloadConfiguration => ControlFields { config_path: true, split: true, profile: true, theme: true, ..ControlFields::none() },
        CommandName::OpenWindow => style(),
        CommandName::NewWindow => ControlFields { profile: true, config_path: true, ..ControlFields::none() },
        CommandName::OpenProject => ControlFields { config_path: true, working_directory: true, ..ControlFields::none() },
        CommandName::ReloadProjects => ControlFields::none(),
        CommandName::GetSilentMode => ControlFields { attention_id: true, ..ControlFields::none() },
        CommandName::ReplacePane => ControlFields { split: true, profile: true, theme: true, ..ControlFields::none() },
        CommandName::RunWait => ControlFields { attention_id: true, pane_id: true, config_path: true, ..ControlFields::none() },
        CommandName::RunComplete => ControlFields { session_id: true, config_path: true, ..ControlFields::none() },
        CommandName::RunPane => ControlFields { pane_request: true, ..ControlFields::none() },
        CommandName::RunShellCommand => ControlFields { shell_command: true, ..ControlFields::none() },
        CommandName::OpenCommand => ControlFields { config_path: true, pane_request: true, ..ControlFields::none() },
        CommandName::ListPanes => ControlFields { attention_id: true, ..ControlFields::none() },
        CommandName::OpenRemoteSession => ControlFields { session_id: true, secret: true, ssh_target: true, ssh_port: true, ..ControlFields::none() },
        CommandName::ReconnectSession => ControlFields { runner_id: true, session_id: true, secret: true, attention_id: true, ..ControlFields::none() },
        CommandName::ResumeDiskSession => ControlFields { session_id: true, secret: true, config_path: true, ..ControlFields::none() },
        CommandName::SetTabIcon => style(),
        CommandName::SetTheme => ControlFields { scope: true, ..style() },
        CommandName::ListThemes => ControlFields { pane_overlay: true, pane_overlay_font_size: true, pane_overlay_opacity: true, pane_overlay_color: true, split: true, profile: true, ..ControlFields::none() },
        CommandName::GetPaneTheme => ControlFields { attention_id: true, pane_id: true, pane_theme_revision: true, ..ControlFields::none() },
        CommandName::SetOverlay => style(),
        CommandName::SetTabAttention => ControlFields { attention_id: true, attention_summary: true, attention_body: true, ..ControlFields::none() },
        CommandName::FocusTab => ControlFields { attention_id: true, ..ControlFields::none() },
        CommandName::SetTabName => ControlFields { attention_id: true, tab_name: true, ..ControlFields::none() },
        CommandName::SetWorktreeName => ControlFields { attention_id: true, worktree_name: true, ..ControlFields::none() },
    }
}

/// Compares the endpoint token without leaking how many leading bytes matched.
/// This is the only authentication check guarding the process control socket,
/// so it must not short-circuit the way text equality does.
pub fn token_matches(supplied: &str, expected: &str) -> (result: bool)
    ensures
        result == (supplied@ == expected@),
{
    secrets_equal(supplied, expected)
}

/// Whether a secret is gone: not there, or empty.
pub open spec fn is_gone(secret: Option<String>) -> bool {
    secret matches Some(text) ==> text@.len() == 0
}

/// Whether a command has a private payload, which is read apart.
pub open spec fn carries_payload(name: CommandName) -> bool {
    name == CommandName::RunWait || name == CommandName::RunComplete || name
        == CommandName::ResumeDiskSession
}

/// Whether a command takes a secret.
pub open spec fn takes_secret(name: CommandName) -> bool {
    name == CommandName::OpenRemoteSession || name == CommandName::ReconnectSession || name
        == CommandName::ResumeDiskSession
}

/// Whether nothing of a command's payload and secret is left in a request that
/// was decoded.
pub open spec fn leaves_nothing(
    name: CommandName,
    request: ControlRequest,
    result: Option<ControlRequestCommand>,
) -> bool {
    result is Some ==> {
        &&& carries_payload(name) ==> is_gone(request.config_path)
        &&& takes_secret(name) ==> is_gone(request.secret)
    }
}

fn zeroize_control_request_secrets(request: &mut ControlRequest)
    ensures
        is_gone(final(request).secret),
        is_gone(final(request).config_path),
        *final(request) == (ControlRequest {
            secret: final(request).secret,
            config_path: final(request).config_path,
            ..*old(request)
        }),
{
    let mut secret = request.secret.take();
    if let Some(text) = &mut secret {
        wipe_text(text);
    }
    request.secret = secret;
    let mut payload = request.config_path.take();
    if let Some(text) = &mut payload {
        wipe_text(text);
    }
    request.config_path = payload;
}

/// What the texts inside a request were read as, where they could be: the
/// payloads that `config_path` carries for some commands, and the icon that
/// the icon's name stands for.
pub struct ReadPayloads {
    pub run_wait: Option<RunWaitPayload>,
    pub resume_identity: Option<ResumeIdentityPayload>,
    pub icon: Option<IconName>,
}

/// The exit code that a text holds, if `serde_json` reads it as a number of 32
/// bits or null.
pub uninterp spec fn parsed_exit_code(text: Seq<char>) -> Option<Option<i32>>;

/// How an exit code is written: its digits, or `null`.
pub open spec fn exit_code_text(code: Option<i32>) -> Seq<char> {
    match code {
        Some(code) => signed_text(code as int),
        None => "null"@,
    }
}

/// How an exit code is written.
pub fn encode_exit_code(code: Option<i32>) -> (result: String)
    ensures
        result@ == exit_code_text(code),
{
    match code {
        Some(code) => signed_decimal(code),
        None => "null".to_owned(),
    }
}

/// `serde_json::from_str` for an optional 32-bit number: what it gives depends
/// on the text alone, and digits and `null` are read as what they stand for.
#[verifier::external_body]
fn read_exit_code(text: &str) -> (result: Result<Option<i32>, serde_json::Error>)
    ensures
        match result {
            Ok(code) => parsed_exit_code(text@) == Some(code),
            Err(_) => parsed_exit_code(text@) is None,
        },
        result is Ok || (forall|code: Option<i32>| #[trigger] exit_code_text(code) != text@),
        result matches Ok(read) ==> (forall|code: Option<i32>| #[trigger]
            exit_code_text(code) == text@ ==> read == code),
{
    serde_json::from_str(text)
}

/// A text that is there and not empty.
pub open spec fn given(text: Option<String>) -> bool {
    text matches Some(text) && text@.len() > 0
}

fn is_given(text: &Option<String>) -> (result: bool)
    ensures
        result == given(*text),
{
    match text {
        Some(text) => !text.as_str().is_empty(),
        None => false,
    }
}

/// A number that is there and not zero.
pub open spec fn numbered(number: Option<u64>) -> bool {
    number matches Some(number) && number != 0
}

fn is_numbered(number: Option<u64>) -> (result: bool)
    ensures
        result == numbered(number),
{
    match number {
        Some(number) => number != 0,
        None => false,
    }
}

/// A text that counts as absent where it is empty.
pub open spec fn unless_empty(text: Option<String>) -> Option<String> {
    if given(text) {
        text
    } else {
        None
    }
}

/// Whether a wait's payload is acceptable: it waits for something, every name
/// is a name, and there is a command, not too long.
pub open spec fn wait_acceptable(payload: RunWaitPayload) -> bool {
    &&& payload.dependencies@.len() > 0
    &&& forall|i: int|
        0 <= i < payload.dependencies@.len() ==> (#[trigger] payload.dependencies@[i])@.len() > 0
    &&& payload.command@.len() > 0
    &&& payload.command@[0]@.len() > 0
    &&& total_bytes(texts(payload.command@)) <= MAX_PANE_COMMAND_BYTES
}

/// Whether every text of a list is not empty.
fn all_given(list: &Vec<String>) -> (result: bool)
    ensures
        result == forall|i: int| 0 <= i < list@.len() ==> (#[trigger] list@[i])@.len() > 0,
{
    let mut index: usize = 0;
    while index < list.len()
        invariant
            index <= list@.len(),
            forall|i: int| 0 <= i < index ==> (#[trigger] list@[i])@.len() > 0,
        decreases list@.len() - index,
    {
        if list[index].as_str().is_empty() {
            proof {
                assert(list@[index as int]@.len() == 0);
            }
            return false;
        }
        index = index + 1;
    }
    true
}

/// Whether an identity payload is acceptable: a passphrase or none per path,
/// and no path is empty.
pub open spec fn identity_acceptable(payload: ResumeIdentityPayload) -> bool {
    &&& payload.identity_paths@.len() == payload.identity_passphrases@.len()
    &&& forall|i: int|
        0 <= i < payload.identity_paths@.len() ==> (#[trigger] payload.identity_paths@[i])@.len()
            > 0
}

/// A secret, as it is handed on.
pub open spec fn as_secret(secret: Option<String>) -> Option<SessionSecret> {
    match secret {
        Some(text) => Some(SessionSecret { text }),
        None => None,
    }
}

fn take_secret(request: &mut ControlRequest) -> (result: Option<SessionSecret>)
    ensures
        result == as_secret(old(request).secret),
        *final(request) == (ControlRequest { secret: None, ..*old(request) }),
{
    match request.secret.take() {
        Some(text) => Some(SessionSecret::new(text)),
        None => None,
    }
}

/// Takes the private payload out of a request and overwrites it.
fn discard_payload(request: &mut ControlRequest)
    ensures
        *final(request) == (ControlRequest { config_path: None, ..*old(request) }),
{
    if let Some(payload) = request.config_path.take() {
        let mut payload = payload;
        wipe_text(&mut payload);
    }
}

/// The scope that a word names.
pub open spec fn scope_named(word: Seq<char>) -> Option<ThemeScope> {
    if word == "pane"@ {
        Some(ThemeScope::Pane)
    } else if word == "tab"@ {
        Some(ThemeScope::Tab)
    } else {
        None
    }
}

/// A command for a new pane's region that says nothing of which.
pub open spec fn is_plain_command(command: PaneCommand) -> bool {
    &&& command.direction is None
    &&& command.label is None
    &&& command.pane is None
    &&& command.overlay is None
    &&& !command.stack
    &&& !command.list
}

/// The command of a request that asks for a window or a project.
pub open spec fn window_command(name: CommandName, request: ControlRequest) -> Option<ControlRequestCommand> {
    if name == CommandName::ReloadConfiguration {
        if given(request.config_path) {
            Some(ControlRequestCommand::ReloadConfiguration { config_path: request.config_path->0 })
        } else {
            None
        }
    } else if name == CommandName::OpenWindow {
        Some(ControlRequestCommand::OpenWindow)
    } else if name == CommandName::NewWindow {
        if given_empty(request.profile) || (request.config_path matches Some(token) && byte_len(
            token@,
        ) > MAX_ACTIVATION_TOKEN_BYTES) {
            None
        } else {
            Some(
                ControlRequestCommand::OpenNewWindow {
                    profile: request.profile,
                    activation_token: unless_empty(request.config_path),
                },
            )
        }
    } else if name == CommandName::OpenProject {
        if given(request.config_path) {
            Some(
                ControlRequestCommand::OpenProject {
                    root: request.config_path->0,
                    working_directory: unless_empty(request.working_directory),
                },
            )
        } else {
            None
        }
    } else if name == CommandName::ReloadProjects {
        Some(ControlRequestCommand::ReloadProjects)
    } else {
        None
    }
}

fn decode_window_command(name: CommandName, request: &mut ControlRequest) -> (result: Option<ControlRequestCommand>)
    ensures
        result == window_command(name, *old(request)),
        final(request).secret == old(request).secret,
{
    if name == CommandName::ReloadConfiguration {
        if !is_given(&request.config_path) {
            return None;
        }
        match request.config_path.take() {
            Some(config_path) => Some(ControlRequestCommand::ReloadConfiguration { config_path }),
            None => None,
        }
    } else if name == CommandName::OpenWindow {
        Some(ControlRequestCommand::OpenWindow)
    } else if name == CommandName::NewWindow {
        if is_given_empty(&request.profile) {
            return None;
        }
        if let Some(token) = &request.config_path {
            if token.as_str().as_bytes().len() > MAX_ACTIVATION_TOKEN_BYTES {
                return None;
            }
        }
        let has_token = is_given(&request.config_path);
        let token = request.config_path.take();
        Some(
            ControlRequestCommand::OpenNewWindow {
                profile: request.profile.take(),
                activation_token: if has_token {
                    token
                } else {
                    None
                },
            },
        )
    } else if name == CommandName::OpenProject {
        if !is_given(&request.config_path) {
            return None;
        }
        let has_directory = is_given(&request.working_directory);
        let directory = request.working_directory.take();
        match request.config_path.take() {
            Some(root) => Some(
                ControlRequestCommand::OpenProject {
                    root,
                    working_directory: if has_directory {
                        directory
                    } else {
                        None
                    },
                },
            ),
            None => None,
        }
    } else if name == CommandName::ReloadProjects {
        Some(ControlRequestCommand::ReloadProjects)
    } else {
        None
    }
}

/// The command of a request that asks for a pane or for something to run.
pub open spec fn pane_command(name: CommandName, request: ControlRequest, read: ReadPayloads) -> Option<
    ControlRequestCommand,
> {
    if name == CommandName::ReplacePane {
        if given_empty(request.split) || given_empty(request.profile) || given_empty(request.theme)
            || (request.split is None && request.profile is None) || (request.theme is Some
            && request.profile is None) {
            None
        } else {
            Some(
                ControlRequestCommand::ReplacePane {
                    split: request.split,
                    profile: request.profile,
                    theme: request.theme,
                },
            )
        }
    } else if name == CommandName::RunWait {
        if numbered(request.attention_id) && numbered(request.pane_id) && request.config_path is Some
            && (read.run_wait matches Some(payload) && wait_acceptable(payload)) {
            let payload = read.run_wait->0;
            Some(
                ControlRequestCommand::RunWait {
                    request: RunWaitRequest {
                        owner: RunPaneIdentity {
                            attention_id: request.attention_id->0,
                            routing_id: request.pane_id->0,
                        },
                        dependencies: payload.dependencies,
                        allow_failure: payload.allow_failure,
                        command: payload.command,
                    },
                },
            )
        } else {
            None
        }
    } else if name == CommandName::RunComplete {
        if numbered(request.session_id) && request.config_path is Some && parsed_exit_code(
            request.config_path->0@,
        ) is Some {
            Some(
                ControlRequestCommand::RunComplete {
                    id: request.session_id->0,
                    exit_code: parsed_exit_code(request.config_path->0@)->0,
                },
            )
        } else {
            None
        }
    } else if name == CommandName::RunPane {
        match request.pane_request {
            Some(asked) => match asked.pane_command() {
                Some(command) => Some(ControlRequestCommand::RunPane { request: command }),
                None => None,
            },
            None => None,
        }
    } else if name == CommandName::RunShellCommand {
        match request.shell_command {
            Some(asked) => if asked.acceptable() {
                Some(
                    ControlRequestCommand::RunShellCommand {
                        request: crate::command_panes::ShellCommandRequest {
                            command: asked.command,
                            arguments: asked.arguments,
                            environment: asked.environment,
                        },
                    },
                )
            } else {
                None
            },
            None => None,
        }
    } else if name == CommandName::OpenCommand {
        match request.pane_request {
            Some(asked) => match asked.pane_command() {
                Some(command) => if is_plain_command(command) {
                    Some(
                        ControlRequestCommand::OpenCommand {
                            request: command,
                            working_directory: unless_empty(request.config_path),
                        },
                    )
                } else {
                    None
                },
                None => None,
            },
            None => None,
        }
    } else {
        None
    }
}

/// Whether the exit code that a completed run was reported with is the one
/// that comes out.
pub open spec fn exit_code_reads_back(
    name: CommandName,
    request: ControlRequest,
    result: Option<ControlRequestCommand>,
) -> bool {
    forall|code: Option<i32>|
        name == CommandName::RunComplete && numbered(request.session_id)
            && request.config_path is Some && request.config_path->0@ == #[trigger] exit_code_text(
            code,
        ) ==> result == Some(
            ControlRequestCommand::RunComplete { id: request.session_id->0, exit_code: code },
        )
}

fn decode_run_wait(request: &mut ControlRequest, payload: Option<RunWaitPayload>) -> (result: Option<
    ControlRequestCommand,
>)
    ensures
        result == if numbered(old(request).attention_id) && numbered(old(request).pane_id) && old(
            request,
        ).config_path is Some && (payload matches Some(payload) && wait_acceptable(payload)) {
            Some(
                ControlRequestCommand::RunWait {
                    request: RunWaitRequest {
                        owner: RunPaneIdentity {
                            attention_id: old(request).attention_id->0,
                            routing_id: old(request).pane_id->0,
                        },
                        dependencies: payload->0.dependencies,
                        allow_failure: payload->0.allow_failure,
                        command: payload->0.command,
                    },
                },
            )
        } else {
            None
        },
        result is Some ==> is_gone(final(request).config_path),
        final(request).secret == old(request).secret,
{
    if !is_numbered(request.attention_id) || !is_numbered(request.pane_id)
        || request.config_path.is_none() {
        return None;
    }
    let payload = match payload {
        Some(payload) => payload,
        None => {
            return None;
        },
    };
    if payload.dependencies.len() == 0 || !all_given(&payload.dependencies)
        || payload.command.len() == 0 || payload.command[0].as_str().is_empty() || bytes_within(
        &payload.command,
        MAX_PANE_COMMAND_BYTES,
    ).is_none() {
        return None;
    }
    discard_payload(request);
    match (request.attention_id, request.pane_id) {
        (Some(attention_id), Some(routing_id)) => Some(
            ControlRequestCommand::RunWait {
                request: RunWaitRequest {
                    owner: RunPaneIdentity::new(attention_id, routing_id),
                    dependencies: payload.dependencies,
                    allow_failure: payload.allow_failure,
                    command: payload.command,
                },
            },
        ),
        _ => None,
    }
}

fn decode_pane_command(
    name: CommandName,
    request: &mut ControlRequest,
    read: ReadPayloads,
) -> (result: Option<
    ControlRequestCommand,
>)
    ensures
        result == pane_command(name, *old(request), read),
        exit_code_reads_back(name, *old(request), result),
        leaves_nothing(name, *final(request), result),
        final(request).secret == old(request).secret,
{
    if name == CommandName::ReplacePane {
        if is_given_empty(&request.split) || is_given_empty(&request.profile) || is_given_empty(
            &request.theme,
        ) || (request.split.is_none() && request.profile.is_none()) || (request.theme.is_some()
            && request.profile.is_none()) {
            return None;
        }
        Some(
            ControlRequestCommand::ReplacePane {
                split: request.split.take(),
                profile: request.profile.take(),
                theme: request.theme.take(),
            },
        )
    } else if name == CommandName::RunWait {
        decode_run_wait(request, read.run_wait)
    } else if name == CommandName::RunComplete {
        let id: u64 = match request.session_id {
            Some(id) => id,
            None => {
                return None;
            },
        };
        if id == 0 {
            return None;
        }
        let exit_code = match &request.config_path {
            Some(encoded) => match read_exit_code(encoded.as_str()) {
                Ok(exit_code) => exit_code,
                Err(_) => {
                    return None;
                },
            },
            None => {
                return None;
            },
        };
        discard_payload(request);
        Some(ControlRequestCommand::RunComplete { id, exit_code })
    } else if name == CommandName::RunPane {
        match request.pane_request.take() {
            Some(asked) => match asked.into_command() {
                Some(command) => Some(ControlRequestCommand::RunPane { request: command }),
                None => None,
            },
            None => None,
        }
    } else if name == CommandName::RunShellCommand {
        match request.shell_command.take() {
            Some(asked) => match asked.into_request() {
                Some(command) => Some(ControlRequestCommand::RunShellCommand { request: command }),
                None => None,
            },
            None => None,
        }
    } else if name == CommandName::OpenCommand {
        match request.pane_request.take() {
            Some(asked) => match asked.into_command() {
                Some(command) => {
                    if command.direction.is_none() && command.label.is_none()
                        && command.pane.is_none() && command.overlay.is_none() && !command.stack
                        && !command.list {
                        let has_directory = is_given(&request.config_path);
                        let directory = request.config_path.take();
                        Some(
                            ControlRequestCommand::OpenCommand {
                                request: command,
                                working_directory: if has_directory {
                                    directory
                                } else {
                                    None
                                },
                            },
                        )
                    } else {
                        None
                    }
                },
                None => None,
            },
            None => None,
        }
    } else {
        None
    }
}

/// Whether an SSH target is acceptable: it is there, is no option, and is not
/// too long.
pub open spec fn target_acceptable(target: Option<String>) -> bool {
    target matches Some(target) && target@.len() > 0 && !has_prefix(target@, "-"@) && byte_len(
        target@,
    ) <= MAX_SSH_TARGET_BYTES
}

/// The command of a request that asks for a session.
pub open spec fn session_command(name: CommandName, request: ControlRequest, read: ReadPayloads) -> Option<
    ControlRequestCommand,
> {
    if name == CommandName::OpenRemoteSession {
        if target_acceptable(request.ssh_target) && request.ssh_port != Some(0u16) && numbered(
            request.session_id,
        ) && !given_empty(request.secret) {
            Some(
                ControlRequestCommand::OpenRemoteSession {
                    target: request.ssh_target->0,
                    port: request.ssh_port,
                    session_id: request.session_id->0,
                    secret: as_secret(request.secret),
                },
            )
        } else {
            None
        }
    } else if name == CommandName::ReconnectSession {
        if request.attention_id != Some(0u64) && request.runner_id is Some
            && request.session_id is Some {
            Some(
                ControlRequestCommand::ReconnectSession {
                    runner_id: request.runner_id->0,
                    session_id: request.session_id->0,
                    attention_id: request.attention_id,
                    secret: as_secret(request.secret),
                },
            )
        } else {
            None
        }
    } else if name == CommandName::ResumeDiskSession {
        if request.session_id is Some && request.config_path is Some && (
        read.resume_identity matches Some(payload) && identity_acceptable(payload)) {
            Some(
                ControlRequestCommand::ResumeDiskSession {
                    session_id: request.session_id->0,
                    identity_paths: read.resume_identity->0.identity_paths,
                    identity_passphrases: read.resume_identity->0.identity_passphrases,
                    secret: as_secret(request.secret),
                },
            )
        } else {
            None
        }
    } else {
        None
    }
}

fn decode_session_command(
    name: CommandName,
    request: &mut ControlRequest,
    read: ReadPayloads,
) -> (result: Option<
    ControlRequestCommand,
>)
    ensures
        result == session_command(name, *old(request), read),
        leaves_nothing(name, *final(request), result),
{
    if name == CommandName::OpenRemoteSession {
        match &request.ssh_target {
            Some(target) => {
                if target.as_str().is_empty() || starts_with(target.as_str(), "-")
                    || target.as_str().as_bytes().len() > MAX_SSH_TARGET_BYTES {
                    return None;
                }
            },
            None => {
                return None;
            },
        }
        if let Some(port) = request.ssh_port {
            if port == 0 {
                return None;
            }
        }
        if !is_numbered(request.session_id) || is_given_empty(&request.secret) {
            return None;
        }
        match (request.ssh_target.take(), request.session_id) {
            (Some(target), Some(session_id)) => Some(
                ControlRequestCommand::OpenRemoteSession {
                    target,
                    port: request.ssh_port,
                    session_id,
                    secret: take_secret(request),
                },
            ),
            _ => None,
        }
    } else if name == CommandName::ReconnectSession {
        if let Some(attention_id) = request.attention_id {
            if attention_id == 0 {
                return None;
            }
        }
        match (request.runner_id, request.session_id) {
            (Some(runner_id), Some(session_id)) => Some(
                ControlRequestCommand::ReconnectSession {
                    runner_id,
                    session_id,
                    attention_id: request.attention_id,
                    secret: take_secret(request),
                },
            ),
            _ => None,
        }
    } else if name == CommandName::ResumeDiskSession {
        let session_id: u64 = match request.session_id {
            Some(session_id) => session_id,
            None => {
                return None;
            },
        };
        if request.config_path.is_none() {
            return None;
        }
        // Keep the paths and passphrases private to the authenticated local
        // socket and reject malformed or empty entries before they reach a
        // window.
        match read.resume_identity {
            Some(payload) => {
                if payload.identity_paths.len() != payload.identity_passphrases.len() || !all_given(
                    &payload.identity_paths,
                ) {
                    return None;
                }
                discard_payload(request);
                Some(
                    ControlRequestCommand::ResumeDiskSession {
                        session_id,
                        identity_paths: payload.identity_paths,
                        identity_passphrases: payload.identity_passphrases,
                        secret: take_secret(request),
                    },
                )
            },
            None => None,
        }
    } else {
        None
    }
}

/// The command of a request about how a tab or a pane looks.
pub open spec fn style_command(name: CommandName, request: ControlRequest, read: ReadPayloads) -> Option<
    ControlRequestCommand,
> {
    if name == CommandName::SetTabIcon {
        if request.icon is Some && read.icon is None {
            None
        } else {
            Some(
                ControlRequestCommand::SetTabIcon {
                    icon: if request.icon is Some {
                        read.icon
                    } else {
                        None
                    },
                },
            )
        }
    } else if name == CommandName::SetTheme {
        match request.scope {
            Some(word) => match scope_named(word@) {
                Some(scope) => if given_empty(request.theme) {
                    None
                } else {
                    Some(ControlRequestCommand::SetTheme { scope, theme: request.theme })
                },
                None => None,
            },
            None => None,
        }
    } else if name == CommandName::ListThemes {
        Some(ControlRequestCommand::ListThemes)
    } else if name == CommandName::GetPaneTheme {
        if request.pane_id != Some(0u64) && numbered(request.attention_id) {
            Some(
                ControlRequestCommand::GetPaneTheme {
                    attention_id: request.attention_id->0,
                    pane_id: request.pane_id,
                    known_revision: request.pane_theme_revision,
                },
            )
        } else {
            None
        }
    } else if name == CommandName::SetOverlay {
        if (request.pane_overlay_font_size matches Some(name) && font_size_named(name@) is None) || (
        request.pane_overlay_color matches Some(color) && color_of_value(color@) is None) {
            None
        } else {
            Some(
                ControlRequestCommand::SetPaneOverlay {
                    text: request.pane_overlay,
                    font_size: match request.pane_overlay_font_size {
                        Some(name) => font_size_named(name@),
                        None => None,
                    },
                    opacity: match request.pane_overlay_opacity {
                        Some(percent) => Some(OverlayOpacity::Percent(percent as usize)),
                        None => None,
                    },
                    color: request.pane_overlay_color,
                },
            )
        }
    } else {
        None
    }
}

fn decode_style_command(
    name: CommandName,
    request: &mut ControlRequest,
    read: ReadPayloads,
) -> (result: Option<
    ControlRequestCommand,
>)
    ensures
        result == style_command(name, *old(request), read),
        final(request).secret == old(request).secret,
{
    if name == CommandName::SetTabIcon {
        if request.icon.is_some() {
            match read.icon {
                Some(icon) => Some(ControlRequestCommand::SetTabIcon { icon: Some(icon) }),
                None => None,
            }
        } else {
            Some(ControlRequestCommand::SetTabIcon { icon: None })
        }
    } else if name == CommandName::SetTheme {
        let scope = match &request.scope {
            Some(word) => if same_text(word.as_str(), "pane") {
                ThemeScope::Pane
            } else if same_text(word.as_str(), "tab") {
                ThemeScope::Tab
            } else {
                return None;
            },
            None => {
                return None;
            },
        };
        if is_given_empty(&request.theme) {
            return None;
        }
        Some(ControlRequestCommand::SetTheme { scope, theme: request.theme.take() })
    } else if name == CommandName::ListThemes {
        Some(ControlRequestCommand::ListThemes)
    } else if name == CommandName::GetPaneTheme {
        if let Some(pane_id) = request.pane_id {
            if pane_id == 0 {
                return None;
            }
        }
        match request.attention_id {
            Some(attention_id) => if attention_id == 0 {
                None
            } else {
                Some(
                    ControlRequestCommand::GetPaneTheme {
                        attention_id,
                        pane_id: request.pane_id,
                        known_revision: request.pane_theme_revision,
                    },
                )
            },
            None => None,
        }
    } else if name == CommandName::SetOverlay {
        let font_size = match &request.pane_overlay_font_size {
            Some(name) => match parse_font_size(name.as_str()) {
                Some(size) => Some(size),
                None => {
                    return None;
                },
            },
            None => None,
        };
        if let Some(color) = &request.pane_overlay_color {
            if overlay_color_from_value(color.as_str()).is_none() {
                return None;
            }
        }
        Some(
            ControlRequestCommand::SetPaneOverlay {
                text: request.pane_overlay.take(),
                font_size,
                opacity: match request.pane_overlay_opacity {
                    Some(percent) => Some(OverlayOpacity::Percent(percent as usize)),
                    None => None,
                },
                color: request.pane_overlay_color.take(),
            },
        )
    } else {
        None
    }
}

/// The command of a request about a tab.
pub open spec fn tab_command(name: CommandName, request: ControlRequest) -> Option<ControlRequestCommand> {
    if name == CommandName::GetSilentMode {
        if request.attention_id == Some(0u64) {
            None
        } else {
            Some(ControlRequestCommand::GetSilentMode { attention_id: request.attention_id })
        }
    } else if name == CommandName::ListPanes {
        if request.attention_id == Some(0u64) {
            None
        } else {
            Some(ControlRequestCommand::ListPaneLabels { attention_id: request.attention_id })
        }
    } else if !numbered(request.attention_id) {
        None
    } else if name == CommandName::SetTabAttention {
        if given(request.attention_summary) {
            Some(
                ControlRequestCommand::SetTabAttention {
                    attention_id: request.attention_id->0,
                    summary: request.attention_summary->0,
                    body: request.attention_body,
                },
            )
        } else {
            None
        }
    } else if name == CommandName::FocusTab {
        Some(ControlRequestCommand::FocusTab { attention_id: request.attention_id->0 })
    } else if name == CommandName::SetTabName {
        if given_empty(request.tab_name) {
            None
        } else {
            Some(
                ControlRequestCommand::SetTabName {
                    attention_id: request.attention_id->0,
                    name: request.tab_name,
                },
            )
        }
    } else if name == CommandName::SetWorktreeName {
        if given_empty(request.worktree_name) {
            None
        } else {
            Some(
                ControlRequestCommand::SetWorktreeName {
                    attention_id: request.attention_id->0,
                    name: request.worktree_name,
                },
            )
        }
    } else {
        None
    }
}

fn decode_tab_command(name: CommandName, request: &mut ControlRequest) -> (result: Option<ControlRequestCommand>)
    ensures
        result == tab_command(name, *old(request)),
        final(request).secret == old(request).secret,
{
    let attention_id: u64 = match request.attention_id {
        Some(attention_id) => attention_id,
        None => 0,
    };
    let zero = request.attention_id.is_some() && attention_id == 0;
    if name == CommandName::GetSilentMode {
        if zero {
            return None;
        }
        Some(ControlRequestCommand::GetSilentMode { attention_id: request.attention_id })
    } else if name == CommandName::ListPanes {
        if zero {
            return None;
        }
        Some(ControlRequestCommand::ListPaneLabels { attention_id: request.attention_id })
    } else if attention_id == 0 {
        None
    } else if name == CommandName::SetTabAttention {
        if !is_given(&request.attention_summary) {
            return None;
        }
        match request.attention_summary.take() {
            Some(summary) => Some(
                ControlRequestCommand::SetTabAttention {
                    attention_id,
                    summary,
                    body: request.attention_body.take(),
                },
            ),
            None => None,
        }
    } else if name == CommandName::FocusTab {
        Some(ControlRequestCommand::FocusTab { attention_id })
    } else if name == CommandName::SetTabName {
        if is_given_empty(&request.tab_name) {
            return None;
        }
        Some(ControlRequestCommand::SetTabName { attention_id, name: request.tab_name.take() })
    } else if name == CommandName::SetWorktreeName {
        if is_given_empty(&request.worktree_name) {
            return None;
        }
        Some(
            ControlRequestCommand::SetWorktreeName {
                attention_id,
                name: request.worktree_name.take(),
            },
        )
    } else {
        None
    }
}

/// The command of a request whose fields are legal for it, if the values are
/// too.
pub open spec fn command_of(
    name: CommandName,
    request: ControlRequest,
    read: ReadPayloads,
) -> Option<ControlRequestCommand> {
    match name {
        CommandName::ReloadConfiguration
        | CommandName::OpenWindow
        | CommandName::NewWindow
        | CommandName::OpenProject
        | CommandName::ReloadProjects => window_command(name, request),
        CommandName::ReplacePane
        | CommandName::RunWait
        | CommandName::RunComplete
        | CommandName::RunPane
        | CommandName::RunShellCommand
        | CommandName::OpenCommand => pane_command(name, request, read),
        CommandName::OpenRemoteSession
        | CommandName::ReconnectSession
        | CommandName::ResumeDiskSession => session_command(name, request, read),
        CommandName::SetTabIcon
        | CommandName::SetTheme
        | CommandName::ListThemes
        | CommandName::GetPaneTheme
        | CommandName::SetOverlay => style_command(name, request, read),
        _ => tab_command(name, request),
    }
}

/// Turns a request whose fields are already known to be legal for its command
/// into that command, checking the values the table cannot describe.
pub fn decode_control_command(
    name: CommandName,
    request: &mut ControlRequest,
    read: ReadPayloads,
) -> (result: Option<ControlRequestCommand>)
    ensures
        result == command_of(name, *old(request), read),
        exit_code_reads_back(name, *old(request), result),
        leaves_nothing(name, *final(request), result),
        !takes_secret(name) ==> final(request).secret == old(request).secret,
{
    match name {
        CommandName::ReloadConfiguration
        | CommandName::OpenWindow
        | CommandName::NewWindow
        | CommandName::OpenProject
        | CommandName::ReloadProjects => decode_window_command(name, request),
        CommandName::ReplacePane
        | CommandName::RunWait
        | CommandName::RunComplete
        | CommandName::RunPane
        | CommandName::RunShellCommand
        | CommandName::OpenCommand => decode_pane_command(name, request, read),
        CommandName::OpenRemoteSession
        | CommandName::ReconnectSession
        | CommandName::ResumeDiskSession => decode_session_command(name, request, read),
        CommandName::SetTabIcon
        | CommandName::SetTheme
        | CommandName::ListThemes
        | CommandName::GetPaneTheme
        | CommandName::SetOverlay => decode_style_command(name, request, read),
        _ => decode_tab_command(name, request),
    }
}

/// What a request asks for: nothing, unless it has the token, its command is
/// served, and it sets no field that its command may not carry.
pub open spec fn decoded(request: ControlRequest, read: ReadPayloads, token: Seq<char>) -> Option<
    ControlRequestCommand,
> {
    if request.token@ != token {
        None
    } else {
        match command_named(request.command@) {
            Some(name) => if fields_of(request).within(allowed_fields(name)) {
                command_of(name, request, read)
            } else {
                None
            },
            None => None,
        }
    }
}

/// Whether a request has the token, is for a command, and sets only what that
/// may carry.
pub open spec fn passes_checks(request: ControlRequest, name: CommandName, token: Seq<char>) -> bool {
    &&& request.token@ == token
    &&& command_named(request.command@) == Some(name)
    &&& fields_of(request).within(allowed_fields(name))
}

/// Decodes a request. Nothing of its secret or of a private payload is left in
/// it, and where it is rejected nothing of any payload.
pub fn decode_control_request(request: &mut ControlRequest, read: ReadPayloads, token: &str) -> (result:
    Option<ControlRequestCommand>)
    ensures
        result == decoded(*old(request), read, token@),
        passes_checks(*old(request), CommandName::RunComplete, token@) ==> exit_code_reads_back(
            CommandName::RunComplete,
            *old(request),
            result,
        ),
        is_gone(final(request).secret),
        result is None ==> is_gone(final(request).config_path),
        command_named(old(request).command@) matches Some(name) && carries_payload(name)
            ==> is_gone(final(request).config_path),
{
    let command = decode_authenticated_request(request, read, token);
    if command.is_none() {
        zeroize_control_request_secrets(request);
    }
    command
}

fn decode_authenticated_request(request: &mut ControlRequest, read: ReadPayloads, token: &str) -> (result:
    Option<ControlRequestCommand>)
    ensures
        result == decoded(*old(request), read, token@),
        passes_checks(*old(request), CommandName::RunComplete, token@) ==> exit_code_reads_back(
            CommandName::RunComplete,
            *old(request),
            result,
        ),
        result is Some ==> is_gone(final(request).secret),
        result is Some && (command_named(old(request).command@) matches Some(name)
            && carries_payload(name)) ==> is_gone(final(request).config_path),
{
    if !token_matches(request.token.as_str(), token) {
        return None;
    }
    match CommandName::parse(request.command.as_str()) {
        Some(name) => {
            if !control_request_fields(request).is_subset_of(allowed_control_fields(name)) {
                return None;
            }
            decode_control_command(name, request, read)
        },
        None => None,
    }
}

} // verus!
