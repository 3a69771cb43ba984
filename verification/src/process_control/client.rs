//! The client half: one function per `zetta` subcommand that has to reach a
//! running window.
//!
//! Each function builds the request for one endpoint, with that endpoint's own
//! token, so a request cannot be built against one endpoint and sent to
//! another. Sending it, and reading the answer, is the caller's; what an answer
//! means is told here too.

use vstd::prelude::*;

use crate::command_panes::{PaneCommand, ShellCommandRequest};
use crate::local_sessions::paths::str_view;
use crate::pane::overlay::{color_of_value, OverlayFontSize, OverlayOpacity, PaneOverlayRequest};
use crate::process_control::commands::{command_named, law_command_names_read_back, CommandName};
use crate::process_control::decode::{
    decoded, encode_exit_code, exit_code_text, unless_empty, ReadPayloads,
};
use crate::process_control::endpoint::{config_path_identity, path_identity_of, ControlEndpoint};
use crate::process_control::{
    bare_request, font_size_named, given_empty, pane_command_sent_as, ControlError, ControlRequest,
    ControlRequestCommand, ControlResponse, PaneControlRequest, ShellCommandControlRequest,
    ThemeScope, MAX_ACTIVATION_TOKEN_BYTES,
};
use crate::project_commands::{byte_len, pairs};
use crate::run_command::RunPaneIdentity;
use crate::text::{
    clone_optional, optional_text, parse_unsigned, same_text, texts, unsigned_value,
};

verus! {

/// A pane to be replaced by a split, a profile or both.
#[derive(Debug, PartialEq, Eq)]
pub struct ReplacePaneRequest {
    pub split: Option<String>,
    pub profile: Option<String>,
    pub theme: Option<String>,
}

/// A call for attention to a tab.
#[derive(Debug, PartialEq, Eq)]
pub struct TabAttentionRequest {
    pub attention_id: u64,
    pub summary: String,
    pub body: Option<String>,
}

/// A name for a tab.
#[derive(Debug, PartialEq, Eq)]
pub struct TabNameRequest {
    pub attention_id: u64,
    pub name: Option<String>,
}

/// A name for a tab's worktree.
#[derive(Debug, PartialEq, Eq)]
pub struct WorktreeNameRequest {
    pub attention_id: u64,
    pub name: Option<String>,
}

/// Whether a request is for an endpoint and a command.
pub open spec fn addressed(request: ControlRequest, endpoint: ControlEndpoint, name: CommandName) -> bool {
    request.token == endpoint.token && request.command@ == name.word()
}

fn optional_owned(text: Option<&str>) -> (result: Option<String>)
    ensures
        optional_text(result) == str_view(text),
{
    match text {
        Some(text) => Some(text.to_owned()),
        None => None,
    }
}

/// The request for an endpoint and a command, without anything else.
pub fn request_to(endpoint: &ControlEndpoint, name: CommandName) -> (result: ControlRequest)
    ensures
        addressed(result, *endpoint, name),
        result == bare_request(result.token, result.command),
        command_named(result.command@) == Some(name),
{
    proof {
        law_command_names_read_back(name);
    }
    ControlRequest::bare(endpoint.token.clone(), name.name().to_owned())
}

/// Asks for a window, as a plain launch does.
pub fn request_existing_process_window(endpoint: &ControlEndpoint) -> (result: ControlRequest)
    ensures
        addressed(result, *endpoint, CommandName::OpenWindow),
        result == bare_request(result.token, result.command),
        forall|read: ReadPayloads| #[trigger]
            decoded(result, read, endpoint.token@) == Some(ControlRequestCommand::OpenWindow),
{
    request_existing_process_window_with_command(endpoint, CommandName::OpenWindow, None, None)
}

/// Asks for a fresh window, with a profile, and with a token to activate it.
pub fn request_existing_process_new_window(
    endpoint: &ControlEndpoint,
    profile: Option<&str>,
    activation_token: Option<&str>,
) -> (result: ControlRequest)
    ensures
        addressed(result, *endpoint, CommandName::NewWindow),
        result == (ControlRequest {
            profile: result.profile,
            config_path: result.config_path,
            ..bare_request(result.token, result.command)
        }),
        optional_text(result.profile) == str_view(profile),
        optional_text(result.config_path) == str_view(activation_token),
        new_window_accepted(profile, activation_token) ==> forall|read: ReadPayloads| #[trigger]
            decoded(result, read, endpoint.token@) == Some(
                ControlRequestCommand::OpenNewWindow {
                    profile: result.profile,
                    activation_token: unless_empty(result.config_path),
                },
            ),
{
    request_existing_process_window_with_command(
        endpoint,
        CommandName::NewWindow,
        profile,
        activation_token,
    )
}

/// Whether a profile and a token are what a window is opened with.
pub open spec fn new_window_accepted(profile: Option<&str>, activation_token: Option<&str>) -> bool {
    &&& profile matches Some(profile) ==> profile@.len() > 0
    &&& activation_token matches Some(token) ==> byte_len(token@) <= MAX_ACTIVATION_TOKEN_BYTES
}

/// Asks for a window in one of the two ways.
pub fn request_existing_process_window_with_command(
    endpoint: &ControlEndpoint,
    command: CommandName,
    profile: Option<&str>,
    activation_token: Option<&str>,
) -> (result: ControlRequest)
    ensures
        addressed(result, *endpoint, command),
        optional_text(result.profile) == str_view(profile),
        optional_text(result.config_path) == str_view(activation_token),
        result == (ControlRequest {
            profile: result.profile,
            config_path: result.config_path,
            ..bare_request(result.token, result.command)
        }),
        command_named(result.command@) == Some(command),
{
    send_open_window_request_with_command(endpoint, command, profile, activation_token)
}

/// The request for a plain window.
pub fn send_open_window_request(endpoint: &ControlEndpoint) -> (result: ControlRequest)
    ensures
        addressed(result, *endpoint, CommandName::OpenWindow),
        result == bare_request(result.token, result.command),
{
    send_open_window_request_with_command(endpoint, CommandName::OpenWindow, None, None)
}

/// The request for a fresh window.
pub fn send_open_new_window_request(endpoint: &ControlEndpoint) -> (result: ControlRequest)
    ensures
        addressed(result, *endpoint, CommandName::NewWindow),
        result == bare_request(result.token, result.command),
{
    send_open_window_request_with_command(endpoint, CommandName::NewWindow, None, None)
}

/// The request for a fresh window with a profile and an activation token.
pub fn send_open_new_window_request_with_profile_and_token(
    endpoint: &ControlEndpoint,
    profile: &str,
    activation_token: &str,
) -> (result: ControlRequest)
    ensures
        addressed(result, *endpoint, CommandName::NewWindow),
        optional_text(result.profile) == Some(profile@),
        optional_text(result.config_path) == Some(activation_token@),
        result == (ControlRequest {
            profile: result.profile,
            config_path: result.config_path,
            ..bare_request(result.token, result.command)
        }),
{
    send_open_window_request_with_command(
        endpoint,
        CommandName::NewWindow,
        Some(profile),
        Some(activation_token),
    )
}

/// The request for a window in one of the two ways.
pub fn send_open_window_request_with_command(
    endpoint: &ControlEndpoint,
    command: CommandName,
    profile: Option<&str>,
    activation_token: Option<&str>,
) -> (result: ControlRequest)
    ensures
        addressed(result, *endpoint, command),
        optional_text(result.profile) == str_view(profile),
        optional_text(result.config_path) == str_view(activation_token),
        result == (ControlRequest {
            profile: result.profile,
            config_path: result.config_path,
            ..bare_request(result.token, result.command)
        }),
        command_named(result.command@) == Some(command),
{
    let mut request = request_to(endpoint, command);
    request.config_path = optional_owned(activation_token);
    request.profile = optional_owned(profile);
    request
}

/// Asks for a project to be opened, from a directory inside it.
pub fn request_existing_process_project_with_working_directory(
    endpoint: &ControlEndpoint,
    root: &str,
    working_directory: Option<&str>,
) -> (result: ControlRequest)
    ensures
        addressed(result, *endpoint, CommandName::OpenProject),
        result == (ControlRequest {
            config_path: result.config_path,
            working_directory: result.working_directory,
            ..bare_request(result.token, result.command)
        }),
        optional_text(result.config_path) == Some(root@),
        optional_text(result.working_directory) == str_view(working_directory),
        root@.len() > 0 ==> forall|read: ReadPayloads| #[trigger]
            decoded(result, read, endpoint.token@) == Some(
                ControlRequestCommand::OpenProject {
                    root: result.config_path->0,
                    working_directory: unless_empty(result.working_directory),
                },
            ),
{
    let mut request = request_to(endpoint, CommandName::OpenProject);
    request.config_path = Some(root.to_owned());
    request.working_directory = optional_owned(working_directory);
    request
}

/// Asks for the list of projects to be read again. Every process is asked.
pub fn request_existing_process_projects_reload(endpoint: &ControlEndpoint) -> (result:
    ControlRequest)
    ensures
        addressed(result, *endpoint, CommandName::ReloadProjects),
        result == bare_request(result.token, result.command),
        forall|read: ReadPayloads| #[trigger]
            decoded(result, read, endpoint.token@) == Some(ControlRequestCommand::ReloadProjects),
{
    request_to(endpoint, CommandName::ReloadProjects)
}

/// Asks for a pane to be replaced.
pub fn request_existing_process_replace_pane(
    endpoint: &ControlEndpoint,
    request: &ReplacePaneRequest,
) -> (result: ControlRequest)
    ensures
        addressed(result, *endpoint, CommandName::ReplacePane),
        result == (ControlRequest {
            split: result.split,
            profile: result.profile,
            theme: result.theme,
            ..bare_request(result.token, result.command)
        }),
        result.split == request.split,
        result.profile == request.profile,
        result.theme == request.theme,
        (!given_empty(request.split) && !given_empty(request.profile) && !given_empty(request.theme)
            && (request.split is Some || request.profile is Some) && (request.theme is Some
            ==> request.profile is Some)) ==> forall|read: ReadPayloads| #[trigger]
            decoded(result, read, endpoint.token@) == Some(
                ControlRequestCommand::ReplacePane {
                    split: request.split,
                    profile: request.profile,
                    theme: request.theme,
                },
            ),
{
    let mut sent = request_to(endpoint, CommandName::ReplacePane);
    sent.split = clone_optional(&request.split);
    sent.profile = clone_optional(&request.profile);
    sent.theme = clone_optional(&request.theme);
    sent
}

/// Asks for a command to run in a pane.
pub fn request_existing_process_pane(endpoint: &ControlEndpoint, request: &PaneCommand) -> (result:
    ControlRequest)
    ensures
        addressed(result, *endpoint, CommandName::RunPane),
        result == (ControlRequest {
            pane_request: result.pane_request,
            ..bare_request(result.token, result.command)
        }),
        result.pane_request matches Some(sent) && pane_command_sent_as(*request, sent),
        forall|read: ReadPayloads| #[trigger]
            decoded(result, read, endpoint.token@) == match result.pane_request->0.pane_command() {
                Some(command) => Some(ControlRequestCommand::RunPane { request: command }),
                None => None,
            },
{
    let mut sent = request_to(endpoint, CommandName::RunPane);
    sent.pane_request = Some(PaneControlRequest::from_command(request));
    sent
}

/// Asks for a registered command to run.
pub fn request_process_shell_command(
    endpoint: &ControlEndpoint,
    request: &ShellCommandRequest,
) -> (result: ControlRequest)
    ensures
        addressed(result, *endpoint, CommandName::RunShellCommand),
        result == (ControlRequest {
            shell_command: result.shell_command,
            ..bare_request(result.token, result.command)
        }),
        result.shell_command matches Some(sent) && {
            &&& sent.command@ == request.command@
            &&& texts(sent.arguments@) == texts(request.arguments@)
            &&& pairs(sent.environment@) == pairs(request.environment@)
        },
        result.shell_command->0.acceptable() ==> forall|read: ReadPayloads| #[trigger]
            decoded(result, read, endpoint.token@) == Some(
                ControlRequestCommand::RunShellCommand {
                    request: ShellCommandRequest {
                        command: result.shell_command->0.command,
                        arguments: result.shell_command->0.arguments,
                        environment: result.shell_command->0.environment,
                    },
                },
            ),
{
    let mut sent = request_to(endpoint, CommandName::RunShellCommand);
    sent.shell_command = Some(ShellCommandControlRequest::from_request(request));
    sent
}

/// Asks for a command to run in a new tab.
pub fn request_existing_process_command(
    endpoint: &ControlEndpoint,
    request: &PaneCommand,
    working_directory: Option<&str>,
) -> (result: ControlRequest)
    ensures
        addressed(result, *endpoint, CommandName::OpenCommand),
        result == (ControlRequest {
            config_path: result.config_path,
            pane_request: result.pane_request,
            ..bare_request(result.token, result.command)
        }),
        result.pane_request matches Some(sent) && pane_command_sent_as(*request, sent),
        optional_text(result.config_path) == str_view(working_directory),
        forall|read: ReadPayloads| #[trigger]
            decoded(result, read, endpoint.token@) == match result.pane_request->0.pane_command() {
                Some(command) => if crate::process_control::decode::is_plain_command(command) {
                    Some(
                        ControlRequestCommand::OpenCommand {
                            request: command,
                            working_directory: unless_empty(result.config_path),
                        },
                    )
                } else {
                    None
                },
                None => None,
            },
{
    let mut sent = request_to(endpoint, CommandName::OpenCommand);
    sent.config_path = optional_owned(working_directory);
    sent.pane_request = Some(PaneControlRequest::from_command(request));
    sent
}

/// Asks for the labels of a tab's panes.
pub fn request_process_pane_labels(endpoint: &ControlEndpoint, attention_id: Option<u64>) -> (result:
    ControlRequest)
    ensures
        addressed(result, *endpoint, CommandName::ListPanes),
        result == (ControlRequest {
            attention_id: result.attention_id,
            ..bare_request(result.token, result.command)
        }),
        result.attention_id == attention_id,
        attention_id != Some(0u64) ==> forall|read: ReadPayloads| #[trigger]
            decoded(result, read, endpoint.token@) == Some(
                ControlRequestCommand::ListPaneLabels { attention_id },
            ),
{
    let mut sent = request_to(endpoint, CommandName::ListPanes);
    sent.attention_id = attention_id;
    sent
}

/// Asks for a tab's icon to be changed, by the name of the icon.
pub fn request_existing_process_tab_icon(endpoint: &ControlEndpoint, icon: Option<&str>) -> (result:
    ControlRequest)
    ensures
        addressed(result, *endpoint, CommandName::SetTabIcon),
        result == (ControlRequest {
            icon: result.icon,
            ..bare_request(result.token, result.command)
        }),
        optional_text(result.icon) == str_view(icon),
        forall|read: ReadPayloads|
            (icon is Some ==> read.icon is Some) ==> #[trigger] decoded(
                result,
                read,
                endpoint.token@,
            ) == Some(
                ControlRequestCommand::SetTabIcon {
                    icon: if icon is Some {
                        read.icon
                    } else {
                        None
                    },
                },
            ),
{
    let mut sent = request_to(endpoint, CommandName::SetTabIcon);
    sent.icon = optional_owned(icon);
    sent
}

/// Asks for a theme of a pane or a tab.
pub fn request_existing_process_theme(
    endpoint: &ControlEndpoint,
    scope: ThemeScope,
    theme: Option<String>,
) -> (result: ControlRequest)
    ensures
        addressed(result, *endpoint, CommandName::SetTheme),
        result == (ControlRequest {
            theme: result.theme,
            scope: result.scope,
            ..bare_request(result.token, result.command)
        }),
        optional_text(result.scope) == Some(scope.word()),
        result.theme == theme,
        !given_empty(theme) ==> forall|read: ReadPayloads| #[trigger]
            decoded(result, read, endpoint.token@) == Some(
                ControlRequestCommand::SetTheme { scope, theme },
            ),
{
    let mut sent = request_to(endpoint, CommandName::SetTheme);
    sent.theme = theme;
    sent.scope = Some(scope.name().to_owned());
    proof {
        reveal_strlit("pane");
        reveal_strlit("tab");
        assert("pane"@.len() != "tab"@.len());
    }
    sent
}

/// Asks for the names of the themes.
pub fn request_existing_process_theme_list(endpoint: &ControlEndpoint) -> (result: ControlRequest)
    ensures
        addressed(result, *endpoint, CommandName::ListThemes),
        result == bare_request(result.token, result.command),
        forall|read: ReadPayloads| #[trigger]
            decoded(result, read, endpoint.token@) == Some(ControlRequestCommand::ListThemes),
{
    request_to(endpoint, CommandName::ListThemes)
}

/// Asks for a pane's overlay to be set.
pub fn request_existing_process_pane_overlay(
    endpoint: &ControlEndpoint,
    request: &PaneOverlayRequest,
) -> (result: ControlRequest)
    ensures
        addressed(result, *endpoint, CommandName::SetOverlay),
        result == (ControlRequest {
            pane_overlay: result.pane_overlay,
            pane_overlay_font_size: result.pane_overlay_font_size,
            pane_overlay_opacity: result.pane_overlay_opacity,
            pane_overlay_color: result.pane_overlay_color,
            ..bare_request(result.token, result.command)
        }),
        result.pane_overlay == request.text,
        optional_text(result.pane_overlay_font_size) == match request.font_size {
            Some(size) => Some(size.spelling()),
            None => None,
        },
        result.pane_overlay_opacity == request.opacity,
        result.pane_overlay_color == request.color,
        (request.color matches Some(color) ==> color_of_value(color@) is Some) ==> forall|
            read: ReadPayloads,
        | #[trigger]
            decoded(result, read, endpoint.token@) == Some(
                ControlRequestCommand::SetPaneOverlay {
                    text: request.text,
                    font_size: request.font_size,
                    opacity: match request.opacity {
                        Some(percent) => Some(OverlayOpacity::Percent(percent as usize)),
                        None => None,
                    },
                    color: request.color,
                },
            ),
{
    let mut sent = request_to(endpoint, CommandName::SetOverlay);
    sent.pane_overlay = clone_optional(&request.text);
    sent.pane_overlay_font_size = match request.font_size {
        Some(size) => Some(size.cli_name().to_owned()),
        None => None,
    };
    sent.pane_overlay_opacity = request.opacity;
    sent.pane_overlay_color = clone_optional(&request.color);
    proof {
        if let Some(size) = request.font_size {
            let chosen = choose|other: OverlayFontSize| #[trigger]
                other.spelling() == size.spelling();
            crate::pane::overlay::law_font_size_names_are_distinct(size, chosen);
            assert(font_size_named(size.spelling()) == Some(size));
        }
    }
    sent
}

/// Asks for a configuration to be read again, by what identifies its file.
pub fn request_existing_process_configuration_reload(
    endpoint: &ControlEndpoint,
    path: &str,
    windows: bool,
) -> (result: ControlRequest)
    ensures
        addressed(result, *endpoint, CommandName::ReloadConfiguration),
        result == (ControlRequest {
            config_path: result.config_path,
            ..bare_request(result.token, result.command)
        }),
        optional_text(result.config_path) == Some(path_identity_of(path@, windows)),
        path_identity_of(path@, windows).len() > 0 ==> forall|read: ReadPayloads| #[trigger]
            decoded(result, read, endpoint.token@) == Some(
                ControlRequestCommand::ReloadConfiguration {
                    config_path: result.config_path->0,
                },
            ),
{
    let mut sent = request_to(endpoint, CommandName::ReloadConfiguration);
    sent.config_path = Some(config_path_identity(path, windows));
    sent
}

/// Calls for attention to a tab.
pub fn request_process_tab_attention(
    endpoint: &ControlEndpoint,
    request: &TabAttentionRequest,
) -> (result: ControlRequest)
    ensures
        addressed(result, *endpoint, CommandName::SetTabAttention),
        result == (ControlRequest {
            attention_id: result.attention_id,
            attention_summary: result.attention_summary,
            attention_body: result.attention_body,
            ..bare_request(result.token, result.command)
        }),
        result.attention_id == Some(request.attention_id),
        result.attention_summary == Some(request.summary),
        result.attention_body == request.body,
        (request.attention_id != 0 && request.summary@.len() > 0) ==> forall|read: ReadPayloads|
         #[trigger]
            decoded(result, read, endpoint.token@) == Some(
                ControlRequestCommand::SetTabAttention {
                    attention_id: request.attention_id,
                    summary: request.summary,
                    body: request.body,
                },
            ),
{
    let mut sent = request_to(endpoint, CommandName::SetTabAttention);
    sent.attention_id = Some(request.attention_id);
    sent.attention_summary = Some(request.summary.clone());
    sent.attention_body = clone_optional(&request.body);
    sent
}

/// Gives a tab a name, or takes it away.
pub fn request_process_tab_name(endpoint: &ControlEndpoint, request: &TabNameRequest) -> (result:
    ControlRequest)
    ensures
        addressed(result, *endpoint, CommandName::SetTabName),
        result == (ControlRequest {
            attention_id: result.attention_id,
            tab_name: result.tab_name,
            ..bare_request(result.token, result.command)
        }),
        result.attention_id == Some(request.attention_id),
        result.tab_name == request.name,
        (request.attention_id != 0 && !given_empty(request.name)) ==> forall|read: ReadPayloads|
         #[trigger]
            decoded(result, read, endpoint.token@) == Some(
                ControlRequestCommand::SetTabName {
                    attention_id: request.attention_id,
                    name: request.name,
                },
            ),
{
    let mut sent = request_to(endpoint, CommandName::SetTabName);
    sent.attention_id = Some(request.attention_id);
    sent.tab_name = clone_optional(&request.name);
    sent
}

/// Gives a tab's worktree a name, or takes it away.
pub fn request_process_worktree_name(endpoint: &ControlEndpoint, request: &WorktreeNameRequest) -> (result:
    ControlRequest)
    ensures
        addressed(result, *endpoint, CommandName::SetWorktreeName),
        result == (ControlRequest {
            attention_id: result.attention_id,
            worktree_name: result.worktree_name,
            ..bare_request(result.token, result.command)
        }),
        result.attention_id == Some(request.attention_id),
        result.worktree_name == request.name,
        (request.attention_id != 0 && !given_empty(request.name)) ==> forall|read: ReadPayloads|
         #[trigger]
            decoded(result, read, endpoint.token@) == Some(
                ControlRequestCommand::SetWorktreeName {
                    attention_id: request.attention_id,
                    name: request.name,
                },
            ),
{
    let mut sent = request_to(endpoint, CommandName::SetWorktreeName);
    sent.attention_id = Some(request.attention_id);
    sent.worktree_name = clone_optional(&request.name);
    sent
}

/// Why a request is not made.
#[derive(Clone, Copy, Debug, PartialEq, Eq, Structural)]
pub enum RequestError {
    /// A process id is not a positive number.
    ProcessId,
    /// An attention id is not a positive number.
    AttentionId,
    /// A pane id is not a positive number.
    PaneId,
}

/// Asks whether notifications are silenced.
pub fn request_process_silent_mode(
    endpoint: &ControlEndpoint,
    process_id: u32,
    attention_id: Option<u64>,
) -> (result: Result<ControlRequest, RequestError>)
    ensures
        if process_id == 0 {
            result == Err::<ControlRequest, RequestError>(RequestError::ProcessId)
        } else if attention_id == Some(0u64) {
            result == Err::<ControlRequest, RequestError>(RequestError::AttentionId)
        } else {
            result matches Ok(request) && {
                &&& addressed(request, *endpoint, CommandName::GetSilentMode)
                &&& request == (ControlRequest {
                    attention_id: attention_id,
                    ..bare_request(request.token, request.command)
                })
                &&& request.attention_id == attention_id
                &&& forall|read: ReadPayloads| #[trigger]
                    decoded(request, read, endpoint.token@) == Some(
                        ControlRequestCommand::GetSilentMode { attention_id },
                    )
            }
        },
{
    if process_id == 0 {
        return Err(RequestError::ProcessId);
    }
    if let Some(attention_id) = attention_id {
        if attention_id == 0 {
            return Err(RequestError::AttentionId);
        }
    }
    let mut sent = request_to(endpoint, CommandName::GetSilentMode);
    sent.attention_id = attention_id;
    Ok(sent)
}

/// Asks for a tab to be brought to the front.
pub fn request_process_focus_tab(endpoint: &ControlEndpoint, process_id: u32, attention_id: u64) -> (result:
    Result<ControlRequest, RequestError>)
    ensures
        if process_id == 0 {
            result == Err::<ControlRequest, RequestError>(RequestError::ProcessId)
        } else if attention_id == 0 {
            result == Err::<ControlRequest, RequestError>(RequestError::AttentionId)
        } else {
            result matches Ok(request) && {
                &&& addressed(request, *endpoint, CommandName::FocusTab)
                &&& request == (ControlRequest {
                    attention_id: Some(attention_id),
                    ..bare_request(request.token, request.command)
                })
                &&& request.attention_id == Some(attention_id)
                &&& forall|read: ReadPayloads| #[trigger]
                    decoded(request, read, endpoint.token@) == Some(
                        ControlRequestCommand::FocusTab { attention_id },
                    )
            }
        },
{
    if process_id == 0 {
        return Err(RequestError::ProcessId);
    }
    if attention_id == 0 {
        return Err(RequestError::AttentionId);
    }
    let mut sent = request_to(endpoint, CommandName::FocusTab);
    sent.attention_id = Some(attention_id);
    Ok(sent)
}

/// Who asks for a pane's theme, and for which pane.
#[derive(Debug, PartialEq, Eq)]
pub struct ProcessPaneThemeQuery {
    pub attention_id: u64,
    pub pane_id: Option<u64>,
}

impl ProcessPaneThemeQuery {
    /// The pane whose theme is asked for, of a process.
    pub fn new(process_id: u32, attention_id: u64, pane_id: Option<u64>) -> (result: Result<
        ProcessPaneThemeQuery,
        RequestError,
    >)
        ensures
            result == if process_id == 0 {
                Err::<ProcessPaneThemeQuery, RequestError>(RequestError::ProcessId)
            } else if attention_id == 0 {
                Err(RequestError::AttentionId)
            } else if pane_id == Some(0u64) {
                Err(RequestError::PaneId)
            } else {
                Ok(ProcessPaneThemeQuery { attention_id, pane_id })
            },
    {
        if process_id == 0 {
            return Err(RequestError::ProcessId);
        }
        if attention_id == 0 {
            return Err(RequestError::AttentionId);
        }
        if let Some(pane_id) = pane_id {
            if pane_id == 0 {
                return Err(RequestError::PaneId);
            }
        }
        Ok(ProcessPaneThemeQuery { attention_id, pane_id })
    }

    /// Asks for the pane's theme, if it has changed since `known_revision`.
    ///
    /// Pass `None` to force a full answer regardless of the revision; the
    /// watcher does that periodically so a revision that was never bumped
    /// cannot leave an editor showing stale colours indefinitely.
    pub fn theme_name(&self, endpoint: &ControlEndpoint, known_revision: Option<u64>) -> (result:
        ControlRequest)
        ensures
            addressed(result, *endpoint, CommandName::GetPaneTheme),
            result == (ControlRequest {
                pane_id: result.pane_id,
                attention_id: result.attention_id,
                pane_theme_revision: result.pane_theme_revision,
                ..bare_request(result.token, result.command)
            }),
            result.attention_id == Some(self.attention_id),
            result.pane_id == self.pane_id,
            result.pane_theme_revision == known_revision,
            (self.attention_id != 0 && self.pane_id != Some(0u64)) ==> forall|read: ReadPayloads|
             #[trigger]
                decoded(result, read, endpoint.token@) == Some(
                    ControlRequestCommand::GetPaneTheme {
                        attention_id: self.attention_id,
                        pane_id: self.pane_id,
                        known_revision,
                    },
                ),
    {
        let mut sent = request_to(endpoint, CommandName::GetPaneTheme);
        sent.pane_id = self.pane_id;
        sent.attention_id = Some(self.attention_id);
        sent.pane_theme_revision = known_revision;
        sent
    }
}

/// Asks for a command to run once others are done. `payload` is the encoded
/// rest of the request.
pub fn request_process_run_wait(
    endpoint: &ControlEndpoint,
    process_id: u32,
    owner: RunPaneIdentity,
    payload: String,
) -> (result: Result<ControlRequest, RequestError>)
    ensures
        if process_id == 0 {
            result == Err::<ControlRequest, RequestError>(RequestError::ProcessId)
        } else {
            result matches Ok(request) && {
                &&& addressed(request, *endpoint, CommandName::RunWait)
                &&& request == (ControlRequest {
                    pane_id: Some(owner.routing_id),
                    attention_id: Some(owner.attention_id),
                    config_path: Some(payload),
                    ..bare_request(request.token, request.command)
                })
                &&& command_named(request.command@) == Some(CommandName::RunWait)
            }
        },
{
    if process_id == 0 {
        return Err(RequestError::ProcessId);
    }
    let mut sent = request_to(endpoint, CommandName::RunWait);
    sent.pane_id = Some(owner.routing_id);
    sent.attention_id = Some(owner.attention_id);
    sent.config_path = Some(payload);
    Ok(sent)
}

/// Reports how a command that waited came out.
pub fn run_complete_request(token: &str, id: u64, exit_code: Option<i32>) -> (result:
    ControlRequest)
    ensures
        result.token@ == token@,
        result.command@ == CommandName::RunComplete.word(),
        command_named(result.command@) == Some(CommandName::RunComplete),
        optional_text(result.config_path) == Some(exit_code_text(exit_code)),
        result == (ControlRequest {
            session_id: Some(id),
            config_path: result.config_path,
            ..bare_request(result.token, result.command)
        }),
{
    proof {
        law_command_names_read_back(CommandName::RunComplete);
    }
    let mut sent = ControlRequest::bare(
        token.to_owned(),
        CommandName::RunComplete.name().to_owned(),
    );
    sent.session_id = Some(id);
    sent.config_path = Some(encode_exit_code(exit_code));
    sent
}

/// Whether an answer says that the command was accepted.
pub fn is_accepted(response: &ControlResponse) -> (result: bool)
    ensures
        result == (response.status@ == "ok"@),
{
    same_text(response.status.as_str(), "ok")
}

/// What an answer says of a command that is refused with a reason: whether it
/// was accepted, or why not.
pub fn accepted_or_reason(response: ControlResponse) -> (result: Result<bool, ControlError>)
    ensures
        result == if response.status@ == "ok"@ {
            Ok(true)
        } else {
            match response.error {
                Some(error) => Err(error),
                None => Ok(false),
            }
        },
{
    if is_accepted(&response) {
        return Ok(true);
    }
    match response.error {
        Some(error) => Err(error),
        None => Ok(false),
    }
}

/// What an answer says of pane labels: the labels, or why there are none.
pub fn pane_labels_answer(response: ControlResponse) -> (result: Result<
    Option<Vec<String>>,
    ControlError,
>)
    ensures
        result == if response.status@ == "ok"@ {
            Ok(Some(response.pane_labels))
        } else {
            match response.error {
                Some(error) => Err(error),
                None => Ok(None),
            }
        },
{
    if is_accepted(&response) {
        return Ok(Some(response.pane_labels));
    }
    match response.error {
        Some(error) => Err(error),
        None => Ok(None),
    }
}

/// What an answer says of the themes.
pub fn theme_list_answer(response: ControlResponse) -> (result: Option<Vec<String>>)
    ensures
        result == if response.status@ == "ok"@ {
            Some(response.themes)
        } else {
            None
        },
{
    if is_accepted(&response) {
        Some(response.themes)
    } else {
        None
    }
}

/// What an answer says of silent mode; nothing where it was refused.
pub fn silent_mode_answer(response: &ControlResponse) -> (result: Option<bool>)
    ensures
        result == if response.status@ == "ok"@ {
            Some(response.silent_mode)
        } else {
            None
        },
{
    if is_accepted(response) {
        Some(response.silent_mode)
    } else {
        None
    }
}

/// What a pane-theme query answered.
#[derive(Debug, PartialEq, Eq)]
pub enum PaneThemeAnswer {
    /// The revision the client already had is still current, so the theme it
    /// is using is still right.
    Unchanged,
    /// The theme as of `revision`. `name` is `None` when the pane has no theme
    /// of its own.
    Resolved { name: Option<String>, revision: Option<u64> },
}

/// What an answer says of a pane's theme.
pub open spec fn theme_read(response: ControlResponse) -> PaneThemeAnswer {
    if response.status@ == "unchanged"@ {
        PaneThemeAnswer::Unchanged
    } else {
        PaneThemeAnswer::Resolved {
            name: if response.status@ == "ok"@ {
                response.pane_theme
            } else {
                None
            },
            revision: response.pane_theme_revision,
        }
    }
}

/// What an answer says of a pane's theme.
pub fn pane_theme_answer(response: ControlResponse) -> (result: PaneThemeAnswer)
    ensures
        result == theme_read(response),
{
    if same_text(response.status.as_str(), "unchanged") {
        return PaneThemeAnswer::Unchanged;
    }
    PaneThemeAnswer::Resolved {
        name: if is_accepted(&response) {
            response.pane_theme
        } else {
            None
        },
        revision: response.pane_theme_revision,
    }
}

/// Why a wait did not begin.
#[derive(Debug, PartialEq, Eq)]
pub enum RunWaitError {
    /// The answer has no number for the run.
    MissingId,
    /// What was waited for failed, or the wait was refused, maybe with a
    /// reason.
    Refused(Option<String>),
    /// The answer makes no sense.
    Unexpected(String),
}

/// What an answer says of a wait.
pub open spec fn run_read(response: ControlResponse) -> Result<u64, RunWaitError> {
    if response.status@ == "ready"@ {
        match response.run_id {
            Some(id) => Ok(id),
            None => Err(RunWaitError::MissingId),
        }
    } else if response.status@ == "failed"@ || response.status@ == "rejected"@ {
        Err(
            RunWaitError::Refused(
                match response.error {
                    Some(error) => Some(error.message),
                    None => None,
                },
            ),
        )
    } else {
        Err(RunWaitError::Unexpected(response.status))
    }
}

/// What an answer says of a wait: the number of the run that is ready, or why
/// there is none.
pub fn run_wait_answer(response: ControlResponse) -> (result: Result<u64, RunWaitError>)
    ensures
        result == run_read(response),
{
    if same_text(response.status.as_str(), "ready") {
        match response.run_id {
            Some(id) => Ok(id),
            None => Err(RunWaitError::MissingId),
        }
    } else if same_text(response.status.as_str(), "failed") || same_text(
        response.status.as_str(),
        "rejected",
    ) {
        Err(
            RunWaitError::Refused(
                match response.error {
                    Some(error) => Some(error.message),
                    None => None,
                },
            ),
        )
    } else {
        Err(RunWaitError::Unexpected(response.status))
    }
}

/// The positive number that a text stands for.
pub open spec fn positive(text: Seq<char>, limit: nat) -> Option<nat> {
    match unsigned_value(text, limit) {
        Some(number) if number > 0 => Some(number),
        _ => None,
    }
}

/// The process that a pane belongs to, as its environment tells.
pub fn parse_process_id(text: &str) -> (result: Result<u32, RequestError>)
    ensures
        match positive(text@, u32::MAX as nat) {
            Some(number) => result == Ok::<u32, RequestError>(number as u32),
            None => result == Err::<u32, RequestError>(RequestError::ProcessId),
        },
{
    match parse_unsigned(text, u32::MAX as u64) {
        Some(number) => if number > 0 {
            Ok(number as u32)
        } else {
            Err(RequestError::ProcessId)
        },
        None => Err(RequestError::ProcessId),
    }
}

/// The tab that a pane belongs to, as its environment tells.
pub fn parse_attention_id(text: &str) -> (result: Result<u64, RequestError>)
    ensures
        match positive(text@, u64::MAX as nat) {
            Some(number) => result == Ok::<u64, RequestError>(number as u64),
            None => result == Err::<u64, RequestError>(RequestError::AttentionId),
        },
{
    match parse_unsigned(text, u64::MAX) {
        Some(number) => if number > 0 {
            Ok(number)
        } else {
            Err(RequestError::AttentionId)
        },
        None => Err(RequestError::AttentionId),
    }
}

/// How asking one endpoint came out.
#[derive(Clone, Copy, Debug, PartialEq, Eq, Structural)]
pub enum Attempt {
    Accepted,
    Declined,
    Failed,
}

/// How endpoints are asked in turn.
#[derive(Clone, Copy, Debug, PartialEq, Eq, Structural)]
pub enum Routing {
    /// Until one accepts; a failure is no worse than a refusal.
    FirstAccepting,
    /// All of them.
    Every,
    /// Until one accepts; if none does, the last failure is what comes out.
    FirstAcceptingOrLastFailure,
}

/// How asking endpoints in turn came out.
#[derive(Clone, Copy, Debug, PartialEq, Eq, Structural)]
pub enum RoutingOutcome {
    Accepted,
    NotAccepted,
    /// Asking the endpoint at this position failed.
    Failed(usize),
}

/// Asking endpoints in turn.
#[derive(Clone, Copy, Debug, PartialEq, Eq, Structural)]
pub struct EndpointSearch {
    pub routing: Routing,
    pub asked: usize,
    pub accepted: bool,
    pub last_failure: Option<usize>,
}

/// The position of the last failure.
pub open spec fn last_failure(attempts: Seq<Attempt>) -> Option<usize>
    decreases attempts.len(),
{
    if attempts.len() == 0 {
        None
    } else if attempts.last() == Attempt::Failed {
        Some((attempts.len() - 1) as usize)
    } else {
        last_failure(attempts.drop_last())
    }
}

impl EndpointSearch {
    /// Whether the search has come to this by the attempts.
    pub open spec fn after(self, attempts: Seq<Attempt>) -> bool {
        &&& self.asked == attempts.len()
        &&& self.accepted == attempts.contains(Attempt::Accepted)
        &&& self.last_failure == last_failure(attempts)
    }

    /// A search that has asked nobody yet.
    pub fn new(routing: Routing) -> (result: EndpointSearch)
        ensures
            result.routing == routing,
            result.after(Seq::empty()),
    {
        EndpointSearch { routing, asked: 0, accepted: false, last_failure: None }
    }

    /// Whether another endpoint is to be asked, if there is one.
    pub fn goes_on(&self) -> (result: bool)
        ensures
            result == (self.routing == Routing::Every || !self.accepted),
    {
        match self.routing {
            Routing::Every => true,
            _ => !self.accepted,
        }
    }

    /// Records how asking the next endpoint came out.
    pub fn record(&mut self, attempt: Attempt)
        requires
            old(self).asked < usize::MAX,
        ensures
            final(self).routing == old(self).routing,
            forall|attempts: Seq<Attempt>| #[trigger]
                old(self).after(attempts) ==> final(self).after(attempts.push(attempt)),
    {
        let ghost before = *self;
        match attempt {
            Attempt::Accepted => {
                self.accepted = true;
            },
            Attempt::Failed => {
                self.last_failure = Some(self.asked);
            },
            Attempt::Declined => {},
        }
        self.asked = self.asked + 1;
        proof {
            assert forall|attempts: Seq<Attempt>| #[trigger]
                before.after(attempts) implies self.after(attempts.push(attempt)) by {
                let longer = attempts.push(attempt);
                assert(longer.drop_last() == attempts);
                assert(longer.contains(Attempt::Accepted) == (attempts.contains(Attempt::Accepted)
                    || attempt == Attempt::Accepted)) by {
                    if attempts.contains(Attempt::Accepted) {
                        let i = choose|i: int|
                            0 <= i < attempts.len() && attempts[i] == Attempt::Accepted;
                        assert(longer[i] == Attempt::Accepted);
                    }
                    if attempt == Attempt::Accepted {
                        assert(longer[attempts.len() as int] == Attempt::Accepted);
                    }
                    if longer.contains(Attempt::Accepted) {
                        let i = choose|i: int|
                            0 <= i < longer.len() && longer[i] == Attempt::Accepted;
                        if i < attempts.len() {
                            assert(attempts[i] == Attempt::Accepted);
                        }
                    }
                }
            }
        }
    }

    /// How the search came out.
    pub fn outcome(&self) -> (result: RoutingOutcome)
        ensures
            result == if self.accepted {
                RoutingOutcome::Accepted
            } else {
                match (self.routing, self.last_failure) {
                    (
                        Routing::FirstAcceptingOrLastFailure,
                        Some(position),
                    ) => RoutingOutcome::Failed(position),
                    _ => RoutingOutcome::NotAccepted,
                }
            },
    {
        if self.accepted {
            return RoutingOutcome::Accepted;
        }
        match (self.routing, self.last_failure) {
            (Routing::FirstAcceptingOrLastFailure, Some(position)) => RoutingOutcome::Failed(
                position,
            ),
            _ => RoutingOutcome::NotAccepted,
        }
    }
}

/// A request that has another token than the one expected asks for nothing.
pub proof fn law_wrong_token_asks_for_nothing(
    request: ControlRequest,
    read: ReadPayloads,
    token: Seq<char>,
)
    requires
        request.token@ != token,
    ensures
        decoded(request, read, token) is None,
{
}

/// A request that sets a field which its command may not carry asks for
/// nothing, whatever else it says.
pub proof fn law_stray_field_asks_for_nothing(
    request: ControlRequest,
    read: ReadPayloads,
    token: Seq<char>,
    name: CommandName,
)
    requires
        command_named(request.command@) == Some(name),
        !crate::process_control::decode::fields_of(request).within(
            crate::process_control::decode::allowed_fields(name),
        ),
    ensures
        decoded(request, read, token) is None,
{
}

} // verus!
