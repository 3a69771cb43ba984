//! What holds of requests between processes.

use vstd::prelude::*;

use crate::pane::overlay::{OverlayFontSize, OverlayOpacity};
use crate::pane::overlay_laws::digit_of;
use crate::path::laws::law_going_back_undoes_going_in;
use crate::path::segments;
use crate::process_control::{
    bare_request, environment_acceptable, font_size_named, pair_bytes, ControlRequest,
    ControlRequestCommand, ControlResponse, PaneControlOverlayRequest, PaneControlRequest,
    ResumeIdentityPayload, RunWaitPayload, ThemeScope, MAX_SSH_TARGET_BYTES,
};
use crate::process_control::client::{
    last_failure, positive, run_read, theme_read, Attempt, PaneThemeAnswer, RunWaitError,
};
use crate::process_control::commands::{command_named, law_command_names_read_back, CommandName};
use crate::process_control::decode::{
    allowed_fields, carries_payload, decoded, exit_code_text, parsed_exit_code, scope_named,
    takes_secret, wait_acceptable, ReadPayloads,
};
use crate::process_control::endpoint::{
    endpoint_file_name, hex_of, live_endpoints, path_identity_of, socket_file_name, stale_endpoints,
    ControlEndpoint, FoundEndpoint,
};
use crate::process_control::server::{
    completion_step, is_bare_answer, is_run_answer, plan_of, registration_step, resolution_step,
    AnswerKind, ChannelEvent, CompletionStep, ControlPlan, RegistrationStep, ResolutionStep,
    RunWaitRegistration,
};
use crate::project_commands::byte_len;
use crate::run_command::RunResolutionMessage;
use crate::text::{
    decimal_text, has_prefix, lemma_decimal_round_trip, lemma_one_piece, lemma_pieces_of_two,
    pieces, unsigned_digits,
};

verus! {

/// A request for a remote session is understood with the target, the port, the session
/// and the secret that it names; and it is refused without a session, with a target
/// that is empty or would be taken for an option, or with port zero.
pub proof fn law_remote_session_is_understood(
    token: String,
    command: String,
    target: String,
    port: Option<u16>,
    session_id: u64,
    secret: Option<String>,
    read: ReadPayloads,
)
    requires
        command@ == CommandName::OpenRemoteSession.word(),
    ensures
        ({
            let request = ControlRequest {
                ssh_target: Some(target),
                ssh_port: port,
                session_id: Some(session_id),
                secret,
                ..bare_request(token, command)
            };
            let is_good = target@.len() > 0 && target@[0] != '-' && byte_len(target@)
                <= MAX_SSH_TARGET_BYTES && port != Some(0u16) && session_id != 0 && (
            secret matches Some(text) ==> text@.len() > 0);
            &&& is_good ==> (decoded(request, read, token@) matches Some(
                ControlRequestCommand::OpenRemoteSession {
                    target: to,
                    port: at,
                    session_id: id,
                    secret: given,
                },
            ) && to == target && at == port && id == session_id && match (secret, given) {
                (Some(text), Some(kept)) => kept.text == text,
                (None, None) => true,
                _ => false,
            })
            &&& !is_good ==> decoded(request, read, token@) is None
        }),
{
    law_command_names_read_back(CommandName::OpenRemoteSession);
    reveal_strlit("-");
    if target@.len() > 0 {
        assert(has_prefix(target@, "-"@) == (target@[0] == '-')) by {
            assert(target@.take(1)[0] == target@[0]);
            if target@[0] == '-' {
                assert(target@.take(1) =~= "-"@);
            }
        }
    }
}

/// A request to reconnect a session is understood with the runner, the session, the tab
/// and the secret that it names.
pub proof fn law_reconnection_is_understood(
    token: String,
    command: String,
    runner_id: u64,
    session_id: u64,
    attention_id: Option<u64>,
    secret: Option<String>,
    read: ReadPayloads,
)
    requires
        command@ == CommandName::ReconnectSession.word(),
        attention_id != Some(0u64),
    ensures
        ({
            let request = ControlRequest {
                runner_id: Some(runner_id),
                session_id: Some(session_id),
                attention_id,
                secret,
                ..bare_request(token, command)
            };
            decoded(request, read, token@) matches Some(ControlRequestCommand::ReconnectSession {
                runner_id: runner,
                session_id: session,
                attention_id: tab,
                secret: given,
            }) && runner == runner_id && session == session_id && tab == attention_id && match (
                secret,
                given,
            ) {
                (Some(text), Some(kept)) => kept.text == text,
                (None, None) => true,
                _ => false,
            }
        }),
{
    law_command_names_read_back(CommandName::ReconnectSession);
}

/// A request to resume a session from disk is understood with the session, the
/// identities and the secret that it names, each identity with its passphrase.
pub proof fn law_resumption_is_understood(
    token: String,
    command: String,
    session_id: u64,
    payload: String,
    identities: ResumeIdentityPayload,
    secret: Option<String>,
    read: ReadPayloads,
)
    requires
        command@ == CommandName::ResumeDiskSession.word(),
        read.resume_identity == Some(identities),
    ensures
        ({
            let request = ControlRequest {
                session_id: Some(session_id),
                config_path: Some(payload),
                secret,
                ..bare_request(token, command)
            };
            let is_good = identities.identity_paths@.len() == identities.identity_passphrases@.len()
                && forall|i: int|
                0 <= i < identities.identity_paths@.len() ==> (
                #[trigger] identities.identity_paths@[i])@.len() > 0;
            &&& is_good ==> (decoded(request, read, token@) matches Some(
                ControlRequestCommand::ResumeDiskSession {
                    session_id: id,
                    identity_paths,
                    identity_passphrases,
                    secret: given,
                },
            ) && id == session_id && identity_paths == identities.identity_paths
                && identity_passphrases == identities.identity_passphrases && match (secret, given) {
                (Some(text), Some(kept)) => kept.text == text,
                (None, None) => true,
                _ => false,
            })
            &&& !is_good ==> decoded(request, read, token@) is None
        }),
{
    law_command_names_read_back(CommandName::ResumeDiskSession);
}

/// A request to wait is understood with the pane that asks, what it waits for, whether
/// that may fail, and the command that runs after it.
pub proof fn law_waiting_is_understood(
    token: String,
    command: String,
    attention_id: u64,
    pane_id: u64,
    payload: String,
    wait: RunWaitPayload,
    read: ReadPayloads,
)
    requires
        command@ == CommandName::RunWait.word(),
        read.run_wait == Some(wait),
        wait_acceptable(wait),
    ensures
        ({
            let request = ControlRequest {
                attention_id: Some(attention_id),
                pane_id: Some(pane_id),
                config_path: Some(payload),
                ..bare_request(token, command)
            };
            &&& attention_id != 0 && pane_id != 0 ==> (decoded(request, read, token@) matches Some(
                ControlRequestCommand::RunWait { request: asked },
            ) && {
                &&& asked.owner.attention_id == attention_id
                &&& asked.owner.routing_id == pane_id
                &&& asked.dependencies == wait.dependencies
                &&& asked.allow_failure == wait.allow_failure
                &&& asked.command == wait.command
            })
            &&& attention_id == 0 || pane_id == 0 ==> decoded(request, read, token@) is None
        }),
{
    law_command_names_read_back(CommandName::RunWait);
}

/// A wait without anything to wait for, or without a command, is refused.
pub proof fn law_empty_wait_is_refused(wait: RunWaitPayload)
    ensures
        wait.dependencies@.len() == 0 ==> !wait_acceptable(wait),
        wait.command@.len() == 0 ==> !wait_acceptable(wait),
        wait.command@.len() > 0 && wait.command@[0]@.len() == 0 ==> !wait_acceptable(wait),
        (exists|i: int|
            0 <= i < wait.dependencies@.len() && (#[trigger] wait.dependencies@[i])@.len() == 0)
            ==> !wait_acceptable(wait),
{
    if exists|i: int|
        0 <= i < wait.dependencies@.len() && (#[trigger] wait.dependencies@[i])@.len() == 0 {
        let i = choose|i: int|
            0 <= i < wait.dependencies@.len() && (#[trigger] wait.dependencies@[i])@.len() == 0;
        assert(wait.dependencies@[i]@.len() == 0);
    }
}

/// A run that is over is understood with its number and its exit code; number zero is
/// refused.
pub proof fn law_end_of_a_run_is_understood(
    token: String,
    command: String,
    id: u64,
    payload: String,
    read: ReadPayloads,
)
    requires
        command@ == CommandName::RunComplete.word(),
    ensures
        ({
            let request = ControlRequest {
                session_id: Some(id),
                config_path: Some(payload),
                ..bare_request(token, command)
            };
            match parsed_exit_code(payload@) {
                Some(code) if id != 0 => decoded(request, read, token@) == Some(
                    ControlRequestCommand::RunComplete { id, exit_code: code },
                ),
                _ => decoded(request, read, token@) is None,
            }
        }),
{
    law_command_names_read_back(CommandName::RunComplete);
}

/// The scope of a theme is read from its word, and from no other.
pub proof fn law_scope_words_read_back(scope: ThemeScope, word: Seq<char>)
    ensures
        scope_named(scope.word()) == Some(scope),
        scope_named(word) matches Some(read) ==> read.word() == word,
        scope_named("pane"@) == Some(ThemeScope::Pane),
        scope_named("tab"@) == Some(ThemeScope::Tab),
{
    reveal_strlit("pane");
    reveal_strlit("tab");
    assert("pane"@.len() == 4 && "tab"@.len() == 3);
}

/// A font size is read from the word that it is written with, and from no other.
pub proof fn law_font_sizes_read_back(size: OverlayFontSize, word: Seq<char>)
    ensures
        font_size_named(size.spelling()) == Some(size),
        font_size_named(word) matches Some(read) ==> read.spelling() == word,
        (forall|any: OverlayFontSize| #[trigger] any.spelling() != word) ==> font_size_named(word)
            is None,
{
    let found = font_size_named(size.spelling());
    assert(exists|any: OverlayFontSize| #[trigger] any.spelling() == size.spelling());
    let read = found->0;
    assert(read.spelling() == size.spelling());
    crate::pane::overlay::law_font_size_names_are_distinct(read, size);
}

/// An overlay that is asked for has a text, an opacity of at most a hundred, a size and
/// a colour that exist; and it is the one that was asked for.
pub proof fn law_overlay_is_as_asked(asked: PaneControlOverlayRequest)
    ensures
        asked.overlay() matches Some(overlay) ==> {
            &&& asked.text is Some
            &&& overlay.text == asked.text
            &&& overlay.opacity == asked.opacity
            &&& overlay.color == asked.color
            &&& overlay.font_size is Some == asked.font_size is Some
            &&& overlay.font_size matches Some(size) ==> size.spelling() == asked.font_size->0@
            &&& overlay.opacity matches Some(percent) ==> percent <= 100
        },
        asked.text is None ==> asked.overlay() is None,
        asked.text is Some && asked.font_size is None && asked.opacity is None
            && asked.color is None ==> asked.overlay() is Some,
{
    if let Some(name) = asked.font_size {
        law_font_sizes_read_back(OverlayFontSize::Base, name@);
    }
}

/// A command for a pane that is asked for is the one that runs; one without words, or
/// one that splits and goes to a pane or a stack at once, is refused.
pub proof fn law_pane_command_is_as_asked(asked: PaneControlRequest)
    ensures
        asked.pane_command() matches Some(command) ==> {
            &&& command.label == asked.label
            &&& command.pane == asked.pane
            &&& command.stack == asked.stack
            &&& command.command == asked.command
            &&& command.direction is Some == asked.direction is Some
            &&& command.overlay is Some == asked.overlay is Some
            &&& !command.list
        },
        asked.command@.len() == 0 ==> asked.pane_command() is None,
        asked.direction is Some && (asked.pane is Some || asked.stack) ==> asked.pane_command()
            is None,
        asked.direction is None && (asked.label is Some || asked.overlay is Some)
            ==> asked.pane_command() is None,
{
}

/// The last failure is the last attempt that failed, and none comes after it.
pub proof fn law_last_failure_is_the_last(attempts: Seq<Attempt>)
    requires
        attempts.len() <= usize::MAX,
    ensures
        match last_failure(attempts) {
            Some(at) => at < attempts.len() && attempts[at as int] == Attempt::Failed && forall|
                i: int,
            |
                at < i < attempts.len() ==> #[trigger] attempts[i] != Attempt::Failed,
            None => !attempts.contains(Attempt::Failed),
        },
    decreases attempts.len(),
{
    if attempts.len() > 0 && attempts.last() != Attempt::Failed {
        let shorter = attempts.drop_last();
        law_last_failure_is_the_last(shorter);
        assert forall|i: int| 0 <= i < shorter.len() implies #[trigger] attempts[i]
            == shorter[i] by {}
        if last_failure(shorter) is None {
            assert forall|i: int| 0 <= i < attempts.len() implies attempts[i]
                != Attempt::Failed by {
                if i < shorter.len() {
                    assert(shorter.contains(shorter[i]));
                }
            }
        }
    }
}

/// A number that must be positive is read from its digits, and zero is refused.
pub proof fn law_positive_numbers_read_back(number: nat, limit: nat)
    ensures
        0 < number <= limit ==> positive(decimal_text(number), limit) == Some(number),
        number == 0 || number > limit ==> positive(decimal_text(number), limit) is None,
{
    lemma_decimal_round_trip(number);
    assert(unsigned_digits(decimal_text(number)) == decimal_text(number));
}

/// The environment of a command is refused where a variable occurs twice in whatever
/// case, and otherwise where one of its variables cannot be set; taking a variable out
/// never makes it worse.
pub proof fn law_environment_has_each_variable_once(list: Seq<(Seq<char>, Seq<char>)>, one: int, other: int)
    requires
        0 <= one < other < list.len(),
        crate::text::lowered(list[one].0) == crate::text::lowered(list[other].0),
    ensures
        !environment_acceptable(list),
{
    assert(crate::text::same_ignoring_case(list[one].0, list[other].0));
}

/// The size of an environment is that of its names and values together.
pub proof fn law_environment_sizes_add_up(
    list: Seq<(Seq<char>, Seq<char>)>,
    name: Seq<char>,
    value: Seq<char>,
)
    ensures
        pair_bytes(list.push((name, value))) == pair_bytes(list) + byte_len(name) + byte_len(value),
        pair_bytes(Seq::empty()) == 0,
{
    assert(list.push((name, value)).drop_last() =~= list);
}

/// Each command is asked for by its own word.
pub proof fn law_each_command_has_its_word()
    ensures
        command_named("reload_configuration"@) == Some(CommandName::ReloadConfiguration),
        command_named("open_window"@) == Some(CommandName::OpenWindow),
        command_named("new_window"@) == Some(CommandName::NewWindow),
        command_named("open_project"@) == Some(CommandName::OpenProject),
        command_named("reload_projects"@) == Some(CommandName::ReloadProjects),
        command_named("get_silent_mode"@) == Some(CommandName::GetSilentMode),
        command_named("replace_pane"@) == Some(CommandName::ReplacePane),
        command_named("run_wait"@) == Some(CommandName::RunWait),
        command_named("run_complete"@) == Some(CommandName::RunComplete),
        command_named("run_pane"@) == Some(CommandName::RunPane),
        command_named("run_shell_command"@) == Some(CommandName::RunShellCommand),
        command_named("open_command"@) == Some(CommandName::OpenCommand),
        command_named("list_panes"@) == Some(CommandName::ListPanes),
        command_named("open_remote_session"@) == Some(CommandName::OpenRemoteSession),
        command_named("reconnect_session"@) == Some(CommandName::ReconnectSession),
        command_named("resume_disk_session"@) == Some(CommandName::ResumeDiskSession),
        command_named("set_tab_icon"@) == Some(CommandName::SetTabIcon),
        command_named("set_theme"@) == Some(CommandName::SetTheme),
        command_named("list_themes"@) == Some(CommandName::ListThemes),
        command_named("get_pane_theme"@) == Some(CommandName::GetPaneTheme),
        command_named("set_overlay"@) == Some(CommandName::SetOverlay),
        command_named("set_tab_attention"@) == Some(CommandName::SetTabAttention),
        command_named("focus_tab"@) == Some(CommandName::FocusTab),
        command_named("set_tab_name"@) == Some(CommandName::SetTabName),
        command_named("set_worktree_name"@) == Some(CommandName::SetWorktreeName),
{
    law_command_names_read_back(CommandName::ReloadConfiguration);
    law_command_names_read_back(CommandName::OpenWindow);
    law_command_names_read_back(CommandName::NewWindow);
    law_command_names_read_back(CommandName::OpenProject);
    law_command_names_read_back(CommandName::ReloadProjects);
    law_command_names_read_back(CommandName::GetSilentMode);
    law_command_names_read_back(CommandName::ReplacePane);
    law_command_names_read_back(CommandName::RunWait);
    law_command_names_read_back(CommandName::RunComplete);
    law_command_names_read_back(CommandName::RunPane);
    law_command_names_read_back(CommandName::RunShellCommand);
    law_command_names_read_back(CommandName::OpenCommand);
    law_command_names_read_back(CommandName::ListPanes);
    law_command_names_read_back(CommandName::OpenRemoteSession);
    law_command_names_read_back(CommandName::ReconnectSession);
    law_command_names_read_back(CommandName::ResumeDiskSession);
    law_command_names_read_back(CommandName::SetTabIcon);
    law_command_names_read_back(CommandName::SetTheme);
    law_command_names_read_back(CommandName::ListThemes);
    law_command_names_read_back(CommandName::GetPaneTheme);
    law_command_names_read_back(CommandName::SetOverlay);
    law_command_names_read_back(CommandName::SetTabAttention);
    law_command_names_read_back(CommandName::FocusTab);
    law_command_names_read_back(CommandName::SetTabName);
    law_command_names_read_back(CommandName::SetWorktreeName);
}

/// Of a command that is understood, the application is asked with that command and no
/// other; a wait takes the connection over with what it asked for; and what is not
/// understood, or tells of a run's end out of turn, is refused.
pub proof fn law_understood_commands_are_passed_on(command: ControlRequestCommand, revision: u64)
    ensures
        plan_of(None, revision) == ControlPlan::Refused,
        match plan_of(Some(command), revision) {
            ControlPlan::Dispatch { command: passed, answer } => passed == command,
            ControlPlan::TakeOver(request) => command == ControlRequestCommand::RunWait { request },
            ControlPlan::Unchanged => command matches ControlRequestCommand::GetPaneTheme {
                known_revision,
                ..
            } && known_revision == Some(revision),
            ControlPlan::Refused => command is RunComplete,
        },
        command is RunComplete ==> plan_of(Some(command), revision) == ControlPlan::Refused,
        command is RunWait ==> plan_of(Some(command), revision) is TakeOver,
{
}

/// A question is answered with what it asks for: labels, a theme, themes, whether it is
/// silent, how a session came out, or whether it was done.
pub proof fn law_questions_get_their_answers(command: ControlRequestCommand, revision: u64)
    ensures
        plan_of(Some(command), revision) matches ControlPlan::Dispatch { command: _, answer } ==> {
            &&& answer == AnswerKind::PaneLabels <==> command is ListPaneLabels
            &&& answer == AnswerKind::PaneTheme <==> command is GetPaneTheme
            &&& answer == AnswerKind::Themes <==> command is ListThemes
            &&& answer == AnswerKind::SilentMode <==> command is GetSilentMode
            &&& answer == AnswerKind::RunResult <==> command is RunPane
            &&& answer == AnswerKind::ShellResult <==> command is RunShellCommand
            &&& answer == AnswerKind::Reconnect <==> (command is ReconnectSession
                || command is OpenRemoteSession || command is ResumeDiskSession)
        },
{
}

/// Every endpoint of this version that was found is asked where its process runs and
/// cleared away where it does not; and no other is touched.
pub proof fn law_endpoints_are_sorted_out(
    found: Seq<FoundEndpoint>,
    version: u32,
    endpoint: ControlEndpoint,
)
    ensures
        live_endpoints(found, version).contains(endpoint) <==> exists|i: int| #![trigger found[i]]
            0 <= i < found.len() && found[i].endpoint == Some(endpoint) && endpoint.version
                == version && found[i].running,
        stale_endpoints(found, version).contains(endpoint) <==> exists|i: int| #![trigger found[i]]
            0 <= i < found.len() && found[i].endpoint == Some(endpoint) && endpoint.version
                == version && !found[i].running,
    decreases found.len(),
{
    if found.len() > 0 {
        let shorter = found.drop_last();
        let last = found.last();
        law_endpoints_are_sorted_out(shorter, version, endpoint);
        assert(found[found.len() - 1] == last);
        assert forall|i: int| 0 <= i < shorter.len() implies #[trigger] found[i] == shorter[i] by {}
        let live = live_endpoints(shorter, version);
        let stale = stale_endpoints(shorter, version);
        if let Some(own) = last.endpoint {
            lemma_endpoint_pushed(live, own, endpoint);
            lemma_endpoint_pushed(stale, own, endpoint);
        }
        if exists|i: int| #![trigger shorter[i]]
            0 <= i < shorter.len() && shorter[i].endpoint == Some(endpoint) && endpoint.version
                == version && shorter[i].running {
            let i = choose|i: int| #![trigger shorter[i]]
                0 <= i < shorter.len() && shorter[i].endpoint == Some(endpoint) && endpoint.version
                    == version && shorter[i].running;
            assert(found[i] == shorter[i]);
        }
        if exists|i: int| #![trigger shorter[i]]
            0 <= i < shorter.len() && shorter[i].endpoint == Some(endpoint) && endpoint.version
                == version && !shorter[i].running {
            let i = choose|i: int| #![trigger shorter[i]]
                0 <= i < shorter.len() && shorter[i].endpoint == Some(endpoint) && endpoint.version
                    == version && !shorter[i].running;
            assert(found[i] == shorter[i]);
        }
    }
}

proof fn lemma_endpoint_pushed(
    list: Seq<ControlEndpoint>,
    last: ControlEndpoint,
    endpoint: ControlEndpoint,
)
    ensures
        list.push(last).contains(endpoint) == (list.contains(endpoint) || endpoint == last),
{
    let longer = list.push(last);
    assert(longer[list.len() as int] == last);
    if list.contains(endpoint) {
        let i = choose|i: int| 0 <= i < list.len() && list[i] == endpoint;
        assert(longer[i] == endpoint);
    }
    if longer.contains(endpoint) {
        let i = choose|i: int| 0 <= i < longer.len() && longer[i] == endpoint;
        if i < list.len() {
            assert(list[i] == endpoint);
        }
    }
}

/// A path means the same after going into a directory and back out, and from the root it
/// stays a path from the root.
pub proof fn law_detours_do_not_count(path: Seq<char>, name: Seq<char>)
    requires
        path.len() > 0,
        name.len() > 0,
        name != "."@,
        name != ".."@,
        !name.contains('/'),
    ensures
        path_identity_of(path + seq!['/'] + name + seq!['/', '.', '.'], false) == path_identity_of(
            path,
            false,
        ),
        path_identity_of(path + seq!['/', '.'], false) == path_identity_of(path, false),
        path[0] == '/' ==> path_identity_of(path, false).len() > 0 && path_identity_of(
            path,
            false,
        )[0] == '/',
{
    reveal_strlit(".");
    reveal_strlit("..");
    let inside = path + seq!['/'] + name;
    let out = inside + seq!['/', '.', '.'];
    let here = path + seq!['/', '.'];
    let dots = seq!['.', '.'];
    let dot = seq!['.'];
    assert(dots =~= ".."@ && dot =~= "."@);
    assert(!dots.contains('/') && !dot.contains('/'));
    assert(inside =~= path.push('/') + name);
    assert(out =~= inside.push('/') + dots);
    assert(here =~= path.push('/') + dot);
    lemma_pieces_of_two(path, name, '/');
    lemma_pieces_of_two(inside, dots, '/');
    lemma_pieces_of_two(path, dot, '/');
    lemma_one_piece(name, '/');
    lemma_one_piece(dots, '/');
    lemma_one_piece(dot, '/');
    let parts = pieces(path, '/');
    assert((parts + seq![name]).drop_last() =~= parts && (parts + seq![name]).last() == name);
    assert(segments(inside) == segments(path).push(name));
    let further = parts + seq![name];
    assert((further + seq![dots]).drop_last() =~= further && (further + seq![dots]).last() == dots);
    assert(segments(out) == segments(path).push(name).push(".."@));
    assert((parts + seq![dot]).drop_last() =~= parts && (parts + seq![dot]).last() == dot);
    assert(segments(here) == segments(path));
    law_going_back_undoes_going_in(segments(path), name);
    assert(out.first() == path.first() && here.first() == path.first());
}

/// The commands that carry a secret are those that open a kept session, and the ones that
/// carry more than fits in a field are those that wait, end and resume.
pub proof fn law_secrets_come_with_sessions(name: CommandName)
    ensures
        takes_secret(CommandName::OpenRemoteSession),
        takes_secret(CommandName::ReconnectSession),
        takes_secret(CommandName::ResumeDiskSession),
        takes_secret(name) <==> allowed_fields(name).secret,
        carries_payload(CommandName::RunWait),
        carries_payload(CommandName::RunComplete),
        carries_payload(CommandName::ResumeDiskSession),
        carries_payload(name) ==> allowed_fields(name).config_path,
{
}

/// The code of a run's end is sent as its number, or as nothing where there is none.
pub proof fn law_exit_codes_are_sent_as_numbers(code: i32)
    ensures
        exit_code_text(None) == "null"@,
        code >= 0 ==> exit_code_text(Some(code)) == decimal_text(code as nat),
        code < 0 ==> exit_code_text(Some(code)) == seq!['-'] + decimal_text((-code) as nat),
{
}

/// A field that a command does not take is refused with it, and what a command takes is
/// what it is about.
pub proof fn law_commands_take_their_fields()
    ensures
        allowed_fields(CommandName::OpenRemoteSession).ssh_target,
        allowed_fields(CommandName::OpenRemoteSession).ssh_port,
        allowed_fields(CommandName::ReconnectSession).runner_id,
        allowed_fields(CommandName::ReconnectSession).session_id,
        allowed_fields(CommandName::ReloadConfiguration).config_path,
        allowed_fields(CommandName::OpenProject).working_directory,
        allowed_fields(CommandName::RunPane).pane_request,
        allowed_fields(CommandName::RunShellCommand).shell_command,
        allowed_fields(CommandName::SetTheme).scope && allowed_fields(CommandName::SetTheme).theme,
        allowed_fields(CommandName::SetTabIcon).icon,
        allowed_fields(CommandName::SetOverlay).pane_overlay_color,
        allowed_fields(CommandName::SetTabName).tab_name,
        allowed_fields(CommandName::SetWorktreeName).worktree_name,
        allowed_fields(CommandName::SetTabAttention).attention_summary,
        allowed_fields(CommandName::GetPaneTheme).pane_theme_revision,
        !allowed_fields(CommandName::SetTabName).worktree_name,
        !allowed_fields(CommandName::SetWorktreeName).tab_name,
        !allowed_fields(CommandName::RunPane).shell_command,
        !allowed_fields(CommandName::OpenWindow).config_path,
        forall|name: CommandName| #[trigger]
            allowed_fields(name).ssh_target ==> name == CommandName::OpenRemoteSession,
        forall|name: CommandName| #[trigger]
            allowed_fields(name).shell_command ==> name == CommandName::RunShellCommand,
{
}

/// Each byte is written as two digits, the higher one first, in lower case.
pub proof fn law_bytes_are_written_in_hex(bytes: Seq<u8>, at: int)
    requires
        0 <= at < bytes.len(),
    ensures
        hex_of(bytes).len() == 2 * bytes.len(),
        hex_of(bytes)[2 * at] == digit_of(bytes[at] as int / 16),
        hex_of(bytes)[2 * at + 1] == digit_of(bytes[at] as int % 16),
{
    assert((2 * at) / 2 == at && (2 * at) % 2 == 0);
    assert((2 * at + 1) / 2 == at && (2 * at + 1) % 2 == 1);
}

/// A process is reached by files of its own number.
pub proof fn law_files_have_the_number_of_the_process(process_id: nat)
    ensures
        endpoint_file_name(process_id) == "control-"@ + decimal_text(process_id) + ".json"@,
        socket_file_name(process_id) == "control-"@ + decimal_text(process_id) + ".sock"@,
{
}

/// What the server answers to a wait is what the client reads of it: the number of the
/// run that is ready, or the message with which it failed or was refused.
pub proof fn law_run_answers_are_read(
    response: ControlResponse,
    id: u64,
    run_id: Option<u64>,
    code: Seq<char>,
    message: Seq<char>,
)
    ensures
        is_run_answer(response, "ready"@, Some(id), None) ==> run_read(response) == Ok::<
            u64,
            RunWaitError,
        >(id),
        is_run_answer(response, "failed"@, run_id, Some((code, message))) ==> (run_read(
            response,
        ) matches Err(RunWaitError::Refused(Some(said))) && said@ == message),
        is_run_answer(response, "rejected"@, run_id, Some((code, message))) ==> (run_read(
            response,
        ) matches Err(RunWaitError::Refused(Some(said))) && said@ == message),
        is_run_answer(response, "ready"@, None, None) ==> run_read(response) == Err::<
            u64,
            RunWaitError,
        >(RunWaitError::MissingId),
        is_bare_answer(response, "ok"@) ==> run_read(response) is Err,
{
    reveal_strlit("ready");
    reveal_strlit("failed");
    reveal_strlit("rejected");
    reveal_strlit("ok");
    assert("ready"@.len() == 5 && "failed"@.len() == 6 && "rejected"@.len() == 8 && "ok"@.len()
        == 2);
}

/// What the server answers of a pane's theme is what the client reads: unchanged where
/// the client's revision still counts, else the theme with its revision.
pub proof fn law_theme_answers_are_read(response: ControlResponse, theme: String, revision: u64)
    ensures
        is_bare_answer(response, "unchanged"@) ==> theme_read(response)
            == PaneThemeAnswer::Unchanged,
        response.status@ == "ok"@ && response.pane_theme == Some(theme)
            && response.pane_theme_revision == Some(revision) ==> theme_read(response) == (
        PaneThemeAnswer::Resolved { name: Some(theme), revision: Some(revision) }),
        response.status@ == "rejected"@ ==> (theme_read(response) matches PaneThemeAnswer::Resolved {
            name,
            ..
        } && name is None),
{
    reveal_strlit("unchanged");
    reveal_strlit("ok");
    reveal_strlit("rejected");
    assert("unchanged"@.len() == 9 && "ok"@.len() == 2 && "rejected"@.len() == 8);
}

/// A run is registered for the client that asked; one that is registered after its client
/// has gone is given up; and nothing is registered while the process stops.
pub proof fn law_run_is_registered_for_its_client(
    id: u64,
    reason: String,
    gone: bool,
    event: ChannelEvent<Result<u64, String>>,
)
    ensures
        registration_step(false, false, ChannelEvent::Received(Ok(id)), gone) == (
        RegistrationStep::Done {
            registration: RunWaitRegistration::Registered(Ok(id)),
            lost: None,
        }),
        registration_step(false, false, ChannelEvent::Received(Err(reason)), gone) == (
        RegistrationStep::Done {
            registration: RunWaitRegistration::Registered(Err(reason)),
            lost: None,
        }),
        registration_step(false, true, ChannelEvent::Received(Ok(id)), gone) == (
        RegistrationStep::Done {
            registration: RunWaitRegistration::ClientDisconnected,
            lost: Some(id),
        }),
        registration_step(true, gone, event, gone) == (RegistrationStep::Done {
            registration: RunWaitRegistration::Stopping,
            lost: None,
        }),
        registration_step(false, false, ChannelEvent::TimedOut, gone) == (
        RegistrationStep::Continue { client_disconnected: gone }),
        registration_step(false, true, ChannelEvent::TimedOut, gone) == (
        RegistrationStep::Continue { client_disconnected: true }),
{
}

/// A run waits until it is resolved, and is given up where its client goes or the process
/// stops; a command that runs is done when its own end is told, and lost when anything
/// else is.
pub proof fn law_run_ends_with_its_own_end(
    message: RunResolutionMessage,
    gone: bool,
    id: u64,
    other: u64,
    code: Option<i32>,
)
    ensures
        resolution_step(false, ChannelEvent::Received(message), gone) == ResolutionStep::Resolved(
            message,
        ),
        resolution_step(true, ChannelEvent::Received(message), gone) == ResolutionStep::Abandon,
        resolution_step(false, ChannelEvent::TimedOut, true) == ResolutionStep::Abandon,
        resolution_step(false, ChannelEvent::TimedOut, false) == ResolutionStep::Continue,
        completion_step(
            false,
            id,
            ChannelEvent::Received(
                Some(ControlRequestCommand::RunComplete { id: other, exit_code: code }),
            ),
        ) == if other == id {
            CompletionStep::Completed(code)
        } else {
            CompletionStep::Lost
        },
        completion_step(false, id, ChannelEvent::Received(None)) == CompletionStep::Lost,
        completion_step(false, id, ChannelEvent::Disconnected) == CompletionStep::Lost,
        completion_step(false, id, ChannelEvent::TimedOut) == CompletionStep::Continue,
        completion_step(true, id, ChannelEvent::TimedOut) == CompletionStep::Abandon,
{
}

/// Requests about windows and projects are understood with the file, the profile, the
/// root and the directory that they name.
pub proof fn law_window_requests_are_understood(
    token: String,
    command: String,
    path: String,
    text: String,
    read: ReadPayloads,
)
    requires
        path@.len() > 0,
        text@.len() > 0,
    ensures
        ({
            let bare = bare_request(token, command);
            let with_path = ControlRequest { config_path: Some(path), ..bare };
            let with_both = ControlRequest {
                config_path: Some(path),
                working_directory: Some(text),
                ..bare
            };
            let with_profile = ControlRequest { profile: Some(text), ..bare };
            &&& command@ == "open_window"@ ==> decoded(bare, read, token@) == Some(
                ControlRequestCommand::OpenWindow,
            )
            &&& command@ == "reload_projects"@ ==> decoded(bare, read, token@) == Some(
                ControlRequestCommand::ReloadProjects,
            )
            &&& command@ == "reload_configuration"@ ==> decoded(with_path, read, token@) == Some(
                ControlRequestCommand::ReloadConfiguration { config_path: path },
            ) && decoded(bare, read, token@) is None
            &&& command@ == "open_project"@ ==> decoded(with_both, read, token@) == Some(
                ControlRequestCommand::OpenProject { root: path, working_directory: Some(text) },
            ) && decoded(bare, read, token@) is None
            &&& command@ == "new_window"@ ==> decoded(with_profile, read, token@) == Some(
                ControlRequestCommand::OpenNewWindow { profile: Some(text), activation_token: None },
            )
        }),
{
    law_each_command_has_its_word();
}

/// Requests about tabs are understood with the tab and the name or the message that they
/// give, and refused for tab zero.
pub proof fn law_tab_requests_are_understood(
    token: String,
    command: String,
    tab: u64,
    text: String,
    read: ReadPayloads,
)
    requires
        text@.len() > 0,
        tab != 0,
    ensures
        ({
            let bare = bare_request(token, command);
            let of_tab = ControlRequest { attention_id: Some(tab), ..bare };
            let of_none = ControlRequest { attention_id: Some(0), ..bare };
            let named = ControlRequest { tab_name: Some(text), ..of_tab };
            let in_worktree = ControlRequest { worktree_name: Some(text), ..of_tab };
            let calling = ControlRequest { attention_summary: Some(text), ..of_tab };
            &&& command@ == "focus_tab"@ ==> decoded(of_tab, read, token@) == Some(
                ControlRequestCommand::FocusTab { attention_id: tab },
            ) && decoded(of_none, read, token@) is None && decoded(bare, read, token@) is None
            &&& command@ == "set_tab_name"@ ==> decoded(named, read, token@) == Some(
                ControlRequestCommand::SetTabName { attention_id: tab, name: Some(text) },
            ) && decoded(of_tab, read, token@) == Some(
                ControlRequestCommand::SetTabName { attention_id: tab, name: None },
            )
            &&& command@ == "set_worktree_name"@ ==> decoded(in_worktree, read, token@) == Some(
                ControlRequestCommand::SetWorktreeName { attention_id: tab, name: Some(text) },
            )
            &&& command@ == "set_tab_attention"@ ==> decoded(calling, read, token@) == Some(
                ControlRequestCommand::SetTabAttention {
                    attention_id: tab,
                    summary: text,
                    body: None,
                },
            ) && decoded(of_tab, read, token@) is None
            &&& command@ == "get_silent_mode"@ ==> decoded(of_tab, read, token@) == Some(
                ControlRequestCommand::GetSilentMode { attention_id: Some(tab) },
            ) && decoded(bare, read, token@) == Some(
                ControlRequestCommand::GetSilentMode { attention_id: None },
            ) && decoded(of_none, read, token@) is None
            &&& command@ == "list_panes"@ ==> decoded(of_tab, read, token@) == Some(
                ControlRequestCommand::ListPaneLabels { attention_id: Some(tab) },
            ) && decoded(of_none, read, token@) is None
        }),
{
    law_each_command_has_its_word();
}

/// Requests about looks are understood with the icon, the theme and the overlay that they
/// give.
pub proof fn law_look_requests_are_understood(
    token: String,
    command: String,
    tab: u64,
    pane: u64,
    revision: u64,
    text: String,
    word: String,
    scope: ThemeScope,
    percent: u8,
    read: ReadPayloads,
)
    requires
        text@.len() > 0,
        tab != 0,
        pane != 0,
        word@ == scope.word(),
    ensures
        ({
            let bare = bare_request(token, command);
            let iconic = ControlRequest { icon: Some(text), ..bare };
            let themed = ControlRequest { scope: Some(word), theme: Some(text), ..bare };
            let overlaid = ControlRequest {
                pane_overlay: Some(text),
                pane_overlay_opacity: Some(percent),
                ..bare
            };
            let asking = ControlRequest {
                attention_id: Some(tab),
                pane_id: Some(pane),
                pane_theme_revision: Some(revision),
                ..bare
            };
            &&& command@ == "list_themes"@ ==> decoded(bare, read, token@) == Some(
                ControlRequestCommand::ListThemes,
            )
            &&& command@ == "set_tab_icon"@ ==> decoded(bare, read, token@) == Some(
                ControlRequestCommand::SetTabIcon { icon: None },
            ) && (read.icon matches Some(icon) ==> decoded(iconic, read, token@) == Some(
                ControlRequestCommand::SetTabIcon { icon: Some(icon) },
            )) && (read.icon is None ==> decoded(iconic, read, token@) is None)
            &&& command@ == "set_theme"@ ==> decoded(themed, read, token@) == Some(
                ControlRequestCommand::SetTheme { scope, theme: Some(text) },
            ) && decoded(bare, read, token@) is None
            &&& command@ == "set_overlay"@ ==> (decoded(overlaid, read, token@) matches Some(
                ControlRequestCommand::SetPaneOverlay { text: shown, font_size, opacity, color },
            ) && shown == Some(text) && font_size is None && color is None && opacity == Some(
                OverlayOpacity::Percent(percent as usize),
            ))
            &&& command@ == "get_pane_theme"@ ==> decoded(asking, read, token@) == Some(
                ControlRequestCommand::GetPaneTheme {
                    attention_id: tab,
                    pane_id: Some(pane),
                    known_revision: Some(revision),
                },
            ) && decoded(bare, read, token@) is None
        }),
{
    law_each_command_has_its_word();
    law_scope_words_read_back(scope, word@);
}

} // verus!
