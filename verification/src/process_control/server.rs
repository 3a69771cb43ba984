//! The per-process control server: what a decoded request asks the application
//! for, how long its answer is waited for, and what is answered.
//!
//! The sockets, the threads and the channels are the caller's. It tells here
//! what came over them, and is told what to do next.

use vstd::prelude::*;

use crate::pane::overlay::{color_of_value, overlay_color_from_value, RgbaColor};
use crate::process_control::{
    ControlError, ControlRequestCommand, ControlResponse, ReconnectSessionResult,
    MAX_CONTROL_MESSAGE_BYTES,
};
use crate::run_command::{RunResolution, RunResolutionMessage, RunWaitRequest};
use crate::secrets::wipe_bytes;
use crate::text::same_text;

verus! {

/// How long the application may take to answer, in milliseconds.
pub const CONTROL_COMPLETION_TIMEOUT: u64 = 2_000;

/// How often a wait for an answer looks whether the process is stopping, in
/// milliseconds.
pub const CONTROL_COMPLETION_POLL_INTERVAL: u64 = 25;

/// How often a run's connection looks at what cannot wake it — the shutdown
/// flag, and whether its client has gone — in milliseconds.
pub const RUN_WAIT_SUPERVISION_INTERVAL: u64 = 250;

/// How long a client waits for an answer, in milliseconds.
pub const CONTROL_CLIENT_TIMEOUT: u64 = 3_000;

/// How long reconnecting a session may take, in milliseconds. Verifying its
/// secret can take seconds on a slow machine, and a wrong one is answered only
/// after a delay.
pub const RECONNECT_COMPLETION_TIMEOUT: u64 = 60_000;

/// Where the first message of what was received ends: its line feed, which has
/// to be among the first bytes, as many as a message may have and one.
pub open spec fn message_end(received: Seq<u8>) -> Option<int> {
    if exists|end: int| is_message_end(received, end) {
        Some(choose|end: int| is_message_end(received, end))
    } else {
        None
    }
}

/// Whether the first line feed stands here, and a message may be that long.
pub open spec fn is_message_end(received: Seq<u8>, end: int) -> bool {
    &&& 0 <= end < received.len()
    &&& end <= MAX_CONTROL_MESSAGE_BYTES
    &&& received[end] == 10
    &&& forall|i: int| 0 <= i < end ==> received[i] != 10
}

/// The first message of what was received, without its line feed, or nothing
/// where it is too long or incomplete. A request can carry a secret, so the
/// message is left where it stands rather than copied, and what is no message is
/// overwritten.
pub fn read_message(received: Vec<u8>) -> (result: Option<Vec<u8>>)
    ensures
        match message_end(received@) {
            Some(end) => result matches Some(message) && message@ == received@.take(end),
            None => result is None,
        },
{
    let ghost all = received@;
    let mut message = received;
    let mut index: usize = 0;
    while index < message.len() && index <= MAX_CONTROL_MESSAGE_BYTES
        invariant
            all == received@,
            message@ == all,
            index <= all.len(),
            index <= MAX_CONTROL_MESSAGE_BYTES + 1,
            forall|i: int| 0 <= i < index ==> all[i] != 10,
        decreases all.len() - index,
    {
        if message[index] == 10 {
            proof {
                assert(is_message_end(all, index as int));
                let end = message_end(all)->0;
                assert(is_message_end(all, end));
                assert(end == index) by {
                    if end < index {
                        assert(all[end] != 10);
                    }
                }
            }
            message.truncate(index);
            return Some(message);
        }
        index = index + 1;
    }
    proof {
        assert forall|end: int| !is_message_end(all, end) by {
            if is_message_end(all, end) {
                assert(end < index);
            }
        }
    }
    wipe_bytes(&mut message);
    None
}

/// A message as it is sent: its bytes and a line feed.
pub fn write_message(message: Vec<u8>) -> (result: Vec<u8>)
    ensures
        result@ == message@.push(10),
{
    let mut framed = message;
    framed.push(10);
    framed
}

/// A message without line feeds in it, not longer than one may be, is read as
/// it was written, whatever follows.
pub proof fn law_messages_read_back(message: Seq<u8>, following: Seq<u8>)
    requires
        message.len() <= MAX_CONTROL_MESSAGE_BYTES,
        forall|i: int| 0 <= i < message.len() ==> message[i] != 10,
    ensures
        message_end(message.push(10) + following) == Some(message.len() as int),
        (message.push(10) + following).take(message.len() as int) == message,
{
    let received = message.push(10) + following;
    let length = message.len() as int;
    assert(received.take(length) =~= message);
    assert(received[length] == 10);
    assert forall|i: int| 0 <= i < length implies received[i] != 10 by {
        assert(received[i] == message[i]);
    }
    assert(is_message_end(received, length));
    let end = message_end(received)->0;
    assert(is_message_end(received, end));
    if end < length {
        assert(received[end] != 10);
    }
    if length < end {
        assert(received[length] != 10);
    }
}

/// An answer with nothing but a status.
pub open spec fn is_bare_answer(response: ControlResponse, status: Seq<char>) -> bool {
    &&& response.status@ == status
    &&& response.run_id is None
    &&& response.themes@.len() == 0
    &&& response.pane_theme is None
    &&& response.pane_theme_revision is None
    &&& !response.silent_mode
    &&& response.pane_labels@.len() == 0
    &&& response.error is None
}

/// An answer with nothing but a status.
pub fn bare_answer(status: &str) -> (result: ControlResponse)
    ensures
        is_bare_answer(result, status@),
{
    ControlResponse {
        status: status.to_owned(),
        run_id: None,
        themes: Vec::new(),
        pane_theme: None,
        pane_theme_revision: None,
        silent_mode: false,
        pane_labels: Vec::new(),
        error: None,
    }
}

/// The answer that the application owes to a command.
#[derive(Clone, Copy, Debug, PartialEq, Eq, Structural)]
pub enum AnswerKind {
    /// Whether it was done.
    Acknowledgement,
    /// Nothing, or why it was refused.
    RunResult,
    /// The same, for a shell command.
    ShellResult,
    /// The labels of panes, or why there are none.
    PaneLabels,
    /// A pane's theme, or why there is none.
    PaneTheme,
    /// The names of the themes.
    Themes,
    /// Whether notifications are silenced.
    SilentMode,
    /// How reconnecting a session came out.
    Reconnect,
}

/// What is to be done about a request.
pub enum ControlPlan {
    /// It is answered at once.
    Refused,
    Unchanged,
    /// It takes the connection over, and is answered on it twice: once when
    /// the wait is registered and once when the command it wraps has run.
    TakeOver(RunWaitRequest),
    /// The application is asked.
    Dispatch { command: ControlRequestCommand, answer: AnswerKind },
}

/// The answer that the application owes to a command.
pub open spec fn answer_kind(command: ControlRequestCommand) -> AnswerKind {
    match command {
        ControlRequestCommand::RunPane { .. } => AnswerKind::RunResult,
        ControlRequestCommand::RunShellCommand { .. } => AnswerKind::ShellResult,
        ControlRequestCommand::ListPaneLabels { .. } => AnswerKind::PaneLabels,
        ControlRequestCommand::GetPaneTheme { .. } => AnswerKind::PaneTheme,
        ControlRequestCommand::ListThemes => AnswerKind::Themes,
        ControlRequestCommand::GetSilentMode { .. } => AnswerKind::SilentMode,
        ControlRequestCommand::ReconnectSession { .. } => AnswerKind::Reconnect,
        ControlRequestCommand::OpenRemoteSession { .. } => AnswerKind::Reconnect,
        ControlRequestCommand::ResumeDiskSession { .. } => AnswerKind::Reconnect,
        _ => AnswerKind::Acknowledgement,
    }
}

/// What is to be done about a request. A request that could not be decoded is
/// refused rather than dropped, so a client is told rather than left waiting,
/// and so is the report of a run that nobody waits for. A pane's theme is
/// answered at once where the client is already current.
pub open spec fn plan_of(command: Option<ControlRequestCommand>, revision: u64) -> ControlPlan {
    match command {
        None => ControlPlan::Refused,
        Some(ControlRequestCommand::RunWait { request }) => ControlPlan::TakeOver(request),
        Some(ControlRequestCommand::RunComplete { .. }) => ControlPlan::Refused,
        Some(ControlRequestCommand::GetPaneTheme { known_revision, .. }) => if known_revision
            == Some(revision) {
            ControlPlan::Unchanged
        } else {
            ControlPlan::Dispatch { command: command->0, answer: AnswerKind::PaneTheme }
        },
        Some(command) => ControlPlan::Dispatch { command, answer: answer_kind(command) },
    }
}

/// What is to be done about a request, and what of the answer is known
/// already: the revision that a pane's theme is answered at.
pub fn apply_control_request(
    command: Option<ControlRequestCommand>,
    revision: u64,
    response: &mut ControlResponse,
) -> (result: ControlPlan)
    ensures
        result == plan_of(command, revision),
        *final(response) == (ControlResponse {
            pane_theme_revision: match command {
                Some(ControlRequestCommand::GetPaneTheme { .. }) => Some(revision),
                _ => old(response).pane_theme_revision,
            },
            ..*old(response)
        }),
{
    let command = match command {
        Some(command) => command,
        None => {
            return ControlPlan::Refused;
        },
    };
    let answer = match &command {
        ControlRequestCommand::RunComplete { .. } => {
            return ControlPlan::Refused;
        },
        ControlRequestCommand::GetPaneTheme { known_revision, .. } => {
            response.pane_theme_revision = Some(revision);
            if let Some(known) = known_revision {
                if *known == revision {
                    return ControlPlan::Unchanged;
                }
            }
            AnswerKind::PaneTheme
        },
        ControlRequestCommand::RunPane { .. } => AnswerKind::RunResult,
        ControlRequestCommand::RunShellCommand { .. } => AnswerKind::ShellResult,
        ControlRequestCommand::ListPaneLabels { .. } => AnswerKind::PaneLabels,
        ControlRequestCommand::ListThemes => AnswerKind::Themes,
        ControlRequestCommand::GetSilentMode { .. } => AnswerKind::SilentMode,
        ControlRequestCommand::ReconnectSession { .. } => AnswerKind::Reconnect,
        ControlRequestCommand::OpenRemoteSession { .. } => AnswerKind::Reconnect,
        ControlRequestCommand::ResumeDiskSession { .. } => AnswerKind::Reconnect,
        _ => AnswerKind::Acknowledgement,
    };
    match command {
        ControlRequestCommand::RunWait { request } => ControlPlan::TakeOver(request),
        command => ControlPlan::Dispatch { command, answer },
    }
}

/// The colour that an overlay command asks for, where it is one.
pub fn overlay_command_color(color: &Option<String>) -> (result: Option<RgbaColor>)
    ensures
        result == match *color {
            Some(value) => color_of_value(value@),
            None => None,
        },
{
    match color {
        Some(value) => overlay_color_from_value(value.as_str()),
        None => None,
    }
}

/// What a channel gave within the time that was waited.
pub enum ChannelEvent<T> {
    Received(T),
    TimedOut,
    Disconnected,
}

/// What to do after a look at a channel.
pub enum WaitStep<T> {
    /// Look again.
    Continue,
    /// The answer, or none.
    Done(Option<T>),
}

/// Whether an answer is still waited for: the process is not stopping, and
/// there is time left.
pub fn keeps_waiting(stopping: bool, milliseconds_left: u64) -> (result: bool)
    ensures
        result == (!stopping && milliseconds_left > 0),
{
    !stopping && milliseconds_left > 0
}

/// How long the next look at the channel may take.
pub fn next_wait(milliseconds_left: u64) -> (result: u64)
    ensures
        result == if milliseconds_left < CONTROL_COMPLETION_POLL_INTERVAL {
            milliseconds_left
        } else {
            CONTROL_COMPLETION_POLL_INTERVAL
        },
{
    if milliseconds_left < CONTROL_COMPLETION_POLL_INTERVAL {
        milliseconds_left
    } else {
        CONTROL_COMPLETION_POLL_INTERVAL
    }
}

/// What to do after a look at a channel for an answer. An answer that comes
/// while the process is stopping does not count, so a client cannot be told a
/// change landed that the closing window may not have kept.
pub fn wait_for_result_completion<T>(event: ChannelEvent<T>, stopping: bool) -> (result: WaitStep<
    T,
>)
    ensures
        result == match event {
            ChannelEvent::Received(answer) => WaitStep::Done(
                if stopping {
                    None
                } else {
                    Some(answer)
                },
            ),
            ChannelEvent::TimedOut => WaitStep::Continue,
            ChannelEvent::Disconnected => WaitStep::Done(None),
        },
{
    match event {
        ChannelEvent::Received(answer) => WaitStep::Done(
            if stopping {
                None
            } else {
                Some(answer)
            },
        ),
        ChannelEvent::TimedOut => WaitStep::Continue,
        ChannelEvent::Disconnected => WaitStep::Done(None),
    }
}

/// What to do after a look at a channel for how reconnecting came out. That is
/// told even while the process is stopping.
pub fn wait_for_reconnect_completion(event: ChannelEvent<ReconnectSessionResult>) -> (result:
    WaitStep<ReconnectSessionResult>)
    ensures
        result == match event {
            ChannelEvent::Received(outcome) => WaitStep::Done(Some(outcome)),
            ChannelEvent::TimedOut => WaitStep::Continue,
            ChannelEvent::Disconnected => WaitStep::Done(None),
        },
{
    match event {
        ChannelEvent::Received(outcome) => WaitStep::Done(Some(outcome)),
        ChannelEvent::TimedOut => WaitStep::Continue,
        ChannelEvent::Disconnected => WaitStep::Done(None),
    }
}

/// The status of a command that is only done or not. `answer` is what came
/// back, if the command was sent and answered in time.
pub fn acknowledgement_status(answer: Option<bool>) -> (result: &'static str)
    ensures
        result@ == if answer == Some(true) {
            "ok"@
        } else {
            "rejected"@
        },
{
    match answer {
        Some(accepted) => if accepted {
            "ok"
        } else {
            "rejected"
        },
        None => "rejected",
    }
}

/// The code that a refusal is answered with.
pub fn refusal_code(answer: AnswerKind) -> (result: &'static str)
    ensures
        result@ == match answer {
            AnswerKind::RunResult => "pane_rejected"@,
            AnswerKind::ShellResult => "shell_command_rejected"@,
            AnswerKind::PaneLabels => "pane_list_rejected"@,
            AnswerKind::PaneTheme => "pane_theme_unavailable"@,
            _ => "rejected"@,
        },
{
    match answer {
        AnswerKind::RunResult => "pane_rejected",
        AnswerKind::ShellResult => "shell_command_rejected",
        AnswerKind::PaneLabels => "pane_list_rejected",
        AnswerKind::PaneTheme => "pane_theme_unavailable",
        _ => "rejected",
    }
}

/// Whether an answer reports a refusal with a reason.
pub open spec fn reports_refusal(
    before: ControlResponse,
    after: ControlResponse,
    code: Seq<char>,
    message: String,
) -> bool {
    &&& after == (ControlResponse { error: after.error, ..before })
    &&& after.error matches Some(error) && error.code@ == code && error.message == message
}

/// The status of a command that is refused with a reason. The reason becomes
/// the answer's structured error, so a client can report why rather than just
/// that the request was rejected.
pub fn run_result_status(
    response: &mut ControlResponse,
    code: &str,
    answer: Option<Result<(), String>>,
) -> (result: &'static str)
    ensures
        match answer {
            Some(Ok(_)) => result@ == "ok"@ && *final(response) == *old(response),
            Some(Err(message)) => result@ == "rejected"@ && reports_refusal(
                *old(response),
                *final(response),
                code@,
                message,
            ),
            None => result@ == "rejected"@ && *final(response) == *old(response),
        },
{
    match answer {
        Some(Ok(_)) => "ok",
        Some(Err(message)) => {
            response.error = Some(ControlError { code: code.to_owned(), message });
            "rejected"
        },
        None => "rejected",
    }
}

/// The status of a list of labels, which goes into the answer.
pub fn pane_labels_status(
    response: &mut ControlResponse,
    code: &str,
    answer: Option<Result<Vec<String>, String>>,
) -> (result: &'static str)
    ensures
        match answer {
            Some(Ok(labels)) => result@ == "ok"@ && *final(response) == (ControlResponse {
                pane_labels: labels,
                ..*old(response)
            }),
            Some(Err(message)) => result@ == "rejected"@ && reports_refusal(
                *old(response),
                *final(response),
                code@,
                message,
            ),
            None => result@ == "rejected"@ && *final(response) == *old(response),
        },
{
    match answer {
        Some(Ok(labels)) => {
            response.pane_labels = labels;
            "ok"
        },
        Some(Err(message)) => {
            response.error = Some(ControlError { code: code.to_owned(), message });
            "rejected"
        },
        None => "rejected",
    }
}

/// The status of a pane's theme, which goes into the answer.
pub fn pane_theme_status(
    response: &mut ControlResponse,
    code: &str,
    answer: Option<Result<String, String>>,
) -> (result: &'static str)
    ensures
        match answer {
            Some(Ok(theme)) => result@ == "ok"@ && *final(response) == (ControlResponse {
                pane_theme: Some(theme),
                ..*old(response)
            }),
            Some(Err(message)) => result@ == "rejected"@ && reports_refusal(
                *old(response),
                *final(response),
                code@,
                message,
            ),
            None => result@ == "rejected"@ && *final(response) == *old(response),
        },
{
    match answer {
        Some(Ok(theme)) => {
            response.pane_theme = Some(theme);
            "ok"
        },
        Some(Err(message)) => {
            response.error = Some(ControlError { code: code.to_owned(), message });
            "rejected"
        },
        None => "rejected",
    }
}

/// The status of a list of themes, which goes into the answer.
pub fn themes_status(response: &mut ControlResponse, answer: Option<Vec<String>>) -> (result:
    &'static str)
    ensures
        match answer {
            Some(themes) => result@ == "ok"@ && *final(response) == (ControlResponse {
                themes,
                ..*old(response)
            }),
            None => result@ == "rejected"@ && *final(response) == *old(response),
        },
{
    match answer {
        Some(themes) => {
            response.themes = themes;
            "ok"
        },
        None => "rejected",
    }
}

/// The status of silent mode, which goes into the answer.
pub fn silent_mode_status(response: &mut ControlResponse, answer: Option<bool>) -> (result:
    &'static str)
    ensures
        match answer {
            Some(silent_mode) => result@ == "ok"@ && *final(response) == (ControlResponse {
                silent_mode,
                ..*old(response)
            }),
            None => result@ == "rejected"@ && *final(response) == *old(response),
        },
{
    match answer {
        Some(silent_mode) => {
            response.silent_mode = silent_mode;
            "ok"
        },
        None => "rejected",
    }
}

/// The status that tells how reconnecting came out: "the secret was wrong" is
/// not "no such session", which a bare rejection cannot tell.
pub fn reconnect_session_status(result: ReconnectSessionResult) -> (status: &'static str)
    ensures
        status@ == match result {
            ReconnectSessionResult::Reconnected => "ok"@,
            ReconnectSessionResult::AuthenticationFailed => "authentication_failed"@,
            ReconnectSessionResult::SessionNotFound => "session_not_found"@,
            ReconnectSessionResult::StillStarting => "session_starting"@,
            ReconnectSessionResult::Rejected => "rejected"@,
        },
{
    match result {
        ReconnectSessionResult::Reconnected => "ok",
        ReconnectSessionResult::AuthenticationFailed => "authentication_failed",
        ReconnectSessionResult::SessionNotFound => "session_not_found",
        ReconnectSessionResult::StillStarting => "session_starting",
        ReconnectSessionResult::Rejected => "rejected",
    }
}

/// The status that is answered. A request that was applied while the process
/// was quitting is reported as refused.
pub fn final_status(status: &str, stopping: bool) -> (result: String)
    ensures
        result@ == if status@ == "ok"@ && stopping {
            "rejected"@
        } else {
            status@
        },
{
    if stopping && same_text(status, "ok") {
        "rejected".to_owned()
    } else {
        status.to_owned()
    }
}

/// An answer about a run, with a status and maybe an error.
pub open spec fn is_run_answer(
    response: ControlResponse,
    status: Seq<char>,
    run_id: Option<u64>,
    error: Option<(Seq<char>, Seq<char>)>,
) -> bool {
    &&& response.status@ == status
    &&& response.run_id == run_id
    &&& response.themes@.len() == 0
    &&& response.pane_theme is None
    &&& response.pane_theme_revision is None
    &&& !response.silent_mode
    &&& response.pane_labels@.len() == 0
    &&& match (response.error, error) {
        (Some(given), Some((code, message))) => given.code@ == code && given.message@ == message,
        (None, None) => true,
        _ => false,
    }
}

fn run_error(status: &str, run_id: Option<u64>, code: &str, message: String) -> (result:
    ControlResponse)
    ensures
        is_run_answer(result, status@, run_id, Some((code@, message@))),
{
    let mut response = bare_answer(status);
    response.run_id = run_id;
    response.error = Some(ControlError { code: code.to_owned(), message });
    response
}

/// The answer where the connection of a run cannot be watched.
pub fn unmonitored_run_answer() -> (result: ControlResponse)
    ensures
        is_run_answer(
            result,
            "rejected"@,
            None,
            Some(
                (
                    "process_unavailable"@,
                    "the Zetta process could not monitor the run connection"@,
                ),
            ),
        ),
{
    run_error(
        "rejected",
        None,
        "process_unavailable",
        "the Zetta process could not monitor the run connection".to_owned(),
    )
}

/// The answer where the application takes no more runs.
pub fn closed_run_answer() -> (result: ControlResponse)
    ensures
        is_run_answer(
            result,
            "rejected"@,
            None,
            Some(
                (
                    "process_unavailable"@,
                    "the Zetta process is no longer accepting run requests"@,
                ),
            ),
        ),
{
    run_error(
        "rejected",
        None,
        "process_unavailable",
        "the Zetta process is no longer accepting run requests".to_owned(),
    )
}

/// How registering a run came out.
#[derive(Debug, PartialEq, Eq)]
pub enum RunWaitRegistration {
    /// The run has a number, or was refused with a reason.
    Registered(Result<u64, String>),
    ClientDisconnected,
    NoRegistration,
    Stopping,
}

/// What to do while a run is being registered.
#[derive(Debug, PartialEq, Eq)]
pub enum RegistrationStep {
    /// Look again, remembering whether the client has gone.
    Continue { client_disconnected: bool },
    /// It is settled. A run that was registered for nobody is given up.
    Done { registration: RunWaitRegistration, lost: Option<u64> },
}

/// What an event means for a run that is being registered.
pub open spec fn registration_step(
    stopping: bool,
    client_disconnected: bool,
    event: ChannelEvent<Result<u64, String>>,
    client_gone: bool,
) -> RegistrationStep {
    if stopping {
        RegistrationStep::Done { registration: RunWaitRegistration::Stopping, lost: None }
    } else {
        match event {
            ChannelEvent::Received(outcome) => if client_disconnected {
                RegistrationStep::Done {
                    registration: RunWaitRegistration::ClientDisconnected,
                    lost: match outcome {
                        Ok(id) => Some(id),
                        Err(_) => None,
                    },
                }
            } else {
                RegistrationStep::Done {
                    registration: RunWaitRegistration::Registered(outcome),
                    lost: None,
                }
            },
            ChannelEvent::TimedOut => RegistrationStep::Continue {
                client_disconnected: client_disconnected || client_gone,
            },
            ChannelEvent::Disconnected => RegistrationStep::Done {
                registration: if client_disconnected {
                    RunWaitRegistration::ClientDisconnected
                } else {
                    RunWaitRegistration::NoRegistration
                },
                lost: None,
            },
        }
    }
}

/// What to do while a run is being registered.
///
/// Registration is the only part of process control that may legitimately
/// outlive the ordinary request budget: the application can be busy opening a
/// window or restoring a session. The client is watched while it is queued so a
/// dropped wrapper cannot leave a run owning its pane indefinitely.
/// `client_gone` is whether the client spoke or hung up in the meantime.
pub fn wait_for_run_registration(
    stopping: bool,
    client_disconnected: bool,
    event: ChannelEvent<Result<u64, String>>,
    client_gone: bool,
) -> (result: RegistrationStep)
    ensures
        result == registration_step(stopping, client_disconnected, event, client_gone),
{
    if stopping {
        return RegistrationStep::Done { registration: RunWaitRegistration::Stopping, lost: None };
    }
    match event {
        ChannelEvent::Received(outcome) => {
            if client_disconnected {
                RegistrationStep::Done {
                    registration: RunWaitRegistration::ClientDisconnected,
                    lost: match outcome {
                        Ok(id) => Some(id),
                        Err(_) => None,
                    },
                }
            } else {
                RegistrationStep::Done {
                    registration: RunWaitRegistration::Registered(outcome),
                    lost: None,
                }
            }
        },
        ChannelEvent::TimedOut => RegistrationStep::Continue {
            client_disconnected: client_disconnected || client_gone,
        },
        ChannelEvent::Disconnected => RegistrationStep::Done {
            registration: if client_disconnected {
                RunWaitRegistration::ClientDisconnected
            } else {
                RunWaitRegistration::NoRegistration
            },
            lost: None,
        },
    }
}

/// What is answered where a run was not registered, if anything is.
pub fn unregistered_run_answer(registration: RunWaitRegistration) -> (result: Option<
    ControlResponse,
>)
    ensures
        match registration {
            RunWaitRegistration::Registered(Err(message)) => result matches Some(response)
                && is_run_answer(response, "failed"@, None, Some(("run_rejected"@, message@))),
            RunWaitRegistration::NoRegistration => result matches Some(response) && is_run_answer(
                response,
                "rejected"@,
                None,
                Some(("run_rejected"@, "the Zetta process did not accept the run request"@)),
            ),
            _ => result is None,
        },
{
    match registration {
        RunWaitRegistration::Registered(Err(message)) => Some(
            run_error("failed", None, "run_rejected", message),
        ),
        RunWaitRegistration::NoRegistration => Some(
            run_error(
                "rejected",
                None,
                "run_rejected",
                "the Zetta process did not accept the run request".to_owned(),
            ),
        ),
        _ => None,
    }
}

/// What to do while a run waits for what it depends on.
#[derive(Debug, PartialEq, Eq)]
pub enum ResolutionStep {
    Continue,
    /// The run is given up and the connection closed: a run left registered
    /// would keep a wait on a client that is gone.
    Abandon,
    Resolved(RunResolutionMessage),
}

/// What an event means for a run that waits.
pub open spec fn resolution_step(
    stopping: bool,
    event: ChannelEvent<RunResolutionMessage>,
    client_gone: bool,
) -> ResolutionStep {
    if stopping {
        ResolutionStep::Abandon
    } else {
        match event {
            ChannelEvent::Received(message) => ResolutionStep::Resolved(message),
            ChannelEvent::TimedOut => if client_gone {
                ResolutionStep::Abandon
            } else {
                ResolutionStep::Continue
            },
            ChannelEvent::Disconnected => ResolutionStep::Abandon,
        }
    }
}

/// What to do while a run waits for what it depends on. It is given up where
/// the process is stopping or the client spoke or hung up.
pub fn await_run_resolution(
    stopping: bool,
    event: ChannelEvent<RunResolutionMessage>,
    client_gone: bool,
) -> (result: ResolutionStep)
    ensures
        result == resolution_step(stopping, event, client_gone),
{
    if stopping {
        return ResolutionStep::Abandon;
    }
    match event {
        ChannelEvent::Received(message) => ResolutionStep::Resolved(message),
        ChannelEvent::TimedOut => if client_gone {
            ResolutionStep::Abandon
        } else {
            ResolutionStep::Continue
        },
        ChannelEvent::Disconnected => ResolutionStep::Abandon,
    }
}

/// What the waiting client is answered about what it waited for.
pub fn run_resolution_answer(id: u64, resolution: RunResolutionMessage) -> (result:
    ControlResponse)
    ensures
        match resolution.resolution {
            RunResolution::Ready => is_run_answer(result, "ready"@, Some(id), None),
            RunResolution::Failed => is_run_answer(
                result,
                "failed"@,
                Some(id),
                Some(
                    (
                        "run_dependency_failed"@,
                        match resolution.message {
                            Some(message) => message@,
                            None => "a run dependency failed"@,
                        },
                    ),
                ),
            ),
        },
{
    match resolution.resolution {
        RunResolution::Ready => {
            let mut response = bare_answer("ready");
            response.run_id = Some(id);
            response
        },
        RunResolution::Failed => run_error(
            "failed",
            Some(id),
            "run_dependency_failed",
            match resolution.message {
                Some(message) => message,
                None => "a run dependency failed".to_owned(),
            },
        ),
    }
}

/// What to do while the command of a run is running.
#[derive(Clone, Copy, Debug, PartialEq, Eq, Structural)]
pub enum CompletionStep {
    Continue,
    /// The run is given up, and the connection closed.
    Abandon,
    /// The run is given up: the client hung up or said something else.
    Lost,
    /// The run is done, and the client is told so.
    Completed(Option<i32>),
}

/// What an event means for a run whose command runs.
pub open spec fn completion_step(
    stopping: bool,
    id: u64,
    event: ChannelEvent<Option<ControlRequestCommand>>,
) -> CompletionStep {
    if stopping {
        CompletionStep::Abandon
    } else {
        match event {
            ChannelEvent::Received(
                Some(ControlRequestCommand::RunComplete { id: completed, exit_code }),
            ) => if completed == id {
                CompletionStep::Completed(exit_code)
            } else {
                CompletionStep::Lost
            },
            ChannelEvent::Received(_) => CompletionStep::Lost,
            ChannelEvent::TimedOut => CompletionStep::Continue,
            ChannelEvent::Disconnected => CompletionStep::Lost,
        }
    }
}

/// What to do while the command of a run is running: only the report of that
/// very run ends it well.
pub fn await_run_completion(
    stopping: bool,
    id: u64,
    event: ChannelEvent<Option<ControlRequestCommand>>,
) -> (result: CompletionStep)
    ensures
        result == completion_step(stopping, id, event),
{
    if stopping {
        return CompletionStep::Abandon;
    }
    match event {
        ChannelEvent::Received(request) => match request {
            Some(ControlRequestCommand::RunComplete { id: completed, exit_code }) => if completed
                == id {
                CompletionStep::Completed(exit_code)
            } else {
                CompletionStep::Lost
            },
            _ => CompletionStep::Lost,
        },
        ChannelEvent::TimedOut => CompletionStep::Continue,
        ChannelEvent::Disconnected => CompletionStep::Lost,
    }
}

/// What the client is answered once its run is recorded.
pub fn run_completed_answer(id: u64) -> (result: ControlResponse)
    ensures
        is_run_answer(result, "ok"@, Some(id), None),
{
    let mut response = bare_answer("ok");
    response.run_id = Some(id);
    response
}

/// The count that [`bump_pane_theme_revision`] starts from.
pub const INITIAL_PANE_THEME_REVISION: u64 = 1;

/// The count of changes as it is sent with a pane's theme.
pub fn pane_theme_revision(revision: &u64) -> (result: u64)
    ensures
        result == *revision,
{
    *revision
}

/// Records in the count of changes that a pane's theme may now resolve
/// differently. Counting too often is harmless — it costs one extra query.
/// Counting too rarely is what would leave an editor showing stale colours.
pub fn bump_pane_theme_revision(revision: &mut u64)
    ensures
        *final(revision) == if *old(revision) == u64::MAX {
            0
        } else {
            (*old(revision) + 1) as u64
        },
{
    *revision = if *revision == u64::MAX {
        0
    } else {
        *revision + 1
    };
}

/// A client that asks again with the revision it was answered is told that
/// nothing changed, until something does.
pub proof fn law_known_revision_is_unchanged(
    attention_id: u64,
    pane_id: Option<u64>,
    known: u64,
    revision: u64,
)
    ensures
        (plan_of(
            Some(
                ControlRequestCommand::GetPaneTheme {
                    attention_id,
                    pane_id,
                    known_revision: Some(known),
                },
            ),
            revision,
        ) is Unchanged) == (known == revision),
{
}

} // verus!
