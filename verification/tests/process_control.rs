use zetta::command_panes::{
    bytes_within, pane_direction_name, parse_pane_direction, PaneCommand, ShellCommandRequest,
};
use zetta::pane::layout::PaneDirection;
use zetta::pane::overlay::{OverlayFontSize, PaneOverlayRequest};
use zetta::process_control::client::{
    accepted_or_reason, is_accepted, pane_theme_answer, parse_attention_id, parse_process_id,
    request_existing_process_configuration_reload, request_existing_process_pane,
    request_existing_process_theme, request_existing_process_window, request_process_focus_tab,
    request_process_shell_command, run_complete_request, run_wait_answer, silent_mode_answer,
    theme_list_answer, Attempt, EndpointSearch, PaneThemeAnswer, ProcessPaneThemeQuery,
    RequestError, Routing, RoutingOutcome, RunWaitError,
};
use zetta::process_control::commands::CommandName;
use zetta::process_control::decode::{
    decode_control_request, encode_exit_code, token_matches, ReadPayloads,
};
use zetta::process_control::endpoint::{
    check_endpoint, config_path_identity, control_endpoint_name, control_socket_name, encode_hex, endpoint_fate,
    is_endpoint_file, live_control_endpoints, random_hex, ControlEndpoint, EndpointError,
    EndpointFate, FoundEndpoint,
};
use zetta::process_control::server::{
    acknowledgement_status, apply_control_request, await_run_completion, await_run_resolution,
    bare_answer, bump_pane_theme_revision, closed_run_answer, final_status, keeps_waiting,
    next_wait, read_message, reconnect_session_status, run_completed_answer,
    run_resolution_answer, run_result_status, wait_for_result_completion,
    wait_for_run_registration, write_message, AnswerKind, ChannelEvent, CompletionStep,
    ControlPlan, RegistrationStep, ResolutionStep, RunWaitRegistration, WaitStep,
};
use zetta::process_control::{
    ControlRequest, ControlRequestCommand, PaneControlRequest, ReconnectSessionResult, ThemeScope,
};
use zetta::run_command::{RunResolution, RunResolutionMessage};

fn endpoint() -> ControlEndpoint {
    ControlEndpoint {
        version: 4,
        process_id: 42,
        socket_path: "/run/zetta-42.sock".to_owned(),
        token: "token".to_owned(),
    }
}

fn nothing_read() -> ReadPayloads {
    ReadPayloads { run_wait: None, resume_identity: None, icon: None }
}

fn decode(request: &mut ControlRequest) -> Option<ControlRequestCommand> {
    decode_control_request(request, nothing_read(), "token")
}

fn pane_command() -> PaneCommand {
    PaneCommand {
        direction: Some(PaneDirection::Down),
        label: Some("build".to_owned()),
        pane: None,
        overlay: Some(PaneOverlayRequest {
            text: Some("note".to_owned()),
            font_size: Some(OverlayFontSize::Large),
            opacity: Some(40),
            color: Some("#ff0000".to_owned()),
        }),
        stack: false,
        list: false,
        command: vec!["make".to_owned(), "all".to_owned()],
    }
}

#[test]
fn a_request_is_decoded_as_it_was_meant() {
    let mut request = request_existing_process_window(&endpoint());
    assert!(matches!(decode(&mut request), Some(ControlRequestCommand::OpenWindow)));

    assert_eq!(config_path_identity(r"\\?\C:\Users\A\..\Config.json", true), "//?/c:/users/config.json");
    assert_eq!(config_path_identity(r"C:\B\.\C.json", true), "c:/b/c.json");
    let mut request = request_existing_process_configuration_reload(&endpoint(), "/c.json", false);
    match decode(&mut request) {
        Some(ControlRequestCommand::ReloadConfiguration { config_path }) => {
            assert_eq!(config_path, "/c.json")
        }
        _ => panic!("another command"),
    }

    let mut request =
        request_existing_process_theme(&endpoint(), ThemeScope::Tab, Some("One".to_owned()));
    match decode(&mut request) {
        Some(ControlRequestCommand::SetTheme { scope, theme }) => {
            assert_eq!(scope, ThemeScope::Tab);
            assert_eq!(theme, Some("One".to_owned()));
        }
        _ => panic!("another command"),
    }

    let shell = ShellCommandRequest {
        command: "echo \"$1\"".to_owned(),
        arguments: vec!["x".to_owned()],
        environment: vec![("A".to_owned(), "1".to_owned())],
    };
    let mut request = request_process_shell_command(&endpoint(), &shell);
    match decode(&mut request) {
        Some(ControlRequestCommand::RunShellCommand { request }) => assert_eq!(request, shell),
        _ => panic!("another command"),
    }
}

#[test]
fn a_pane_command_survives_the_wire() {
    let sent = pane_command();
    let received = PaneControlRequest::from_command(&sent).into_command();
    assert_eq!(received, Some(pane_command()));
    let mut request = request_existing_process_pane(&endpoint(), &sent);
    match decode(&mut request) {
        Some(ControlRequestCommand::RunPane { request }) => assert_eq!(request, pane_command()),
        _ => panic!("another command"),
    }
    let mut odd = PaneControlRequest::from_command(&sent);
    odd.direction = Some("sideways".to_owned());
    assert_eq!(odd.into_command(), None);
    let mut stacked = PaneControlRequest::from_command(&sent);
    stacked.stack = true;
    assert_eq!(stacked.into_command(), None);
}

#[test]
fn a_wrong_token_or_a_stray_field_asks_for_nothing() {
    let mut request = request_existing_process_window(&endpoint());
    assert!(decode_control_request(&mut request, nothing_read(), "other").is_none());
    let mut request = request_existing_process_window(&endpoint());
    request.session_id = Some(3);
    assert!(decode(&mut request).is_none());
    let mut request = ControlRequest::bare("token".to_owned(), "no-such-command".to_owned());
    assert!(decode(&mut request).is_none());
    assert!(token_matches("abc", "abc"));
    assert!(!token_matches("abc", "abd"));
}

#[test]
fn a_completed_run_reports_its_exit_code() {
    for code in [Some(0), Some(-9), Some(i32::MAX), Some(i32::MIN), None] {
        let mut request = run_complete_request("token", 7, code);
        match decode(&mut request) {
            Some(ControlRequestCommand::RunComplete { id, exit_code }) => {
                assert_eq!(id, 7);
                assert_eq!(exit_code, code);
            }
            _ => panic!("another command"),
        }
    }
    assert_eq!(encode_exit_code(Some(-9)), "-9");
}

#[test]
fn command_names_and_directions_read_back() {
    for name in [
        CommandName::ReloadConfiguration,
        CommandName::RunWait,
        CommandName::SetTheme,
        CommandName::GetPaneTheme,
        CommandName::SetWorktreeName,
    ] {
        assert_eq!(CommandName::parse(name.name()), Some(name));
    }
    assert_eq!(CommandName::parse(""), None);
    for direction in [
        PaneDirection::Left,
        PaneDirection::Right,
        PaneDirection::Up,
        PaneDirection::Down,
    ] {
        assert_eq!(parse_pane_direction(pane_direction_name(direction)), Some(direction));
    }
    assert_eq!(bytes_within(&vec!["ab".to_owned(), "c".to_owned()], 3), Some(3));
    assert_eq!(bytes_within(&vec!["ab".to_owned(), "cd".to_owned()], 3), None);
}

#[test]
fn ids_are_checked_before_anything_is_asked() {
    assert_eq!(parse_process_id("42"), Ok(42));
    assert_eq!(parse_process_id("0"), Err(RequestError::ProcessId));
    assert_eq!(parse_process_id("x"), Err(RequestError::ProcessId));
    assert_eq!(parse_attention_id("7"), Ok(7));
    assert_eq!(parse_attention_id("-7"), Err(RequestError::AttentionId));
    assert!(matches!(
        request_process_focus_tab(&endpoint(), 0, 1),
        Err(RequestError::ProcessId)
    ));
    assert!(matches!(
        ProcessPaneThemeQuery::new(1, 1, Some(0)),
        Err(RequestError::PaneId)
    ));
}

#[test]
fn endpoints_are_found_by_their_names() {
    let name = control_endpoint_name(42);
    assert!(is_endpoint_file(&name));
    assert!(!is_endpoint_file(&control_socket_name(42)));
    assert_eq!(check_endpoint(&endpoint(), 4, 42), Ok(()));
    assert_eq!(check_endpoint(&endpoint(), 5, 42), Err(EndpointError::Outdated));
    let found = |endpoint: Option<ControlEndpoint>, running: bool| FoundEndpoint {
        endpoint,
        running,
    };
    assert_eq!(endpoint_fate(&found(Some(endpoint()), true), 4), EndpointFate::Live);
    assert_eq!(endpoint_fate(&found(Some(endpoint()), false), 4), EndpointFate::Reap);
    assert_eq!(endpoint_fate(&found(None, true), 4), EndpointFate::Skip);
    let (live, dead) = live_control_endpoints(
        vec![found(Some(endpoint()), true), found(None, true), found(Some(endpoint()), false)],
        4,
    );
    assert_eq!(live, vec![endpoint()]);
    assert_eq!(dead, vec![endpoint()]);
}

#[test]
fn bytes_are_written_in_hexadecimal() {
    assert_eq!(encode_hex(&vec![0, 15, 16, 255]), "000f10ff");
    let first = random_hex(32).unwrap();
    let second = random_hex(32).unwrap();
    assert_eq!(first.len(), 64);
    assert!(first.chars().all(|digit| digit.is_ascii_hexdigit()));
    assert_ne!(first, second);
}

#[test]
fn messages_end_with_a_line() {
    let message = write_message(b"{}".to_vec());
    assert_eq!(message, b"{}\n".to_vec());
    assert_eq!(read_message(message), Some(b"{}".to_vec()));
    assert_eq!(read_message(b"{}\nrest".to_vec()), Some(b"{}".to_vec()));
    assert_eq!(read_message(b"{}".to_vec()), None);
    assert_eq!(read_message(vec![b'x'; 262_145]), None);
}

#[test]
fn a_known_revision_is_answered_without_asking_a_window() {
    let query = ProcessPaneThemeQuery::new(1, 2, None).unwrap();
    let mut request = query.theme_name(&endpoint(), Some(9));
    let command = decode(&mut request);
    let mut response = bare_answer("rejected");
    assert!(matches!(
        apply_control_request(command, 9, &mut response),
        ControlPlan::Unchanged
    ));
    let mut request = query.theme_name(&endpoint(), Some(8));
    let command = decode(&mut request);
    let mut response = bare_answer("rejected");
    match apply_control_request(command, 9, &mut response) {
        ControlPlan::Dispatch { answer, .. } => assert_eq!(answer, AnswerKind::PaneTheme),
        _ => panic!("not dispatched"),
    }
    assert!(matches!(apply_control_request(None, 9, &mut response), ControlPlan::Refused));
    let mut revision = u64::MAX;
    bump_pane_theme_revision(&mut revision);
    assert_eq!(revision, 0);
}

#[test]
fn an_answer_is_waited_for_until_the_time_is_up() {
    assert!(keeps_waiting(false, 1));
    assert!(!keeps_waiting(true, 1));
    assert!(!keeps_waiting(false, 0));
    assert_eq!(next_wait(10), 10);
    assert_eq!(next_wait(2_000), 25);
    assert!(matches!(
        wait_for_result_completion(ChannelEvent::Received(3), false),
        WaitStep::Done(Some(3))
    ));
    assert!(matches!(
        wait_for_result_completion::<u8>(ChannelEvent::TimedOut, false),
        WaitStep::Continue
    ));
    assert!(matches!(
        wait_for_result_completion::<u8>(ChannelEvent::Disconnected, false),
        WaitStep::Done(None)
    ));
}

#[test]
fn answers_carry_their_status() {
    assert_eq!(acknowledgement_status(Some(true)), "ok");
    assert_ne!(acknowledgement_status(Some(false)), "ok");
    assert_ne!(acknowledgement_status(None), "ok");
    assert_eq!(
        reconnect_session_status(ReconnectSessionResult::AuthenticationFailed),
        "authentication_failed"
    );
    let mut response = bare_answer("rejected");
    let status = run_result_status(&mut response, "code", Some(Err("no".to_owned())));
    assert_ne!(status, "ok");
    let error = response.error.unwrap();
    assert_eq!((error.code.as_str(), error.message.as_str()), ("code", "no"));
    assert_eq!(final_status("ok", false), "ok");
    assert!(is_accepted(&bare_answer("ok")));
    assert_eq!(accepted_or_reason(bare_answer("ok")), Ok(true));
    assert_eq!(theme_list_answer(bare_answer("rejected")), None);
    assert_eq!(silent_mode_answer(&bare_answer("ok")), Some(false));
    assert!(matches!(
        pane_theme_answer(bare_answer("unchanged")),
        PaneThemeAnswer::Unchanged
    ));
}

#[test]
fn a_run_is_registered_resolved_and_completed() {
    assert_eq!(
        wait_for_run_registration(false, false, ChannelEvent::Received(Ok(5)), false),
        RegistrationStep::Done {
            registration: RunWaitRegistration::Registered(Ok(5)),
            lost: None
        }
    );
    assert_eq!(
        wait_for_run_registration(false, false, ChannelEvent::TimedOut, true),
        RegistrationStep::Continue { client_disconnected: true }
    );
    assert_eq!(
        await_run_resolution(false, ChannelEvent::TimedOut, false),
        ResolutionStep::Continue
    );
    assert_eq!(
        await_run_resolution(false, ChannelEvent::TimedOut, true),
        ResolutionStep::Abandon
    );
    let ready = run_resolution_answer(
        5,
        RunResolutionMessage { resolution: RunResolution::Ready, message: None },
    );
    assert_eq!(run_wait_answer(ready), Ok(5));
    let failed = run_resolution_answer(
        5,
        RunResolutionMessage {
            resolution: RunResolution::Failed,
            message: Some("upstream failed".to_owned()),
        },
    );
    assert_eq!(
        run_wait_answer(failed),
        Err(RunWaitError::Refused(Some("upstream failed".to_owned())))
    );
    let command = Some(ControlRequestCommand::RunComplete { id: 5, exit_code: Some(1) });
    assert_eq!(
        await_run_completion(false, 5, ChannelEvent::Received(command)),
        CompletionStep::Completed(Some(1))
    );
    assert_eq!(
        await_run_completion(false, 5, ChannelEvent::TimedOut),
        CompletionStep::Continue
    );
    assert_eq!(run_completed_answer(5).run_id, Some(5));
    assert!(closed_run_answer().error.is_some());
}

#[test]
fn endpoints_are_asked_one_after_the_other() {
    let mut search = EndpointSearch::new(Routing::FirstAccepting);
    assert!(search.goes_on());
    search.record(Attempt::Declined);
    assert!(search.goes_on());
    search.record(Attempt::Accepted);
    assert!(!search.goes_on());
    assert_eq!(search.outcome(), RoutingOutcome::Accepted);
    let mut search = EndpointSearch::new(Routing::FirstAcceptingOrLastFailure);
    search.record(Attempt::Failed);
    assert_eq!(search.outcome(), RoutingOutcome::Failed(0));
}
