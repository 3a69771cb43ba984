use zetta::mosh::{
    forwarded_arguments, parse_bind_server, parse_family, parse_flag, parse_keep_alive_interval,
    parse_mosh_args, parse_port_request, parse_prediction, parse_remote_ip, AddressFamily,
    BindServer, MoshCommand, MoshError, MoshFailure, MoshOption, MoshReading, PortRequest,
    PredictionMode, RemoteIpMode, SeenOptions,
};

fn words(list: &[&str]) -> Vec<String> {
    list.iter().map(|word| word.to_string()).collect()
}

fn parse(list: &[&str]) -> Result<MoshCommand, MoshFailure> {
    let splits = list
        .iter()
        .map(|word| {
            let value = word.strip_prefix("--ssh=").unwrap_or(word);
            Some(value.split_whitespace().map(str::to_owned).collect())
        })
        .collect();
    parse_mosh_args(&words(list), &splits)
}

#[test]
fn options_come_before_the_target() {
    let command = parse(&[
        "--predict=always",
        "-p",
        "60000:60010",
        "--ssh=ssh -p 22",
        "-4",
        "user@host",
        "tmux",
        "attach",
    ])
    .unwrap();
    assert_eq!(command.prediction, PredictionMode::Always);
    assert_eq!(command.port, Some(PortRequest { start: 60000, end: Some(60010) }));
    assert_eq!(command.ssh, words(&["ssh", "-p", "22"]));
    assert_eq!(command.family, AddressFamily::Inet);
    assert_eq!(command.target, Some("user@host".to_owned()));
    assert_eq!(command.remote_command, words(&["tmux", "attach"]));
}

#[test]
fn arguments_are_handed_on_as_they_were_given() {
    let given = ["--predict=always", "host", "--", "ls"];
    let mut command = parse(&given).unwrap();
    assert_eq!(forwarded_arguments(&command), words(&["host", "--", "ls"]));
    command.raw_arguments = words(&given);
    assert_eq!(forwarded_arguments(&command), words(&given));
    assert_eq!(forwarded_arguments(&parse(&["--help"]).unwrap()), words(&["--help"]));
}

#[test]
fn each_mistake_is_told_apart() {
    let error = |list: &[&str]| parse(list).unwrap_err().error;
    assert_eq!(error(&[]), MoshError::MissingTarget);
    assert_eq!(error(&["--no-such"]), MoshError::UnknownOption);
    assert_eq!(error(&["-p"]), MoshError::MissingValue);
    assert_eq!(error(&["-p", "x", "host"]), MoshError::InvalidPort);
    assert_eq!(error(&["--family=ipx", "host"]), MoshError::InvalidFamily);
    assert_eq!(error(&["--predict=maybe", "host"]), MoshError::InvalidPrediction);
    assert_eq!(
        error(&["--predict=always", "--predict=never", "host"]),
        MoshError::Duplicate(MoshOption::Prediction)
    );
    assert_eq!(
        parse(&["-4", "--no-such", "host"]).unwrap_err(),
        MoshFailure { error: MoshError::UnknownOption, at: 1 }
    );
}

#[test]
fn an_unquoted_ssh_command_is_refused() {
    let arguments = words(&["--ssh=ssh 'x", "host"]);
    let failure = parse_mosh_args(&arguments, &vec![None, None]).unwrap_err();
    assert_eq!(failure, MoshFailure { error: MoshError::UnquotedSsh, at: 0 });
}

#[test]
fn port_requests_read_back() {
    for request in [
        PortRequest { start: 60001, end: None },
        PortRequest { start: 1, end: Some(65535) },
    ] {
        assert_eq!(parse_port_request(&request.as_argument()), Ok(request));
    }
    assert_eq!(parse_port_request("70000"), Err(MoshError::InvalidPort));
    assert_eq!(parse_port_request("5:4"), Err(MoshError::InvalidPortRange));
}

#[test]
fn values_are_read_by_name() {
    assert_eq!(parse_family("all"), Ok(AddressFamily::All));
    assert_eq!(parse_remote_ip("proxy"), Ok(RemoteIpMode::Proxy));
    assert_eq!(parse_remote_ip("x"), Err(MoshError::InvalidRemoteIp));
    assert_eq!(parse_prediction("experimental"), Ok(PredictionMode::Experimental));
    assert_eq!(parse_bind_server("any"), BindServer::Any);
    assert_eq!(parse_bind_server("10.0.0.1"), BindServer::Address("10.0.0.1".to_owned()));
    assert_eq!(parse_keep_alive_interval("20"), Ok(20));
    assert_eq!(parse_keep_alive_interval("19"), Err(MoshError::KeepAliveOutOfRange));
    assert_eq!(parse_keep_alive_interval("3001"), Err(MoshError::KeepAliveOutOfRange));
    assert_eq!(parse_keep_alive_interval("x"), Err(MoshError::InvalidKeepAlive));
}

#[test]
fn a_flag_may_not_be_repeated() {
    let reading = MoshReading {
        command: parse(&["host"]).unwrap(),
        seen: SeenOptions {
            client: false,
            server: false,
            prediction: true,
            overwrite: false,
            family: false,
            port: false,
            bind_server: false,
            ssh: false,
            ssh_pty: false,
            init: false,
            remote_ip: false,
            keep_alive: false,
            fake_proxy: false,
        },
    };
    assert!(matches!(
        parse_flag("-a", reading),
        Err(MoshError::Duplicate(MoshOption::Prediction))
    ));
}
