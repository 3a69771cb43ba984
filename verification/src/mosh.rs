//! The option table of the Mosh launcher.
//!
//! The full Mosh command belongs to the bundled `zosh` executable. Keeping
//! this process as a transparent handoff is important: `zosh` must see the
//! same option spelling, target, and remote command that a user supplied to
//! `zetta mosh`.

use vstd::prelude::*;

use crate::text::{
    clone_texts, decimal, decimal_text, first_at, has_prefix, is_decimal,
    lemma_absent, lemma_decimal_round_trip, lemma_first_at, lowered, optional_text, parse_unsigned, parted, same_text,
    split_once, starts_with, strip_prefix, texts, to_ascii_lowercase, unsigned_digits,
    unsigned_value, without_prefix,
};

pub mod laws;

verus! {

#[derive(Clone, Copy, Debug, PartialEq, Eq, Structural)]
pub enum PredictionMode {
    Adaptive,
    Always,
    Never,
    Experimental,
}

#[derive(Clone, Copy, Debug, PartialEq, Eq, Structural)]
pub enum AddressFamily {
    PreferInet,
    Inet,
    Inet6,
    Auto,
    All,
    PreferInet6,
}

#[derive(Debug, PartialEq, Eq)]
pub enum BindServer {
    Ssh,
    Any,
    Address(String),
}

#[derive(Clone, Copy, Debug, PartialEq, Eq, Structural)]
pub enum RemoteIpMode {
    Local,
    Remote,
    Proxy,
}

/// A port, or a range of them.
#[derive(Clone, Copy, Debug, PartialEq, Eq, Structural)]
pub struct PortRequest {
    pub start: u16,
    pub end: Option<u16>,
}

impl PortRequest {
    /// The request as an argument.
    pub open spec fn text(self) -> Seq<char> {
        match self.end {
            Some(end) => decimal_text(self.start as nat) + ":"@ + decimal_text(end as nat),
            None => decimal_text(self.start as nat),
        }
    }

    /// The request as an argument.
    pub fn as_argument(&self) -> (result: String)
        ensures
            result@ == self.text(),
    {
        let mut text = decimal(self.start as u64);
        if let Some(end) = self.end {
            text.push_str(":");
            text.push_str(decimal(end as u64).as_str());
        }
        text
    }
}

#[derive(Debug, PartialEq, Eq)]
pub struct ProxyRequest {
    pub host: String,
    pub port: u16,
}

/// The options that may be given once.
#[derive(Clone, Copy, Debug, PartialEq, Eq, Structural)]
pub enum MoshOption {
    Client,
    Server,
    Prediction,
    PredictOverwrite,
    Family,
    Port,
    BindServer,
    Ssh,
    SshPty,
    Init,
    RemoteIp,
    KeepAlive,
    Local,
    Help,
    Version,
}

/// Why a Mosh command line is refused.
#[derive(Clone, Copy, Debug, PartialEq, Eq, Structural)]
pub enum MoshError {
    Duplicate(MoshOption),
    MissingValue,
    UnknownOption,
    InvalidPort,
    InvalidPortRange,
    InvalidFamily,
    InvalidKeepAlive,
    KeepAliveOutOfRange,
    InvalidRemoteIp,
    InvalidPrediction,
    UnquotedSsh,
    EmptySsh,
    FakeProxyValue,
    FakeProxyArguments,
    InvalidProxyPort,
    ZeroProxyPort,
    MissingTargetAfterDelimiter,
    FakeProxyWithoutTarget,
    MissingTarget,
}

/// Why a Mosh command line is refused, and at which argument.
#[derive(Clone, Copy, Debug, PartialEq, Eq, Structural)]
pub struct MoshFailure {
    pub error: MoshError,
    pub at: usize,
}

/// The port or range that a text asks for.
pub open spec fn port_request(text: Seq<char>) -> Result<PortRequest, MoshError> {
    let (start_text, end_text) = match parted(text, ':') {
        Some((start, end)) => (start, Some(end)),
        None => (text, None),
    };
    match unsigned_value(start_text, 65535) {
        None => Err(MoshError::InvalidPort),
        Some(start) => match end_text {
            None => Ok(PortRequest { start: start as u16, end: None }),
            Some(end_text) => match unsigned_value(end_text, 65535) {
                None => Err(MoshError::InvalidPort),
                Some(end) => if start != 0 && end != 0 && end >= start {
                    Ok(PortRequest { start: start as u16, end: Some(end as u16) })
                } else {
                    Err(MoshError::InvalidPortRange)
                },
            },
        },
    }
}

fn parse_port(text: &str) -> (result: Option<u16>)
    ensures
        match result {
            Some(port) => unsigned_value(text@, 65535) == Some(port as nat),
            None => unsigned_value(text@, 65535) is None,
        },
{
    match parse_unsigned(text, 65535) {
        Some(number) => Some(number as u16),
        None => None,
    }
}

/// The port or range that a text asks for.
pub fn parse_port_request(value: &str) -> (result: Result<PortRequest, MoshError>)
    ensures
        result == port_request(value@),
{
    match split_once(value, ':') {
        Some((start_text, end_text)) => {
            let start: u16 = match parse_port(start_text.as_str()) {
                Some(start) => start,
                None => {
                    return Err(MoshError::InvalidPort);
                },
            };
            let end: u16 = match parse_port(end_text.as_str()) {
                Some(end) => end,
                None => {
                    return Err(MoshError::InvalidPort);
                },
            };
            if start != 0 && end != 0 && end >= start {
                Ok(PortRequest { start, end: Some(end) })
            } else {
                Err(MoshError::InvalidPortRange)
            }
        },
        None => match parse_port(value) {
            Some(start) => Ok(PortRequest { start, end: None }),
            None => Err(MoshError::InvalidPort),
        },
    }
}

/// The address family that a text names.
pub open spec fn family_named(text: Seq<char>) -> Option<AddressFamily> {
    let name = lowered(text);
    if name == "inet"@ || name == "ipv4"@ || name == "4"@ {
        Some(AddressFamily::Inet)
    } else if name == "inet6"@ || name == "ipv6"@ || name == "6"@ {
        Some(AddressFamily::Inet6)
    } else if name == "prefer-inet"@ {
        Some(AddressFamily::PreferInet)
    } else if name == "prefer-inet6"@ {
        Some(AddressFamily::PreferInet6)
    } else if name == "auto"@ {
        Some(AddressFamily::Auto)
    } else if name == "all"@ || name == "any"@ {
        Some(AddressFamily::All)
    } else {
        None
    }
}

/// The address family that a text names.
pub fn parse_family(value: &str) -> (result: Result<AddressFamily, MoshError>)
    ensures
        result == match family_named(value@) {
            Some(family) => Ok(family),
            None => Err(MoshError::InvalidFamily),
        },
{
    let lowercase = to_ascii_lowercase(value);
    let name = lowercase.as_str();
    if same_text(name, "inet") || same_text(name, "ipv4") || same_text(name, "4") {
        Ok(AddressFamily::Inet)
    } else if same_text(name, "inet6") || same_text(name, "ipv6") || same_text(name, "6") {
        Ok(AddressFamily::Inet6)
    } else if same_text(name, "prefer-inet") {
        Ok(AddressFamily::PreferInet)
    } else if same_text(name, "prefer-inet6") {
        Ok(AddressFamily::PreferInet6)
    } else if same_text(name, "auto") {
        Ok(AddressFamily::Auto)
    } else if same_text(name, "all") || same_text(name, "any") {
        Ok(AddressFamily::All)
    } else {
        Err(MoshError::InvalidFamily)
    }
}

/// The interval of a keep-alive that says none, in milliseconds.
pub const KEEP_ALIVE_DEFAULT_MS: u64 = 500;

/// The shortest interval: below Mosh's minimum frame interval a keep-alive
/// cannot go out any sooner.
pub const KEEP_ALIVE_MIN_MS: u64 = 20;

/// The longest interval: above its unassisted heartbeat there is nothing left
/// to ask for.
pub const KEEP_ALIVE_MAX_MS: u64 = 3000;

/// The keep-alive interval that a text asks for.
pub open spec fn keep_alive(text: Seq<char>) -> Result<u64, MoshError> {
    match unsigned_value(text, u64::MAX as nat) {
        None => Err(MoshError::InvalidKeepAlive),
        Some(interval) => if KEEP_ALIVE_MIN_MS <= interval <= KEEP_ALIVE_MAX_MS {
            Ok(interval as u64)
        } else {
            Err(MoshError::KeepAliveOutOfRange)
        },
    }
}

/// The keep-alive interval that a text asks for.
pub fn parse_keep_alive_interval(value: &str) -> (result: Result<u64, MoshError>)
    ensures
        result == keep_alive(value@),
{
    match parse_unsigned(value, u64::MAX) {
        None => Err(MoshError::InvalidKeepAlive),
        Some(interval) => if KEEP_ALIVE_MIN_MS <= interval && interval <= KEEP_ALIVE_MAX_MS {
            Ok(interval)
        } else {
            Err(MoshError::KeepAliveOutOfRange)
        },
    }
}

/// The remote IP mode that a text names.
pub open spec fn remote_ip_named(text: Seq<char>) -> Option<RemoteIpMode> {
    if text == "local"@ {
        Some(RemoteIpMode::Local)
    } else if text == "remote"@ {
        Some(RemoteIpMode::Remote)
    } else if text == "proxy"@ {
        Some(RemoteIpMode::Proxy)
    } else {
        None
    }
}

/// The remote IP mode that a text names.
pub fn parse_remote_ip(value: &str) -> (result: Result<RemoteIpMode, MoshError>)
    ensures
        result == match remote_ip_named(value@) {
            Some(mode) => Ok(mode),
            None => Err(MoshError::InvalidRemoteIp),
        },
{
    if same_text(value, "local") {
        Ok(RemoteIpMode::Local)
    } else if same_text(value, "remote") {
        Ok(RemoteIpMode::Remote)
    } else if same_text(value, "proxy") {
        Ok(RemoteIpMode::Proxy)
    } else {
        Err(MoshError::InvalidRemoteIp)
    }
}

/// The prediction mode that a text names.
pub open spec fn prediction_named(text: Seq<char>) -> Option<PredictionMode> {
    if text == "adaptive"@ {
        Some(PredictionMode::Adaptive)
    } else if text == "always"@ {
        Some(PredictionMode::Always)
    } else if text == "never"@ {
        Some(PredictionMode::Never)
    } else if text == "experimental"@ {
        Some(PredictionMode::Experimental)
    } else {
        None
    }
}

/// The prediction mode that a text names.
pub fn parse_prediction(value: &str) -> (result: Result<PredictionMode, MoshError>)
    ensures
        result == match prediction_named(value@) {
            Some(mode) => Ok(mode),
            None => Err(MoshError::InvalidPrediction),
        },
{
    if same_text(value, "adaptive") {
        Ok(PredictionMode::Adaptive)
    } else if same_text(value, "always") {
        Ok(PredictionMode::Always)
    } else if same_text(value, "never") {
        Ok(PredictionMode::Never)
    } else if same_text(value, "experimental") {
        Ok(PredictionMode::Experimental)
    } else {
        Err(MoshError::InvalidPrediction)
    }
}

/// The server address to bind, as it views.
pub ghost enum BindView {
    Ssh,
    Any,
    Address(Seq<char>),
}

impl BindServer {
    pub open spec fn view(self) -> BindView {
        match self {
            BindServer::Ssh => BindView::Ssh,
            BindServer::Any => BindView::Any,
            BindServer::Address(address) => BindView::Address(address@),
        }
    }
}

/// The address that a text asks the server to bind: two words in whatever
/// case, or the text itself.
pub open spec fn bind_server(text: Seq<char>) -> BindView {
    if lowered(text) == "ssh"@ {
        BindView::Ssh
    } else if lowered(text) == "any"@ {
        BindView::Any
    } else {
        BindView::Address(text)
    }
}

/// The address that a text asks the server to bind.
pub fn parse_bind_server(value: &str) -> (result: BindServer)
    ensures
        result.view() == bind_server(value@),
{
    let normalized = to_ascii_lowercase(value);
    if same_text(normalized.as_str(), "ssh") {
        BindServer::Ssh
    } else if same_text(normalized.as_str(), "any") {
        BindServer::Any
    } else {
        BindServer::Address(value.to_owned())
    }
}

/// Whether an option takes its value from the next argument.
pub open spec fn awaits_value(option: Seq<char>) -> bool {
    ||| option == "--client"@
    ||| option == "--server"@
    ||| option == "--predict"@
    ||| option == "--family"@
    ||| option == "--bind-server"@
    ||| option == "--ssh"@
    ||| option == "--experimental-remote-ip"@
}

/// Whether an option takes its value from the next argument.
pub fn takes_value(value: &str) -> (result: bool)
    ensures
        result == awaits_value(value@),
{
    same_text(value, "--client") || same_text(value, "--server") || same_text(value, "--predict")
        || same_text(value, "--family") || same_text(value, "--bind-server") || same_text(
        value,
        "--ssh",
    ) || same_text(value, "--experimental-remote-ip")
}

/// Whether an option may be given, having been seen before or not.
pub fn set_once(seen: bool, option: MoshOption) -> (result: Result<(), MoshError>)
    ensures
        result == if seen {
            Err::<(), MoshError>(MoshError::Duplicate(option))
        } else {
            Ok(())
        },
{
    if seen {
        Err(MoshError::Duplicate(option))
    } else {
        Ok(())
    }
}

/// A port that is not part of a range, and a range that is one, are read as
/// they are written.
pub proof fn law_port_requests_read_back(request: PortRequest)
    requires
        request.end matches Some(end) ==> 0 < request.start <= end,
    ensures
        port_request(request.text()) == Ok::<PortRequest, MoshError>(request),
{
    reveal_strlit(":");
    let start = decimal_text(request.start as nat);
    lemma_decimal_round_trip(request.start as nat);
    lemma_no_colon(start);
    assert(unsigned_digits(start) == start);
    match request.end {
        None => {},
        Some(end) => {
            let end_text = decimal_text(end as nat);
            lemma_decimal_round_trip(end as nat);
            assert(unsigned_digits(end_text) == end_text);
            let text = request.text();
            lemma_first_at(text, ':', start.len() as int);
            assert(text.take(start.len() as int) =~= start);
            assert(text.skip(start.len() as int + 1) =~= end_text);
        },
    }
}

proof fn lemma_no_colon(text: Seq<char>)
    requires
        is_decimal(text),
    ensures
        first_at(text, ':') is None,
{
    assert forall|i: int| 0 <= i < text.len() implies #[trigger] text[i] != ':' by {}
    lemma_absent(text, ':');
}

/// The server that runs where none is named.
pub const DEFAULT_SERVER: &'static str = "zosh-server";

/// The command that connects where none is named.
pub const DEFAULT_SSH: &'static str = "ssh";

/// A parsed Mosh launcher command line.
#[derive(Debug, PartialEq, Eq)]
pub struct MoshCommand {
    pub client: Option<String>,
    pub server: String,
    pub prediction: PredictionMode,
    pub prediction_explicit: bool,
    pub predict_overwrite: bool,
    /// `-k`/`--keep-alive`, in milliseconds. Validated here and forwarded
    /// verbatim; `zosh` owns what it does with it.
    pub keep_alive: Option<u64>,
    pub family: AddressFamily,
    pub port: Option<PortRequest>,
    pub bind_server: BindServer,
    pub ssh: Vec<String>,
    pub ssh_pty: bool,
    pub init: bool,
    pub init_explicit: bool,
    pub local: bool,
    pub remote_ip: RemoteIpMode,
    pub target: Option<String>,
    pub remote_command: Vec<String>,
    pub help: bool,
    pub version: bool,
    pub proxy: Option<ProxyRequest>,
    /// The exact argument vector after the `mosh` subcommand, forwarded
    /// untouched to `zosh`.
    pub raw_arguments: Vec<String>,
}

/// A parsed command line, as it views.
pub ghost struct MoshView {
    pub client: Option<Seq<char>>,
    pub server: Seq<char>,
    pub prediction: PredictionMode,
    pub prediction_explicit: bool,
    pub predict_overwrite: bool,
    pub keep_alive: Option<u64>,
    pub family: AddressFamily,
    pub port: Option<PortRequest>,
    pub bind_server: BindView,
    pub ssh: Seq<Seq<char>>,
    pub ssh_pty: bool,
    pub init: bool,
    pub init_explicit: bool,
    pub local: bool,
    pub remote_ip: RemoteIpMode,
    pub target: Option<Seq<char>>,
    pub remote_command: Seq<Seq<char>>,
    pub help: bool,
    pub version: bool,
    pub proxy: Option<(Seq<char>, u16)>,
    pub raw_arguments: Seq<Seq<char>>,
}

impl MoshCommand {
    pub open spec fn view(self) -> MoshView {
        MoshView {
            client: optional_text(self.client),
            server: self.server@,
            prediction: self.prediction,
            prediction_explicit: self.prediction_explicit,
            predict_overwrite: self.predict_overwrite,
            keep_alive: self.keep_alive,
            family: self.family,
            port: self.port,
            bind_server: self.bind_server.view(),
            ssh: texts(self.ssh@),
            ssh_pty: self.ssh_pty,
            init: self.init,
            init_explicit: self.init_explicit,
            local: self.local,
            remote_ip: self.remote_ip,
            target: optional_text(self.target),
            remote_command: texts(self.remote_command@),
            help: self.help,
            version: self.version,
            proxy: match self.proxy {
                Some(proxy) => Some((proxy.host@, proxy.port)),
                None => None,
            },
            raw_arguments: texts(self.raw_arguments@),
        }
    }
}

/// What a command line without options asks for, but for its target.
pub open spec fn plain_command() -> MoshView {
    MoshView {
        client: None,
        server: DEFAULT_SERVER@,
        prediction: PredictionMode::Adaptive,
        prediction_explicit: false,
        predict_overwrite: false,
        keep_alive: None,
        family: AddressFamily::PreferInet,
        port: None,
        bind_server: BindView::Ssh,
        ssh: seq![DEFAULT_SSH@],
        ssh_pty: true,
        init: true,
        init_explicit: false,
        local: false,
        remote_ip: RemoteIpMode::Proxy,
        target: None,
        remote_command: Seq::empty(),
        help: false,
        version: false,
        proxy: None,
        raw_arguments: Seq::empty(),
    }
}

impl Default for MoshCommand {
    fn default() -> (result: Self)
        ensures
            result.view() == plain_command(),
    {
        let mut ssh: Vec<String> = Vec::new();
        ssh.push(DEFAULT_SSH.to_owned());
        let remote_command: Vec<String> = Vec::new();
        let raw_arguments: Vec<String> = Vec::new();
        proof {
            assert(texts(ssh@) =~= seq![DEFAULT_SSH@]);
            assert(texts(remote_command@) =~= Seq::<Seq<char>>::empty());
        }
        MoshCommand {
            client: None,
            server: DEFAULT_SERVER.to_owned(),
            prediction: PredictionMode::Adaptive,
            prediction_explicit: false,
            predict_overwrite: false,
            keep_alive: None,
            family: AddressFamily::PreferInet,
            port: None,
            bind_server: BindServer::Ssh,
            ssh,
            ssh_pty: true,
            init: true,
            init_explicit: false,
            local: false,
            remote_ip: RemoteIpMode::Proxy,
            target: None,
            remote_command,
            help: false,
            version: false,
            proxy: None,
            raw_arguments,
        }
    }
}

/// Which of the options that are given once have been, and whether the
/// launcher stands in for a proxy.
#[derive(Clone, Copy, Debug, PartialEq, Eq, Structural)]
pub struct SeenOptions {
    pub client: bool,
    pub server: bool,
    pub prediction: bool,
    pub overwrite: bool,
    pub family: bool,
    pub port: bool,
    pub bind_server: bool,
    pub ssh: bool,
    pub ssh_pty: bool,
    pub init: bool,
    pub remote_ip: bool,
    pub keep_alive: bool,
    pub fake_proxy: bool,
}

/// Nothing has been given yet.
pub open spec fn nothing_seen() -> SeenOptions {
    SeenOptions {
        client: false,
        server: false,
        prediction: false,
        overwrite: false,
        family: false,
        port: false,
        bind_server: false,
        ssh: false,
        ssh_pty: false,
        init: false,
        remote_ip: false,
        keep_alive: false,
        fake_proxy: false,
    }
}

impl Default for SeenOptions {
    fn default() -> (result: Self)
        ensures
            result == nothing_seen(),
    {
        SeenOptions {
            client: false,
            server: false,
            prediction: false,
            overwrite: false,
            family: false,
            port: false,
            bind_server: false,
            ssh: false,
            ssh_pty: false,
            init: false,
            remote_ip: false,
            keep_alive: false,
            fake_proxy: false,
        }
    }
}

/// Where a reading of the arguments stands.
pub ghost struct MoshState {
    pub command: MoshView,
    pub seen: SeenOptions,
}

impl MoshState {
    /// The state after a prediction mode was given.
    pub open spec fn with_prediction(self, prediction: PredictionMode) -> Result<
        MoshState,
        MoshError,
    > {
        if self.seen.prediction {
            Err(MoshError::Duplicate(MoshOption::Prediction))
        } else {
            Ok(
                MoshState {
                    command: MoshView { prediction, prediction_explicit: true, ..self.command },
                    seen: SeenOptions { prediction: true, ..self.seen },
                },
            )
        }
    }

    /// The state after a prediction overwrite was asked for or declined.
    pub open spec fn with_overwrite(self, predict_overwrite: bool) -> Result<
        MoshState,
        MoshError,
    > {
        if self.seen.overwrite {
            Err(MoshError::Duplicate(MoshOption::PredictOverwrite))
        } else {
            Ok(
                MoshState {
                    command: MoshView { predict_overwrite, ..self.command },
                    seen: SeenOptions { overwrite: true, ..self.seen },
                },
            )
        }
    }

    /// The state after a keep-alive interval was given.
    pub open spec fn with_keep_alive(self, interval: u64) -> Result<MoshState, MoshError> {
        if self.seen.keep_alive {
            Err(MoshError::Duplicate(MoshOption::KeepAlive))
        } else {
            Ok(
                MoshState {
                    command: MoshView { keep_alive: Some(interval), ..self.command },
                    seen: SeenOptions { keep_alive: true, ..self.seen },
                },
            )
        }
    }

    /// The state after an address family was given.
    pub open spec fn with_family(self, family: AddressFamily) -> Result<MoshState, MoshError> {
        if self.seen.family {
            Err(MoshError::Duplicate(MoshOption::Family))
        } else {
            Ok(
                MoshState {
                    command: MoshView { family, ..self.command },
                    seen: SeenOptions { family: true, ..self.seen },
                },
            )
        }
    }

    /// The state after a port was given.
    pub open spec fn with_port(self, text: Seq<char>) -> Result<MoshState, MoshError> {
        if self.seen.port {
            Err(MoshError::Duplicate(MoshOption::Port))
        } else {
            match port_request(text) {
                Ok(request) => Ok(
                    MoshState {
                        command: MoshView { port: Some(request), ..self.command },
                        seen: SeenOptions { port: true, ..self.seen },
                    },
                ),
                Err(error) => Err(error),
            }
        }
    }

    /// The state after the SSH terminal was asked for or declined.
    pub open spec fn with_ssh_pty(self, ssh_pty: bool) -> Result<MoshState, MoshError> {
        if self.seen.ssh_pty {
            Err(MoshError::Duplicate(MoshOption::SshPty))
        } else {
            Ok(
                MoshState {
                    command: MoshView { ssh_pty, ..self.command },
                    seen: SeenOptions { ssh_pty: true, ..self.seen },
                },
            )
        }
    }

    /// The state after the terminal's initialization was asked for or
    /// declined.
    pub open spec fn with_init(self, init: bool) -> Result<MoshState, MoshError> {
        if self.seen.init {
            Err(MoshError::Duplicate(MoshOption::Init))
        } else {
            Ok(
                MoshState {
                    command: MoshView { init, init_explicit: true, ..self.command },
                    seen: SeenOptions { init: true, ..self.seen },
                },
            )
        }
    }

    /// The state after `--local`.
    pub open spec fn with_local(self) -> Result<MoshState, MoshError> {
        if self.command.local {
            Err(MoshError::Duplicate(MoshOption::Local))
        } else {
            Ok(MoshState { command: MoshView { local: true, ..self.command }, ..self })
        }
    }

    /// The state after `--help`.
    pub open spec fn with_help(self) -> Result<MoshState, MoshError> {
        if self.command.help {
            Err(MoshError::Duplicate(MoshOption::Help))
        } else {
            Ok(MoshState { command: MoshView { help: true, ..self.command }, ..self })
        }
    }

    /// The state after `--version`.
    pub open spec fn with_version(self) -> Result<MoshState, MoshError> {
        if self.command.version {
            Err(MoshError::Duplicate(MoshOption::Version))
        } else {
            Ok(MoshState { command: MoshView { version: true, ..self.command }, ..self })
        }
    }

    /// The state after `--fake-proxy`.
    pub open spec fn with_fake_proxy(self) -> Result<MoshState, MoshError> {
        Ok(MoshState { seen: SeenOptions { fake_proxy: true, ..self.seen }, ..self })
    }

    /// The state after a flag.
    #[verifier::opaque]
    pub open spec fn flagged(self, flag: MoshFlag) -> Result<MoshState, MoshError> {
        match flag {
            MoshFlag::Prediction(prediction) => self.with_prediction(prediction),
            MoshFlag::Overwrite(overwrite) => self.with_overwrite(overwrite),
            MoshFlag::KeepAlive => self.with_keep_alive(KEEP_ALIVE_DEFAULT_MS),
            MoshFlag::Family(family) => self.with_family(family),
            MoshFlag::SshPty(ssh_pty) => self.with_ssh_pty(ssh_pty),
            MoshFlag::Init(init) => self.with_init(init),
            MoshFlag::Local => self.with_local(),
            MoshFlag::Help => self.with_help(),
            MoshFlag::Version => self.with_version(),
            MoshFlag::FakeProxy => self.with_fake_proxy(),
        }
    }

    /// The state after `--client`.
    pub open spec fn with_client(self, value: Seq<char>) -> Result<MoshState, MoshError> {
        if self.seen.client {
            Err(MoshError::Duplicate(MoshOption::Client))
        } else {
            Ok(
                MoshState {
                    command: MoshView { client: Some(value), ..self.command },
                    seen: SeenOptions { client: true, ..self.seen },
                },
            )
        }
    }

    /// The state after `--server`.
    pub open spec fn with_server(self, value: Seq<char>) -> Result<MoshState, MoshError> {
        if self.seen.server {
            Err(MoshError::Duplicate(MoshOption::Server))
        } else {
            Ok(
                MoshState {
                    command: MoshView { server: value, ..self.command },
                    seen: SeenOptions { server: true, ..self.seen },
                },
            )
        }
    }

    /// The state after `--bind-server`.
    pub open spec fn with_bind_server(self, value: Seq<char>) -> Result<MoshState, MoshError> {
        if self.seen.bind_server {
            Err(MoshError::Duplicate(MoshOption::BindServer))
        } else {
            Ok(
                MoshState {
                    command: MoshView { bind_server: bind_server(value), ..self.command },
                    seen: SeenOptions { bind_server: true, ..self.seen },
                },
            )
        }
    }

    /// The state after `--ssh`, whose value a shell splits into the given
    /// words.
    pub open spec fn with_ssh(self, words: Option<Seq<Seq<char>>>) -> Result<
        MoshState,
        MoshError,
    > {
        if self.seen.ssh {
            Err(MoshError::Duplicate(MoshOption::Ssh))
        } else {
            match ssh_command(words) {
                Ok(ssh) => Ok(
                    MoshState {
                        command: MoshView { ssh, ..self.command },
                        seen: SeenOptions { ssh: true, ..self.seen },
                    },
                ),
                Err(error) => Err(error),
            }
        }
    }

    /// The state after `--experimental-remote-ip`.
    pub open spec fn with_remote_ip(self, value: Seq<char>) -> Result<MoshState, MoshError> {
        if self.seen.remote_ip {
            Err(MoshError::Duplicate(MoshOption::RemoteIp))
        } else {
            match remote_ip_named(value) {
                Some(remote_ip) => Ok(
                    MoshState {
                        command: MoshView { remote_ip, ..self.command },
                        seen: SeenOptions { remote_ip: true, ..self.seen },
                    },
                ),
                None => Err(MoshError::InvalidRemoteIp),
            }
        }
    }

    /// The state after an option with its value; a shell splits the value
    /// into the given words.
    pub open spec fn valued(
        self,
        name: Seq<char>,
        value: Seq<char>,
        words: Option<Seq<Seq<char>>>,
    ) -> Result<MoshState, MoshError> {
        if value.len() == 0 {
            Err(MoshError::MissingValue)
        } else {
            match setting_named(name) {
                None => Err(MoshError::UnknownOption),
                Some(setting) => self.set(setting, value, words),
            }
        }
    }

    /// The state after a setting got a value.
    #[verifier::opaque]
    pub open spec fn set(
        self,
        setting: MoshSetting,
        value: Seq<char>,
        words: Option<Seq<Seq<char>>>,
    ) -> Result<MoshState, MoshError> {
        match setting {
            MoshSetting::Port => self.with_port(value),
            MoshSetting::Client => self.with_client(value),
            MoshSetting::Server => self.with_server(value),
            MoshSetting::Prediction => match prediction_named(value) {
                Some(prediction) => self.with_prediction(prediction),
                None => Err(MoshError::InvalidPrediction),
            },
            MoshSetting::KeepAlive => match keep_alive(value) {
                Ok(interval) => self.with_keep_alive(interval),
                Err(error) => Err(error),
            },
            MoshSetting::Family => match family_named(value) {
                Some(family) => self.with_family(family),
                None => Err(MoshError::InvalidFamily),
            },
            MoshSetting::BindServer => self.with_bind_server(value),
            MoshSetting::Ssh => self.with_ssh(words),
            MoshSetting::RemoteIp => self.with_remote_ip(value),
            MoshSetting::FakeProxy => if value == "true"@ {
                self.with_fake_proxy()
            } else {
                Err(MoshError::FakeProxyValue)
            },
        }
    }
}

/// What an argument that stands alone asks for.
#[derive(Clone, Copy, Debug, PartialEq, Eq, Structural)]
pub enum MoshFlag {
    Prediction(PredictionMode),
    Overwrite(bool),
    KeepAlive,
    Family(AddressFamily),
    SshPty(bool),
    Init(bool),
    Local,
    Help,
    Version,
    FakeProxy,
}

/// The flag that an argument is, if it is one.
pub open spec fn flag_named(value: Seq<char>) -> Option<MoshFlag> {
    if value == "-a"@ {
        Some(MoshFlag::Prediction(PredictionMode::Always))
    } else if value == "-n"@ {
        Some(MoshFlag::Prediction(PredictionMode::Never))
    } else if value == "--predict-overwrite"@ || value == "-o"@ {
        Some(MoshFlag::Overwrite(true))
    } else if value == "--no-predict-overwrite"@ {
        Some(MoshFlag::Overwrite(false))
    } else if value == "--keep-alive"@ || value == "-k"@ {
        Some(MoshFlag::KeepAlive)
    } else if value == "-4"@ {
        Some(MoshFlag::Family(AddressFamily::Inet))
    } else if value == "-6"@ {
        Some(MoshFlag::Family(AddressFamily::Inet6))
    } else if value == "--ssh-pty"@ {
        Some(MoshFlag::SshPty(true))
    } else if value == "--no-ssh-pty"@ {
        Some(MoshFlag::SshPty(false))
    } else if value == "--init"@ {
        Some(MoshFlag::Init(true))
    } else if value == "--no-init"@ {
        Some(MoshFlag::Init(false))
    } else if value == "--local"@ {
        Some(MoshFlag::Local)
    } else if value == "--help"@ || value == "-h"@ {
        Some(MoshFlag::Help)
    } else if value == "--version"@ || value == "-V"@ {
        Some(MoshFlag::Version)
    } else if value == "--fake-proxy"@ {
        Some(MoshFlag::FakeProxy)
    } else {
        None
    }
}

impl MoshFlag {
    /// The flag that an argument is, if it is one.
    pub fn parse(value: &str) -> (result: Option<MoshFlag>)
        ensures
            result == flag_named(value@),
    {
        if same_text(value, "-a") {
            Some(MoshFlag::Prediction(PredictionMode::Always))
        } else if same_text(value, "-n") {
            Some(MoshFlag::Prediction(PredictionMode::Never))
        } else if same_text(value, "--predict-overwrite") || same_text(value, "-o") {
            Some(MoshFlag::Overwrite(true))
        } else if same_text(value, "--no-predict-overwrite") {
            Some(MoshFlag::Overwrite(false))
        } else if same_text(value, "--keep-alive") || same_text(value, "-k") {
            Some(MoshFlag::KeepAlive)
        } else if same_text(value, "-4") {
            Some(MoshFlag::Family(AddressFamily::Inet))
        } else if same_text(value, "-6") {
            Some(MoshFlag::Family(AddressFamily::Inet6))
        } else if same_text(value, "--ssh-pty") {
            Some(MoshFlag::SshPty(true))
        } else if same_text(value, "--no-ssh-pty") {
            Some(MoshFlag::SshPty(false))
        } else if same_text(value, "--init") {
            Some(MoshFlag::Init(true))
        } else if same_text(value, "--no-init") {
            Some(MoshFlag::Init(false))
        } else if same_text(value, "--local") {
            Some(MoshFlag::Local)
        } else if same_text(value, "--help") || same_text(value, "-h") {
            Some(MoshFlag::Help)
        } else if same_text(value, "--version") || same_text(value, "-V") {
            Some(MoshFlag::Version)
        } else if same_text(value, "--fake-proxy") {
            Some(MoshFlag::FakeProxy)
        } else {
            None
        }
    }
}

/// An option that takes a value.
#[derive(Clone, Copy, Debug, PartialEq, Eq, Structural)]
pub enum MoshSetting {
    Port,
    Client,
    Server,
    Prediction,
    KeepAlive,
    Family,
    BindServer,
    Ssh,
    RemoteIp,
    FakeProxy,
}

/// The option of a name, if it takes a value.
pub open spec fn setting_named(name: Seq<char>) -> Option<MoshSetting> {
    if name == "-p"@ || name == "--port"@ {
        Some(MoshSetting::Port)
    } else if name == "--client"@ {
        Some(MoshSetting::Client)
    } else if name == "--server"@ {
        Some(MoshSetting::Server)
    } else if name == "--predict"@ {
        Some(MoshSetting::Prediction)
    } else if name == "--keep-alive"@ || name == "-k"@ {
        Some(MoshSetting::KeepAlive)
    } else if name == "--family"@ {
        Some(MoshSetting::Family)
    } else if name == "--bind-server"@ {
        Some(MoshSetting::BindServer)
    } else if name == "--ssh"@ {
        Some(MoshSetting::Ssh)
    } else if name == "--experimental-remote-ip"@ {
        Some(MoshSetting::RemoteIp)
    } else if name == "--fake-proxy"@ {
        Some(MoshSetting::FakeProxy)
    } else {
        None
    }
}

impl MoshSetting {
    /// The option of a name, if it takes a value.
    pub fn parse(name: &str) -> (result: Option<MoshSetting>)
        ensures
            result == setting_named(name@),
    {
        if same_text(name, "-p") || same_text(name, "--port") {
            Some(MoshSetting::Port)
        } else if same_text(name, "--client") {
            Some(MoshSetting::Client)
        } else if same_text(name, "--server") {
            Some(MoshSetting::Server)
        } else if same_text(name, "--predict") {
            Some(MoshSetting::Prediction)
        } else if same_text(name, "--keep-alive") || same_text(name, "-k") {
            Some(MoshSetting::KeepAlive)
        } else if same_text(name, "--family") {
            Some(MoshSetting::Family)
        } else if same_text(name, "--bind-server") {
            Some(MoshSetting::BindServer)
        } else if same_text(name, "--ssh") {
            Some(MoshSetting::Ssh)
        } else if same_text(name, "--experimental-remote-ip") {
            Some(MoshSetting::RemoteIp)
        } else if same_text(name, "--fake-proxy") {
            Some(MoshSetting::FakeProxy)
        } else {
            None
        }
    }
}

/// The command that the words of an `--ssh` value make.
pub open spec fn ssh_command(words: Option<Seq<Seq<char>>>) -> Result<Seq<Seq<char>>, MoshError> {
    match words {
        None => Err(MoshError::UnquotedSsh),
        Some(words) => if words.len() == 0 {
            Err(MoshError::EmptySsh)
        } else {
            Ok(words)
        },
    }
}

/// Optional words as they view.
pub open spec fn words_view(words: Option<Vec<String>>) -> Option<Seq<Seq<char>>> {
    match words {
        Some(words) => Some(texts(words@)),
        None => None,
    }
}

/// The command that the words of an `--ssh` value make. `None` stands for a
/// value that a shell cannot split.
pub fn parse_ssh_command(words: &Option<Vec<String>>) -> (result: Result<Vec<String>, MoshError>)
    ensures
        match result {
            Ok(ssh) => ssh_command(words_view(*words)) == Ok::<Seq<Seq<char>>, MoshError>(
                texts(ssh@),
            ),
            Err(error) => ssh_command(words_view(*words)) == Err::<Seq<Seq<char>>, MoshError>(
                error,
            ),
        },
{
    match words {
        None => Err(MoshError::UnquotedSsh),
        Some(words) => if words.len() == 0 {
            Err(MoshError::EmptySsh)
        } else {
            Ok(clone_texts(words))
        },
    }
}

/// A reading of the arguments under way.
pub struct MoshReading {
    pub command: MoshCommand,
    pub seen: SeenOptions,
}

impl MoshReading {
    pub open spec fn view(self) -> MoshState {
        MoshState { command: self.command.view(), seen: self.seen }
    }
}

/// Whether a step of the reading came out as `expected` says.
pub open spec fn read_as(
    result: Result<MoshReading, MoshError>,
    expected: Result<MoshState, MoshError>,
) -> bool {
    match result {
        Ok(reading) => expected == Ok::<MoshState, MoshError>(reading.view()),
        Err(error) => expected == Err::<MoshState, MoshError>(error),
    }
}

/// Takes a prediction mode.
pub fn set_prediction(reading: MoshReading, prediction: PredictionMode) -> (result: Result<MoshReading, MoshError>)
    ensures
        read_as(result, reading.view().with_prediction(prediction)),
{
    let seen = SeenOptions { prediction: true, ..reading.seen };
    if let Err(error) = set_once(reading.seen.prediction, MoshOption::Prediction) {
        return Err(error);
    }
    Ok(MoshReading { command: MoshCommand { prediction, prediction_explicit: true, ..reading.command }, seen })
}

/// Takes a keep-alive interval.
pub fn set_keep_alive(reading: MoshReading, interval: u64) -> (result: Result<MoshReading, MoshError>)
    ensures
        read_as(result, reading.view().with_keep_alive(interval)),
{
    let seen = SeenOptions { keep_alive: true, ..reading.seen };
    if let Err(error) = set_once(reading.seen.keep_alive, MoshOption::KeepAlive) {
        return Err(error);
    }
    Ok(MoshReading { command: MoshCommand { keep_alive: Some(interval), ..reading.command }, seen })
}

/// Takes an address family.
pub fn set_family(reading: MoshReading, family: AddressFamily) -> (result: Result<MoshReading, MoshError>)
    ensures
        read_as(result, reading.view().with_family(family)),
{
    let seen = SeenOptions { family: true, ..reading.seen };
    if let Err(error) = set_once(reading.seen.family, MoshOption::Family) {
        return Err(error);
    }
    Ok(MoshReading { command: MoshCommand { family, ..reading.command }, seen })
}

/// Takes a port or a range.
pub fn set_port(reading: MoshReading, value: &str) -> (result: Result<MoshReading, MoshError>)
    ensures
        read_as(result, reading.view().with_port(value@)),
{
    let seen = SeenOptions { port: true, ..reading.seen };
    if let Err(error) = set_once(reading.seen.port, MoshOption::Port) {
        return Err(error);
    }
    match parse_port_request(value) {
        Ok(request) => Ok(
            MoshReading { command: MoshCommand { port: Some(request), ..reading.command }, seen },
        ),
        Err(error) => Err(error),
    }
}

/// Takes whether a prediction overwrites.
fn set_overwrite(reading: MoshReading, predict_overwrite: bool) -> (result: Result<MoshReading, MoshError>)
    ensures
        read_as(result, reading.view().with_overwrite(predict_overwrite)),
{
    let seen = SeenOptions { overwrite: true, ..reading.seen };
    if let Err(error) = set_once(reading.seen.overwrite, MoshOption::PredictOverwrite) {
        return Err(error);
    }
    Ok(MoshReading { command: MoshCommand { predict_overwrite, ..reading.command }, seen })
}

/// Takes whether SSH gets a terminal.
fn set_ssh_pty(reading: MoshReading, ssh_pty: bool) -> (result: Result<MoshReading, MoshError>)
    ensures
        read_as(result, reading.view().with_ssh_pty(ssh_pty)),
{
    let seen = SeenOptions { ssh_pty: true, ..reading.seen };
    if let Err(error) = set_once(reading.seen.ssh_pty, MoshOption::SshPty) {
        return Err(error);
    }
    Ok(MoshReading { command: MoshCommand { ssh_pty, ..reading.command }, seen })
}

/// Takes whether the terminal is initialized.
fn set_init(reading: MoshReading, init: bool) -> (result: Result<MoshReading, MoshError>)
    ensures
        read_as(result, reading.view().with_init(init)),
{
    let seen = SeenOptions { init: true, ..reading.seen };
    if let Err(error) = set_once(reading.seen.init, MoshOption::Init) {
        return Err(error);
    }
    Ok(MoshReading { command: MoshCommand { init, init_explicit: true, ..reading.command }, seen })
}

/// Takes `--local`.
fn set_local(reading: MoshReading) -> (result: Result<MoshReading, MoshError>)
    ensures
        read_as(result, reading.view().with_local()),
{
    if let Err(error) = set_once(reading.command.local, MoshOption::Local) {
        return Err(error);
    }
    Ok(MoshReading { command: MoshCommand { local: true, ..reading.command }, ..reading })
}

/// Takes `--help`.
fn set_help(reading: MoshReading) -> (result: Result<MoshReading, MoshError>)
    ensures
        read_as(result, reading.view().with_help()),
{
    if let Err(error) = set_once(reading.command.help, MoshOption::Help) {
        return Err(error);
    }
    Ok(MoshReading { command: MoshCommand { help: true, ..reading.command }, ..reading })
}

/// Takes `--version`.
fn set_version(reading: MoshReading) -> (result: Result<MoshReading, MoshError>)
    ensures
        read_as(result, reading.view().with_version()),
{
    if let Err(error) = set_once(reading.command.version, MoshOption::Version) {
        return Err(error);
    }
    Ok(MoshReading { command: MoshCommand { version: true, ..reading.command }, ..reading })
}

/// Takes `--fake-proxy`.
fn set_fake_proxy(reading: MoshReading) -> (result: Result<MoshReading, MoshError>)
    ensures
        read_as(result, reading.view().with_fake_proxy()),
{
    Ok(MoshReading { seen: SeenOptions { fake_proxy: true, ..reading.seen }, ..reading })
}

/// Takes the client.
fn set_client(reading: MoshReading, client: String) -> (result: Result<MoshReading, MoshError>)
    ensures
        read_as(result, reading.view().with_client(client@)),
{
    let seen = SeenOptions { client: true, ..reading.seen };
    if let Err(error) = set_once(reading.seen.client, MoshOption::Client) {
        return Err(error);
    }
    Ok(MoshReading { command: MoshCommand { client: Some(client), ..reading.command }, seen })
}

/// Takes the server.
fn set_server(reading: MoshReading, server: String) -> (result: Result<MoshReading, MoshError>)
    ensures
        read_as(result, reading.view().with_server(server@)),
{
    let seen = SeenOptions { server: true, ..reading.seen };
    if let Err(error) = set_once(reading.seen.server, MoshOption::Server) {
        return Err(error);
    }
    Ok(MoshReading { command: MoshCommand { server, ..reading.command }, seen })
}

/// Takes the address to bind.
fn set_bind_server(reading: MoshReading, value: &str) -> (result: Result<MoshReading, MoshError>)
    ensures
        read_as(result, reading.view().with_bind_server(value@)),
{
    let seen = SeenOptions { bind_server: true, ..reading.seen };
    if let Err(error) = set_once(reading.seen.bind_server, MoshOption::BindServer) {
        return Err(error);
    }
    Ok(MoshReading { command: MoshCommand { bind_server: parse_bind_server(value), ..reading.command }, seen })
}

/// Takes the command that connects.
fn set_ssh(reading: MoshReading, words: &Option<Vec<String>>) -> (result: Result<MoshReading, MoshError>)
    ensures
        read_as(result, reading.view().with_ssh(words_view(*words))),
{
    let seen = SeenOptions { ssh: true, ..reading.seen };
    if let Err(error) = set_once(reading.seen.ssh, MoshOption::Ssh) {
        return Err(error);
    }
    match parse_ssh_command(words) {
        Ok(ssh) => Ok(
            MoshReading { command: MoshCommand { ssh, ..reading.command }, seen },
        ),
        Err(error) => Err(error),
    }
}

/// Takes how the remote address is found.
fn set_remote_ip(reading: MoshReading, value: &str) -> (result: Result<MoshReading, MoshError>)
    ensures
        read_as(result, reading.view().with_remote_ip(value@)),
{
    let seen = SeenOptions { remote_ip: true, ..reading.seen };
    if let Err(error) = set_once(reading.seen.remote_ip, MoshOption::RemoteIp) {
        return Err(error);
    }
    match parse_remote_ip(value) {
        Ok(remote_ip) => Ok(
            MoshReading { command: MoshCommand { remote_ip, ..reading.command }, seen },
        ),
        Err(error) => Err(error),
    }
}

fn take_flag(flag: MoshFlag, reading: MoshReading) -> (result: Result<MoshReading, MoshError>)
    ensures
        read_as(result, reading.view().flagged(flag)),
{
    proof {
        reveal(MoshState::flagged);
    }
    match flag {
        MoshFlag::Prediction(prediction) => set_prediction(reading, prediction),
        MoshFlag::Overwrite(overwrite) => set_overwrite(reading, overwrite),
        MoshFlag::KeepAlive => set_keep_alive(reading, KEEP_ALIVE_DEFAULT_MS),
        MoshFlag::Family(family) => set_family(reading, family),
        MoshFlag::SshPty(ssh_pty) => set_ssh_pty(reading, ssh_pty),
        MoshFlag::Init(init) => set_init(reading, init),
        MoshFlag::Local => set_local(reading),
        MoshFlag::Help => set_help(reading),
        MoshFlag::Version => set_version(reading),
        MoshFlag::FakeProxy => set_fake_proxy(reading),
    }
}

fn take_setting(
    setting: MoshSetting,
    value: &str,
    words: &Option<Vec<String>>,
    reading: MoshReading,
) -> (result: Result<MoshReading, MoshError>)
    ensures
        read_as(result, reading.view().set(setting, value@, words_view(*words))),
{
    proof {
        reveal(MoshState::set);
    }
    match setting {
        MoshSetting::Port => set_port(reading, value),
        MoshSetting::Client => set_client(reading, value.to_owned()),
        MoshSetting::Server => set_server(reading, value.to_owned()),
        MoshSetting::Prediction => match parse_prediction(value) {
            Ok(prediction) => set_prediction(reading, prediction),
            Err(error) => Err(error),
        },
        MoshSetting::KeepAlive => match parse_keep_alive_interval(value) {
            Ok(interval) => set_keep_alive(reading, interval),
            Err(error) => Err(error),
        },
        MoshSetting::Family => match parse_family(value) {
            Ok(family) => set_family(reading, family),
            Err(error) => Err(error),
        },
        MoshSetting::BindServer => set_bind_server(reading, value),
        MoshSetting::Ssh => set_ssh(reading, words),
        MoshSetting::RemoteIp => set_remote_ip(reading, value),
        MoshSetting::FakeProxy => if same_text(value, "true") {
            set_fake_proxy(reading)
        } else {
            Err(MoshError::FakeProxyValue)
        },
    }
}

/// Takes an option with its value, which a shell splits into the given words.
pub fn parse_attached_value(
    name: &str,
    value: &str,
    words: &Option<Vec<String>>,
    reading: MoshReading,
) -> (result: Result<MoshReading, MoshError>)
    ensures
        read_as(result, reading.view().valued(name@, value@, words_view(*words))),
{
    if value.is_empty() {
        return Err(MoshError::MissingValue);
    }
    match MoshSetting::parse(name) {
        None => Err(MoshError::UnknownOption),
        Some(setting) => take_setting(setting, value, words, reading),
    }
}

/// Takes an argument that stands alone. The first part of the answer says
/// whether it is one; where it is none, nothing changes.
pub fn parse_flag(value: &str, reading: MoshReading) -> (result: Result<
    (bool, MoshReading),
    MoshError,
>)
    ensures
        match flag_named(value@) {
            Some(flag) => match result {
                Ok((taken, after)) => {
                    &&& taken
                    &&& reading.view().flagged(flag) == Ok::<MoshState, MoshError>(after.view())
                },
                Err(error) => reading.view().flagged(flag) == Err::<MoshState, MoshError>(error),
            },
            None => result == Ok::<(bool, MoshReading), MoshError>((false, reading)),
        },
{
    match MoshFlag::parse(value) {
        None => Ok((false, reading)),
        Some(flag) => match take_flag(flag, reading) {
            Ok(after) => Ok((true, after)),
            Err(error) => Err(error),
        },
    }
}

/// The value that an option takes from the argument behind it.
pub open spec fn value_behind(
    arguments: Seq<Seq<char>>,
    index: int,
    option: Seq<char>,
) -> Option<Seq<char>> {
    if index + 1 >= arguments.len() {
        None
    } else {
        let next = arguments[index + 1];
        if next.len() == 0 || (has_prefix(next, "-"@) && option != "--bind-server"@) {
            None
        } else {
            Some(next)
        }
    }
}

/// The value that an option takes from the argument behind it.
pub fn required_value(arguments: &Vec<String>, index: usize, option: &str) -> (result: Result<
    String,
    MoshError,
>)
    requires
        index < arguments@.len(),
    ensures
        match result {
            Ok(value) => value_behind(texts(arguments@), index as int, option@) == Some(value@),
            Err(error) => {
                &&& error == MoshError::MissingValue
                &&& value_behind(texts(arguments@), index as int, option@) is None
            },
        },
{
    if arguments.len() - index == 1 {
        return Err(MoshError::MissingValue);
    }
    let next = &arguments[index + 1];
    proof {
        assert(texts(arguments@)[index + 1] == next@);
    }
    if next.as_str().is_empty() || (starts_with(next.as_str(), "-") && !same_text(
        option,
        "--bind-server",
    )) {
        Err(MoshError::MissingValue)
    } else {
        Ok(next.clone())
    }
}

/// What a command line asks for once its target is reached.
pub open spec fn targeted(
    state: MoshState,
    target: Seq<char>,
    remote_command: Seq<Seq<char>>,
) -> Result<MoshView, MoshError> {
    if !state.seen.fake_proxy {
        Ok(MoshView { target: Some(target), remote_command, ..state.command })
    } else if remote_command.len() != 1 {
        Err(MoshError::FakeProxyArguments)
    } else {
        match unsigned_value(remote_command[0], 65535) {
            None => Err(MoshError::InvalidProxyPort),
            Some(port) => if port == 0 {
                Err(MoshError::ZeroProxyPort)
            } else {
                Ok(
                    MoshView {
                        target: None,
                        remote_command: Seq::empty(),
                        proxy: Some((target, port as u16)),
                        ..state.command
                    },
                )
            },
        }
    }
}

/// What a command line asks for that ends before a target.
pub open spec fn untargeted(state: MoshState) -> Result<MoshView, MoshError> {
    if state.seen.fake_proxy {
        Err(MoshError::FakeProxyWithoutTarget)
    } else if state.command.help || state.command.version {
        Ok(state.command)
    } else {
        Err(MoshError::MissingTarget)
    }
}

/// Whether a command came out as `expected` says.
pub open spec fn ended_as(
    result: Result<MoshCommand, MoshError>,
    expected: Result<MoshView, MoshError>,
) -> bool {
    match result {
        Ok(command) => expected == Ok::<MoshView, MoshError>(command.view()),
        Err(error) => expected == Err::<MoshView, MoshError>(error),
    }
}

/// Ends the reading at its target, behind which the remote command stands.
pub fn finish_target(reading: MoshReading, arguments: &Vec<String>, index: usize) -> (result:
    Result<MoshCommand, MoshError>)
    requires
        index < arguments@.len(),
    ensures
        ended_as(
            result,
            targeted(
                reading.view(),
                arguments@[index as int]@,
                texts(arguments@).skip(index + 1),
            ),
        ),
{
    let target = arguments[index].clone();
    let mut remote_command: Vec<String> = Vec::new();
    let count = arguments.len();
    let mut next: usize = index + 1;
    while next < count
        invariant
            index < next <= count == arguments@.len(),
            texts(remote_command@) == texts(arguments@).subrange(index + 1, next as int),
        decreases count - next,
    {
        let argument = arguments[next].clone();
        let ghost before = remote_command@;
        remote_command.push(argument);
        proof {
            assert(texts(remote_command@) =~= texts(before).push(argument@));
            assert(texts(arguments@).subrange(index + 1, next + 1) =~= texts(arguments@).subrange(
                index + 1,
                next as int,
            ).push(arguments@[next as int]@));
        }
        next = next + 1;
    }
    proof {
        assert(texts(arguments@).subrange(index + 1, count as int) =~= texts(arguments@).skip(
            index + 1,
        ));
    }
    if !reading.seen.fake_proxy {
        return Ok(MoshCommand { target: Some(target), remote_command, ..reading.command });
    }
    if remote_command.len() != 1 {
        return Err(MoshError::FakeProxyArguments);
    }
    proof {
        assert(texts(remote_command@)[0] == remote_command@[0]@);
    }
    match parse_port(remote_command[0].as_str()) {
        None => Err(MoshError::InvalidProxyPort),
        Some(port) => if port == 0 {
            Err(MoshError::ZeroProxyPort)
        } else {
            let no_command: Vec<String> = Vec::new();
            proof {
                assert(texts(no_command@) =~= Seq::<Seq<char>>::empty());
            }
            Ok(
                MoshCommand {
                    target: None,
                    remote_command: no_command,
                    proxy: Some(ProxyRequest { host: target, port }),
                    ..reading.command
                },
            )
        },
    }
}

/// Ends a reading that came to no target.
pub fn finish_without_target(reading: MoshReading) -> (result: Result<MoshCommand, MoshError>)
    ensures
        ended_as(result, untargeted(reading.view())),
{
    if reading.seen.fake_proxy {
        Err(MoshError::FakeProxyWithoutTarget)
    } else if reading.command.help || reading.command.version {
        Ok(reading.command)
    } else {
        Err(MoshError::MissingTarget)
    }
}

/// An error and the argument that it is about.
pub open spec fn failed_at<T>(error: MoshError, at: int) -> Result<T, (MoshError, int)> {
    Err((error, at))
}

/// What the arguments from `index` on ask for, after those before them led to
/// `state`. `splits` says of each argument into which words a shell splits it,
/// or what follows `--ssh=` in it.
pub open spec fn parsed_from(
    arguments: Seq<Seq<char>>,
    splits: Seq<Option<Seq<Seq<char>>>>,
    index: int,
    state: MoshState,
) -> Result<MoshView, (MoshError, int)>
    decreases arguments.len() - index,
{
    if index < 0 || index >= arguments.len() {
        at_argument(untargeted(state), arguments.len() as int)
    } else {
        let value = arguments[index];
        if value == "--"@ {
            if index + 1 < arguments.len() {
                at_argument(
                    targeted(state, arguments[index + 1], arguments.skip(index + 2)),
                    index + 1,
                )
            } else {
                failed_at(MoshError::MissingTargetAfterDelimiter, arguments.len() as int)
            }
        } else if !has_prefix(value, "-"@) {
            at_argument(targeted(state, value, arguments.skip(index + 1)), index)
        } else if flag_named(value) is Some {
            match state.flagged(flag_named(value)->0) {
                Ok(next) => parsed_from(arguments, splits, index + 1, next),
                Err(error) => failed_at(error, index),
            }
        } else if parted(value, '=') is Some {
            let (name, attached) = parted(value, '=')->0;
            match state.valued(name, attached, splits[index]) {
                Ok(next) => parsed_from(arguments, splits, index + 1, next),
                Err(error) => failed_at(error, index),
            }
        } else if value == "-p"@ || value == "--port"@ || awaits_value(value) {
            match value_behind(arguments, index, value) {
                None => failed_at(MoshError::MissingValue, index),
                Some(given) => match state.valued(value, given, splits[index + 1]) {
                    Ok(next) => parsed_from(arguments, splits, index + 2, next),
                    Err(error) => failed_at(error, index),
                },
            }
        } else if without_prefix(value, "-p"@) is Some {
            match state.with_port(without_prefix(value, "-p"@)->0) {
                Ok(next) => parsed_from(arguments, splits, index + 1, next),
                Err(error) => failed_at(error, index),
            }
        } else {
            failed_at(MoshError::UnknownOption, index)
        }
    }
}

/// An outcome, with the argument that it is about where it is an error.
pub open spec fn at_argument(outcome: Result<MoshView, MoshError>, at: int) -> Result<
    MoshView,
    (MoshError, int),
> {
    match outcome {
        Ok(command) => Ok(command),
        Err(error) => Err((error, at)),
    }
}

/// Words for each argument, as they view.
pub open spec fn splits_view(splits: Seq<Option<Vec<String>>>) -> Seq<Option<Seq<Seq<char>>>> {
    splits.map_values(|words: Option<Vec<String>>| words_view(words))
}

fn located(outcome: Result<MoshCommand, MoshError>, at: usize) -> (result: Result<
    MoshCommand,
    MoshFailure,
>)
    ensures
        match outcome {
            Ok(command) => result == Ok::<MoshCommand, MoshFailure>(command),
            Err(error) => result == Err::<MoshCommand, MoshFailure>(MoshFailure { error, at }),
        },
{
    match outcome {
        Ok(command) => Ok(command),
        Err(error) => Err(MoshFailure { error, at }),
    }
}

/// Parses a Mosh launcher command line: everything after `zetta mosh`, or the
/// arguments of a running `zosh`/`mosh` process. `splits` says of each
/// argument into which words a shell splits it, or what follows `--ssh=` in
/// it; `None` says that it cannot.
#[verifier::rlimit(60)]
pub fn parse_mosh_args(arguments: &Vec<String>, splits: &Vec<Option<Vec<String>>>) -> (result:
    Result<MoshCommand, MoshFailure>)
    requires
        splits@.len() == arguments@.len(),
    ensures
        match result {
            Ok(command) => parsed_from(
                texts(arguments@),
                splits_view(splits@),
                0,
                MoshState { command: plain_command(), seen: nothing_seen() },
            ) == Ok::<MoshView, (MoshError, int)>(command.view()),
            Err(failure) => parsed_from(
                texts(arguments@),
                splits_view(splits@),
                0,
                MoshState { command: plain_command(), seen: nothing_seen() },
            ) == Err::<MoshView, (MoshError, int)>((failure.error, failure.at as int)),
        },
{
    let mut reading = MoshReading {
        command: MoshCommand::default(),
        seen: SeenOptions::default(),
    };
    let mut index: usize = 0;
    let count = arguments.len();
    let ghost words = texts(arguments@);
    let ghost ways = splits_view(splits@);
    let ghost whole = parsed_from(
        words,
        ways,
        0,
        MoshState { command: plain_command(), seen: nothing_seen() },
    );
    while index < count
        invariant
            index <= count == arguments@.len() == splits@.len(),
            words == texts(arguments@),
            ways == splits_view(splits@),
            whole == parsed_from(words, ways, index as int, reading.view()),
            whole == parsed_from(
                texts(arguments@),
                splits_view(splits@),
                0,
                MoshState { command: plain_command(), seen: nothing_seen() },
            ),
        decreases count - index,
    {
        let value = arguments[index].as_str();
        proof {
            assert(words[index as int] == value@);
            assert(ways[index as int] == words_view(splits@[index as int]));
        }
        if same_text(value, "--") {
            if count - index == 1 {
                return Err(
                    MoshFailure { error: MoshError::MissingTargetAfterDelimiter, at: count },
                );
            }
            proof {
                assert(words[index + 1] == arguments@[index + 1]@);
            }
            return located(finish_target(reading, arguments, index + 1), index + 1);
        }
        if !starts_with(value, "-") {
            return located(finish_target(reading, arguments, index), index);
        }
        if let Some(flag) = MoshFlag::parse(value) {
            match take_flag(flag, reading) {
                Ok(next) => {
                    reading = next;
                    index = index + 1;
                },
                Err(error) => {
                    return Err(MoshFailure { error, at: index });
                },
            }
        } else if let Some((name, attached)) = split_once(value, '=') {
            match parse_attached_value(name.as_str(), attached.as_str(), &splits[index], reading) {
                Ok(next) => {
                    reading = next;
                    index = index + 1;
                },
                Err(error) => {
                    return Err(MoshFailure { error, at: index });
                },
            }
        } else if same_text(value, "-p") || same_text(value, "--port") || takes_value(value) {
            let given = match required_value(arguments, index, value) {
                Ok(given) => given,
                Err(error) => {
                    return Err(MoshFailure { error, at: index });
                },
            };
            proof {
                assert(ways[index + 1] == words_view(splits@[index + 1]));
            }
            match parse_attached_value(value, given.as_str(), &splits[index + 1], reading) {
                Ok(next) => {
                    reading = next;
                    index = index + 2;
                },
                Err(error) => {
                    return Err(MoshFailure { error, at: index });
                },
            }
        } else if let Some(port) = strip_prefix(value, "-p") {
            match set_port(reading, port.as_str()) {
                Ok(next) => {
                    reading = next;
                    index = index + 1;
                },
                Err(error) => {
                    return Err(MoshFailure { error, at: index });
                },
            }
        } else {
            return Err(MoshFailure { error: MoshError::UnknownOption, at: index });
        }
    }
    located(finish_without_target(reading), count)
}

/// The arguments that are handed on to `zosh`.
pub open spec fn handed_on(command: MoshView) -> Seq<Seq<char>> {
    if command.raw_arguments.len() > 0 {
        command.raw_arguments
    } else if command.help {
        seq!["--help"@]
    } else if command.version {
        seq!["--version"@]
    } else {
        match command.target {
            Some(target) => seq![target] + command.remote_command,
            None => Seq::empty(),
        }
    }
}

/// The arguments that are handed on to `zosh`: the ones that were given,
/// untouched, or what the command says where none were kept.
pub fn forwarded_arguments(command: &MoshCommand) -> (result: Vec<String>)
    ensures
        texts(result@) == handed_on(command.view()),
{
    if command.raw_arguments.len() > 0 {
        return clone_texts(&command.raw_arguments);
    }
    let mut arguments: Vec<String> = Vec::new();
    if command.help {
        arguments.push("--help".to_owned());
        proof {
            assert(texts(arguments@) =~= seq!["--help"@]);
        }
    } else if command.version {
        arguments.push("--version".to_owned());
        proof {
            assert(texts(arguments@) =~= seq!["--version"@]);
        }
    } else if let Some(target) = &command.target {
        arguments.push(target.clone());
        let mut rest = clone_texts(&command.remote_command);
        arguments.append(&mut rest);
        proof {
            assert(texts(arguments@) =~= seq![target@] + texts(command.remote_command@));
        }
    } else {
        proof {
            assert(texts(arguments@) =~= Seq::<Seq<char>>::empty());
        }
    }
    arguments
}

/// Arguments that were kept reach `zosh` as they were given.
pub proof fn law_kept_arguments_are_handed_on(command: MoshView)
    requires
        command.raw_arguments.len() > 0,
    ensures
        handed_on(command) == command.raw_arguments,
{
}

proof fn lemma_flag_keeps_aim(state: MoshState, flag: MoshFlag)
    ensures
        state.flagged(flag) matches Ok(next) ==> next.command.target == state.command.target
            && next.command.proxy == state.command.proxy,
{
    reveal(MoshState::flagged);
}

proof fn lemma_setting_keeps_aim(
    state: MoshState,
    name: Seq<char>,
    value: Seq<char>,
    words: Option<Seq<Seq<char>>>,
)
    ensures
        state.valued(name, value, words) matches Ok(next) ==> next.command.target
            == state.command.target && next.command.proxy == state.command.proxy,
{
    reveal(MoshState::set);
}

/// A command that parses has a target, a proxy, or asks for help or the
/// version, and never both a target and a proxy.
pub proof fn law_parsed_command_has_an_aim(
    arguments: Seq<Seq<char>>,
    splits: Seq<Option<Seq<Seq<char>>>>,
    index: int,
    state: MoshState,
)
    requires
        state.command.target is None,
        state.command.proxy is None,
    ensures
        parsed_from(arguments, splits, index, state) matches Ok(command) ==> {
            &&& command.target is Some || command.proxy is Some || command.help || command.version
            &&& command.target is None || command.proxy is None
        },
    decreases arguments.len() - index,
{
    if 0 <= index < arguments.len() {
        let value = arguments[index];
        if value == "--"@ || !has_prefix(value, "-"@) {
        } else if flag_named(value) is Some {
            lemma_flag_keeps_aim(state, flag_named(value)->0);
            if let Ok(next) = state.flagged(flag_named(value)->0) {
                law_parsed_command_has_an_aim(arguments, splits, index + 1, next);
            }
        } else if parted(value, '=') is Some {
            let (name, attached) = parted(value, '=')->0;
            lemma_setting_keeps_aim(state, name, attached, splits[index]);
            if let Ok(next) = state.valued(name, attached, splits[index]) {
                law_parsed_command_has_an_aim(arguments, splits, index + 1, next);
            }
        } else if value == "-p"@ || value == "--port"@ || awaits_value(value) {
            if let Some(given) = value_behind(arguments, index, value) {
                lemma_setting_keeps_aim(state, value, given, splits[index + 1]);
                if let Ok(next) = state.valued(value, given, splits[index + 1]) {
                    law_parsed_command_has_an_aim(arguments, splits, index + 2, next);
                }
            }
        } else if without_prefix(value, "-p"@) is Some {
            if let Ok(next) = state.with_port(without_prefix(value, "-p"@)->0) {
                law_parsed_command_has_an_aim(arguments, splits, index + 1, next);
            }
        }
    }
}

} // verus!
