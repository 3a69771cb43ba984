//! What holds of Mosh command lines.

use vstd::prelude::*;

use crate::mosh::{
    awaits_value, bind_server, family_named, flag_named, handed_on, keep_alive,
    law_port_requests_read_back, nothing_seen, parsed_from, plain_command, prediction_named,
    remote_ip_named, setting_named, targeted, untargeted, value_behind, AddressFamily, BindView,
    MoshError, MoshFlag, MoshState, MoshView, PortRequest, PredictionMode, RemoteIpMode,
};
use crate::text::{
    decimal_text, decimal_value, first_at, has_prefix, lemma_absent, lemma_decimal_round_trip,
    lemma_first_at, lowered, parted, unsigned_digits, without_prefix,
};

verus! {

/// The word that a prediction mode is asked for by.
pub open spec fn prediction_word(mode: PredictionMode) -> Seq<char> {
    match mode {
        PredictionMode::Adaptive => "adaptive"@,
        PredictionMode::Always => "always"@,
        PredictionMode::Never => "never"@,
        PredictionMode::Experimental => "experimental"@,
    }
}

/// Each prediction mode is read from its own word, and no other word is read as
/// one.
pub proof fn law_prediction_words_read_back(mode: PredictionMode, text: Seq<char>)
    ensures
        prediction_named(prediction_word(mode)) == Some(mode),
        prediction_named(text) matches Some(read) ==> text == prediction_word(read),
{
    reveal_strlit("adaptive");
    reveal_strlit("always");
    reveal_strlit("never");
    reveal_strlit("experimental");
    assert("adaptive"@.len() == 8 && "always"@.len() == 6 && "never"@.len() == 5
        && "experimental"@.len() == 12);
}

/// The word that a way to find the remote address is asked for by.
pub open spec fn remote_ip_word(mode: RemoteIpMode) -> Seq<char> {
    match mode {
        RemoteIpMode::Local => "local"@,
        RemoteIpMode::Remote => "remote"@,
        RemoteIpMode::Proxy => "proxy"@,
    }
}

/// Each way to find the remote address is read from its own word, and no other word
/// is read as one.
pub proof fn law_remote_ip_words_read_back(mode: RemoteIpMode, text: Seq<char>)
    ensures
        remote_ip_named(remote_ip_word(mode)) == Some(mode),
        remote_ip_named(text) matches Some(read) ==> text == remote_ip_word(read),
{
    reveal_strlit("local");
    reveal_strlit("remote");
    reveal_strlit("proxy");
    assert("local"@[0] == 'l' && "remote"@[0] == 'r' && "proxy"@[0] == 'p');
}

/// Whether a word in lower case is one that an address family is asked for by.
pub open spec fn is_family_word(family: AddressFamily, word: Seq<char>) -> bool {
    match family {
        AddressFamily::Inet => word == "inet"@ || word == "ipv4"@ || word == "4"@,
        AddressFamily::Inet6 => word == "inet6"@ || word == "ipv6"@ || word == "6"@,
        AddressFamily::PreferInet => word == "prefer-inet"@,
        AddressFamily::PreferInet6 => word == "prefer-inet6"@,
        AddressFamily::Auto => word == "auto"@,
        AddressFamily::All => word == "all"@ || word == "any"@,
    }
}

/// Each address family is read from its own words in whatever case, and no other
/// word is read as one.
pub proof fn law_family_words_read_back(family: AddressFamily, text: Seq<char>)
    ensures
        family_named(text) == Some(family) <==> is_family_word(family, lowered(text)),
{
    reveal_strlit("inet");
    reveal_strlit("ipv4");
    reveal_strlit("4");
    reveal_strlit("inet6");
    reveal_strlit("ipv6");
    reveal_strlit("6");
    reveal_strlit("prefer-inet");
    reveal_strlit("prefer-inet6");
    reveal_strlit("auto");
    reveal_strlit("all");
    reveal_strlit("any");
    assert("inet"@.len() == 4 && "ipv4"@.len() == 4 && "4"@.len() == 1);
    assert("inet6"@.len() == 5 && "ipv6"@.len() == 4 && "6"@.len() == 1);
    assert("prefer-inet"@.len() == 11 && "prefer-inet6"@.len() == 12 && "auto"@.len() == 4);
    assert("all"@.len() == 3 && "any"@.len() == 3 && "ipv4"@[1] == 'p');
    assert("inet"@[1] == 'n' && "ipv6"@[1] == 'p' && "ipv6"@[3] == '6');
    assert("ipv4"@[3] == '4' && "auto"@[0] == 'a' && "inet"@[0] == 'i');
    assert("ipv4"@[0] == 'i' && "ipv6"@[0] == 'i' && "6"@[0] == '6');
    assert("4"@[0] == '4' && "any"@[1] == 'n' && "all"@[1] == 'l');
}

/// The server is asked to bind an address as it is written, unless it is one of
/// the two words, in whatever case.
pub proof fn law_bound_address_is_as_written(text: Seq<char>)
    ensures
        bind_server(text) matches BindView::Address(address) ==> address == text,
        bind_server(text) is Ssh <==> lowered(text) == "ssh"@,
        bind_server(text) is Any <==> lowered(text) == "any"@,
{
    reveal_strlit("ssh");
    reveal_strlit("any");
    assert("ssh"@[0] == 's' && "any"@[0] == 'a');
}

/// A keep-alive is asked for in milliseconds, from twenty to three thousand.
pub proof fn law_keep_alive_reads_back(interval: nat)
    requires
        interval <= u64::MAX,
    ensures
        20 <= interval <= 3000 ==> keep_alive(decimal_text(interval)) == Ok::<u64, MoshError>(
            interval as u64,
        ),
        interval < 20 || interval > 3000 ==> keep_alive(decimal_text(interval)) is Err,
{
    lemma_decimal_round_trip(interval);
    assert(unsigned_digits(decimal_text(interval)) == decimal_text(interval));
}

proof fn lemma_options()
    ensures
        flag_named("-a"@) == Some(MoshFlag::Prediction(PredictionMode::Always)),
        flag_named("-n"@) == Some(MoshFlag::Prediction(PredictionMode::Never)),
        flag_named("-4"@) == Some(MoshFlag::Family(AddressFamily::Inet)),
        flag_named("-6"@) == Some(MoshFlag::Family(AddressFamily::Inet6)),
        flag_named("-o"@) == Some(MoshFlag::Overwrite(true)),
        flag_named("--predict-overwrite"@) == Some(MoshFlag::Overwrite(true)),
        flag_named("--no-predict-overwrite"@) == Some(MoshFlag::Overwrite(false)),
        flag_named("-k"@) == Some(MoshFlag::KeepAlive),
        flag_named("--keep-alive"@) == Some(MoshFlag::KeepAlive),
        flag_named("--ssh-pty"@) == Some(MoshFlag::SshPty(true)),
        flag_named("--no-ssh-pty"@) == Some(MoshFlag::SshPty(false)),
        flag_named("--init"@) == Some(MoshFlag::Init(true)),
        flag_named("--no-init"@) == Some(MoshFlag::Init(false)),
        flag_named("--local"@) == Some(MoshFlag::Local),
        flag_named("-h"@) == Some(MoshFlag::Help),
        flag_named("--help"@) == Some(MoshFlag::Help),
        flag_named("-V"@) == Some(MoshFlag::Version),
        flag_named("--version"@) == Some(MoshFlag::Version),
        flag_named("--fake-proxy"@) == Some(MoshFlag::FakeProxy),
{
    reveal_strlit("-a");
    reveal_strlit("-n");
    reveal_strlit("--predict-overwrite");
    reveal_strlit("-o");
    reveal_strlit("--no-predict-overwrite");
    reveal_strlit("--keep-alive");
    reveal_strlit("-k");
    reveal_strlit("-4");
    reveal_strlit("-6");
    reveal_strlit("--ssh-pty");
    reveal_strlit("--no-ssh-pty");
    reveal_strlit("--init");
    reveal_strlit("--no-init");
    reveal_strlit("--local");
    reveal_strlit("--help");
    reveal_strlit("-h");
    reveal_strlit("--version");
    reveal_strlit("-V");
    reveal_strlit("--fake-proxy");
    assert("-a"@.len() == 2 && "-n"@.len() == 2 && "--predict-overwrite"@.len() == 19);
    assert("-o"@.len() == 2 && "--no-predict-overwrite"@.len() == 22 && "--keep-alive"@.len() == 12);
    assert("-k"@.len() == 2 && "-4"@.len() == 2 && "-6"@.len() == 2);
    assert("--ssh-pty"@.len() == 9 && "--no-ssh-pty"@.len() == 12 && "--init"@.len() == 6);
    assert("--no-init"@.len() == 9 && "--local"@.len() == 7 && "--help"@.len() == 6);
    assert("-h"@.len() == 2 && "--version"@.len() == 9 && "-V"@.len() == 2);
    assert("--fake-proxy"@.len() == 12 && "-n"@[1] == 'n' && "-a"@[1] == 'a');
    assert("-o"@[1] == 'o' && "-k"@[1] == 'k' && "-4"@[1] == '4');
    assert("-6"@[1] == '6' && "-h"@[1] == 'h' && "-V"@[1] == 'V');
    assert("--no-ssh-pty"@[2] == 'n' && "--keep-alive"@[2] == 'k' && "--fake-proxy"@[2] == 'f');
    assert("--no-init"@[2] == 'n' && "--ssh-pty"@[2] == 's' && "--version"@[2] == 'v');
    assert("--help"@[2] == 'h' && "--init"@[2] == 'i');
}

/// The short options say what the long ones say: predicting always or never, an
/// address family, and a keep-alive of half a second.
pub proof fn law_short_options_say_the_same(state: MoshState, words: Option<Seq<Seq<char>>>)
    ensures
        flag_named("-n"@) matches Some(flag) && state.flagged(flag) == state.valued(
            "--predict"@,
            "never"@,
            words,
        ),
        flag_named("-a"@) matches Some(flag) && state.flagged(flag) == state.valued(
            "--predict"@,
            "always"@,
            words,
        ),
        flag_named("-4"@) matches Some(flag) && state.flagged(flag) == state.valued(
            "--family"@,
            "inet"@,
            words,
        ),
        flag_named("-6"@) matches Some(flag) && state.flagged(flag) == state.valued(
            "--family"@,
            "inet6"@,
            words,
        ),
        flag_named("-k"@) matches Some(flag) && state.flagged(flag) == state.valued(
            "--keep-alive"@,
            "500"@,
            words,
        ),
        flag_named("-k"@) == flag_named("--keep-alive"@),
        flag_named("-o"@) == flag_named("--predict-overwrite"@),
        flag_named("-h"@) == flag_named("--help"@),
        flag_named("-V"@) == flag_named("--version"@),
        setting_named("-p"@) == setting_named("--port"@),
        setting_named("-k"@) == setting_named("--keep-alive"@),
{
    lemma_options();
    lemma_settings();
    law_prediction_words_read_back(PredictionMode::Never, "never"@);
    law_prediction_words_read_back(PredictionMode::Always, "always"@);
    reveal_strlit("never");
    reveal_strlit("always");
    reveal_strlit("inet");
    reveal_strlit("inet6");
    reveal_strlit("500");
    assert(lowered("inet"@) =~= "inet"@);
    assert(lowered("inet6"@) =~= "inet6"@);
    law_family_words_read_back(AddressFamily::Inet, "inet"@);
    law_family_words_read_back(AddressFamily::Inet6, "inet6"@);
    assert(keep_alive("500"@) == Ok::<u64, MoshError>(500)) by {
        let digits = "500"@;
        assert(digits[0] == '5' && digits[1] == '0' && digits[2] == '0');
        assert(unsigned_digits(digits) == digits);
        assert(digits.drop_last().drop_last().drop_last() =~= Seq::<char>::empty());
        reveal_with_fuel(decimal_value, 5);
        assert(decimal_value(digits) == 500);
    }
    reveal(MoshState::flagged);
    reveal(MoshState::set);
}

proof fn lemma_settings()
    ensures
        setting_named("-p"@) == Some(crate::mosh::MoshSetting::Port),
        setting_named("--port"@) == Some(crate::mosh::MoshSetting::Port),
        setting_named("--client"@) == Some(crate::mosh::MoshSetting::Client),
        setting_named("--server"@) == Some(crate::mosh::MoshSetting::Server),
        setting_named("--predict"@) == Some(crate::mosh::MoshSetting::Prediction),
        setting_named("--keep-alive"@) == Some(crate::mosh::MoshSetting::KeepAlive),
        setting_named("-k"@) == Some(crate::mosh::MoshSetting::KeepAlive),
        setting_named("--family"@) == Some(crate::mosh::MoshSetting::Family),
        setting_named("--bind-server"@) == Some(crate::mosh::MoshSetting::BindServer),
        setting_named("--ssh"@) == Some(crate::mosh::MoshSetting::Ssh),
        setting_named("--experimental-remote-ip"@) == Some(crate::mosh::MoshSetting::RemoteIp),
        setting_named("--fake-proxy"@) == Some(crate::mosh::MoshSetting::FakeProxy),
{
    reveal_strlit("-p");
    reveal_strlit("--port");
    reveal_strlit("--client");
    reveal_strlit("--server");
    reveal_strlit("--predict");
    reveal_strlit("--keep-alive");
    reveal_strlit("-k");
    reveal_strlit("--family");
    reveal_strlit("--bind-server");
    reveal_strlit("--ssh");
    reveal_strlit("--experimental-remote-ip");
    reveal_strlit("--fake-proxy");
    assert("-p"@.len() == 2 && "--port"@.len() == 6 && "--client"@.len() == 8);
    assert("--server"@.len() == 8 && "--predict"@.len() == 9 && "--keep-alive"@.len() == 12);
    assert("-k"@.len() == 2 && "--family"@.len() == 8 && "--bind-server"@.len() == 13);
    assert("--ssh"@.len() == 5 && "--experimental-remote-ip"@.len() == 24 && "--fake-proxy"@.len() == 12);
    assert("-k"@[1] == 'k' && "-p"@[1] == 'p' && "--server"@[2] == 's');
    assert("--client"@[2] == 'c' && "--family"@[2] == 'f' && "--fake-proxy"@[2] == 'f');
    assert("--keep-alive"@[2] == 'k');
}

/// An option with a value changes just what it names, to that value: the client,
/// the server, the command that connects, the prediction, the family, the port, the
/// address to bind, the interval, or how the remote address is found.
pub proof fn law_option_sets_what_it_names(
    state: MoshState,
    value: Seq<char>,
    words: Option<Seq<Seq<char>>>,
)
    ensures
        state.valued("--client"@, value, words) matches Ok(next) ==> next.command == (MoshView {
            client: Some(value),
            ..state.command
        }),
        state.valued("--server"@, value, words) matches Ok(next) ==> next.command == (MoshView {
            server: value,
            ..state.command
        }),
        state.valued("--ssh"@, value, words) matches Ok(next) ==> words is Some && next.command == (
        MoshView { ssh: words->0, ..state.command }) && (words->0).len() > 0,
        state.valued("--predict"@, value, words) matches Ok(next) ==> next.command == (MoshView {
            prediction: next.command.prediction,
            prediction_explicit: true,
            ..state.command
        }) && value == prediction_word(next.command.prediction),
        state.valued("--family"@, value, words) matches Ok(next) ==> next.command == (MoshView {
            family: next.command.family,
            ..state.command
        }) && is_family_word(next.command.family, lowered(value)),
        state.valued("--port"@, value, words) matches Ok(next) ==> next.command == (MoshView {
            port: next.command.port,
            ..state.command
        }) && next.command.port is Some,
        state.valued("--bind-server"@, value, words) matches Ok(next) ==> next.command == (
        MoshView { bind_server: bind_server(value), ..state.command }),
        state.valued("--keep-alive"@, value, words) matches Ok(next) ==> next.command == (MoshView {
            keep_alive: next.command.keep_alive,
            ..state.command
        }) && next.command.keep_alive is Some,
        state.valued("--experimental-remote-ip"@, value, words) matches Ok(next) ==> next.command
            == (MoshView { remote_ip: next.command.remote_ip, ..state.command }) && value
            == remote_ip_word(next.command.remote_ip),
        value.len() == 0 ==> forall|name: Seq<char>|
            (#[trigger] state.valued(name, value, words)) is Err,
{
    lemma_settings();
    reveal(MoshState::set);
    law_prediction_words_read_back(PredictionMode::Never, value);
    law_remote_ip_words_read_back(RemoteIpMode::Local, value);
    if let Some(family) = family_named(value) {
        law_family_words_read_back(family, value);
    }
}

/// A flag changes just what it names, and one that begins with `--no-` does the
/// opposite of the one without it.
pub proof fn law_flag_sets_what_it_names(state: MoshState)
    ensures
        state.flagged(flag_named("--init"@)->0) matches Ok(next) ==> next.command == (MoshView {
            init: true,
            init_explicit: true,
            ..state.command
        }),
        state.flagged(flag_named("--no-init"@)->0) matches Ok(next) ==> next.command == (MoshView {
            init: false,
            init_explicit: true,
            ..state.command
        }),
        state.flagged(flag_named("--ssh-pty"@)->0) matches Ok(next) ==> next.command == (MoshView {
            ssh_pty: true,
            ..state.command
        }),
        state.flagged(flag_named("--no-ssh-pty"@)->0) matches Ok(next) ==> next.command == (
        MoshView { ssh_pty: false, ..state.command }),
        state.flagged(flag_named("--predict-overwrite"@)->0) matches Ok(next) ==> next.command == (
        MoshView { predict_overwrite: true, ..state.command }),
        state.flagged(flag_named("--no-predict-overwrite"@)->0) matches Ok(next) ==> next.command
            == (MoshView { predict_overwrite: false, ..state.command }),
        state.flagged(flag_named("--local"@)->0) matches Ok(next) ==> next.command == (MoshView {
            local: true,
            ..state.command
        }),
        state.flagged(flag_named("--help"@)->0) matches Ok(next) ==> next.command == (MoshView {
            help: true,
            ..state.command
        }),
        state.flagged(flag_named("--version"@)->0) matches Ok(next) ==> next.command == (MoshView {
            version: true,
            ..state.command
        }),
        state.flagged(flag_named("-n"@)->0) matches Ok(next) ==> next.command == (MoshView {
            prediction: PredictionMode::Never,
            prediction_explicit: true,
            ..state.command
        }),
        state.flagged(flag_named("-4"@)->0) matches Ok(next) ==> next.command == (MoshView {
            family: AddressFamily::Inet,
            ..state.command
        }),
{
    lemma_options();
    reveal(MoshState::flagged);
}

/// An option is given once: with whatever value, it is refused a second time, and
/// so is the flag that says the same or the opposite. It is not refused the first
/// time but for its value.
pub proof fn law_options_are_given_once(
    state: MoshState,
    name: Seq<char>,
    value: Seq<char>,
    words: Option<Seq<Seq<char>>>,
    other: Seq<char>,
    other_words: Option<Seq<Seq<char>>>,
)
    ensures
        name != "--fake-proxy"@ ==> (state.valued(name, value, words) matches Ok(next)
            ==> next.valued(name, other, other_words) is Err),
        state.valued("--predict"@, value, words) matches Ok(next) ==> next.flagged(
            flag_named("-n"@)->0,
        ) is Err && next.flagged(flag_named("-a"@)->0) is Err,
        state.valued("--family"@, value, words) matches Ok(next) ==> next.flagged(
            flag_named("-4"@)->0,
        ) is Err && next.flagged(flag_named("-6"@)->0) is Err,
        state.flagged(flag_named("--init"@)->0) matches Ok(next) ==> next.flagged(
            flag_named("--no-init"@)->0,
        ) is Err,
        state.flagged(flag_named("--ssh-pty"@)->0) matches Ok(next) ==> next.flagged(
            flag_named("--no-ssh-pty"@)->0,
        ) is Err,
        state.flagged(flag_named("--predict-overwrite"@)->0) matches Ok(next) ==> next.flagged(
            flag_named("--no-predict-overwrite"@)->0,
        ) is Err,
        state.seen == nothing_seen() && value.len() > 0 ==> {
            &&& state.valued("--client"@, value, words) is Ok
            &&& state.valued("--server"@, value, words) is Ok
            &&& state.valued("--bind-server"@, value, words) is Ok
        },
{
    lemma_options();
    lemma_settings();
    reveal_strlit("--fake-proxy");
    reveal(MoshState::flagged);
    reveal(MoshState::set);
    if setting_named(name) == Some(crate::mosh::MoshSetting::FakeProxy) {
        assert(name == "--fake-proxy"@);
    }
}

/// What stands behind the target is the remote command, whatever it looks like, and
/// a `--` before the target only marks where it stands.
pub proof fn law_target_and_its_command(
    target: Seq<char>,
    command: Seq<Seq<char>>,
    splits: Seq<Option<Seq<Seq<char>>>>,
    state: MoshState,
)
    requires
        !state.seen.fake_proxy,
    ensures
        !has_prefix(target, "-"@) ==> parsed_from(seq![target] + command, splits, 0, state) == Ok::<
            MoshView,
            (MoshError, int),
        >(MoshView { target: Some(target), remote_command: command, ..state.command }),
        parsed_from(seq!["--"@, target] + command, splits, 0, state) == Ok::<
            MoshView,
            (MoshError, int),
        >(MoshView { target: Some(target), remote_command: command, ..state.command }),
        parsed_from(seq!["--"@], splits, 0, state) is Err,
{
    reveal_strlit("--");
    reveal_strlit("-");
    let plain = seq![target] + command;
    assert(plain[0] == target);
    assert(plain.skip(1) =~= command);
    let marked = seq!["--"@, target] + command;
    assert(marked[0] == "--"@ && marked[1] == target);
    assert(marked.skip(2) =~= command);
    if !has_prefix(target, "-"@) {
        assert(target != "--"@) by {
            if target == "--"@ {
                assert(target.take(1) =~= "-"@);
            }
        }
    }
}

/// A stand-in for a proxy reaches the host and the port that it is given, and needs
/// just these two.
pub proof fn law_proxy_reaches_its_port(state: MoshState, host: Seq<char>, port: nat)
    requires
        state.seen.fake_proxy,
        0 < port <= 65535,
    ensures
        targeted(state, host, seq![decimal_text(port)]) == Ok::<MoshView, MoshError>(
            MoshView {
                target: None,
                remote_command: Seq::empty(),
                proxy: Some((host, port as u16)),
                ..state.command
            },
        ),
        targeted(state, host, Seq::empty()) is Err,
        untargeted(state) is Err,
{
    lemma_decimal_round_trip(port);
    assert(unsigned_digits(decimal_text(port)) == decimal_text(port));
    assert(seq![decimal_text(port)][0] == decimal_text(port));
}

/// What is asked for without options can be asked for with them.
pub proof fn law_defaults_can_be_spelled_out(words: Option<Seq<Seq<char>>>)
    ensures
        ({
            let state = MoshState { command: plain_command(), seen: nothing_seen() };
            let plain = plain_command();
            &&& state.valued("--predict"@, "adaptive"@, words) matches Ok(next) && next.command == (
            MoshView { prediction_explicit: true, ..plain })
            &&& state.valued("--family"@, "prefer-inet"@, words) matches Ok(next) && next.command
                == plain
            &&& state.valued("--bind-server"@, "ssh"@, words) matches Ok(next) && next.command
                == plain
            &&& state.valued("--server"@, "zosh-server"@, words) matches Ok(next) && next.command
                == plain
            &&& state.valued("--ssh"@, "ssh"@, Some(seq!["ssh"@])) matches Ok(next) && next.command
                == plain
            &&& state.valued("--experimental-remote-ip"@, "proxy"@, words) matches Ok(next)
                && next.command == plain
            &&& state.flagged(flag_named("--ssh-pty"@)->0) matches Ok(next) && next.command == plain
            &&& state.flagged(flag_named("--init"@)->0) matches Ok(next) && next.command == (
            MoshView { init_explicit: true, ..plain })
            &&& state.flagged(flag_named("--no-predict-overwrite"@)->0) matches Ok(next)
                && next.command == plain
        }),
{
    lemma_options();
    lemma_settings();
    reveal_strlit("adaptive");
    reveal_strlit("prefer-inet");
    reveal_strlit("ssh");
    reveal_strlit("zosh-server");
    reveal_strlit("proxy");
    law_prediction_words_read_back(PredictionMode::Adaptive, "adaptive"@);
    law_remote_ip_words_read_back(RemoteIpMode::Proxy, "proxy"@);
    assert(lowered("prefer-inet"@) =~= "prefer-inet"@);
    law_family_words_read_back(AddressFamily::PreferInet, "prefer-inet"@);
    assert(lowered("ssh"@) =~= "ssh"@);
    reveal(MoshState::flagged);
    reveal(MoshState::set);
}

/// What a reading comes to, but for where in the arguments it fails.
pub open spec fn comes_to(outcome: Result<MoshView, (MoshError, int)>) -> Result<
    MoshView,
    MoshError,
> {
    match outcome {
        Ok(command) => Ok(command),
        Err((error, _)) => Err(error),
    }
}

/// What a reading comes to depends on the arguments that are left alone.
proof fn lemma_same_rest(
    arguments: Seq<Seq<char>>,
    splits: Seq<Option<Seq<Seq<char>>>>,
    index: int,
    others: Seq<Seq<char>>,
    other_splits: Seq<Option<Seq<Seq<char>>>>,
    other_index: int,
    state: MoshState,
)
    requires
        0 <= index <= arguments.len() == splits.len(),
        0 <= other_index <= others.len() == other_splits.len(),
        arguments.skip(index) == others.skip(other_index),
        splits.skip(index) == other_splits.skip(other_index),
    ensures
        comes_to(parsed_from(arguments, splits, index, state)) == comes_to(
            parsed_from(others, other_splits, other_index, state),
        ),
    decreases arguments.len() - index,
{
    let count = arguments.len() - index;
    let left = arguments.skip(index);
    assert(left.len() == count);
    assert(others.skip(other_index).len() == others.len() - other_index);
    assert(left == others.skip(other_index));
    assert(others.len() - other_index == count);
    assert forall|i: int| 0 <= i < count implies #[trigger] arguments[index + i] == others[
    other_index + i] && splits[index + i] == other_splits[other_index + i] by {
        assert(arguments.skip(index)[i] == arguments[index + i]);
        assert(others.skip(other_index)[i] == others[other_index + i]);
        assert(splits.skip(index).len() == other_splits.skip(other_index).len());
        assert(splits.skip(index)[i] == splits[index + i]);
        assert(other_splits.skip(other_index)[i] == other_splits[other_index + i]);
    }
    assert forall|i: int| 0 <= i <= count implies #[trigger] arguments.skip(index + i)
        == others.skip(other_index + i) && splits.skip(index + i) == other_splits.skip(
        other_index + i,
    ) by {
        assert(arguments.skip(index + i) =~= arguments.skip(index).skip(i));
        assert(others.skip(other_index + i) =~= others.skip(other_index).skip(i));
        assert(splits.skip(index + i) =~= splits.skip(index).skip(i));
        assert(other_splits.skip(other_index + i) =~= other_splits.skip(other_index).skip(i));
    }
    if count > 0 {
        let value = arguments[index + 0];
        assert(value == others[other_index + 0]);
        assert(arguments.skip(index + 1) == others.skip(other_index + 1));
        if count > 1 {
            assert(arguments[index + 1] == others[other_index + 1]);
            assert(arguments.skip(index + 2) == others.skip(other_index + 2));
        }
        if value == "--"@ || !has_prefix(value, "-"@) {
        } else if flag_named(value) is Some {
            if let Ok(next) = state.flagged(flag_named(value)->0) {
                lemma_same_rest(
                    arguments,
                    splits,
                    index + 1,
                    others,
                    other_splits,
                    other_index + 1,
                    next,
                );
            }
        } else if parted(value, '=') is Some {
            let (name, attached) = parted(value, '=')->0;
            if let Ok(next) = state.valued(name, attached, splits[index]) {
                lemma_same_rest(
                    arguments,
                    splits,
                    index + 1,
                    others,
                    other_splits,
                    other_index + 1,
                    next,
                );
            }
        } else if value == "-p"@ || value == "--port"@ || awaits_value(value) {
            if let Some(given) = value_behind(arguments, index, value) {
                if let Ok(next) = state.valued(value, given, splits[index + 1]) {
                    lemma_same_rest(
                        arguments,
                        splits,
                        index + 2,
                        others,
                        other_splits,
                        other_index + 2,
                        next,
                    );
                }
            }
        } else if without_prefix(value, "-p"@) is Some {
            if let Ok(next) = state.with_port(without_prefix(value, "-p"@)->0) {
                lemma_same_rest(
                    arguments,
                    splits,
                    index + 1,
                    others,
                    other_splits,
                    other_index + 1,
                    next,
                );
            }
        }
    }
}

/// A flag and an option with its value behind an equals sign say the same on a
/// command line where they say the same of a state.
proof fn lemma_said_otherwise(
    short: Seq<char>,
    name: Seq<char>,
    value: Seq<char>,
    rest: Seq<Seq<char>>,
    splits: Seq<Option<Seq<Seq<char>>>>,
    state: MoshState,
)
    requires
        splits.len() == rest.len() + 1,
        has_prefix(short, "-"@),
        has_prefix(name, "-"@),
        short != "--"@,
        !name.contains('='),
        flag_named(short) matches Some(flag) && state.flagged(flag) == state.valued(
            name,
            value,
            splits[0],
        ),
    ensures
        comes_to(parsed_from(seq![name + "="@ + value] + rest, splits, 0, state)) == comes_to(
            parsed_from(seq![short] + rest, splits, 0, state),
        ),
{
    reveal_strlit("-");
    reveal_strlit("--");
    reveal_strlit("=");
    let long = name + "="@ + value;
    let length = name.len() as int;
    assert("--"@[0] == '-' && "--"@[1] == '-' && "="@[0] == '=');
    assert(long[length] == '=');
    assert(long.contains(long[length]));
    assert(long != "--"@);
    assert(long.take(1) =~= name.take(1));
    assert forall|i: int| 0 <= i < length implies #[trigger] long[i] != '=' by {
        assert(long[i] == name[i]);
        assert(name.contains(name[i]));
    }
    lemma_first_at(long, '=', length);
    assert(long.take(length) =~= name);
    assert(long.skip(length + 1) =~= value);
    assert(parted(long, '=') == Some((name, value)));
    lemma_no_flag_with_value(long);
    let one = seq![long] + rest;
    let other = seq![short] + rest;
    assert(one[0] == long && other[0] == short);
    match state.valued(name, value, splits[0]) {
        Ok(next) => {
            assert(one.skip(1) =~= rest && other.skip(1) =~= rest);
            lemma_same_rest(one, splits, 1, other, splits, 1, next);
            assert(parsed_from(one, splits, 0, state) == parsed_from(one, splits, 1, next));
            assert(parsed_from(other, splits, 0, state) == parsed_from(other, splits, 1, next));
        },
        Err(error) => {},
    }
}

/// A command line with `--predict=never` means what it means with `-n` in its
/// place; and so do `--predict=always` and `-a`, `--family=inet` and `-4`,
/// `--family=inet6` and `-6`, and `--keep-alive=500` and `-k`.
pub proof fn law_short_options_stand_for_long_ones(
    rest: Seq<Seq<char>>,
    splits: Seq<Option<Seq<Seq<char>>>>,
    state: MoshState,
)
    requires
        splits.len() == rest.len() + 1,
    ensures
        comes_to(parsed_from(seq!["--predict=never"@] + rest, splits, 0, state)) == comes_to(
            parsed_from(seq!["-n"@] + rest, splits, 0, state),
        ),
        comes_to(parsed_from(seq!["--predict=always"@] + rest, splits, 0, state)) == comes_to(
            parsed_from(seq!["-a"@] + rest, splits, 0, state),
        ),
        comes_to(parsed_from(seq!["--family=inet"@] + rest, splits, 0, state)) == comes_to(
            parsed_from(seq!["-4"@] + rest, splits, 0, state),
        ),
        comes_to(parsed_from(seq!["--family=inet6"@] + rest, splits, 0, state)) == comes_to(
            parsed_from(seq!["-6"@] + rest, splits, 0, state),
        ),
        comes_to(parsed_from(seq!["--keep-alive=500"@] + rest, splits, 0, state)) == comes_to(
            parsed_from(seq!["-k"@] + rest, splits, 0, state),
        ),
{
    reveal_strlit("--predict");
    reveal_strlit("--family");
    reveal_strlit("--keep-alive");
    reveal_strlit("never");
    reveal_strlit("always");
    reveal_strlit("inet");
    reveal_strlit("inet6");
    reveal_strlit("500");
    reveal_strlit("--predict=never");
    reveal_strlit("--predict=always");
    reveal_strlit("--family=inet");
    reveal_strlit("--family=inet6");
    reveal_strlit("--keep-alive=500");
    reveal_strlit("-n");
    reveal_strlit("-a");
    reveal_strlit("-4");
    reveal_strlit("-6");
    reveal_strlit("-k");
    reveal_strlit("-");
    reveal_strlit("--");
    reveal_strlit("=");
    assert("--"@[1] == '-' && "-n"@[1] == 'n' && "-a"@[1] == 'a' && "-4"@[1] == '4' && "-6"@[1]
        == '6' && "-k"@[1] == 'k');
    assert("-n"@.take(1) =~= "-"@ && "-a"@.take(1) =~= "-"@ && "-4"@.take(1) =~= "-"@
        && "-6"@.take(1) =~= "-"@ && "-k"@.take(1) =~= "-"@);
    assert("--predict"@.take(1) =~= "-"@ && "--family"@.take(1) =~= "-"@
        && "--keep-alive"@.take(1) =~= "-"@);
    assert("--predict=never"@ =~= "--predict"@ + "="@ + "never"@);
    assert("--predict=always"@ =~= "--predict"@ + "="@ + "always"@);
    assert("--family=inet"@ =~= "--family"@ + "="@ + "inet"@);
    assert("--family=inet6"@ =~= "--family"@ + "="@ + "inet6"@);
    assert("--keep-alive=500"@ =~= "--keep-alive"@ + "="@ + "500"@);
    law_short_options_say_the_same(state, splits[0]);
    lemma_said_otherwise("-n"@, "--predict"@, "never"@, rest, splits, state);
    lemma_said_otherwise("-a"@, "--predict"@, "always"@, rest, splits, state);
    lemma_said_otherwise("-4"@, "--family"@, "inet"@, rest, splits, state);
    lemma_said_otherwise("-6"@, "--family"@, "inet6"@, rest, splits, state);
    lemma_said_otherwise("-k"@, "--keep-alive"@, "500"@, rest, splits, state);
}

/// No flag has an equals sign in it.
proof fn lemma_no_flag_with_value(value: Seq<char>)
    requires
        value.contains('='),
    ensures
        flag_named(value) is None,
{
    reveal_strlit("-a");
    reveal_strlit("-n");
    reveal_strlit("--predict-overwrite");
    reveal_strlit("-o");
    reveal_strlit("--no-predict-overwrite");
    reveal_strlit("--keep-alive");
    reveal_strlit("-k");
    reveal_strlit("-4");
    reveal_strlit("-6");
    reveal_strlit("--ssh-pty");
    reveal_strlit("--no-ssh-pty");
    reveal_strlit("--init");
    reveal_strlit("--no-init");
    reveal_strlit("--local");
    reveal_strlit("--help");
    reveal_strlit("-h");
    reveal_strlit("--version");
    reveal_strlit("-V");
    reveal_strlit("--fake-proxy");
}

/// An option takes its value from behind an equals sign as it does from the next
/// argument.
pub proof fn law_values_can_be_attached(
    name: Seq<char>,
    value: Seq<char>,
    words: Option<Seq<Seq<char>>>,
    some_words: Option<Seq<Seq<char>>>,
    rest: Seq<Seq<char>>,
    splits: Seq<Option<Seq<Seq<char>>>>,
    state: MoshState,
)
    requires
        awaits_value(name),
        value.len() > 0,
        !has_prefix(value, "-"@),
        splits.len() == rest.len(),
    ensures
        comes_to(
            parsed_from(
                seq![name, value] + rest,
                seq![some_words, words] + splits,
                0,
                state,
            ),
        ) == comes_to(
            parsed_from(seq![name + "="@ + value] + rest, seq![words] + splits, 0, state),
        ),
{
    reveal_strlit("--client");
    reveal_strlit("--server");
    reveal_strlit("--predict");
    reveal_strlit("--family");
    reveal_strlit("--bind-server");
    reveal_strlit("--ssh");
    reveal_strlit("--experimental-remote-ip");
    reveal_strlit("-");
    reveal_strlit("--");
    reveal_strlit("=");
    let attached = name + "="@ + value;
    let apart = seq![name, value] + rest;
    let apart_splits = seq![some_words, words] + splits;
    let together = seq![attached] + rest;
    let together_splits = seq![words] + splits;
    let length = name.len() as int;
    assert forall|i: int| 0 <= i < length implies name[i] != '=' by {}
    assert(first_at(name, '=') is None) by {
        lemma_absent(name, '=');
    }
    assert forall|i: int| 0 <= i < length implies #[trigger] attached[i] != '=' by {
        assert(attached[i] == name[i]);
    }
    lemma_first_at(attached, '=', length);
    assert(attached.contains(attached[length]));
    assert(attached.take(length) =~= name);
    assert(attached.skip(length + 1) =~= value);
    lemma_no_flag_with_value(attached);
    lemma_valued_option_is_no_flag(name);
    assert(name.take(1) =~= "-"@ && attached.take(1) =~= "-"@);
    assert(attached.len() > 2 && name.len() > 2);
    assert(apart[0] == name && apart[1] == value && together[0] == attached);
    assert(apart_splits[1] == words && together_splits[0] == words);
    if let Ok(next) = state.valued(name, value, words) {
        assert(apart.skip(2) =~= rest && together.skip(1) =~= rest);
        assert(apart_splits.skip(2) =~= splits && together_splits.skip(1) =~= splits);
        lemma_same_rest(apart, apart_splits, 2, together, together_splits, 1, next);
    }
}

proof fn lemma_valued_option_is_no_flag(name: Seq<char>)
    requires
        awaits_value(name),
    ensures
        flag_named(name) is None,
{
    reveal_strlit("--client");
    reveal_strlit("--server");
    reveal_strlit("--predict");
    reveal_strlit("--family");
    reveal_strlit("--bind-server");
    reveal_strlit("--ssh");
    reveal_strlit("--experimental-remote-ip");
    reveal_strlit("-a");
    reveal_strlit("-n");
    reveal_strlit("--predict-overwrite");
    reveal_strlit("-o");
    reveal_strlit("--no-predict-overwrite");
    reveal_strlit("--keep-alive");
    reveal_strlit("-k");
    reveal_strlit("-4");
    reveal_strlit("-6");
    reveal_strlit("--ssh-pty");
    reveal_strlit("--no-ssh-pty");
    reveal_strlit("--init");
    reveal_strlit("--no-init");
    reveal_strlit("--local");
    reveal_strlit("--help");
    reveal_strlit("-h");
    reveal_strlit("--version");
    reveal_strlit("-V");
    reveal_strlit("--fake-proxy");
    assert("--client"@.len() == 8 && "--server"@.len() == 8 && "--predict"@.len() == 9);
    assert("--family"@.len() == 8 && "--bind-server"@.len() == 13 && "--ssh"@.len() == 5);
    assert("--experimental-remote-ip"@.len() == 24 && "-a"@.len() == 2 && "-n"@.len() == 2);
    assert("--predict-overwrite"@.len() == 19 && "-o"@.len() == 2 && "--no-predict-overwrite"@.len() == 22);
    assert("--keep-alive"@.len() == 12 && "-k"@.len() == 2 && "-4"@.len() == 2);
    assert("-6"@.len() == 2 && "--ssh-pty"@.len() == 9 && "--no-ssh-pty"@.len() == 12);
    assert("--init"@.len() == 6 && "--no-init"@.len() == 9 && "--local"@.len() == 7);
    assert("--help"@.len() == 6 && "-h"@.len() == 2 && "--version"@.len() == 9);
    assert("-V"@.len() == 2 && "--fake-proxy"@.len() == 12 && "--server"@[2] == 's');
    assert("--client"@[2] == 'c' && "--family"@[2] == 'f' && "--ssh-pty"@[2] == 's');
    assert("--predict"@[2] == 'p' && "--no-init"@[2] == 'n' && "--version"@[2] == 'v');
    assert("-n"@[1] == 'n' && "-a"@[1] == 'a' && "-o"@[1] == 'o');
    assert("-k"@[1] == 'k' && "-4"@[1] == '4' && "-6"@[1] == '6');
    assert("-h"@[1] == 'h' && "-V"@[1] == 'V' && "--no-ssh-pty"@[2] == 'n');
    assert("--keep-alive"@[2] == 'k' && "--fake-proxy"@[2] == 'f' && "--help"@[2] == 'h');
    assert("--init"@[2] == 'i');
}

/// Where no arguments were kept, what is handed on asks for help or the version, or
/// reaches the same target with the same remote command.
pub proof fn law_what_is_handed_on_says_the_same(
    command: MoshView,
    splits: Seq<Option<Seq<Seq<char>>>>,
)
    requires
        command.raw_arguments.len() == 0,
        splits.len() == handed_on(command).len(),
    ensures
        ({
            let state = MoshState { command: plain_command(), seen: nothing_seen() };
            let read = parsed_from(handed_on(command), splits, 0, state);
            &&& command.help ==> (read matches Ok(again) && again.help)
            &&& !command.help && command.version ==> (read matches Ok(again) && again.version
                && !again.help)
            &&& !command.help && !command.version ==> match command.target {
                Some(target) => !has_prefix(target, "-"@) ==> (read matches Ok(again)
                    && again.target == Some(target) && again.remote_command
                    == command.remote_command),
                None => read is Err,
            }
        }),
{
    reveal_strlit("--");
    reveal_strlit("-");
    reveal_strlit("--help");
    reveal_strlit("--version");
    lemma_options();
    reveal(MoshState::flagged);
    let state = MoshState { command: plain_command(), seen: nothing_seen() };
    let arguments = handed_on(command);
    assert("--help"@.take(1) =~= "-"@ && "--version"@.take(1) =~= "-"@);
    reveal_with_fuel(parsed_from, 3);
    if !command.help && !command.version {
        if let Some(target) = command.target {
            law_target_and_its_command(target, command.remote_command, splits, state);
        }
    } else {
        assert(arguments.len() == 1);
    }
}

proof fn lemma_glued_port(text: Seq<char>)
    requires
        text.len() > 0,
        !text.contains('='),
    ensures
        flag_named("-p"@ + text) is None,
        parted("-p"@ + text, '=') is None,
        "-p"@ + text != "-p"@,
        "-p"@ + text != "--port"@,
        "-p"@ + text != "--"@,
        !awaits_value("-p"@ + text),
{
    reveal_strlit("-a");
    reveal_strlit("-n");
    reveal_strlit("--predict-overwrite");
    reveal_strlit("-o");
    reveal_strlit("--no-predict-overwrite");
    reveal_strlit("--keep-alive");
    reveal_strlit("-k");
    reveal_strlit("-4");
    reveal_strlit("-6");
    reveal_strlit("--ssh-pty");
    reveal_strlit("--no-ssh-pty");
    reveal_strlit("--init");
    reveal_strlit("--no-init");
    reveal_strlit("--local");
    reveal_strlit("--help");
    reveal_strlit("-h");
    reveal_strlit("--version");
    reveal_strlit("-V");
    reveal_strlit("--fake-proxy");
    reveal_strlit("--client");
    reveal_strlit("--server");
    reveal_strlit("--predict");
    reveal_strlit("--family");
    reveal_strlit("--bind-server");
    reveal_strlit("--ssh");
    reveal_strlit("--experimental-remote-ip");
    reveal_strlit("--port");
    reveal_strlit("--");
    reveal_strlit("-p");
    assert("-a"@[1] == 'a' && "-n"@[1] == 'n' && "--predict-overwrite"@[1] == '-' && "-o"@[1] == 'o');
    assert("--no-predict-overwrite"@[1] == '-' && "--keep-alive"@[1] == '-' && "-k"@[1] == 'k' && "-4"@[1] == '4');
    assert("-6"@[1] == '6' && "--ssh-pty"@[1] == '-' && "--no-ssh-pty"@[1] == '-' && "--init"@[1] == '-');
    assert("--no-init"@[1] == '-' && "--local"@[1] == '-' && "--help"@[1] == '-' && "-h"@[1] == 'h');
    assert("--version"@[1] == '-' && "-V"@[1] == 'V' && "--fake-proxy"@[1] == '-' && "--client"@[1] == '-');
    assert("--server"@[1] == '-' && "--predict"@[1] == '-' && "--family"@[1] == '-' && "--bind-server"@[1] == '-');
    assert("--ssh"@[1] == '-' && "--experimental-remote-ip"@[1] == '-' && "--port"@[1] == '-' && "--"@[1] == '-');
    let glued = "-p"@ + text;
    assert(glued[0] == '-' && glued[1] == 'p' && glued.len() > 2);
    assert forall|i: int| 0 <= i < glued.len() implies #[trigger] glued[i] != '=' by {
        if i >= 2 {
            assert(glued[i] == text[i - 2]);
            assert(text.contains(text[i - 2]));
        }
    }
    lemma_absent(glued, '=');
}

/// A port, a range of them and an interval are asked for as they are written.
pub proof fn law_numbers_are_as_written(
    state: MoshState,
    request: PortRequest,
    interval: nat,
    words: Option<Seq<Seq<char>>>,
)
    requires
        state.seen == nothing_seen(),
        20 <= interval <= 3000,
        request.end matches Some(end) ==> 0 < request.start <= end,
    ensures
        state.valued("--port"@, request.text(), words) matches Ok(next) && next.command == (
        MoshView { port: Some(request), ..state.command }),
        state.valued("--keep-alive"@, decimal_text(interval), words) matches Ok(next)
            && next.command == (MoshView {
            keep_alive: Some(interval as u64),
            ..state.command
        }),
{
    lemma_settings();
    law_port_requests_read_back(request);
    law_keep_alive_reads_back(interval);
    lemma_decimal_round_trip(interval);
    lemma_decimal_round_trip(request.start as nat);
    reveal(MoshState::set);
}

/// The option `-p` takes its port from right behind it, as `--port` does from
/// behind an equals sign.
pub proof fn law_port_can_be_glued_on(
    text: Seq<char>,
    rest: Seq<Seq<char>>,
    splits: Seq<Option<Seq<Seq<char>>>>,
    state: MoshState,
)
    requires
        text.len() > 0,
        !text.contains('='),
        splits.len() == rest.len() + 1,
    ensures
        comes_to(parsed_from(seq!["-p"@ + text] + rest, splits, 0, state)) == comes_to(
            parsed_from(seq!["--port="@ + text] + rest, splits, 0, state),
        ),
{
    lemma_settings();
    let glued = "-p"@ + text;
    let long = "--port="@ + text;
    reveal_strlit("-p");
    reveal_strlit("--port");
    reveal_strlit("--port=");
    reveal_strlit("-");
    reveal_strlit("--");
    assert(long[6] == '=');
    assert(long.contains(long[6]));
    lemma_first_at(long, '=', 6);
    assert(long.take(6) =~= "--port"@);
    assert(long.skip(7) =~= text);
    assert(parted(long, '=') == Some(("--port"@, text)));
    lemma_no_flag_with_value(long);
    assert(long.take(1) =~= "-"@ && glued.take(1) =~= "-"@);
    assert(glued.take(2) =~= "-p"@ && glued.skip(2) =~= text);
    lemma_glued_port(text);
    let one = seq![glued] + rest;
    let other = seq![long] + rest;
    assert(one[0] == glued && other[0] == long);
    assert(state.valued("--port"@, text, splits[0]) == state.with_port(text)) by {
        reveal(MoshState::set);
    }
    match state.with_port(text) {
        Ok(next) => {
            assert(one.skip(1) =~= rest && other.skip(1) =~= rest);
            lemma_same_rest(one, splits, 1, other, splits, 1, next);
            assert(parsed_from(one, splits, 0, state) == parsed_from(one, splits, 1, next));
            assert(parsed_from(other, splits, 0, state) == parsed_from(other, splits, 1, next));
        },
        Err(error) => {},
    }
}

} // verus!
