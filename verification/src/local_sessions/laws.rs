//! What holds of detached sessions, of where they are kept and of what is said of them.

use vstd::prelude::*;

use crate::local_sessions::auth::failed_delay;
use crate::local_sessions::catalog::application_name;
use crate::local_sessions::paths::{config_dir, ConfigVariables};
use crate::local_sessions::protocol::{
    axis_name, is_publishable_command, BackgroundPaneExit, BackgroundPaneExitReason,
};
use crate::mux::MuxRuntime;
use crate::mux::recovery::{awaits_disk, degraded_text, recovery_delay, MuxControl, MuxRecovery};
use crate::pane::layout::SplitAxis;
use crate::path::below;
use crate::path::laws::law_joined_name_is_the_last;
use crate::path::name_of;
use crate::profile_icon::tail_part;
use crate::text::{decimal_text, quoted_text, signed_text};

verus! {

/// After the first failure one waits a second, and after each further one twice as long
/// as before, but never longer than half a minute.
pub proof fn law_delay_doubles(failures: nat)
    requires
        failures >= 1,
    ensures
        failed_delay(1) == 1,
        failed_delay(0) == 1,
        2 * failed_delay(failures) <= 30 ==> failed_delay(failures + 1) == 2 * failed_delay(
            failures,
        ),
        2 * failed_delay(failures) > 30 ==> failed_delay(failures + 1) == 30,
{
}

/// The first attempt at recovery is after five seconds, and each further one after twice
/// as long as the one before, but never longer than a minute.
pub proof fn law_recovery_delay_doubles(index: int)
    requires
        0 <= index,
    ensures
        recovery_delay(0) == 5,
        2 * recovery_delay(index) <= 60 ==> recovery_delay(index + 1) == 2 * recovery_delay(index),
        2 * recovery_delay(index) > 60 ==> recovery_delay(index + 1) == 60,
{
}

/// A recovery goes on as long as it is the latest, of the latest configuration and of the
/// same connection, and sessions that should be on disk are not.
pub proof fn law_recovery_is_for_sessions_that_should_be_on_disk(
    control: MuxControl,
    runtime: MuxRuntime,
    recovery: MuxRecovery,
)
    requires
        control.runtime == Some(runtime),
        recovery.client == runtime.client,
        recovery.generation == control.recovery_generation,
        recovery.configuration_generation == control.configuration_generation,
    ensures
        control.is_current(recovery) == (runtime.retention_state.requested is Disk
            && runtime.retention_state.degraded_reason is Some),
        awaits_disk(None) == false,
        runtime.retention_state.requested is Memory ==> !control.is_current(recovery),
        !control.is_current(MuxRecovery { client: u64::MAX, ..recovery }) || recovery.client
            == u64::MAX,
{
}

/// The settings are where the system says that settings are: on Windows below the
/// application data, elsewhere below the directory for settings or, where that is not
/// set or empty, below the home directory. Each time the last name is the program's.
pub proof fn law_settings_are_where_the_system_says(
    app_data: Option<&str>,
    xdg: Option<&str>,
    home: Option<&str>,
    temporary: Seq<char>,
)
    ensures
        ({
            let variables = ConfigVariables { app_data, xdg_config_home: xdg, home };
            let elsewhere = config_dir(variables, temporary, false);
            &&& xdg matches Some(path) ==> path@.len() > 0 ==> elsewhere == below(
                path@,
                "zetta"@,
                false,
            ) && name_of(elsewhere, false) == Some("zetta"@)
            &&& (xdg matches Some(path) ==> path@.len() == 0) ==> (home matches Some(path)
                ==> path@.len() > 0 ==> elsewhere == below(path@, ".config/zetta"@, false))
            &&& (xdg matches Some(path) ==> path@.len() == 0) && (home matches Some(path)
                ==> path@.len() == 0) ==> elsewhere == below(temporary, "zetta"@, false)
            &&& app_data matches Some(path) ==> config_dir(variables, temporary, true) == below(
                path@,
                "Zetta"@,
                true,
            )
            &&& app_data is None ==> config_dir(variables, temporary, true) == below(
                temporary,
                "zetta"@,
                true,
            )
        }),
{
    reveal_strlit("zetta");
    reveal_strlit(".");
    reveal_strlit("..");
    if let Some(path) = xdg {
        if path@.len() > 0 {
            assert(!"zetta"@.contains('/'));
            assert("zetta"@.len() == 5);
            law_joined_name_is_the_last(path@, "zetta"@);
        }
    }
}

proof fn lemma_tail(directory: Seq<char>, name: Seq<char>)
    requires
        directory.len() == 0 || directory.last() == '/' || directory.last() == '\\',
        !name.contains('/'),
        !name.contains('\\'),
    ensures
        tail_part(directory + name) == name,
    decreases name.len(),
{
    let whole = directory + name;
    if name.len() == 0 {
        assert(whole =~= directory);
    } else {
        let shorter = name.drop_last();
        assert(name.contains(name[name.len() - 1]));
        assert forall|i: int| 0 <= i < shorter.len() implies shorter[i] != '/' && shorter[i]
            != '\\' by {
            assert(shorter[i] == name[i]);
            assert(name.contains(name[i]));
        }
        lemma_tail(directory, shorter);
        assert(whole.drop_last() =~= directory + shorter);
        assert(whole.last() == name.last());
        assert(tail_part(whole) =~= name);
    }
}

/// A program goes by the last part of its path, however its directories are separated;
/// a path that ends with a separator goes by itself.
pub proof fn law_program_goes_by_its_last_part(directory: Seq<char>, name: Seq<char>)
    requires
        directory.len() == 0 || directory.last() == '/' || directory.last() == '\\',
        name.len() > 0,
        !name.contains('/'),
        !name.contains('\\'),
    ensures
        application_name(directory + name) == name,
        application_name(directory) == directory,
{
    lemma_tail(directory, name);
}

/// A command that is told to others has no directory, argument or other text in it, just
/// a short name.
pub proof fn law_told_commands_are_names(command: Seq<char>)
    requires
        is_publishable_command(command),
    ensures
        !command.contains('/'),
        !command.contains('\\'),
        !command.contains(' '),
        !command.contains('='),
        !command.contains('\n'),
        0 < command.len() <= 64,
{
}

/// The axes go by their names.
pub proof fn law_axes_go_by_their_names()
    ensures
        axis_name(SplitAxis::Horizontal) == "horizontal"@,
        axis_name(SplitAxis::Vertical) == "vertical"@,
{
}

/// Why a terminal ended is said for each reason, with the exit code and the process where
/// they are known and nothing of them where they are not.
pub proof fn law_end_is_explained(exit: BackgroundPaneExit, code: i32, pid: u32, command: String)
    ensures
        ({
            let plain = BackgroundPaneExit { exit_code: None, child_pid: None, ..exit };
            let coded = BackgroundPaneExit { exit_code: Some(code), child_pid: None, ..exit };
            let known = BackgroundPaneExit { exit_code: None, child_pid: Some(pid), ..exit };
            let both = BackgroundPaneExit { exit_code: Some(code), child_pid: Some(pid), ..exit };
            &&& plain.explanation() == exit.cause()
            &&& coded.explanation() == plain.explanation() + " (exit code "@ + signed_text(
                code as int,
            ) + ")"@
            &&& known.explanation() == plain.explanation() + " [child PID "@ + decimal_text(
                pid as nat,
            ) + "]"@
            &&& both.explanation() == coded.explanation() + " [child PID "@ + decimal_text(
                pid as nat,
            ) + "]"@
        }),
        exit.reason == BackgroundPaneExitReason::ExitedBeforeInput ==> exit.cause()
            == "the shell exited before receiving user input"@,
        exit.reason == BackgroundPaneExitReason::BackendShutdown ==> exit.cause()
            == "the terminal backend shut down unexpectedly"@,
        exit.reason == BackgroundPaneExitReason::StatusUnavailable ==> exit.cause()
            == "the child exited but its exit status was unavailable"@,
        exit.reason == BackgroundPaneExitReason::ForegroundCommand && exit.foreground_command
            == Some(command) ==> exit.cause() == "the shell exited while "@ + quoted_text(command@)
            + " was foreground"@,
{
    let plain = BackgroundPaneExit { exit_code: None, child_pid: None, ..exit };
    let coded = BackgroundPaneExit { exit_code: Some(code), child_pid: None, ..exit };
    let known = BackgroundPaneExit { exit_code: None, child_pid: Some(pid), ..exit };
    let both = BackgroundPaneExit { exit_code: Some(code), child_pid: Some(pid), ..exit };
    assert(plain.cause() == exit.cause() && coded.cause() == exit.cause() && known.cause()
        == exit.cause() && both.cause() == exit.cause());
    assert(plain.explanation() =~= exit.cause());
    assert(coded.explanation() =~= plain.explanation() + " (exit code "@ + signed_text(code as int)
        + ")"@);
    assert(known.explanation() =~= plain.explanation() + " [child PID "@ + decimal_text(pid as nat)
        + "]"@);
    assert(both.explanation() =~= coded.explanation() + " [child PID "@ + decimal_text(pid as nat)
        + "]"@);
}

/// What is said of memory in place of the disk has the reason in it.
pub proof fn law_degraded_notice_has_the_reason(reason: Seq<char>)
    ensures
        degraded_text(reason) == "Disk session retention is temporarily unavailable ("@ + reason
            + "). New detached sessions will be kept in memory until persistence is restored."@,
{
}

} // verus!
