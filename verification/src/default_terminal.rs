//! Making this application the user's default terminal.

use vstd::prelude::*;

use crate::default_terminal::desktop::{terminal_schema, DesktopEnvironment, DESKTOP_ENTRY};
use crate::default_terminal::ini::{update_ini_section, updated_lines, updates_view};
use crate::line_file::laid_out;
use crate::local_sessions::paths::str_view;
use crate::path::{below, join};
use crate::text::{chained, has_prefix, join_texts, joined, lines_of, optional_text, starts_with, texts};

pub mod desktop;
pub mod ini;
pub mod laws;
pub mod macos;

verus! {

/// The platforms that differ in how a default terminal is set.
#[derive(Clone, Copy, Debug, PartialEq, Eq, Structural)]
pub enum Platform {
    Linux,
    Macos,
    Windows,
    Other,
}

/// What setting the default terminal answers, given what the platform's own
/// integration did.
pub open spec fn default_terminal_answer(
    platform: Platform,
    integration: Result<Seq<char>, Seq<char>>,
) -> Result<Seq<char>, Seq<char>> {
    match platform {
        Platform::Linux | Platform::Windows => integration,
        Platform::Macos => match integration {
            Ok(_) => Ok("Zetta is now the default terminal for shell-script files"@),
            Err(error) => Err(error),
        },
        Platform::Other => Err(
            "default-terminal integration is not supported on this platform"@,
        ),
    }
}

/// An outcome in words, as it views.
pub open spec fn worded(outcome: Result<String, String>) -> Result<Seq<char>, Seq<char>> {
    match outcome {
        Ok(text) => Ok(text@),
        Err(text) => Err(text@),
    }
}

/// What setting the default terminal answers, given what the platform's own
/// integration did. Installing the application only registers it: this is for
/// the explicit action in its menu.
pub fn set_default_terminal(platform: Platform, integration: Result<String, String>) -> (result:
    Result<String, String>)
    ensures
        worded(result) == default_terminal_answer(platform, worded(integration)),
{
    match platform {
        Platform::Linux | Platform::Windows => integration,
        Platform::Macos => match integration {
            Ok(_) => Ok("Zetta is now the default terminal for shell-script files".to_owned()),
            Err(error) => Err(error),
        },
        Platform::Other => Err(
            "default-terminal integration is not supported on this platform".to_owned(),
        ),
    }
}

/// Whether this is the default terminal, given what the platform reports. A
/// platform without an integration has none.
pub fn is_default_terminal(platform: Platform, reported: bool) -> (result: bool)
    ensures
        result == (reported && platform != Platform::Other),
{
    match platform {
        Platform::Linux | Platform::Windows | Platform::Macos => reported,
        Platform::Other => false,
    }
}

/// The notice about an attempt to set the default terminal.
pub open spec fn attempt_notice(outcome: Result<Seq<char>, Seq<char>>) -> Seq<char> {
    match outcome {
        Ok(message) => message,
        Err(error) => "Could not set Zetta as the default terminal: "@ + error,
    }
}

/// The notice about an attempt to set the default terminal.
pub fn default_terminal_notice(outcome: Result<String, String>) -> (result: String)
    ensures
        result@ == attempt_notice(worded(outcome)),
{
    match outcome {
        Ok(message) => message,
        Err(error) => joined("Could not set Zetta as the default terminal: ", error.as_str()),
    }
}

/// The places in which a preference for a terminal is kept on Linux.
#[derive(Clone, Copy, Debug, PartialEq, Eq, Structural)]
pub enum PreferenceKind {
    XdgTerminalExec,
    GSettings,
    Kde,
    Xfce,
    UpdateAlternatives,
}

/// The place of a desktop's own preference.
pub open spec fn preference_of(desktop: DesktopEnvironment) -> PreferenceKind {
    match desktop {
        DesktopEnvironment::Kde => PreferenceKind::Kde,
        DesktopEnvironment::Xfce => PreferenceKind::Xfce,
        _ => PreferenceKind::GSettings,
    }
}

/// The preferences that are set, in their order.
pub open spec fn preferences_to_set(
    desktop: Option<DesktopEnvironment>,
    alternatives_available: bool,
    alternatives_privileged: bool,
) -> Seq<PreferenceKind> {
    let of_desktop = match desktop {
        Some(desktop) => seq![preference_of(desktop)],
        None => Seq::empty(),
    };
    let alternatives = if alternatives_available && alternatives_privileged {
        seq![PreferenceKind::UpdateAlternatives]
    } else {
        Seq::empty()
    };
    seq![PreferenceKind::XdgTerminalExec] + of_desktop + alternatives
}

/// The preferences that are set, in their order.
pub fn linux_preferences(
    desktop: Option<DesktopEnvironment>,
    alternatives_available: bool,
    alternatives_privileged: bool,
) -> (result: Vec<PreferenceKind>)
    ensures
        result@ == preferences_to_set(desktop, alternatives_available, alternatives_privileged),
{
    let mut kinds: Vec<PreferenceKind> = Vec::new();
    kinds.push(PreferenceKind::XdgTerminalExec);
    if let Some(desktop) = desktop {
        let kind = match desktop {
            DesktopEnvironment::Kde => PreferenceKind::Kde,
            DesktopEnvironment::Xfce => PreferenceKind::Xfce,
            _ => PreferenceKind::GSettings,
        };
        kinds.push(kind);
    }
    if alternatives_available && alternatives_privileged {
        kinds.push(PreferenceKind::UpdateAlternatives);
    }
    kinds
}

/// A GSettings preference is set only on a desktop that has a schema for it.
pub proof fn law_gsettings_has_a_schema(desktop: DesktopEnvironment)
    ensures
        preference_of(desktop) == PreferenceKind::GSettings <==> terminal_schema(desktop) is Some,
{
}

/// What came of setting one preference: the file that holds it, or an error.
#[derive(Debug, PartialEq, Eq)]
pub struct PreferenceReport {
    pub kind: PreferenceKind,
    pub outcome: Result<String, String>,
}

/// How a preference is called in messages.
pub open spec fn preference_name(kind: PreferenceKind) -> Seq<char> {
    match kind {
        PreferenceKind::XdgTerminalExec => "xdg-terminal-exec"@,
        PreferenceKind::GSettings => "legacy GSettings preference"@,
        PreferenceKind::Kde => "KDE preference"@,
        PreferenceKind::Xfce => "Xfce preference"@,
        PreferenceKind::UpdateAlternatives => "update-alternatives"@,
    }
}

/// Whether a preference stands in a file of its own.
pub open spec fn has_file(kind: PreferenceKind) -> bool {
    kind == PreferenceKind::XdgTerminalExec || kind == PreferenceKind::Kde || kind
        == PreferenceKind::Xfce
}

impl PreferenceKind {
    /// How a preference is called in messages.
    pub fn name(self) -> (result: &'static str)
        ensures
            result@ == preference_name(self),
    {
        match self {
            PreferenceKind::XdgTerminalExec => "xdg-terminal-exec",
            PreferenceKind::GSettings => "legacy GSettings preference",
            PreferenceKind::Kde => "KDE preference",
            PreferenceKind::Xfce => "Xfce preference",
            PreferenceKind::UpdateAlternatives => "update-alternatives",
        }
    }
}

/// A preference that was set, in words.
pub open spec fn applied_text(kind: PreferenceKind, path: Seq<char>) -> Seq<char> {
    if has_file(kind) {
        preference_name(kind) + " ("@ + path + ")"@
    } else {
        preference_name(kind)
    }
}

/// The preferences that were set, in words.
pub open spec fn applied_texts(reports: Seq<PreferenceReport>) -> Seq<Seq<char>>
    decreases reports.len(),
{
    if reports.len() == 0 {
        Seq::empty()
    } else {
        let before = applied_texts(reports.drop_last());
        match reports.last().outcome {
            Ok(path) => before.push(applied_text(reports.last().kind, path@)),
            Err(_) => before,
        }
    }
}

/// The preferences that could not be set, in words.
pub open spec fn failure_texts(reports: Seq<PreferenceReport>) -> Seq<Seq<char>>
    decreases reports.len(),
{
    if reports.len() == 0 {
        Seq::empty()
    } else {
        let before = failure_texts(reports.drop_last());
        match reports.last().outcome {
            Ok(_) => before,
            Err(error) => before.push(preference_name(reports.last().kind) + ": "@ + error@),
        }
    }
}

/// What setting the preferences came to.
pub open spec fn linux_answer(
    applied: Seq<Seq<char>>,
    failures: Seq<Seq<char>>,
    alternatives_available: bool,
    alternatives_privileged: bool,
) -> Result<Seq<char>, Seq<char>> {
    if applied.len() > 0 {
        let left = if alternatives_available && !alternatives_privileged {
            "; update-alternatives was left unchanged because administrator privileges were not available"@
        } else {
            Seq::empty()
        };
        let partially = if failures.len() > 0 {
            "; partially applied: "@ + chained(failures, "; "@)
        } else {
            Seq::empty()
        };
        Ok(
            "Zetta is now the default terminal via "@ + chained(applied, ", "@) + left
                + partially,
        )
    } else if failures.len() > 0 {
        Err("could not set Zetta as the default terminal: "@ + chained(failures, "; "@))
    } else if alternatives_available {
        Err(
            "unsupported desktop environment; update-alternatives requires administrator privileges"@,
        )
    } else {
        Err(
            "unsupported desktop environment; Zetta could not find a supported terminal preference"@,
        )
    }
}

/// What setting the preferences came to, from the reports on each: success
/// where one of them took.
pub fn set_linux_default_terminal(
    reports: &Vec<PreferenceReport>,
    alternatives_available: bool,
    alternatives_privileged: bool,
) -> (result: Result<String, String>)
    ensures
        worded(result) == linux_answer(
            applied_texts(reports@),
            failure_texts(reports@),
            alternatives_available,
            alternatives_privileged,
        ),
{
    let mut applied: Vec<String> = Vec::new();
    let mut failures: Vec<String> = Vec::new();
    let mut index: usize = 0;
    proof {
        assert(reports@.take(0) == Seq::<PreferenceReport>::empty());
        assert(texts(applied@) =~= Seq::<Seq<char>>::empty());
        assert(texts(failures@) =~= Seq::<Seq<char>>::empty());
    }
    while index < reports.len()
        invariant
            index <= reports@.len(),
            texts(applied@) == applied_texts(reports@.take(index as int)),
            texts(failures@) == failure_texts(reports@.take(index as int)),
        decreases reports@.len() - index,
    {
        let kind = reports[index].kind;
        proof {
            let longer = reports@.take(index + 1);
            assert(longer.drop_last() == reports@.take(index as int));
            assert(longer.last() == reports@[index as int]);
        }
        match &reports[index].outcome {
            Ok(path) => {
                let mut text = kind.name().to_owned();
                if matches!(
                    kind,
                    PreferenceKind::XdgTerminalExec | PreferenceKind::Kde | PreferenceKind::Xfce
                ) {
                    text.push_str(" (");
                    text.push_str(path.as_str());
                    text.push_str(")");
                }
                let ghost before = applied@;
                applied.push(text);
                proof {
                    assert(texts(applied@) =~= texts(before).push(text@));
                }
            },
            Err(error) => {
                let mut text = joined(kind.name(), ": ");
                text.push_str(error.as_str());
                let ghost before = failures@;
                failures.push(text);
                proof {
                    assert(texts(failures@) =~= texts(before).push(text@));
                }
            },
        }
        index = index + 1;
    }
    proof {
        assert(reports@.take(index as int) == reports@);
        assert(texts(applied@).len() == applied@.len());
        assert(texts(failures@).len() == failures@.len());
    }
    if applied.len() > 0 {
        let list = join_texts(&applied, ", ");
        let mut message = joined("Zetta is now the default terminal via ", list.as_str());
        if alternatives_available && !alternatives_privileged {
            message.push_str(
                "; update-alternatives was left unchanged because administrator privileges were not available",
            );
        }
        let ghost so_far = message@;
        if failures.len() > 0 {
            let list = join_texts(&failures, "; ");
            message.push_str("; partially applied: ");
            message.push_str(list.as_str());
            proof {
                assert(message@ =~= so_far + ("; partially applied: "@ + list@));
            }
        } else {
            proof {
                assert(message@ =~= so_far + Seq::<char>::empty());
            }
        }
        Ok(message)
    } else if failures.len() > 0 {
        let list = join_texts(&failures, "; ");
        Err(joined("could not set Zetta as the default terminal: ", list.as_str()))
    } else if alternatives_available {
        Err(
            "unsupported desktop environment; update-alternatives requires administrator privileges".to_owned(),
        )
    } else {
        Err(
            "unsupported desktop environment; Zetta could not find a supported terminal preference".to_owned(),
        )
    }
}

proof fn lemma_applied_count(reports: Seq<PreferenceReport>)
    ensures
        applied_texts(reports).len() > 0 <==> (exists|i: int|
            0 <= i < reports.len() && (#[trigger] reports[i]).outcome is Ok),
    decreases reports.len(),
{
    if reports.len() > 0 {
        let shorter = reports.drop_last();
        lemma_applied_count(shorter);
        if exists|i: int| 0 <= i < shorter.len() && (#[trigger] shorter[i]).outcome is Ok {
            let i = choose|i: int| 0 <= i < shorter.len() && (#[trigger] shorter[i]).outcome is Ok;
            assert(reports[i] == shorter[i]);
        }
        if exists|i: int| 0 <= i < reports.len() && (#[trigger] reports[i]).outcome is Ok {
            let i = choose|i: int| 0 <= i < reports.len() && (#[trigger] reports[i]).outcome is Ok;
            if i < shorter.len() {
                assert(shorter[i] == reports[i]);
            }
        }
        if reports.last().outcome is Ok {
            assert(reports[reports.len() - 1].outcome is Ok);
        }
    }
}

/// The default terminal counts as set exactly where one preference took.
pub proof fn law_one_preference_is_enough(
    reports: Seq<PreferenceReport>,
    alternatives_available: bool,
    alternatives_privileged: bool,
)
    ensures
        linux_answer(
            applied_texts(reports),
            failure_texts(reports),
            alternatives_available,
            alternatives_privileged,
        ) is Ok <==> (exists|i: int|
            0 <= i < reports.len() && (#[trigger] reports[i]).outcome is Ok),
{
    lemma_applied_count(reports);
}

/// A file below the user's configuration directory: the configured one where
/// it is absolute, else the usual one below the home directory.
pub open spec fn config_file(
    xdg_config_home: Option<Seq<char>>,
    home: Option<Seq<char>>,
    relative: Seq<char>,
) -> Option<Seq<char>> {
    match xdg_config_home {
        Some(root) if has_prefix(root, "/"@) => Some(below(root, relative, false)),
        _ => match home {
            Some(home) => Some(below(below(home, ".config"@, false), relative, false)),
            None => None,
        },
    }
}

/// A file below the user's configuration directory. See [`config_file`].
pub fn user_config_path(xdg_config_home: Option<&str>, home: Option<&str>, relative: &str) -> (result:
    Option<String>)
    ensures
        optional_text(result) == config_file(str_view(xdg_config_home), str_view(home), relative@),
{
    if let Some(root) = xdg_config_home {
        if starts_with(root, "/") {
            return Some(join(root, relative, false));
        }
    }
    match home {
        Some(home) => {
            let root = join(home, ".config", false);
            Some(join(root.as_str(), relative, false))
        },
        None => None,
    }
}

/// What KDE's settings say of the terminal.
pub open spec fn kde_updates(executable: Seq<char>) -> Seq<(Seq<char>, Seq<char>)> {
    seq![("TerminalApplication"@, executable), ("TerminalService"@, DESKTOP_ENTRY@)]
}

/// KDE's settings with this terminal in them.
pub fn kde_terminal_preference(contents: &str, executable: &str) -> (result: String)
    ensures
        result@ == laid_out(
            updated_lines(lines_of(contents@), "General"@, kde_updates(executable@)),
            contents@,
        ),
{
    let mut updates: Vec<(String, String)> = Vec::new();
    updates.push(("TerminalApplication".to_owned(), executable.to_owned()));
    updates.push(("TerminalService".to_owned(), DESKTOP_ENTRY.to_owned()));
    proof {
        assert(updates_view(updates@) =~= kde_updates(executable@));
    }
    update_ini_section(contents, "General", &updates)
}

/// The arguments of the `gsettings` calls that set a terminal.
pub open spec fn gsettings_calls(schema: Seq<char>, executable: Seq<char>) -> Seq<Seq<Seq<char>>> {
    seq![
        seq!["set"@, schema, "exec"@, executable],
        seq!["set"@, schema, "exec-arg"@, "-e"@],
    ]
}

/// Lists of arguments, as they view.
pub open spec fn calls_view(calls: Seq<Vec<String>>) -> Seq<Seq<Seq<char>>> {
    calls.map_values(|arguments: Vec<String>| texts(arguments@))
}

/// The arguments of the `gsettings` calls that set a terminal.
pub fn gsettings_arguments(schema: &str, executable: &str) -> (result: Vec<Vec<String>>)
    ensures
        calls_view(result@) == gsettings_calls(schema@, executable@),
{
    let mut first: Vec<String> = Vec::new();
    first.push("set".to_owned());
    first.push(schema.to_owned());
    first.push("exec".to_owned());
    first.push(executable.to_owned());
    let mut second: Vec<String> = Vec::new();
    second.push("set".to_owned());
    second.push(schema.to_owned());
    second.push("exec-arg".to_owned());
    second.push("-e".to_owned());
    proof {
        assert(texts(first@) =~= seq!["set"@, schema@, "exec"@, executable@]);
        assert(texts(second@) =~= seq!["set"@, schema@, "exec-arg"@, "-e"@]);
    }
    let mut calls: Vec<Vec<String>> = Vec::new();
    calls.push(first);
    calls.push(second);
    proof {
        assert(calls_view(calls@) =~= gsettings_calls(schema@, executable@));
    }
    calls
}

/// The arguments of the `update-alternatives` calls that register and select a
/// terminal.
pub open spec fn alternatives_calls(executable: Seq<char>) -> Seq<Seq<Seq<char>>> {
    seq![
        seq![
            "--install"@,
            "/usr/bin/x-terminal-emulator"@,
            "x-terminal-emulator"@,
            executable,
            "50"@,
        ],
        seq!["--set"@, "x-terminal-emulator"@, executable],
    ]
}

/// The arguments of the `update-alternatives` calls that register and select a
/// terminal.
pub fn alternatives_arguments(executable: &str) -> (result: Vec<Vec<String>>)
    ensures
        calls_view(result@) == alternatives_calls(executable@),
{
    let mut first: Vec<String> = Vec::new();
    first.push("--install".to_owned());
    first.push("/usr/bin/x-terminal-emulator".to_owned());
    first.push("x-terminal-emulator".to_owned());
    first.push(executable.to_owned());
    first.push("50".to_owned());
    let mut second: Vec<String> = Vec::new();
    second.push("--set".to_owned());
    second.push("x-terminal-emulator".to_owned());
    second.push(executable.to_owned());
    proof {
        assert(texts(first@) =~= alternatives_calls(executable@)[0]);
        assert(texts(second@) =~= alternatives_calls(executable@)[1]);
    }
    let mut calls: Vec<Vec<String>> = Vec::new();
    calls.push(first);
    calls.push(second);
    proof {
        assert(calls_view(calls@) =~= alternatives_calls(executable@));
    }
    calls
}

} // verus!
