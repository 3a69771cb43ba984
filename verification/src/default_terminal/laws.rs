//! What holds of how Zetta is made the default terminal.

use vstd::prelude::*;

use crate::default_terminal::{
    alternatives_calls, applied_text, attempt_notice, config_file, default_terminal_answer,
    gsettings_calls, kde_updates, preference_of, preferences_to_set, Platform, PreferenceKind,
};
use crate::default_terminal::desktop::{
    desktop_list, desktop_named, entry_part, first_desktop, first_list_name, first_preferred,
    is_about_zetta, is_desktop_character, list_file, list_name, others, preferred_by,
    running_desktop, terminal_schema, DesktopEnvironment,
};
use crate::default_terminal::ini::{
    helpers_with, is_plain_key, names_terminal, section_begun, sets_key, setting_line,
};
use crate::default_terminal::macos::{
    is_script, registration_failure, rejection_notice, script_behind, script_extension, scripts_behind, url_parts,
    Registration,
};
use crate::line_file::{laid_out, line_break};
use crate::path::{below, name_of, stem_and_extension};
use crate::text::{
    chained, decimal_text, has_part, has_prefix, is_space, lemma_absent, lemma_first_at, lowered,
    parted, same_ignoring_case, trimmed, trimmed_start,
};
use crate::text::laws::law_trimming_takes_spaces_off;

verus! {

/// Whether a word in lower case is one that a desktop goes by.
pub open spec fn is_desktop_word(desktop: DesktopEnvironment, word: Seq<char>) -> bool {
    match desktop {
        DesktopEnvironment::Gnome => word == "gnome"@ || word == "gnome-classic"@ || word
            == "ubuntu"@,
        DesktopEnvironment::Budgie => word == "budgie"@,
        DesktopEnvironment::Cinnamon => word == "cinnamon"@ || word == "x-cinnamon"@,
        DesktopEnvironment::Mate => word == "mate"@,
        DesktopEnvironment::Kde => word == "kde"@ || word == "kde-plasma"@ || word == "plasma"@,
        DesktopEnvironment::Xfce => word == "xfce"@ || word == "xfce4"@,
    }
}

/// A desktop is known by its words, in whatever case and with spaces around them, and by
/// no other.
pub proof fn law_desktops_are_known_by_their_words(desktop: DesktopEnvironment, value: Seq<char>)
    ensures
        desktop_named(value) == Some(desktop) <==> is_desktop_word(
            desktop,
            lowered(trimmed(value)),
        ),
{
    reveal_strlit("budgie");
    reveal_strlit("cinnamon");
    reveal_strlit("x-cinnamon");
    reveal_strlit("mate");
    reveal_strlit("kde");
    reveal_strlit("kde-plasma");
    reveal_strlit("plasma");
    reveal_strlit("xfce");
    reveal_strlit("xfce4");
    reveal_strlit("gnome");
    reveal_strlit("gnome-classic");
    reveal_strlit("ubuntu");
    assert("budgie"@.len() == 6 && "cinnamon"@.len() == 8 && "x-cinnamon"@.len() == 10);
    assert("mate"@.len() == 4 && "kde"@.len() == 3 && "kde-plasma"@.len() == 10);
    assert("plasma"@.len() == 6 && "xfce"@.len() == 4 && "xfce4"@.len() == 5);
    assert("gnome"@.len() == 5 && "gnome-classic"@.len() == 13 && "ubuntu"@.len() == 6);
    assert("plasma"@[0] == 'p' && "budgie"@[0] == 'b' && "ubuntu"@[0] == 'u');
    assert("kde-plasma"@[0] == 'k' && "x-cinnamon"@[0] == 'x' && "xfce"@[0] == 'x');
    assert("mate"@[0] == 'm' && "gnome"@[0] == 'g' && "xfce4"@[0] == 'x');
}

/// Of the desktops that are named, the first that is known counts.
pub proof fn law_first_known_desktop_counts(names: Seq<Seq<char>>)
    ensures
        match first_desktop(names) {
            Some(desktop) => exists|i: int| #![trigger names[i]]
                0 <= i < names.len() && desktop_named(names[i]) == Some(desktop) && forall|j: int|
                    0 <= j < i ==> desktop_named(#[trigger] names[j]) is None,
            None => forall|j: int| 0 <= j < names.len() ==> desktop_named(#[trigger] names[j])
                is None,
        },
    decreases names.len(),
{
    if names.len() > 0 {
        assert(names.first() == names[0]);
        if desktop_named(names.first()) is None {
            let rest = names.drop_first();
            law_first_known_desktop_counts(rest);
            assert forall|i: int| 1 <= i < names.len() implies #[trigger] names[i] == rest[i
                - 1] by {}
            if let Some(desktop) = first_desktop(rest) {
                let i = choose|i: int| #![trigger rest[i]]
                    0 <= i < rest.len() && desktop_named(rest[i]) == Some(desktop) && forall|j: int|
                        0 <= j < i ==> desktop_named(#[trigger] rest[j]) is None;
                assert(names[i + 1] == rest[i]);
                assert forall|j: int| 0 <= j < i + 1 implies desktop_named(#[trigger] names[j])
                    is None by {
                    if j > 0 {
                        assert(names[j] == rest[j - 1]);
                    }
                }
            }
        }
    }
}

/// The desktop that is running is the one named as current, else the one of the session,
/// else the one whose own mark is set.
pub proof fn law_current_desktop_comes_first(
    session: Option<Seq<char>>,
    kde: bool,
    value: Seq<char>,
)
    ensures
        first_desktop(desktop_list(value)) is Some ==> running_desktop(Some(value), session, kde)
            == first_desktop(desktop_list(value)),
        first_desktop(desktop_list(value)) is Some ==> running_desktop(None, Some(value), kde)
            == first_desktop(desktop_list(value)),
        running_desktop(None, None, true) == Some(DesktopEnvironment::Kde),
        running_desktop(None, None, false) is None,
        first_desktop(desktop_list(value)) is None ==> running_desktop(Some(value), session, kde)
            == running_desktop(None, session, kde),
{
}

/// What is set is the common preference first, then that of the desktop, and the
/// alternatives only with the rights to do so.
pub proof fn law_preferences_follow_the_desktop(
    desktop: Option<DesktopEnvironment>,
    available: bool,
    privileged: bool,
)
    ensures
        ({
            let kinds = preferences_to_set(desktop, available, privileged);
            &&& kinds.len() > 0 && kinds[0] == PreferenceKind::XdgTerminalExec
            &&& desktop is Some ==> kinds.len() > 1 && kinds[1] == preference_of(desktop->0)
            &&& kinds.contains(PreferenceKind::UpdateAlternatives) == (available && privileged)
            &&& kinds.contains(PreferenceKind::Kde) == (desktop == Some(DesktopEnvironment::Kde))
            &&& kinds.contains(PreferenceKind::Xfce) == (desktop == Some(DesktopEnvironment::Xfce))
            &&& kinds.contains(PreferenceKind::GSettings) == (desktop is Some && desktop != Some(
                DesktopEnvironment::Kde,
            ) && desktop != Some(DesktopEnvironment::Xfce))
        }),
{
    let kinds = preferences_to_set(desktop, available, privileged);
    let count = kinds.len() as int;
    if desktop is Some {
        assert(kinds[1] == preference_of(desktop->0));
    }
    if available && privileged {
        assert(kinds[count - 1] == PreferenceKind::UpdateAlternatives);
    }
    assert(forall|i: int|
        0 <= i < count ==> #[trigger] kinds[i] == PreferenceKind::XdgTerminalExec || (desktop is Some
            && kinds[i] == preference_of(desktop->0)) || (available && privileged && kinds[i]
            == PreferenceKind::UpdateAlternatives));
}

/// Each desktop's setting is the desktop's own.
pub proof fn law_schemas_are_the_desktops_own()
    ensures
        terminal_schema(DesktopEnvironment::Gnome) == Some(
            "org.gnome.desktop.default-applications.terminal"@,
        ),
        terminal_schema(DesktopEnvironment::Budgie) == terminal_schema(DesktopEnvironment::Gnome),
        terminal_schema(DesktopEnvironment::Cinnamon) == Some(
            "org.cinnamon.desktop.default-applications.terminal"@,
        ),
        terminal_schema(DesktopEnvironment::Mate) == Some("org.mate.applications-terminal"@),
        terminal_schema(DesktopEnvironment::Kde) is None,
        terminal_schema(DesktopEnvironment::Xfce) is None,
{
}

/// The program that is set is the one that was given, wherever it is set.
pub proof fn law_given_program_is_set(schema: Seq<char>, executable: Seq<char>)
    ensures
        ({
            let calls = gsettings_calls(schema, executable);
            &&& calls.len() == 2
            &&& calls[0] == seq!["set"@, schema, "exec"@, executable]
            &&& calls[1] == seq!["set"@, schema, "exec-arg"@, "-e"@]
        }),
        ({
            let calls = alternatives_calls(executable);
            &&& calls.len() == 2
            &&& calls[0][0] == "--install"@ && calls[0].contains(executable)
            &&& calls[1] == seq!["--set"@, "x-terminal-emulator"@, executable]
        }),
        kde_updates(executable).len() == 2,
        kde_updates(executable)[0] == ("TerminalApplication"@, executable),
        kde_updates(executable)[1].0 == "TerminalService"@,
{
    assert(alternatives_calls(executable)[0][3] == executable);
}

/// The list of terminals is the one of the first desktop that has a plain name, else the
/// common one.
pub proof fn law_list_is_the_desktops(value: Seq<char>, names: Seq<Seq<char>>)
    ensures
        list_file(None) == "xdg-terminals.list"@,
        first_list_name(desktop_list(value)) matches Some(name) ==> list_file(Some(value)) == name
            + "-xdg-terminals.list"@,
        first_list_name(desktop_list(value)) is None ==> list_file(Some(value))
            == "xdg-terminals.list"@,
        names.len() > 0 && list_name(names[0]) is Some ==> first_list_name(names) == list_name(
            names[0],
        ),
        names.len() > 0 && list_name(names[0]) is None ==> first_list_name(names)
            == first_list_name(names.drop_first()),
        list_name(value) matches Some(name) ==> name == lowered(trimmed(value)) && name.len() > 0
            && !name.contains('/') && !name.contains('.'),
{
    if names.len() > 0 {
        assert(names.first() == names[0]);
    }
    if let Some(name) = list_name(value) {
        assert forall|i: int| 0 <= i < name.len() implies name[i] != '/' && name[i] != '.' by {
            assert(is_desktop_character(name[i]));
        }
    }
}

proof fn lemma_trimmed_entry(entry: Seq<char>)
    requires
        entry.len() > 0,
        !is_space(entry[0]),
        !is_space(entry.last()),
    ensures
        trimmed(entry) == entry,
        trimmed_start(entry) == entry,
{
    law_trimming_takes_spaces_off(entry);
    assert(entry.first() == entry[0]);
}

/// A line that names an entry prefers it, also with a plus sign before it or an action
/// behind it; one with a minus sign, a comment or an option prefers none.
pub proof fn law_line_prefers_its_entry(entry: Seq<char>, action: Seq<char>)
    requires
        entry.len() > 0,
        !is_space(entry[0]),
        !is_space(entry.last()),
        !entry.contains(':'),
        entry[0] != '#',
        entry[0] != '/',
        entry[0] != '+',
        entry[0] != '-',
        action.len() > 0,
        !is_space(action.last()),
    ensures
        preferred_by(entry) == Some(entry),
        preferred_by(seq!['+'] + entry) == Some(entry),
        preferred_by(entry + seq![':'] + action) == Some(entry),
        preferred_by(seq!['-'] + entry) is None,
        preferred_by(seq!['#'] + entry) is None,
        preferred_by(seq!['/'] + entry) is None,
{
    reveal_strlit("#");
    reveal_strlit("/");
    reveal_strlit("-");
    reveal_strlit("+");
    let added = seq!['+'] + entry;
    let removed = seq!['-'] + entry;
    let comment = seq!['#'] + entry;
    let option = seq!['/'] + entry;
    let acting = entry + seq![':'] + action;
    assert(added.last() == entry.last() && removed.last() == entry.last());
    assert(comment.last() == entry.last() && option.last() == entry.last());
    assert(acting.last() == action.last() && acting[0] == entry[0]);
    lemma_trimmed_entry(entry);
    lemma_trimmed_entry(added);
    lemma_trimmed_entry(removed);
    lemma_trimmed_entry(comment);
    lemma_trimmed_entry(option);
    lemma_trimmed_entry(acting);
    assert forall|i: int| 0 <= i < entry.len() implies #[trigger] entry[i] != ':' by {
        assert(entry.contains(entry[i]));
    }
    lemma_absent(entry, ':');
    assert(entry_part(entry) == entry);
    assert forall|i: int| 0 <= i < entry.len() implies #[trigger] acting[i] != ':' by {
        assert(acting[i] == entry[i]);
    }
    lemma_first_at(acting, ':', entry.len() as int);
    assert(acting.take(entry.len() as int) =~= entry);
    assert(entry_part(acting) == entry);
    assert(added.take(1) =~= "+"@ && added.skip(1) =~= entry);
    assert(removed.take(1) =~= "-"@);
    assert(comment.take(1) =~= "#"@ && option.take(1) =~= "/"@);
    lemma_begins(entry);
    lemma_begins(acting);
    lemma_begins(added);
}

proof fn lemma_begins(text: Seq<char>)
    requires
        text.len() > 0,
    ensures
        has_prefix(text, "#"@) == (text[0] == '#'),
        has_prefix(text, "/"@) == (text[0] == '/'),
        has_prefix(text, "-"@) == (text[0] == '-'),
        has_prefix(text, "+"@) == (text[0] == '+'),
{
    reveal_strlit("#");
    reveal_strlit("/");
    reveal_strlit("-");
    reveal_strlit("+");
    let one = text.take(1);
    assert(one =~= seq![text[0]]);
    assert("#"@ =~= seq!['#'] && "/"@ =~= seq!['/'] && "-"@ =~= seq!['-'] && "+"@ =~= seq!['+']);
    assert(one[0] == text[0]);
    assert("#"@[0] == '#' && "/"@[0] == '/' && "-"@[0] == '-' && "+"@[0] == '+');
}

/// The first line that prefers an entry decides.
pub proof fn law_first_preferring_line_decides(line: Seq<char>, rest: Seq<Seq<char>>)
    ensures
        preferred_by(line) matches Some(entry) ==> first_preferred(seq![line] + rest) == Some(
            entry,
        ),
        preferred_by(line) is None ==> first_preferred(seq![line] + rest) == first_preferred(rest),
        first_preferred(Seq::empty()) is None,
{
    let all = seq![line] + rest;
    assert(all.first() == line);
    assert(all.drop_first() =~= rest);
}

/// Of a list, every line that is not about Zetta is kept, in its order.
pub proof fn law_other_lines_are_kept(lines: Seq<Seq<char>>, line: Seq<char>)
    ensures
        others(lines.push(line)) == if is_about_zetta(line) {
            others(lines)
        } else {
            others(lines).push(line)
        },
        others(Seq::empty()).len() == 0,
{
    assert(lines.push(line).drop_last() =~= lines);
}

/// A file is a script by its extension, in whatever case.
pub proof fn law_scripts_are_known_by_their_extension(path: Seq<char>, name: Seq<char>)
    requires
        name_of(path, false) == Some(name),
    ensures
        is_script(path) <==> (stem_and_extension(name).1 matches Some(extension) && {
            let kind = lowered(extension);
            kind == "command"@ || kind == "tool"@ || kind == "zsh"@ || kind == "csh"@ || kind
                == "sh"@ || kind == "pl"@
        }),
{
    reveal_strlit("command");
    reveal_strlit("tool");
    reveal_strlit("zsh");
    reveal_strlit("csh");
    reveal_strlit("sh");
    reveal_strlit("pl");
    assert(lowered("command"@) =~= "command"@ && lowered("tool"@) =~= "tool"@);
    assert(lowered("zsh"@) =~= "zsh"@ && lowered("csh"@) =~= "csh"@);
    assert(lowered("sh"@) =~= "sh"@ && lowered("pl"@) =~= "pl"@);
    if let Some(extension) = stem_and_extension(name).1 {
        assert(same_ignoring_case(
            extension,
            script_extension(0),
        ) == (lowered(extension) == "command"@));
        assert(same_ignoring_case(
            extension,
            script_extension(1),
        ) == (lowered(extension) == "tool"@));
        assert(same_ignoring_case(
            extension,
            script_extension(2),
        ) == (lowered(extension) == "zsh"@));
        assert(same_ignoring_case(
            extension,
            script_extension(3),
        ) == (lowered(extension) == "csh"@));
        assert(same_ignoring_case(
            extension,
            script_extension(4),
        ) == (lowered(extension) == "sh"@));
        assert(same_ignoring_case(
            extension,
            script_extension(5),
        ) == (lowered(extension) == "pl"@));
    }
}

/// Only a file on this machine is opened, and all scripts that are asked for are, in
/// their order.
pub proof fn law_all_scripts_are_opened(urls: Seq<Seq<char>>, url: Seq<char>)
    ensures
        scripts_behind(urls.push(url)) == match script_behind(url_parts(url)) {
            Some(path) => scripts_behind(urls).push(path),
            None => scripts_behind(urls),
        },
        script_behind(url_parts(url)) matches Some(path) ==> (url_parts(url) matches Some((
            scheme,
            Some(file),
        )) && scheme == "file"@ && file == path),
        (url_parts(url) matches Some((scheme, Some(file))) && scheme == "file"@ && is_script(
            file.1,
        )) ==> script_behind(url_parts(url)) is Some,
{
    assert(urls.push(url).drop_last() =~= urls);
}

/// Nothing is said where every file was opened, and how many were not otherwise.
pub proof fn law_rejected_files_are_counted(rejected: nat)
    ensures
        rejection_notice(0) is None,
        rejected > 0 ==> rejection_notice(rejected) == Some(
            "Could not open "@ + decimal_text(rejected) + " shell-script file(s) in Zetta"@,
        ),
{
}

/// Registering the extensions succeeds just where it succeeded for each of them.
pub proof fn law_registration_succeeds_as_a_whole(outcomes: Seq<Registration>)
    ensures
        registration_failure(outcomes) is None <==> forall|i: int|
            0 <= i < outcomes.len() ==> #[trigger] outcomes[i] == Registration::Status(0),
    decreases outcomes.len(),
{
    if outcomes.len() > 0 {
        let shorter = outcomes.drop_last();
        law_registration_succeeds_as_a_whole(shorter);
        assert(outcomes[outcomes.len() - 1] == outcomes.last());
        assert forall|i: int| 0 <= i < shorter.len() implies #[trigger] outcomes[i]
            == shorter[i] by {}
        if forall|i: int|
            0 <= i < outcomes.len() ==> #[trigger] outcomes[i] == Registration::Status(0) {
            assert forall|i: int| 0 <= i < shorter.len() implies #[trigger] shorter[i]
                == Registration::Status(0) by {
                assert(outcomes[i] == shorter[i]);
            }
        }
    }
}

/// A file of settings is below the directory for settings where that is an absolute path,
/// else below the home directory.
pub proof fn law_settings_files_are_below_the_settings(
    root: Seq<char>,
    home: Seq<char>,
    relative: Seq<char>,
)
    ensures
        has_prefix(root, "/"@) ==> config_file(Some(root), Some(home), relative) == Some(
            below(root, relative, false),
        ),
        has_prefix(root, "/"@) ==> config_file(Some(root), None, relative) == Some(
            below(root, relative, false),
        ),
        !has_prefix(root, "/"@) ==> config_file(Some(root), Some(home), relative) == config_file(
            None,
            Some(home),
            relative,
        ),
        config_file(None, Some(home), relative) == Some(
            below(below(home, ".config"@, false), relative, false),
        ),
        config_file(None, None, relative) is None,
{
}

/// A list is written with the line breaks that it had.
pub proof fn law_line_breaks_are_kept(lines: Seq<Seq<char>>, contents: Seq<char>)
    ensures
        has_part(contents, "\r\n"@) ==> line_break(contents) == "\r\n"@,
        !has_part(contents, "\r\n"@) ==> line_break(contents) == "\n"@,
        contents.len() > 0 && contents.last() == '\n' ==> laid_out(lines, contents) == chained(
            lines,
            line_break(contents),
        ) + line_break(contents),
        contents.len() == 0 ==> laid_out(lines, contents) == chained(lines, line_break(contents)),
{
}

/// Where the system sets the terminal the answer is the system's, and on a platform
/// without such a setting it is refused; what went wrong is said with what was tried.
pub proof fn law_answer_is_the_systems(answer: Result<Seq<char>, Seq<char>>, error: Seq<char>)
    ensures
        default_terminal_answer(Platform::Linux, answer) == answer,
        default_terminal_answer(Platform::Windows, answer) == answer,
        default_terminal_answer(Platform::Macos, answer) is Ok == answer is Ok,
        answer is Err ==> default_terminal_answer(Platform::Macos, answer) == answer,
        default_terminal_answer(Platform::Other, answer) is Err,
        attempt_notice(Err(error)) == "Could not set Zetta as the default terminal: "@ + error,
        answer matches Ok(message) ==> attempt_notice(answer) == message,
{
}

/// A preference is reported by its name, with its file where it has one.
pub proof fn law_preferences_are_reported_by_name(path: Seq<char>)
    ensures
        applied_text(PreferenceKind::XdgTerminalExec, path) == "xdg-terminal-exec ("@ + path + ")"@,
        applied_text(PreferenceKind::Kde, path) == "KDE preference ("@ + path + ")"@,
        applied_text(PreferenceKind::Xfce, path) == "Xfce preference ("@ + path + ")"@,
        applied_text(PreferenceKind::GSettings, path) == "legacy GSettings preference"@,
        applied_text(PreferenceKind::UpdateAlternatives, path) == "update-alternatives"@,
{
    reveal_strlit("xdg-terminal-exec (");
    reveal_strlit("xdg-terminal-exec");
    reveal_strlit("KDE preference (");
    reveal_strlit("KDE preference");
    reveal_strlit("Xfce preference (");
    reveal_strlit("Xfce preference");
    reveal_strlit(" (");
    assert("xdg-terminal-exec"@ + " ("@ =~= "xdg-terminal-exec ("@);
    assert("KDE preference"@ + " ("@ =~= "KDE preference ("@);
    assert("Xfce preference"@ + " ("@ =~= "Xfce preference ("@);
}

/// A section begins with its name between brackets, with spaces around them or without;
/// a line that sets a key names it before the first equals sign.
pub proof fn law_sections_and_settings_are_read(name: Seq<char>, update: (Seq<char>, Seq<char>))
    ensures
        section_begun(seq!['['] + name + seq![']']) == Some(name),
        is_plain_key(update.0) ==> {
            &&& sets_key(setting_line(update), update.0)
            &&& parted(setting_line(update), '=') == Some(update)
            &&& section_begun(setting_line(update)) is None
        },
{
    reveal_strlit("[");
    reveal_strlit("]");
    reveal_strlit("=");
    let header = seq!['['] + name + seq![']'];
    assert(header[0] == '[' && header.last() == ']');
    lemma_trimmed_entry(header);
    let rest = header.skip(1);
    assert(header.take(1) =~= "["@);
    assert(rest =~= name + seq![']']);
    assert(rest.skip(rest.len() - 1) =~= "]"@);
    assert(rest.take(rest.len() - 1) =~= name);
    if is_plain_key(update.0) {
        let line = setting_line(update);
        let key = update.0;
        let length = key.len() as int;
        assert(key.first() == key[0]);
        assert(line[length] == '=');
        assert forall|i: int| 0 <= i < length implies #[trigger] line[i] != '=' by {
            assert(line[i] == key[i]);
            assert(key.contains(key[i]));
        }
        lemma_first_at(line, '=', length);
        assert(line.take(length) =~= key);
        assert(line.skip(length + 1) =~= update.1);
        lemma_setting_trimmed(line, key);
        lemma_trimmed_entry(key);
    }
}

proof fn lemma_setting_trimmed(line: Seq<char>, key: Seq<char>)
    requires
        key.len() > 0,
        !is_space(key[0]),
        key[0] != '[',
        line.len() > key.len(),
        line.take(key.len() as int) == key,
        line[key.len() as int] == '=',
        forall|i: int| 0 <= i < key.len() ==> #[trigger] line[i] != '=',
    ensures
        parted(trimmed(line), '=') matches Some((name, _)) && name == key,
        !has_prefix(trimmed(line), "["@),
{
    reveal_strlit("[");
    law_trimming_takes_spaces_off(line);
    let whole = trimmed(line);
    let (start, end) = choose|start: int, end: int|
        0 <= start <= end <= line.len() && whole == #[trigger] line.subrange(start, end) && (forall|
            i: int,
        | 0 <= i < start ==> is_space(#[trigger] line[i])) && (forall|i: int|
            end <= i < line.len() ==> is_space(#[trigger] line[i]));
    assert(line[0] == key[0]) by {
        assert(line.take(key.len() as int)[0] == line[0]);
    }
    assert(start == 0);
    assert(end > key.len()) by {
        if end <= key.len() {
            assert(is_space(line[key.len() as int]));
        }
    }
    assert forall|i: int| 0 <= i < key.len() implies #[trigger] whole[i] != '=' by {
        assert(whole[i] == line[i]);
    }
    assert(whole[key.len() as int] == '=');
    lemma_first_at(whole, '=', key.len() as int);
    assert(whole.take(key.len() as int) =~= line.take(key.len() as int));
    if has_prefix(whole, "["@) {
        assert(whole.take(1)[0] == whole[0]);
    }
}

/// Of the helpers, the line of the terminal names the program, and every other line stays
/// where it is.
pub proof fn law_other_helpers_stay(lines: Seq<Seq<char>>, executable: Seq<char>, at: int)
    requires
        0 <= at < lines.len(),
    ensures
        helpers_with(lines, executable).len() >= lines.len(),
        !names_terminal(lines[at]) ==> helpers_with(lines, executable)[at] == lines[at],
        names_terminal(lines[at]) ==> helpers_with(lines, executable)[at] == "TerminalEmulator="@
            + executable,
{
}

} // verus!
