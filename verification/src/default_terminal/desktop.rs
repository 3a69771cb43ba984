//! Which desktop runs, and which terminal its `xdg-terminal-exec` list
//! prefers.

use vstd::prelude::*;

use crate::line_file::{
    are_lines, ends_in_break, ends_in_return, fits, laid_out, lay_out, lemma_first_line,
    lemma_laid_out_again, lemma_lines_are_lines, read_back,
};
use crate::local_sessions::paths::str_view;
use crate::text::{
    characters, has_part, has_prefix, joined, lemma_absent, lines, lines_of, lowered, optional_text,
    parted, pieces, same_text, split, split_once, starts_with, strip_prefix, texts,
    to_ascii_lowercase, trim, trim_start, trimmed, trimmed_start, without_prefix,
};

verus! {

/// The desktops whose terminal preference can be set.
#[derive(Clone, Copy, Debug, PartialEq, Eq, Structural)]
pub enum DesktopEnvironment {
    Gnome,
    Budgie,
    Cinnamon,
    Mate,
    Kde,
    Xfce,
}

/// A text in which a colon stands for each semicolon.
pub open spec fn with_colons(value: Seq<char>) -> Seq<char> {
    value.map_values(
        |character: char|
            if character == ';' {
                ':'
            } else {
                character
            },
    )
}

/// The names in a list of desktops, which colons or semicolons part.
pub open spec fn desktop_list(value: Seq<char>) -> Seq<Seq<char>> {
    pieces(with_colons(value), ':')
}

fn split_desktops(value: &str) -> (result: Vec<String>)
    ensures
        texts(result@) == desktop_list(value@),
{
    let content = characters(value);
    let mut text = String::new();
    let mut index: usize = 0;
    while index < content.len()
        invariant
            content@ == value@,
            index <= content@.len(),
            text@ == with_colons(value@).take(index as int),
        decreases content@.len() - index,
    {
        let character = if content[index] == ';' {
            ':'
        } else {
            content[index]
        };
        text.push(character);
        proof {
            assert(with_colons(value@).take(index + 1) =~= with_colons(value@).take(
                index as int,
            ).push(character));
        }
        index = index + 1;
    }
    proof {
        assert(with_colons(value@).take(index as int) == with_colons(value@));
    }
    split(text.as_str(), ':')
}

/// The desktop of a name.
pub open spec fn desktop_named(value: Seq<char>) -> Option<DesktopEnvironment> {
    let name = lowered(trimmed(value));
    if name == "budgie"@ {
        Some(DesktopEnvironment::Budgie)
    } else if name == "cinnamon"@ || name == "x-cinnamon"@ {
        Some(DesktopEnvironment::Cinnamon)
    } else if name == "mate"@ {
        Some(DesktopEnvironment::Mate)
    } else if name == "kde"@ || name == "kde-plasma"@ || name == "plasma"@ {
        Some(DesktopEnvironment::Kde)
    } else if name == "xfce"@ || name == "xfce4"@ {
        Some(DesktopEnvironment::Xfce)
    } else if name == "gnome"@ || name == "gnome-classic"@ || name == "ubuntu"@ {
        Some(DesktopEnvironment::Gnome)
    } else {
        None
    }
}

fn parse_desktop(value: &str) -> (result: Option<DesktopEnvironment>)
    ensures
        result == desktop_named(value@),
{
    let trimmed_value = trim(value);
    let lowercase = to_ascii_lowercase(trimmed_value.as_str());
    let name = lowercase.as_str();
    if same_text(name, "budgie") {
        Some(DesktopEnvironment::Budgie)
    } else if same_text(name, "cinnamon") || same_text(name, "x-cinnamon") {
        Some(DesktopEnvironment::Cinnamon)
    } else if same_text(name, "mate") {
        Some(DesktopEnvironment::Mate)
    } else if same_text(name, "kde") || same_text(name, "kde-plasma") || same_text(name, "plasma") {
        Some(DesktopEnvironment::Kde)
    } else if same_text(name, "xfce") || same_text(name, "xfce4") {
        Some(DesktopEnvironment::Xfce)
    } else if same_text(name, "gnome") || same_text(name, "gnome-classic") || same_text(
        name,
        "ubuntu",
    ) {
        Some(DesktopEnvironment::Gnome)
    } else {
        None
    }
}

/// The first desktop that a list names.
pub open spec fn first_desktop(names: Seq<Seq<char>>) -> Option<DesktopEnvironment>
    decreases names.len(),
{
    if names.len() == 0 {
        None
    } else {
        match desktop_named(names.first()) {
            Some(desktop) => Some(desktop),
            None => first_desktop(names.drop_first()),
        }
    }
}

fn find_desktop(value: &str) -> (result: Option<DesktopEnvironment>)
    ensures
        result == first_desktop(desktop_list(value@)),
{
    let names = split_desktops(value);
    let mut index: usize = 0;
    proof {
        assert(texts(names@).skip(0) == texts(names@));
    }
    while index < names.len()
        invariant
            index <= names@.len(),
            texts(names@) == desktop_list(value@),
            first_desktop(desktop_list(value@)) == first_desktop(texts(names@).skip(index as int)),
        decreases names@.len() - index,
    {
        proof {
            assert(texts(names@).skip(index as int).first() == names@[index as int]@);
            assert(texts(names@).skip(index as int).drop_first() == texts(names@).skip(index + 1));
        }
        if let Some(desktop) = parse_desktop(names[index].as_str()) {
            return Some(desktop);
        }
        index = index + 1;
    }
    None
}

/// The desktop that runs, by the lists of the current and of the session's
/// desktops, and by the mark of a full KDE session.
pub open spec fn running_desktop(
    current: Option<Seq<char>>,
    session: Option<Seq<char>>,
    kde_full_session: bool,
) -> Option<DesktopEnvironment> {
    let by_current = match current {
        Some(value) => first_desktop(desktop_list(value)),
        None => None,
    };
    let by_session = match session {
        Some(value) => first_desktop(desktop_list(value)),
        None => None,
    };
    if by_current is Some {
        by_current
    } else if by_session is Some {
        by_session
    } else if kde_full_session {
        Some(DesktopEnvironment::Kde)
    } else {
        None
    }
}

/// The desktop that runs. See [`running_desktop`].
pub fn desktop_environment_from_values(
    current_desktop: Option<&str>,
    session_desktop: Option<&str>,
    kde_full_session: bool,
) -> (result: Option<DesktopEnvironment>)
    ensures
        result == running_desktop(
            str_view(current_desktop),
            str_view(session_desktop),
            kde_full_session,
        ),
{
    if let Some(value) = current_desktop {
        if let Some(desktop) = find_desktop(value) {
            return Some(desktop);
        }
    }
    if let Some(value) = session_desktop {
        if let Some(desktop) = find_desktop(value) {
            return Some(desktop);
        }
    }
    if kde_full_session {
        Some(DesktopEnvironment::Kde)
    } else {
        None
    }
}

/// The GSettings schema that holds a desktop's terminal, where it has one.
pub open spec fn terminal_schema(desktop: DesktopEnvironment) -> Option<Seq<char>> {
    match desktop {
        DesktopEnvironment::Gnome | DesktopEnvironment::Budgie => Some(
            "org.gnome.desktop.default-applications.terminal"@,
        ),
        DesktopEnvironment::Cinnamon => Some(
            "org.cinnamon.desktop.default-applications.terminal"@,
        ),
        DesktopEnvironment::Mate => Some("org.mate.applications-terminal"@),
        DesktopEnvironment::Kde | DesktopEnvironment::Xfce => None,
    }
}

/// The GSettings schema that holds a desktop's terminal, where it has one.
pub fn gsettings_terminal_schema(desktop: DesktopEnvironment) -> (result: Option<&'static str>)
    ensures
        str_view(result) == terminal_schema(desktop),
{
    match desktop {
        DesktopEnvironment::Gnome | DesktopEnvironment::Budgie => Some(
            "org.gnome.desktop.default-applications.terminal",
        ),
        DesktopEnvironment::Cinnamon => Some("org.cinnamon.desktop.default-applications.terminal"),
        DesktopEnvironment::Mate => Some("org.mate.applications-terminal"),
        DesktopEnvironment::Kde | DesktopEnvironment::Xfce => None,
    }
}

/// Whether a character may stand in the name of a desktop's list.
pub open spec fn is_desktop_character(character: char) -> bool {
    ||| 'a' <= character <= 'z'
    ||| 'A' <= character <= 'Z'
    ||| '0' <= character <= '9'
    ||| character == '-'
    ||| character == '_'
}

/// The name that a desktop's list goes by, where it can have one.
pub open spec fn list_name(value: Seq<char>) -> Option<Seq<char>> {
    let name = lowered(trimmed(value));
    if name.len() > 0 && (forall|i: int| 0 <= i < name.len() ==> is_desktop_character(name[i])) {
        Some(name)
    } else {
        None
    }
}

/// The name that a desktop's list goes by, where it can have one.
pub fn valid_xdg_desktop_name(value: &str) -> (result: Option<String>)
    ensures
        optional_text(result) == list_name(value@),
{
    let trimmed_value = trim(value);
    let name = to_ascii_lowercase(trimmed_value.as_str());
    let content = characters(name.as_str());
    if content.len() == 0 {
        return None;
    }
    let mut index: usize = 0;
    while index < content.len()
        invariant
            index <= content@.len(),
            content@ == name@,
            name@ == lowered(trimmed(value@)),
            forall|i: int| 0 <= i < index ==> is_desktop_character(content@[i]),
        decreases content@.len() - index,
    {
        let character = content[index];
        if !(('a' <= character && character <= 'z') || ('A' <= character && character <= 'Z') || (
        '0' <= character && character <= '9') || character == '-' || character == '_') {
            proof {
                assert(!is_desktop_character(content@[index as int]));
            }
            return None;
        }
        index = index + 1;
    }
    Some(name)
}

/// The first usable name in a list of desktops.
pub open spec fn first_list_name(names: Seq<Seq<char>>) -> Option<Seq<char>>
    decreases names.len(),
{
    if names.len() == 0 {
        None
    } else {
        match list_name(names.first()) {
            Some(name) => Some(name),
            None => first_list_name(names.drop_first()),
        }
    }
}

/// The file that lists the terminals of the current desktop.
pub open spec fn list_file(current_desktop: Option<Seq<char>>) -> Seq<char> {
    let name = match current_desktop {
        Some(value) => first_list_name(desktop_list(value)),
        None => None,
    };
    match name {
        Some(name) => name + "-xdg-terminals.list"@,
        None => "xdg-terminals.list"@,
    }
}

/// The file that lists the terminals of the current desktop.
pub fn xdg_terminal_config_filename(current_desktop: Option<&str>) -> (result: String)
    ensures
        result@ == list_file(str_view(current_desktop)),
{
    if let Some(value) = current_desktop {
        let names = split_desktops(value);
        let mut index: usize = 0;
        proof {
            assert(texts(names@).skip(0) == texts(names@));
        }
        while index < names.len()
            invariant
                index <= names@.len(),
                texts(names@) == desktop_list(value@),
                str_view(current_desktop) == Some(value@),
                first_list_name(desktop_list(value@)) == first_list_name(
                    texts(names@).skip(index as int),
                ),
            decreases names@.len() - index,
        {
            proof {
                assert(texts(names@).skip(index as int).first() == names@[index as int]@);
                assert(texts(names@).skip(index as int).drop_first() == texts(names@).skip(
                    index + 1,
                ));
            }
            if let Some(name) = valid_xdg_desktop_name(names[index].as_str()) {
                return joined(name.as_str(), "-xdg-terminals.list");
            }
            index = index + 1;
        }
    }
    "xdg-terminals.list".to_owned()
}

/// The entry of this terminal in a list of terminals.
pub const DESKTOP_ENTRY: &'static str = "Zetta.desktop";

/// What a line holds before a colon, without spaces around it.
pub open spec fn entry_part(line: Seq<char>) -> Seq<char> {
    match parted(line, ':') {
        Some((entry, _)) => trimmed(entry),
        None => trimmed(line),
    }
}

fn read_entry(line: &str) -> (result: String)
    ensures
        result@ == entry_part(line@),
{
    match split_once(line, ':') {
        Some((entry, _)) => trim(entry.as_str()),
        None => trim(line),
    }
}

/// Whether a line of a list is empty, a comment, or a path.
pub open spec fn names_no_entry(line: Seq<char>) -> bool {
    line.len() == 0 || has_prefix(line, "#"@) || has_prefix(line, "/"@)
}

/// A text without a plus sign in front.
pub open spec fn without_plus(line: Seq<char>) -> Seq<char> {
    match without_prefix(line, "+"@) {
        Some(rest) => rest,
        None => line,
    }
}

/// The terminal that a line of a list prefers, where it does.
pub open spec fn preferred_by(line: Seq<char>) -> Option<Seq<char>> {
    let line = trimmed(line);
    if names_no_entry(line) || has_prefix(line, "-"@) {
        None
    } else {
        let entry = entry_part(trimmed_start(without_plus(line)));
        if entry.len() > 0 {
            Some(entry)
        } else {
            None
        }
    }
}

fn read_preference(line: &str) -> (result: Option<String>)
    ensures
        optional_text(result) == preferred_by(line@),
{
    let content = trim(line);
    let text = content.as_str();
    if text.is_empty() || starts_with(text, "#") || starts_with(text, "/") || starts_with(
        text,
        "-",
    ) {
        return None;
    }
    let rest = match strip_prefix(text, "+") {
        Some(rest) => rest,
        None => content,
    };
    let start = trim_start(rest.as_str());
    let entry = read_entry(start.as_str());
    if entry.as_str().is_empty() {
        None
    } else {
        Some(entry)
    }
}

/// The terminal that a list prefers over the others.
pub open spec fn first_preferred(lines: Seq<Seq<char>>) -> Option<Seq<char>>
    decreases lines.len(),
{
    if lines.len() == 0 {
        None
    } else {
        match preferred_by(lines.first()) {
            Some(entry) => Some(entry),
            None => first_preferred(lines.drop_first()),
        }
    }
}

/// The terminal that a list prefers over the others.
pub fn first_xdg_terminal_entry(contents: &str) -> (result: Option<String>)
    ensures
        optional_text(result) == first_preferred(lines_of(contents@)),
{
    let all = lines(contents);
    let mut index: usize = 0;
    proof {
        assert(texts(all@).skip(0) == texts(all@));
    }
    while index < all.len()
        invariant
            index <= all@.len(),
            first_preferred(lines_of(contents@)) == first_preferred(
                texts(all@).skip(index as int),
            ),
        decreases all@.len() - index,
    {
        proof {
            assert(texts(all@).skip(index as int).first() == all@[index as int]@);
            assert(texts(all@).skip(index as int).drop_first() == texts(all@).skip(index + 1));
        }
        let preference = read_preference(all[index].as_str());
        if preference.is_some() {
            return preference;
        }
        index = index + 1;
    }
    None
}

/// Whether a list prefers this terminal.
pub open spec fn prefers_zetta(contents: Seq<char>) -> bool {
    first_preferred(lines_of(contents)) == Some(DESKTOP_ENTRY@)
}

/// Whether a list prefers this terminal.
pub fn xdg_terminal_list_prefers_zetta(contents: &str) -> (result: bool)
    ensures
        result == prefers_zetta(contents@),
{
    match first_xdg_terminal_entry(contents) {
        Some(entry) => same_text(entry.as_str(), DESKTOP_ENTRY),
        None => false,
    }
}

/// A text without a plus or a minus sign in front.
pub open spec fn without_sign(line: Seq<char>) -> Seq<char> {
    match without_prefix(line, "+"@) {
        Some(rest) => rest,
        None => match without_prefix(line, "-"@) {
            Some(rest) => rest,
            None => line,
        },
    }
}

/// Whether a line of a list is about this terminal.
pub open spec fn is_about_zetta(line: Seq<char>) -> bool {
    let line = trimmed(line);
    !names_no_entry(line) && entry_part(trimmed_start(without_sign(line))) == DESKTOP_ENTRY@
}

/// Whether a line of a list is about this terminal.
pub fn is_zetta_xdg_terminal_entry(line: &str) -> (result: bool)
    ensures
        result == is_about_zetta(line@),
{
    let content = trim(line);
    let text = content.as_str();
    if text.is_empty() || starts_with(text, "#") || starts_with(text, "/") {
        return false;
    }
    let rest = match strip_prefix(text, "+") {
        Some(rest) => rest,
        None => match strip_prefix(text, "-") {
            Some(rest) => rest,
            None => text.to_owned(),
        },
    };
    let start = trim_start(rest.as_str());
    let entry = read_entry(start.as_str());
    same_text(entry.as_str(), DESKTOP_ENTRY)
}

/// The lines of a list that are about other terminals or none.
pub open spec fn others(lines: Seq<Seq<char>>) -> Seq<Seq<char>>
    decreases lines.len(),
{
    if lines.len() == 0 {
        Seq::empty()
    } else {
        let before = others(lines.drop_last());
        if is_about_zetta(lines.last()) {
            before
        } else {
            before.push(lines.last())
        }
    }
}

/// A list's lines with this terminal first and the others behind it.
pub open spec fn zetta_first(lines: Seq<Seq<char>>) -> Seq<Seq<char>> {
    seq![DESKTOP_ENTRY@] + others(lines)
}

/// A list with this terminal first and the others behind it, in their order
/// and with the file's line breaks.
pub fn update_xdg_terminal_list(contents: &str) -> (result: String)
    ensures
        result@ == laid_out(zetta_first(lines_of(contents@)), contents@),
{
    let all = lines(contents);
    let mut output: Vec<String> = Vec::new();
    output.push(DESKTOP_ENTRY.to_owned());
    let mut index: usize = 0;
    proof {
        assert(texts(all@).take(0) == Seq::<Seq<char>>::empty());
        assert(texts(output@) =~= zetta_first(texts(all@).take(0)));
    }
    while index < all.len()
        invariant
            index <= all@.len(),
            texts(output@) == zetta_first(texts(all@).take(index as int)),
        decreases all@.len() - index,
    {
        proof {
            let longer = texts(all@).take(index + 1);
            assert(longer.drop_last() == texts(all@).take(index as int));
            assert(longer.last() == all@[index as int]@);
        }
        if !is_zetta_xdg_terminal_entry(all[index].as_str()) {
            let ghost before = output@;
            output.push(all[index].clone());
            proof {
                assert(texts(output@) =~= texts(before).push(all@[index as int]@));
                assert(texts(output@) =~= zetta_first(texts(all@).take(index + 1)));
            }
        }
        index = index + 1;
    }
    proof {
        assert(texts(all@).take(index as int) == texts(all@));
    }
    lay_out(&output, contents)
}

proof fn lemma_zetta_line()
    ensures
        preferred_by(DESKTOP_ENTRY@) == Some(DESKTOP_ENTRY@),
        is_about_zetta(DESKTOP_ENTRY@),
        DESKTOP_ENTRY@.len() > 0,
        DESKTOP_ENTRY@.last() == 'p',
        !DESKTOP_ENTRY@.contains('\n'),
{
    reveal_strlit("Zetta.desktop");
    reveal_strlit("#");
    reveal_strlit("/");
    reveal_strlit("-");
    reveal_strlit("+");
    let line = DESKTOP_ENTRY@;
    assert(line.first() == 'Z');
    assert(trimmed(line) == line);
    assert forall|i: int| 0 <= i < line.len() implies #[trigger] line[i] != ':' && line[i]
        != '\n' by {}
    lemma_absent(line, ':');
    assert(line.subrange(0, 1)[0] == 'Z');
    assert("#"@[0] == '#');
    assert("/"@[0] == '/');
    assert("-"@[0] == '-');
    assert("+"@[0] == '+');
    assert(trimmed_start(line) == line);
}

proof fn lemma_others_are_lines(lines: Seq<Seq<char>>)
    requires
        are_lines(lines),
    ensures
        are_lines(others(lines)),
    decreases lines.len(),
{
    if lines.len() > 0 {
        let shorter = lines.drop_last();
        assert forall|i: int| 0 <= i < shorter.len() implies !(#[trigger] shorter[i]).contains(
            '\n',
        ) by {
            assert(shorter[i] == lines[i]);
        }
        lemma_others_are_lines(shorter);
        assert(!lines[lines.len() - 1].contains('\n'));
    }
}

/// Once a list was updated it prefers this terminal, whatever it held.
pub proof fn law_updated_list_prefers_zetta(contents: Seq<char>)
    ensures
        prefers_zetta(laid_out(zetta_first(lines_of(contents)), contents)),
{
    lemma_zetta_line();
    lemma_lines_are_lines(contents);
    lemma_others_are_lines(lines_of(contents));
    let lines = zetta_first(lines_of(contents));
    assert forall|i: int| 0 <= i < lines.len() implies !(#[trigger] lines[i]).contains('\n') by {
        if i > 0 {
            assert(lines[i] == others(lines_of(contents))[i - 1]);
        }
    }
    lemma_first_line(lines, contents);
    let read = lines_of(laid_out(lines, contents));
    assert(read.first() == DESKTOP_ENTRY@);
}

proof fn lemma_others_of_two(left: Seq<Seq<char>>, right: Seq<Seq<char>>)
    ensures
        others(left + right) == others(left) + others(right),
    decreases right.len(),
{
    if right.len() == 0 {
        assert(left + right == left);
    } else {
        assert((left + right).drop_last() == left + right.drop_last());
        lemma_others_of_two(left, right.drop_last());
    }
}

proof fn lemma_others_again(lines: Seq<Seq<char>>)
    ensures
        others(others(lines)) == others(lines),
    decreases lines.len(),
{
    if lines.len() > 0 {
        let before = others(lines.drop_last());
        lemma_others_again(lines.drop_last());
        if !is_about_zetta(lines.last()) {
            assert(before.push(lines.last()).drop_last() == before);
        }
    }
}

proof fn lemma_others_do_not_return(lines: Seq<Seq<char>>)
    requires
        forall|i: int| 0 <= i < lines.len() ==> !ends_in_return(#[trigger] lines[i]),
    ensures
        forall|i: int| 0 <= i < others(lines).len() ==> !ends_in_return(#[trigger] others(lines)[i]),
    decreases lines.len(),
{
    if lines.len() > 0 {
        let shorter = lines.drop_last();
        assert forall|i: int| 0 <= i < shorter.len() implies !ends_in_return(
            #[trigger] shorter[i],
        ) by {
            assert(shorter[i] == lines[i]);
        }
        lemma_others_do_not_return(shorter);
        assert(!ends_in_return(lines[lines.len() - 1]));
        assert forall|i: int| 0 <= i < others(lines).len() implies !ends_in_return(
            #[trigger] others(lines)[i],
        ) by {
            if i < others(shorter).len() {
                assert(others(lines)[i] == others(shorter)[i]);
            }
        }
    }
}

/// An updated list holds this terminal and then, unchanged and in their order,
/// the lines of the list that are about others or none; but for an empty line at
/// its end. Updating it a second time changes nothing, unless its last line looks
/// like half a line break.
pub proof fn law_updated_list_stays(contents: Seq<char>)
    requires
        contents.len() == 0 || contents.last() != '\r',
    ensures
        ({
            let lines = zetta_first(lines_of(contents));
            let updated = laid_out(lines, contents);
            &&& lines_of(updated) == read_back(lines, contents)
            &&& ends_in_break(contents) || !ends_in_return(lines.last()) ==> laid_out(
                zetta_first(lines_of(updated)),
                updated,
            ) == updated
        }),
{
    lemma_zetta_line();
    lemma_lines_are_lines(contents);
    lemma_others_are_lines(lines_of(contents));
    let given = lines_of(contents);
    let lines = zetta_first(given);
    assert forall|i: int| 0 <= i < lines.len() implies !(#[trigger] lines[i]).contains('\n') by {
        if i > 0 {
            assert(lines[i] == others(given)[i - 1]);
        }
    }
    if !has_part(contents, "\r\n"@) {
        lemma_others_do_not_return(given);
        assert forall|i: int| 0 <= i < lines.len() implies !ends_in_return(#[trigger] lines[i]) by {
            if i > 0 {
                assert(lines[i] == others(given)[i - 1]);
            }
        }
    }
    assert(fits(lines, contents));
    lemma_laid_out_again(lines, contents);
    let read = read_back(lines, contents);
    // What is read has this terminal first and no line about it behind.
    law_zetta_is_first_once(given);
    let single = seq![DESKTOP_ENTRY@];
    let rest = read.skip(1);
    assert(read =~= single + rest);
    assert forall|i: int| 0 <= i < rest.len() implies !is_about_zetta(#[trigger] rest[i]) by {
        assert(rest[i] == lines[i + 1]);
    }
    lemma_others_keep(rest);
    lemma_others_of_two(single, rest);
    assert(single.drop_last() == Seq::<Seq<char>>::empty());
    assert(others(single.drop_last()) == Seq::<Seq<char>>::empty());
    assert(others(single) == Seq::<Seq<char>>::empty());
    assert(zetta_first(read) =~= read);
}

proof fn lemma_others_keep(lines: Seq<Seq<char>>)
    requires
        forall|i: int| 0 <= i < lines.len() ==> !is_about_zetta(#[trigger] lines[i]),
    ensures
        others(lines) == lines,
    decreases lines.len(),
{
    if lines.len() > 0 {
        let shorter = lines.drop_last();
        assert forall|i: int| 0 <= i < shorter.len() implies !is_about_zetta(
            #[trigger] shorter[i],
        ) by {
            assert(shorter[i] == lines[i]);
        }
        lemma_others_keep(shorter);
        assert(!is_about_zetta(lines[lines.len() - 1]));
        assert(shorter.push(lines.last()) == lines);
    }
}

/// Putting this terminal first a second time changes nothing, and leaves it in
/// the list once.
pub proof fn law_zetta_is_first_once(lines: Seq<Seq<char>>)
    ensures
        zetta_first(zetta_first(lines)) == zetta_first(lines),
        forall|i: int|
            0 <= i < zetta_first(lines).len() ==> (is_about_zetta(#[trigger] zetta_first(lines)[i])
                <==> i == 0),
{
    lemma_zetta_line();
    let single = seq![DESKTOP_ENTRY@];
    assert(single.drop_last() == Seq::<Seq<char>>::empty());
    assert(others(single) == Seq::<Seq<char>>::empty()) by {
        assert(others(single.drop_last()) == Seq::<Seq<char>>::empty());
    }
    lemma_others_of_two(single, others(lines));
    lemma_others_again(lines);
    assert(zetta_first(zetta_first(lines)) =~= zetta_first(lines));
    assert forall|i: int| 0 <= i < zetta_first(lines).len() implies (is_about_zetta(
        #[trigger] zetta_first(lines)[i],
    ) <==> i == 0) by {
        if i > 0 {
            assert(zetta_first(lines)[i] == others(lines)[i - 1]);
            lemma_others_are_others(lines, i - 1);
        }
    }
}

proof fn lemma_others_are_others(lines: Seq<Seq<char>>, index: int)
    requires
        0 <= index < others(lines).len(),
    ensures
        !is_about_zetta(others(lines)[index]),
    decreases lines.len(),
{
    if lines.len() > 0 && index < others(lines.drop_last()).len() {
        lemma_others_are_others(lines.drop_last(), index);
    }
}

} // verus!
