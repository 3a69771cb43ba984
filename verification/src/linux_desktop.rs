//! The launcher actions for profiles in the user's desktop entry.

use vstd::prelude::*;
use vstd::utf8::encode_utf8;

use crate::path::{below, join};
use crate::profile::Profile;
use crate::text::{
    characters, decimal, decimal_text, find, first_part, has_prefix, is_control,
    is_control_character, joined, lemma_pieces_nonempty, optional_text, pieces, same_text, split,
    starts_with, strip_suffix, text_between, texts, without_return, without_suffix,
};

pub mod blocks;
pub mod command;
pub mod entry;
pub mod laws;

verus! {

pub const ACTIONS_BEGIN: &'static str = "# ZETTA MANAGED PROFILE ACTIONS BEGIN";

pub const ACTIONS_END: &'static str = "# ZETTA MANAGED PROFILE ACTIONS END";

pub const GROUPS_BEGIN: &'static str = "# ZETTA MANAGED PROFILE GROUPS BEGIN";

pub const GROUPS_END: &'static str = "# ZETTA MANAGED PROFILE GROUPS END";

/// What tells one state of the desktop entry from another.
#[derive(Clone, Copy, Debug, PartialEq, Eq, Structural)]
pub struct DesktopEntryStamp {
    pub inode: u64,
    /// The time of the last change, in nanoseconds since the epoch.
    pub modified: Option<u64>,
    pub len: u64,
}

impl DesktopEntryStamp {
    /// The stamp of an entry that is not there.
    pub fn missing() -> (result: DesktopEntryStamp)
        ensures
            result == (DesktopEntryStamp { inode: 0, modified: None, len: 0 }),
    {
        DesktopEntryStamp { inode: 0, modified: None, len: 0 }
    }
}

/// Where the user's desktop entry stands below the home directory.
pub fn user_desktop_entry_path(home: &str) -> (result: String)
    ensures
        result@ == below(home@, ".local/share/applications/Zetta.desktop"@, false),
{
    join(home, ".local/share/applications/Zetta.desktop", false)
}

/// Whether anyone may write a file.
pub fn is_writable(readonly: bool, mode: u32) -> (result: bool)
    ensures
        result == (!readonly && mode & 0o222 != 0),
{
    !readonly && mode & 0o222 != 0
}

/// Where a line starts, among the pieces that line feeds leave of a text.
pub open spec fn line_start(parts: Seq<Seq<char>>, index: int) -> int
    decreases index,
{
    if index <= 0 {
        0
    } else {
        line_start(parts, index - 1) + parts[index - 1].len() + 1
    }
}

/// Where a line ends, behind its line feed where it has one.
pub open spec fn line_end(parts: Seq<Seq<char>>, index: int) -> int {
    if index + 1 < parts.len() {
        line_start(parts, index + 1)
    } else {
        line_start(parts, index) + parts[index].len()
    }
}

proof fn lemma_line_start_within(parts: Seq<Seq<char>>, longer: Seq<Seq<char>>, index: int)
    requires
        index <= parts.len(),
        index <= longer.len(),
        forall|i: int| 0 <= i < index ==> parts[i] == longer[i],
    ensures
        line_start(parts, index) == line_start(longer, index),
    decreases index,
{
    if index > 0 {
        lemma_line_start_within(parts, longer, index - 1);
    }
}

proof fn lemma_lines_fill_text(text: Seq<char>)
    ensures
        line_start(pieces(text, '\n'), pieces(text, '\n').len() as int) == text.len() + 1,
    decreases text.len(),
{
    let parts = pieces(text, '\n');
    if text.len() == 0 {
        assert(parts.len() == 1);
        assert(line_start(parts, 0) == 0);
    } else {
        let before = pieces(text.drop_last(), '\n');
        let count = before.len() as int;
        lemma_pieces_nonempty(text.drop_last(), '\n');
        lemma_lines_fill_text(text.drop_last());
        if text.last() == '\n' {
            assert(parts == before.push(Seq::empty()));
            lemma_line_start_within(before, parts, count);
        } else {
            lemma_line_start_within(before, parts, count - 1);
        }
    }
}

proof fn lemma_line_start_grows(parts: Seq<Seq<char>>, index: int, later: int)
    requires
        0 <= index <= later,
    ensures
        0 <= line_start(parts, index) <= line_start(parts, later),
    decreases later,
{
    if index < later {
        lemma_line_start_grows(parts, index, later - 1);
    } else if index > 0 {
        lemma_line_start_grows(parts, index - 1, index - 1);
    }
}

/// The lines of a text lie within it.
proof fn lemma_line_within(text: Seq<char>, index: int)
    requires
        0 <= index < pieces(text, '\n').len(),
    ensures
        0 <= line_start(pieces(text, '\n'), index) <= line_end(pieces(text, '\n'), index)
            <= text.len(),
        line_start(pieces(text, '\n'), index) + pieces(text, '\n')[index].len() <= text.len(),
{
    let parts = pieces(text, '\n');
    lemma_lines_fill_text(text);
    lemma_line_start_grows(parts, index, index);
    lemma_line_start_grows(parts, index + 1, parts.len() as int);
    if index + 1 < parts.len() {
        lemma_line_start_grows(parts, index + 2, parts.len() as int);
    }
}

/// Whether one place is marked, and no other.
pub open spec fn is_only(marks: Seq<bool>, index: int) -> bool {
    &&& 0 <= index < marks.len()
    &&& marks[index]
    &&& forall|other: int| 0 <= other < marks.len() && #[trigger] marks[other] ==> other == index
}

/// The one place that is marked, where there is exactly one.
pub open spec fn only_marked(marks: Seq<bool>) -> Option<int> {
    if exists|index: int| is_only(marks, index) {
        Some(choose|index: int| is_only(marks, index))
    } else {
        None
    }
}

fn find_only(marks: &Vec<bool>) -> (result: Option<usize>)
    ensures
        match result {
            Some(index) => only_marked(marks@) == Some(index as int) && index < marks@.len(),
            None => only_marked(marks@) is None,
        },
{
    let mut found: Option<usize> = None;
    let mut index: usize = 0;
    while index < marks.len()
        invariant
            index <= marks@.len(),
            match found {
                Some(at) => at < index && marks@[at as int] && (forall|other: int|
                    0 <= other < index && #[trigger] marks@[other] ==> other == at),
                None => forall|other: int| 0 <= other < index ==> !#[trigger] marks@[other],
            },
        decreases marks@.len() - index,
    {
        if marks[index] {
            if let Some(at) = found {
                proof {
                    assert(marks@[at as int] && marks@[index as int] && at != index);
                }
                return None;
            }
            found = Some(index);
        }
        index = index + 1;
    }
    proof {
        if let Some(at) = found {
            assert(is_only(marks@, at as int));
        }
    }
    found
}

/// Which lines of a text are a marker. What follows the last line feed is a
/// line unless it is empty.
pub open spec fn marker_marks(text: Seq<char>, marker: Seq<char>) -> Seq<bool> {
    let parts = pieces(text, '\n');
    Seq::new(
        parts.len(),
        |i: int|
            without_return(parts[i]) == marker && (i + 1 < parts.len() || parts[i].len() > 0),
    )
}

/// The line of a text that is a marker, where there is exactly one.
pub open spec fn marker_line(text: Seq<char>, marker: Seq<char>) -> Option<(int, int)> {
    match only_marked(marker_marks(text, marker)) {
        Some(index) => Some(
            (line_start(pieces(text, '\n'), index), line_end(pieces(text, '\n'), index)),
        ),
        None => None,
    }
}

/// Where the line at an index starts and ends.
fn line_span(contents: &str, parts: &Vec<String>, index: usize) -> (result: (usize, usize))
    requires
        texts(parts@) == pieces(contents@, '\n'),
        index < parts@.len(),
    ensures
        result.0 == line_start(pieces(contents@, '\n'), index as int),
        result.1 == line_end(pieces(contents@, '\n'), index as int),
        result.0 <= result.1 <= contents@.len(),
{
    let whole = characters(contents);
    let ghost all = pieces(contents@, '\n');
    let length: usize = whole.len();
    let mut start: usize = 0;
    let mut at: usize = 0;
    let count: usize = parts.len();
    while at < index
        invariant
            at <= index < parts@.len() == count,
            all == pieces(contents@, '\n'),
            all == texts(parts@),
            length == contents@.len(),
            start == line_start(all, at as int) <= length,
        decreases index - at,
    {
        proof {
            lemma_line_within(contents@, at as int);
            lemma_line_within(contents@, at + 1);
            assert(all[at as int] == parts@[at as int]@);
        }
        let piece = characters(parts[at].as_str());
        start = start + piece.len() + 1;
        at = at + 1;
    }
    proof {
        lemma_line_within(contents@, index as int);
        assert(all[index as int] == parts@[index as int]@);
    }
    let piece = characters(parts[index].as_str());
    let end = if index + 1 < count {
        start + piece.len() + 1
    } else {
        start + piece.len()
    };
    (start, end)
}

/// The line of a text that is a marker, where there is exactly one.
pub fn managed_marker_line(contents: &str, marker: &str) -> (result: Option<(usize, usize)>)
    ensures
        match result {
            Some((start, end)) => marker_line(contents@, marker@) == Some(
                (start as int, end as int),
            ) && start <= end <= contents@.len(),
            None => marker_line(contents@, marker@) is None,
        },
{
    let parts = split(contents, '\n');
    let count: usize = parts.len();
    let ghost all = pieces(contents@, '\n');
    let mut marks: Vec<bool> = Vec::new();
    let mut index: usize = 0;
    while index < count
        invariant
            index <= count == parts@.len(),
            texts(parts@) == all,
            all == pieces(contents@, '\n'),
            marks@ == marker_marks(contents@, marker@).take(index as int),
        decreases count - index,
    {
        let part = parts[index].as_str();
        proof {
            assert(all[index as int] == part@);
        }
        let line = match strip_suffix(part, "\r") {
            Some(line) => line,
            None => part.to_owned(),
        };
        proof {
            lemma_without_return(part@);
        }
        let mark = same_text(line.as_str(), marker) && (index + 1 < count || !part.is_empty());
        marks.push(mark);
        proof {
            assert(marker_marks(contents@, marker@).take(index + 1) =~= marker_marks(
                contents@,
                marker@,
            ).take(index as int).push(mark));
        }
        index = index + 1;
    }
    proof {
        assert(marker_marks(contents@, marker@).take(index as int) =~= marker_marks(
            contents@,
            marker@,
        ));
    }
    match find_only(&marks) {
        Some(at) => Some(line_span(contents, &parts, at)),
        None => None,
    }
}

proof fn lemma_without_return(line: Seq<char>)
    ensures
        without_return(line) == match without_suffix(line, "\r"@) {
            Some(rest) => rest,
            None => line,
        },
{
    reveal_strlit("\r");
    if line.len() > 0 {
        let tail = line.skip(line.len() - 1);
        assert(tail.len() == 1 && tail[0] == line.last());
        if line.last() == '\r' {
            assert(tail =~= "\r"@);
            assert(line.take(line.len() - 1) == line.drop_last());
        } else {
            assert(tail != "\r"@);
        }
    }
}

/// Whether the entry holds the lines between which its actions are managed.
pub open spec fn is_managed(contents: Seq<char>) -> bool {
    &&& marker_line(contents, ACTIONS_BEGIN@) is Some
    &&& marker_line(contents, ACTIONS_END@) is Some
    &&& marker_line(contents, GROUPS_BEGIN@) is Some
    &&& marker_line(contents, GROUPS_END@) is Some
}

/// Whether the entry holds the lines between which its actions are managed.
pub fn is_managed_desktop_entry(contents: &str) -> (result: bool)
    ensures
        result == is_managed(contents@),
{
    managed_marker_line(contents, ACTIONS_BEGIN).is_some() && managed_marker_line(
        contents,
        ACTIONS_END,
    ).is_some() && managed_marker_line(contents, GROUPS_BEGIN).is_some() && managed_marker_line(
        contents,
        GROUPS_END,
    ).is_some()
}

/// A text in which another stands for all from one marker to the other.
pub open spec fn with_block(
    contents: Seq<char>,
    begin_marker: Seq<char>,
    end_marker: Seq<char>,
    replacement: Seq<char>,
) -> Option<Seq<char>> {
    match (marker_line(contents, begin_marker), marker_line(contents, end_marker)) {
        (Some((begin, begin_end)), Some((end, end_end))) => if begin_end > end {
            None
        } else {
            Some(contents.take(begin) + replacement + "\n"@ + contents.skip(end_end))
        },
        _ => None,
    }
}

/// A text in which another stands for all from one marker to the other; none
/// where a marker is not there exactly once, or they stand in the wrong order.
pub fn replace_managed_block(
    contents: &str,
    begin_marker: &str,
    end_marker: &str,
    replacement: &str,
) -> (result: Option<String>)
    ensures
        optional_text(result) == with_block(contents@, begin_marker@, end_marker@, replacement@),
{
    let (begin, begin_end) = match managed_marker_line(contents, begin_marker) {
        Some(line) => line,
        None => {
            return None;
        },
    };
    let (end, end_end) = match managed_marker_line(contents, end_marker) {
        Some(line) => line,
        None => {
            return None;
        },
    };
    if begin_end > end {
        return None;
    }
    let whole = characters(contents);
    let mut updated = text_between(&whole, 0, begin);
    updated.push_str(replacement);
    updated.push_str("\n");
    let rest = text_between(&whole, end_end, whole.len());
    updated.push_str(rest.as_str());
    proof {
        assert(contents@.take(begin as int) =~= whole@.subrange(0, begin as int));
        assert(contents@.skip(end_end as int) =~= whole@.subrange(
            end_end as int,
            whole@.len() as int,
        ));
    }
    Some(updated)
}

/// Which lines of the entry's main group start a command.
pub open spec fn exec_marks(group: Seq<char>) -> Seq<bool> {
    let parts = pieces(group, '\n');
    Seq::new(parts.len(), |i: int| has_prefix(parts[i], "Exec="@))
}

/// The command of the main group, with a number that no one reads.
pub open spec fn main_exec(executable: Seq<char>, generation: u64) -> Seq<char> {
    "Exec="@ + executable + " --zetta-profile-actions-generation "@ + decimal_text(
        generation as nat,
    ) + "\n"@
}

/// An entry in which the command of its main group is another. The main group
/// ends where the first action begins.
pub open spec fn with_main_exec(contents: Seq<char>, executable: Seq<char>, generation: u64) -> Option<
    Seq<char>,
> {
    match first_part(contents, "\n[Desktop Action "@) {
        None => None,
        Some(at) => {
            let group = contents.take(at + 1);
            match only_marked(exec_marks(group)) {
                None => None,
                Some(index) => Some(
                    contents.take(line_start(pieces(group, '\n'), index)) + main_exec(
                        executable,
                        generation,
                    ) + contents.skip(line_end(pieces(group, '\n'), index)),
                ),
            }
        },
    }
}

/// An entry in which the command of its main group is another; none where it
/// has no action, or not exactly one command before it.
pub fn replace_main_exec(contents: &str, executable: &str, generation: u64) -> (result: Option<
    String,
>)
    ensures
        optional_text(result) == with_main_exec(contents@, executable@, generation),
{
    let at = match find(contents, "\n[Desktop Action ") {
        Some(at) => at,
        None => {
            return None;
        },
    };
    let whole = characters(contents);
    let count: usize = whole.len();
    proof {
        reveal_strlit("\n[Desktop Action ");
        assert(at < count);
        assert(contents@.take(at + 1) =~= whole@.subrange(0, at + 1));
    }
    let group = text_between(&whole, 0, at + 1);
    let parts = split(group.as_str(), '\n');
    let ghost all = pieces(group@, '\n');
    let mut marks: Vec<bool> = Vec::new();
    let mut index: usize = 0;
    while index < parts.len()
        invariant
            index <= parts@.len(),
            texts(parts@) == all,
            all == pieces(group@, '\n'),
            marks@ == exec_marks(group@).take(index as int),
        decreases parts@.len() - index,
    {
        proof {
            assert(all[index as int] == parts@[index as int]@);
        }
        let mark = starts_with(parts[index].as_str(), "Exec=");
        marks.push(mark);
        proof {
            assert(exec_marks(group@).take(index + 1) =~= exec_marks(group@).take(
                index as int,
            ).push(mark));
        }
        index = index + 1;
    }
    proof {
        assert(exec_marks(group@).take(index as int) =~= exec_marks(group@));
    }
    let line = match find_only(&marks) {
        Some(line) => line,
        None => {
            return None;
        },
    };
    let (start, end) = line_span(group.as_str(), &parts, line);
    let mut updated = text_between(&whole, 0, start);
    let number = decimal(generation);
    let mut command = joined("Exec=", executable);
    command.push_str(" --zetta-profile-actions-generation ");
    command.push_str(number.as_str());
    command.push_str("\n");
    updated.push_str(command.as_str());
    let rest = text_between(&whole, end, whole.len());
    updated.push_str(rest.as_str());
    proof {
        assert(contents@.take(start as int) =~= whole@.subrange(0, start as int));
        assert(contents@.skip(end as int) =~= whole@.subrange(end as int, whole@.len() as int));
    }
    Some(updated)
}

/// Whether a text can stand in a command of the entry.
pub open spec fn is_exec_argument(argument: Seq<char>) -> bool {
    forall|i: int| 0 <= i < argument.len() ==> !is_control_character(#[trigger] argument[i])
}

/// Whether a text can stand in a command of the entry.
pub fn valid_desktop_exec_argument(argument: &str) -> (result: bool)
    ensures
        result == is_exec_argument(argument@),
{
    let content = characters(argument);
    let mut index: usize = 0;
    while index < content.len()
        invariant
            content@ == argument@,
            index <= content@.len(),
            forall|i: int| 0 <= i < index ==> !is_control_character(#[trigger] content@[i]),
        decreases content@.len() - index,
    {
        if is_control(content[index]) {
            return false;
        }
        index = index + 1;
    }
    true
}

/// Whether a profile of this name can have an action.
pub fn valid_profile_name_for_desktop(name: &str) -> (result: bool)
    ensures
        result == (name@.len() > 0 && is_exec_argument(name@)),
{
    !name.is_empty() && valid_desktop_exec_argument(name)
}

/// A character as it stands in a string of the entry.
pub open spec fn escaped_character(character: char) -> Seq<char> {
    if character == '\\' {
        seq!['\\', '\\']
    } else if character == '\n' {
        seq!['\\', 'n']
    } else if character == '\t' {
        seq!['\\', 't']
    } else if character == '\r' {
        seq!['\\', 'r']
    } else if character == ';' {
        seq!['\\', ';']
    } else {
        seq![character]
    }
}

/// A text as it stands in a string of the entry.
pub open spec fn escaped(text: Seq<char>) -> Seq<char>
    decreases text.len(),
{
    if text.len() == 0 {
        Seq::empty()
    } else {
        escaped_character(text.first()) + escaped(text.drop_first())
    }
}

/// A text as it stands in a string of the entry.
pub fn escape_desktop_string(value: &str) -> (result: String)
    ensures
        result@ == escaped(value@),
{
    let content = characters(value);
    let mut text = String::new();
    let mut index: usize = 0;
    proof {
        assert(content@.skip(0) == value@);
        assert(text@ + escaped(value@) == escaped(value@));
    }
    while index < content.len()
        invariant
            content@ == value@,
            index <= content@.len(),
            text@ + escaped(content@.skip(index as int)) == escaped(value@),
        decreases content@.len() - index,
    {
        let character = content[index];
        let ghost before = text@;
        proof {
            assert(content@.skip(index as int).first() == character);
            assert(content@.skip(index as int).drop_first() == content@.skip(index + 1));
        }
        match character {
            '\\' => {
                text.push('\\');
                text.push('\\');
            },
            '\n' => {
                text.push('\\');
                text.push('n');
            },
            '\t' => {
                text.push('\\');
                text.push('t');
            },
            '\r' => {
                text.push('\\');
                text.push('r');
            },
            ';' => {
                text.push('\\');
                text.push(';');
            },
            _ => {
                text.push(character);
            },
        }
        proof {
            assert(text@ =~= before + escaped_character(character));
            assert(text@ + escaped(content@.skip(index + 1)) =~= before + (escaped_character(
                character,
            ) + escaped(content@.skip(index + 1))));
        }
        index = index + 1;
    }
    proof {
        assert(content@.skip(index as int) == Seq::<char>::empty());
        assert(text@ =~= text@ + Seq::<char>::empty());
    }
    text
}

/// The text that a string of the entry stands for.
pub open spec fn unescaped(text: Seq<char>) -> Seq<char>
    decreases text.len(),
{
    if text.len() == 0 {
        Seq::empty()
    } else if text.first() == '\\' && text.len() > 1 {
        let character = if text[1] == 'n' {
            '\n'
        } else if text[1] == 't' {
            '\t'
        } else if text[1] == 'r' {
            '\r'
        } else {
            text[1]
        };
        seq![character] + unescaped(text.skip(2))
    } else {
        seq![text.first()] + unescaped(text.drop_first())
    }
}

/// A string of the entry stands for the text that was written.
pub proof fn law_strings_read_back(text: Seq<char>)
    ensures
        unescaped(escaped(text)) == text,
    decreases text.len(),
{
    if text.len() > 0 {
        let rest = text.drop_first();
        law_strings_read_back(rest);
        let head = escaped_character(text.first());
        let whole = head + escaped(rest);
        assert(escaped(text) == whole);
        assert(seq![text.first()] + rest == text);
        if head.len() == 2 {
            assert(whole.skip(2) == escaped(rest));
            assert(whole.first() == '\\' && whole[1] == head[1]);
        } else {
            assert(whole.drop_first() == escaped(rest));
            assert(whole.first() == text.first());
        }
    }
}

/// Whether a character makes an argument need quotes.
pub open spec fn needs_quotes(character: char) -> bool {
    ||| " \t\n\"'\\<>~|&;$*?#()`"@.contains(character)
    ||| character == '%'
}

/// A character as it stands between quotes.
pub open spec fn quoted_character(character: char) -> Seq<char> {
    if character == '\\' || character == '"' || character == '`' || character == '$' {
        seq!['\\', character]
    } else if character == '%' {
        seq!['%', '%']
    } else {
        seq![character]
    }
}

/// A text as it stands between quotes.
pub open spec fn quoted_body(text: Seq<char>) -> Seq<char>
    decreases text.len(),
{
    if text.len() == 0 {
        Seq::empty()
    } else {
        quoted_character(text.first()) + quoted_body(text.drop_first())
    }
}

/// Whether an argument stands in a command as it is.
pub open spec fn stands_alone(argument: Seq<char>) -> bool {
    argument.len() > 0 && (forall|i: int|
        0 <= i < argument.len() ==> !needs_quotes(#[trigger] argument[i]))
}

/// An argument as it stands in a command.
pub open spec fn exec_argument(argument: Seq<char>) -> Seq<char> {
    if stands_alone(argument) {
        argument
    } else {
        seq!['"'] + quoted_body(argument) + seq!['"']
    }
}

fn is_reserved(character: char) -> (result: bool)
    ensures
        result == needs_quotes(character),
{
    let reserved = " \t\n\"'\\<>~|&;$*?#()`";
    crate::text::contains_character(reserved, character) || character == '%'
}

/// An argument as it stands in a command.
pub fn quote_exec_argument(argument: &str) -> (result: String)
    ensures
        result@ == exec_argument(argument@),
{
    let content = characters(argument);
    let mut plain = content.len() > 0;
    let mut index: usize = 0;
    while index < content.len()
        invariant
            content@ == argument@,
            index <= content@.len(),
            plain == (content@.len() > 0 && (forall|i: int|
                0 <= i < index ==> !needs_quotes(#[trigger] content@[i]))),
        decreases content@.len() - index,
    {
        if is_reserved(content[index]) {
            plain = false;
            assert(needs_quotes(content@[index as int]));
        }
        index = index + 1;
    }
    if plain {
        return argument.to_owned();
    }
    let mut quoted = String::new();
    quoted.push('"');
    index = 0;
    proof {
        assert(content@.skip(0) == argument@);
    }
    while index < content.len()
        invariant
            content@ == argument@,
            index <= content@.len(),
            quoted@ + quoted_body(content@.skip(index as int)) == seq!['"'] + quoted_body(
                argument@,
            ),
        decreases content@.len() - index,
    {
        let character = content[index];
        let ghost before = quoted@;
        proof {
            assert(content@.skip(index as int).first() == character);
            assert(content@.skip(index as int).drop_first() == content@.skip(index + 1));
        }
        match character {
            '\\' | '"' | '`' | '$' => {
                quoted.push('\\');
                quoted.push(character);
            },
            '%' => {
                quoted.push('%');
                quoted.push('%');
            },
            _ => {
                quoted.push(character);
            },
        }
        proof {
            assert(quoted@ =~= before + quoted_character(character));
            assert(quoted@ + quoted_body(content@.skip(index + 1)) =~= before + (quoted_character(
                character,
            ) + quoted_body(content@.skip(index + 1))));
        }
        index = index + 1;
    }
    proof {
        assert(content@.skip(index as int) == Seq::<char>::empty());
        assert(quoted@ =~= quoted@ + Seq::<char>::empty());
    }
    quoted.push('"');
    quoted
}

/// The text that stands between quotes.
pub open spec fn unquoted_body(text: Seq<char>) -> Seq<char>
    decreases text.len(),
{
    if text.len() == 0 {
        Seq::empty()
    } else if (text.first() == '\\' || text.first() == '%') && text.len() > 1 {
        seq![text[1]] + unquoted_body(text.skip(2))
    } else {
        seq![text.first()] + unquoted_body(text.drop_first())
    }
}

/// The argument that a part of a command stands for.
pub open spec fn unquoted(text: Seq<char>) -> Seq<char> {
    if text.len() > 1 && text.first() == '"' {
        unquoted_body(text.subrange(1, text.len() - 1))
    } else {
        text
    }
}

proof fn lemma_quoted_body(text: Seq<char>)
    ensures
        unquoted_body(quoted_body(text)) == text,
    decreases text.len(),
{
    if text.len() > 0 {
        let rest = text.drop_first();
        lemma_quoted_body(rest);
        let head = quoted_character(text.first());
        let whole = head + quoted_body(rest);
        assert(quoted_body(text) == whole);
        assert(seq![text.first()] + rest == text);
        if head.len() == 2 {
            assert(whole.skip(2) == quoted_body(rest));
            assert(whole.first() == head[0] && whole[1] == head[1]);
        } else {
            assert(whole.drop_first() == quoted_body(rest));
            assert(whole.first() == text.first());
        }
    }
}

/// A command of the entry has the arguments that were written.
pub proof fn law_arguments_read_back(argument: Seq<char>)
    ensures
        unquoted(exec_argument(argument)) == argument,
{
    if stands_alone(argument) {
        reveal_strlit(" \t\n\"'\\<>~|&;$*?#()`");
        let reserved = " \t\n\"'\\<>~|&;$*?#()`"@;
        assert(reserved[3] == '"');
        assert(reserved.contains('"'));
        assert(!needs_quotes(argument[0]));
        assert(argument.first() != '"');
    } else {
        let text = exec_argument(argument);
        assert(text.subrange(1, text.len() - 1) == quoted_body(argument));
        lemma_quoted_body(argument);
    }
}

/// The names of the profiles that get an action: those that are not hidden and
/// whose name can stand in the entry.
pub open spec fn shown_names(profiles: Seq<Profile>, hidden: Seq<bool>) -> Seq<Seq<char>>
    decreases profiles.len(),
{
    if profiles.len() == 0 {
        Seq::empty()
    } else {
        let before = shown_names(profiles.drop_last(), hidden);
        let name = profiles.last().name@;
        if !hidden[profiles.len() - 1] && name.len() > 0 && is_exec_argument(name) {
            before.push(name)
        } else {
            before
        }
    }
}

fn list_shown(profiles: &Vec<Profile>, hidden: &Vec<bool>) -> (result: Vec<String>)
    requires
        hidden@.len() == profiles@.len(),
    ensures
        texts(result@) == shown_names(profiles@, hidden@),
{
    let mut names: Vec<String> = Vec::new();
    let mut index: usize = 0;
    proof {
        assert(profiles@.take(0) == Seq::<Profile>::empty());
        assert(texts(names@) =~= Seq::<Seq<char>>::empty());
    }
    while index < profiles.len()
        invariant
            index <= profiles@.len() == hidden@.len(),
            texts(names@) == shown_names(profiles@.take(index as int), hidden@),
        decreases profiles@.len() - index,
    {
        proof {
            let longer = profiles@.take(index + 1);
            assert(longer.drop_last() == profiles@.take(index as int));
            assert(longer.last() == profiles@[index as int]);
        }
        let name = profiles[index].name.as_str();
        if !hidden[index] && valid_profile_name_for_desktop(name) {
            let ghost before = names@;
            names.push(name.to_owned());
            proof {
                assert(texts(names@) =~= texts(before).push(name@));
            }
        }
        index = index + 1;
    }
    proof {
        assert(profiles@.take(index as int) == profiles@);
    }
    names
}

/// The list of the entry's actions: a new window, and one for each profile.
pub open spec fn action_list(count: nat) -> Seq<char>
    decreases count,
{
    if count == 0 {
        "new-window;"@
    } else {
        action_list((count - 1) as nat) + "profile-"@ + decimal_text(count) + ";"@
    }
}

/// The lines that list the entry's actions.
pub open spec fn actions_block(count: nat) -> Seq<char> {
    ACTIONS_BEGIN@ + "\nActions="@ + action_list(count) + "\n"@ + ACTIONS_END@
}

fn write_actions(count: usize) -> (result: String)
    ensures
        result@ == actions_block(count as nat),
{
    let mut list = "new-window;".to_owned();
    let mut index: usize = 0;
    while index < count
        invariant
            index <= count,
            list@ == action_list(index as nat),
        decreases count - index,
    {
        index = index + 1;
        let number = decimal(index as u64);
        list.push_str("profile-");
        list.push_str(number.as_str());
        list.push_str(";");
    }
    let mut block = joined(ACTIONS_BEGIN, "\nActions=");
    block.push_str(list.as_str());
    block.push_str("\n");
    block.push_str(ACTIONS_END);
    block
}

/// The group of one action.
pub open spec fn action_group(number: nat, name: Seq<char>, executable: Seq<char>) -> Seq<char> {
    "\n\n[Desktop Action profile-"@ + decimal_text(number) + "]\nName="@ + escaped(name)
        + "\nExec="@ + executable + " --new-window --profile "@ + exec_argument(name)
}

/// The lines of the entry's actions, without the last one.
pub open spec fn groups_text(names: Seq<Seq<char>>, executable: Seq<char>) -> Seq<char>
    decreases names.len(),
{
    if names.len() == 0 {
        GROUPS_BEGIN@
    } else {
        groups_text(names.drop_last(), executable) + action_group(
            names.len(),
            names.last(),
            executable,
        )
    }
}

/// The lines of the entry's actions.
pub open spec fn groups_block(names: Seq<Seq<char>>, executable: Seq<char>) -> Seq<char> {
    groups_text(names, executable) + "\n"@ + GROUPS_END@
}

fn write_group(number: usize, name: &str, executable: &str) -> (result: String)
    ensures
        result@ == action_group(number as nat, name@, executable@),
{
    let count = decimal(number as u64);
    let title = escape_desktop_string(name);
    let argument = quote_exec_argument(name);
    let mut group = joined("\n\n[Desktop Action profile-", count.as_str());
    group.push_str("]\nName=");
    group.push_str(title.as_str());
    group.push_str("\nExec=");
    group.push_str(executable);
    group.push_str(" --new-window --profile ");
    group.push_str(argument.as_str());
    group
}

fn write_groups(names: &Vec<String>, executable: &str) -> (result: String)
    ensures
        result@ == groups_block(texts(names@), executable@),
{
    let mut groups = GROUPS_BEGIN.to_owned();
    let mut index: usize = 0;
    let ghost all = texts(names@);
    proof {
        assert(all.take(0) == Seq::<Seq<char>>::empty());
    }
    while index < names.len()
        invariant
            index <= names@.len(),
            all == texts(names@),
            groups@ == groups_text(all.take(index as int), executable@),
        decreases names@.len() - index,
    {
        proof {
            let longer = all.take(index + 1);
            assert(longer.drop_last() == all.take(index as int));
            assert(longer.last() == names@[index as int]@);
        }
        let group = write_group(index + 1, names[index].as_str(), executable);
        groups.push_str(group.as_str());
        index = index + 1;
    }
    proof {
        assert(all.take(index as int) == all);
    }
    groups.push_str("\n");
    groups.push_str(GROUPS_END);
    groups
}

/// A hash with one more byte in it.
pub open spec fn mixed(hash: u64, byte: u8) -> u64 {
    (hash ^ (byte as u64)).wrapping_mul(0x100000001b3)
}

/// A hash with more bytes in it.
pub open spec fn mixed_all(hash: u64, bytes: Seq<u8>) -> u64
    decreases bytes.len(),
{
    if bytes.len() == 0 {
        hash
    } else {
        mixed(mixed_all(hash, bytes.drop_last()), bytes.last())
    }
}

/// A number that differs, but for chance, where the names or their order
/// differ.
pub open spec fn generation_of(names: Seq<Seq<char>>) -> u64
    decreases names.len(),
{
    if names.len() == 0 {
        0xcbf29ce484222325
    } else {
        mixed(mixed_all(generation_of(names.drop_last()), encode_utf8(names.last())), 0xff)
    }
}

/// The number that stands for the profiles with actions. See
/// [`generation_of`].
pub fn profile_actions_generation(names: &Vec<String>) -> (result: u64)
    ensures
        result == generation_of(texts(names@)),
{
    let mut hash: u64 = 0xcbf29ce484222325;
    let mut index: usize = 0;
    let ghost all = texts(names@);
    proof {
        assert(all.take(0) == Seq::<Seq<char>>::empty());
    }
    while index < names.len()
        invariant
            index <= names@.len(),
            all == texts(names@),
            hash == generation_of(all.take(index as int)),
        decreases names@.len() - index,
    {
        proof {
            let longer = all.take(index + 1);
            assert(longer.drop_last() == all.take(index as int));
            assert(longer.last() == names@[index as int]@);
        }
        let bytes = names[index].as_str().as_bytes();
        let ghost start = hash;
        let mut at: usize = 0;
        proof {
            assert(bytes@.take(0) == Seq::<u8>::empty());
        }
        while at < bytes.len()
            invariant
                at <= bytes@.len(),
                hash == mixed_all(start, bytes@.take(at as int)),
            decreases bytes@.len() - at,
        {
            proof {
                let longer = bytes@.take(at + 1);
                assert(longer.drop_last() == bytes@.take(at as int));
                assert(longer.last() == bytes@[at as int]);
            }
            hash = (hash ^ (bytes[at] as u64)).wrapping_mul(0x100000001b3);
            at = at + 1;
        }
        proof {
            assert(bytes@.take(at as int) == bytes@);
        }
        let last: u8 = 0xff;
        hash = (hash ^ (last as u64)).wrapping_mul(0x100000001b3);
        index = index + 1;
    }
    proof {
        assert(all.take(index as int) == all);
    }
    hash
}

/// The entry with an action for each of the given names.
pub open spec fn rendered(contents: Seq<char>, executable: Seq<char>, names: Seq<Seq<char>>) -> Option<
    Seq<char>,
> {
    if !is_exec_argument(executable) {
        None
    } else {
        match with_block(contents, ACTIONS_BEGIN@, ACTIONS_END@, actions_block(names.len())) {
            None => None,
            Some(listed) => match with_block(
                listed,
                GROUPS_BEGIN@,
                GROUPS_END@,
                groups_block(names, exec_argument(executable)),
            ) {
                None => None,
                Some(grouped) => with_main_exec(
                    grouped,
                    exec_argument(executable),
                    generation_of(names),
                ),
            },
        }
    }
}

/// The entry with an action for each profile that is shown; none where it is
/// not managed. `hidden` says which profiles are not shown.
///
/// GNOME Shell does not compare the actions when it decides whether an entry
/// it holds is stale. A private argument that changes with the profiles makes
/// it read the entry again, and leaves the main command an ordinary launch.
pub fn render_managed_desktop_entry(
    contents: &str,
    executable: &str,
    profiles: &Vec<Profile>,
    hidden: &Vec<bool>,
) -> (result: Option<String>)
    requires
        hidden@.len() == profiles@.len(),
    ensures
        optional_text(result) == rendered(
            contents@,
            executable@,
            shown_names(profiles@, hidden@),
        ),
        !is_exec_argument(executable@) ==> result is None,
{
    let names = list_shown(profiles, hidden);
    proof {
        assert(texts(names@).len() == names@.len());
    }
    if !valid_desktop_exec_argument(executable) {
        return None;
    }
    let actions = write_actions(names.len());
    let listed = match replace_managed_block(
        contents,
        ACTIONS_BEGIN,
        ACTIONS_END,
        actions.as_str(),
    ) {
        Some(listed) => listed,
        None => {
            return None;
        },
    };
    let argument = quote_exec_argument(executable);
    let groups = write_groups(&names, argument.as_str());
    let grouped = match replace_managed_block(
        listed.as_str(),
        GROUPS_BEGIN,
        GROUPS_END,
        groups.as_str(),
    ) {
        Some(grouped) => grouped,
        None => {
            return None;
        },
    };
    replace_main_exec(grouped.as_str(), argument.as_str(), profile_actions_generation(&names))
}

/// What is written to the entry, if it changes.
pub fn desktop_entry_update(
    contents: &str,
    executable: &str,
    profiles: &Vec<Profile>,
    hidden: &Vec<bool>,
) -> (result: Option<String>)
    requires
        hidden@.len() == profiles@.len(),
    ensures
        optional_text(result) == match rendered(
            contents@,
            executable@,
            shown_names(profiles@, hidden@),
        ) {
            Some(updated) if updated != contents@ => Some(updated),
            _ => None,
        },
{
    match render_managed_desktop_entry(contents, executable, profiles, hidden) {
        Some(updated) => if same_text(updated.as_str(), contents) {
            None
        } else {
            Some(updated)
        },
        None => None,
    }
}

} // verus!
