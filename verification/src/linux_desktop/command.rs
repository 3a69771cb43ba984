//! The command of the entry's main group, among the entry's lines.

use vstd::prelude::*;

use super::blocks::{lemma_cut_before_line, lemma_only_marked, lemma_same_lines};
use super::{
    exec_marks, is_only, lemma_line_start_grows, lemma_line_start_within, lemma_lines_fill_text,
    line_end, line_start, main_exec, only_marked, with_main_exec,
};
use crate::text::{
    first_part, has_prefix, lemma_one_piece, lemma_pieces_lack_separator, lemma_pieces_nonempty,
    lemma_pieces_of_two, pieces,
};

verus! {

/// Where a part first stands, it stands, and nowhere before.
proof fn lemma_first_part(text: Seq<char>, part: Seq<char>)
    ensures
        match first_part(text, part) {
            Some(at) => {
                &&& 0 <= at <= text.len()
                &&& has_prefix(text.skip(at), part)
                &&& forall|i: int| 0 <= i < at ==> !has_prefix(#[trigger] text.skip(i), part)
            },
            None => forall|i: int| 0 <= i <= text.len() ==> !has_prefix(#[trigger] text.skip(i), part),
        },
    decreases text.len(),
{
    assert(text.skip(0) == text);
    if !has_prefix(text, part) && text.len() > 0 {
        let rest = text.drop_first();
        lemma_first_part(rest, part);
        assert forall|i: int| 0 < i <= text.len() implies #[trigger] text.skip(i) == rest.skip(
            i - 1,
        ) by {
            assert(text.skip(i) =~= rest.skip(i - 1));
        }
    }
}

/// A text begins with a text of one line where its first line does.
proof fn lemma_first_line_prefix(text: Seq<char>, prefix: Seq<char>)
    requires
        !prefix.contains('\n'),
    ensures
        has_prefix(text, prefix) == has_prefix(pieces(text, '\n')[0], prefix),
{
    let parts = pieces(text, '\n');
    let line = parts[0];
    lemma_pieces_nonempty(text, '\n');
    lemma_pieces_lack_separator(text, '\n', 0);
    lemma_one_piece(line, '\n');
    if parts.len() == 1 {
        assert(parts =~= seq![line]);
        lemma_same_lines(text, line);
    } else {
        lemma_cut_before_line(text, 1);
        let start = line_start(parts, 1);
        assert(line_start(parts, 0) == 0);
        assert(start == line.len() + 1);
        assert(parts.take(1) =~= seq![line]);
        lemma_same_lines(text.take(start - 1), line);
        assert(text.take(start)[start - 1] == '\n');
        assert(text[start - 1] == '\n');
        if prefix.len() <= line.len() {
            assert(text.take(prefix.len() as int) =~= line.take(prefix.len() as int));
        } else if has_prefix(text, prefix) {
            assert(text.take(prefix.len() as int)[start - 1] == '\n');
            assert(prefix.contains(prefix[start - 1]));
        }
    }
}

/// A line begins behind each line feed.
proof fn lemma_line_behind(text: Seq<char>, at: int) -> (index: int)
    requires
        0 <= at < text.len(),
        text[at] == '\n',
    ensures
        1 <= index < pieces(text, '\n').len(),
        line_start(pieces(text, '\n'), index) == at + 1,
        pieces(text.take(at), '\n') == pieces(text, '\n').take(index),
        pieces(text.skip(at + 1), '\n') == pieces(text, '\n').skip(index),
{
    let parts = pieces(text, '\n');
    let head = text.take(at);
    let rest = text.skip(at + 1);
    assert(text =~= head.push('\n') + rest);
    lemma_pieces_of_two(head, rest, '\n');
    lemma_pieces_nonempty(head, '\n');
    lemma_pieces_nonempty(rest, '\n');
    let index = pieces(head, '\n').len() as int;
    lemma_lines_fill_text(head);
    lemma_line_start_within(pieces(head, '\n'), parts, index);
    assert(parts.take(index) =~= pieces(head, '\n'));
    assert(parts.skip(index) =~= pieces(rest, '\n'));
    index
}

/// Whether an action begins at a line, the first one behind the entry's first
/// line.
pub open spec fn is_first_action(parts: Seq<Seq<char>>, index: int) -> bool {
    &&& 1 <= index < parts.len()
    &&& has_prefix(parts[index], "[Desktop Action "@)
    &&& forall|i: int| 1 <= i < index ==> !has_prefix(#[trigger] parts[i], "[Desktop Action "@)
}

/// Whether a line is the only command before the first action.
pub open spec fn is_command(parts: Seq<Seq<char>>, action: int, index: int) -> bool {
    &&& is_first_action(parts, action)
    &&& 0 <= index < action
    &&& has_prefix(parts[index], "Exec="@)
    &&& forall|i: int|
        0 <= i < action && has_prefix(#[trigger] parts[i], "Exec="@) ==> i == index
}

/// An action stands behind a line feed exactly where its line begins.
proof fn lemma_action_line(text: Seq<char>, index: int)
    requires
        1 <= index < pieces(text, '\n').len(),
    ensures
        ({
            let start = line_start(pieces(text, '\n'), index);
            &&& 0 < start <= text.len()
            &&& has_prefix(text.skip(start - 1), "\n[Desktop Action "@) == has_prefix(
                pieces(text, '\n')[index],
                "[Desktop Action "@,
            )
        }),
{
    reveal_strlit("\n[Desktop Action ");
    reveal_strlit("[Desktop Action ");
    let parts = pieces(text, '\n');
    let start = line_start(parts, index);
    lemma_cut_before_line(text, index);
    let rest = text.skip(start);
    let wide = text.skip(start - 1);
    assert(text.take(start)[start - 1] == '\n');
    assert(wide =~= seq!['\n'] + rest);
    assert(parts.skip(index)[0] == parts[index]);
    let narrow = "[Desktop Action "@;
    assert("\n[Desktop Action "@ =~= seq!['\n'] + narrow);
    lemma_first_line_prefix(rest, narrow);
    let count = narrow.len() as int;
    if count <= rest.len() {
        assert(wide.take(count + 1) =~= seq!['\n'] + rest.take(count));
        assert(wide.take(count + 1).skip(1) =~= rest.take(count));
        assert("\n[Desktop Action "@.skip(1) =~= narrow);
    }
}

/// The main group ends where the first action begins.
proof fn lemma_group_lines(text: Seq<char>) -> (index: int)
    requires
        first_part(text, "\n[Desktop Action "@) is Some,
    ensures
        ({
            let at = first_part(text, "\n[Desktop Action "@)->0;
            &&& 0 <= at < text.len()
            &&& is_first_action(pieces(text, '\n'), index)
            &&& pieces(text.take(at + 1), '\n') == pieces(text, '\n').take(index).push(Seq::empty())
        }),
{
    let part = "\n[Desktop Action "@;
    let parts = pieces(text, '\n');
    let at = first_part(text, part)->0;
    lemma_first_part(text, part);
    reveal_strlit("\n[Desktop Action ");
    assert(text.skip(at).take(part.len() as int)[0] == '\n');
    assert(text[at] == '\n');
    let index = lemma_line_behind(text, at);
    lemma_action_line(text, index);
    assert forall|i: int| 1 <= i < index implies !has_prefix(
        #[trigger] parts[i],
        "[Desktop Action "@,
    ) by {
        lemma_action_line(text, i);
        lemma_line_start_grows(parts, i + 1, index);
        lemma_line_start_grows(parts, i, i);
        assert(!has_prefix(text.skip(line_start(parts, i) - 1), part));
    }
    let group = text.take(at + 1);
    assert(group.drop_last() =~= text.take(at));
    assert(group.last() == '\n');
    index
}

/// An entry whose command is replaced has one.
pub proof fn lemma_command_is_there(contents: Seq<char>, executable: Seq<char>, generation: u64) -> (place: (
    int,
    int,
))
    requires
        with_main_exec(contents, executable, generation) is Some,
    ensures
        is_command(pieces(contents, '\n'), place.0, place.1),
{
    let parts = pieces(contents, '\n');
    let at = first_part(contents, "\n[Desktop Action "@)->0;
    let action = lemma_group_lines(contents);
    let group = contents.take(at + 1);
    let marks = exec_marks(group);
    let index = only_marked(marks)->0;
    assert(is_only(marks, index));
    reveal_strlit("Exec=");
    let lines = pieces(group, '\n');
    assert(index < action) by {
        if index == action {
            assert(lines[index].len() == 0);
        }
    }
    assert(lines[index] == parts[index]);
    assert forall|i: int| 0 <= i < action && has_prefix(#[trigger] parts[i], "Exec="@) implies i
        == index by {
        assert(lines[i] == parts[i]);
        assert(marks[i]);
    }
    (action, index)
}

/// What replacing the command does to the lines.
pub proof fn lemma_command_line(
    contents: Seq<char>,
    executable: Seq<char>,
    generation: u64,
    action: int,
    index: int,
    line: Seq<char>,
)
    requires
        is_command(pieces(contents, '\n'), action, index),
        main_exec(executable, generation) == line.push('\n'),
        !line.contains('\n'),
    ensures
        with_main_exec(contents, executable, generation) matches Some(updated) && pieces(
            updated,
            '\n',
        ) == pieces(contents, '\n').update(index, line),
{
    let parts = pieces(contents, '\n');
    let part = "\n[Desktop Action "@;
    lemma_action_line(contents, action);
    lemma_first_part(contents, part);
    assert(has_prefix(contents.skip(line_start(parts, action) - 1), part));
    let found = lemma_group_lines(contents);
    assert(found == action) by {
        if found < action {
            assert(!has_prefix(parts[found], "[Desktop Action "@));
        } else if found > action {
            assert(!has_prefix(parts[action], "[Desktop Action "@));
        }
    }
    let at = first_part(contents, part)->0;
    let group = contents.take(at + 1);
    let lines = pieces(group, '\n');
    let marks = exec_marks(group);
    reveal_strlit("Exec=");
    assert(is_only(marks, index)) by {
        assert(lines[index] == parts[index]);
        assert forall|i: int| 0 <= i < marks.len() && #[trigger] marks[i] implies i == index by {
            if i < action {
                assert(lines[i] == parts[i]);
            } else {
                assert(lines[i].len() == 0);
            }
        }
    }
    lemma_only_marked(marks, index);
    let start = line_start(parts, index);
    let finish = line_start(parts, index + 1);
    lemma_line_start_within(lines, parts, index);
    lemma_line_start_within(lines, parts, index + 1);
    assert(line_end(lines, index) == finish);
    lemma_cut_before_line(contents, index);
    lemma_cut_before_line(contents, index + 1);
    let rest = contents.skip(finish);
    let tail = line.push('\n') + rest;
    lemma_one_piece(line, '\n');
    lemma_pieces_of_two(line, rest, '\n');
    let updated = with_main_exec(contents, executable, generation)->0;
    assert(updated =~= contents.take(start) + tail);
    if index == 0 {
        assert(updated =~= tail);
    } else {
        let shorter = contents.take(start - 1);
        assert(updated =~= shorter.push('\n') + tail);
        lemma_pieces_of_two(shorter, tail, '\n');
    }
    assert(pieces(updated, '\n') =~= parts.update(index, line));
}

} // verus!
