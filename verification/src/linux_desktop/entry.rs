//! What a rendered entry holds, line by line, and that rendering it again
//! leaves it as it is.

use vstd::prelude::*;

use super::blocks::{
    is_block, is_marker, lemma_block_lines, lemma_block_stands, lemma_markers_of_block,
    lemma_only_marked, lemma_same_lines, lines_behind, stand_at, with_lines,
};
use super::command::{is_command, lemma_command_is_there, lemma_command_line};
use super::{
    action_group, action_list, actions_block, escaped, escaped_character, exec_argument,
    generation_of, groups_block, groups_text, is_exec_argument, is_managed, is_only, main_exec,
    marker_marks, only_marked, quoted_body, quoted_character, rendered, shown_names, with_block,
    with_main_exec, ACTIONS_BEGIN, ACTIONS_END, GROUPS_BEGIN, GROUPS_END,
};
use crate::profile::Profile;
use crate::text::{
    decimal_text, has_prefix, lemma_decimal_round_trip, lemma_one_piece, lemma_pieces_of_two,
    pieces, without_return,
};

verus! {

/// Whether a line is none of the markers, which begin with a number sign.
spec fn is_unmarked(line: Seq<char>) -> bool {
    line.len() == 0 || line[0] != '#'
}

proof fn lemma_unmarked(line: Seq<char>)
    requires
        is_unmarked(line),
    ensures
        without_return(line) != ACTIONS_BEGIN@,
        without_return(line) != ACTIONS_END@,
        without_return(line) != GROUPS_BEGIN@,
        without_return(line) != GROUPS_END@,
{
    lemma_markers();
    let bare = without_return(line);
    if bare.len() > 0 {
        assert(bare[0] == line[0]);
    }
}

/// The four markers can mark lines, and no two of them are the same.
proof fn lemma_markers()
    ensures
        is_marker(ACTIONS_BEGIN@),
        is_marker(ACTIONS_END@),
        is_marker(GROUPS_BEGIN@),
        is_marker(GROUPS_END@),
        ACTIONS_BEGIN@[0] == '#',
        ACTIONS_END@[0] == '#',
        GROUPS_BEGIN@[0] == '#',
        GROUPS_END@[0] == '#',
        ACTIONS_BEGIN@ != ACTIONS_END@,
        ACTIONS_BEGIN@ != GROUPS_BEGIN@,
        ACTIONS_BEGIN@ != GROUPS_END@,
        ACTIONS_END@ != GROUPS_BEGIN@,
        ACTIONS_END@ != GROUPS_END@,
        GROUPS_BEGIN@ != GROUPS_END@,
{
    reveal_strlit("# ZETTA MANAGED PROFILE ACTIONS BEGIN");
    reveal_strlit("# ZETTA MANAGED PROFILE ACTIONS END");
    reveal_strlit("# ZETTA MANAGED PROFILE GROUPS BEGIN");
    reveal_strlit("# ZETTA MANAGED PROFILE GROUPS END");
    assert(ACTIONS_BEGIN@[24] == 'A');
    assert(ACTIONS_END@[24] == 'A');
    assert(GROUPS_BEGIN@[24] == 'G');
    assert(GROUPS_END@[24] == 'G');
    assert(ACTIONS_BEGIN@.len() == 37);
    assert(ACTIONS_END@.len() == 35);
    assert(GROUPS_BEGIN@.len() == 36);
    assert(GROUPS_END@.len() == 34);
    assert(ACTIONS_BEGIN@.last() == 'N');
    assert(ACTIONS_END@.last() == 'D');
    assert(GROUPS_BEGIN@.last() == 'N');
    assert(GROUPS_END@.last() == 'D');
}

/// The line that lists the actions.
pub open spec fn actions_line(count: nat) -> Seq<char> {
    "Actions="@ + action_list(count)
}

/// The lines that list the actions, with their markers.
pub open spec fn actions_lines(count: nat) -> Seq<Seq<char>> {
    seq![ACTIONS_BEGIN@, actions_line(count), ACTIONS_END@]
}

proof fn lemma_decimal_is_in_line(number: nat)
    ensures
        !decimal_text(number).contains('\n'),
{
    lemma_decimal_round_trip(number);
    let text = decimal_text(number);
    assert forall|i: int| 0 <= i < text.len() implies text[i] != '\n' by {
        assert('0' <= text[i] <= '9');
    }
}

proof fn lemma_joined_in_line(left: Seq<char>, right: Seq<char>)
    requires
        !left.contains('\n'),
        !right.contains('\n'),
    ensures
        !(left + right).contains('\n'),
{
    let whole = left + right;
    assert forall|i: int| 0 <= i < whole.len() implies whole[i] != '\n' by {
        if i < left.len() {
            assert(left.contains(left[i]));
        } else {
            assert(right.contains(right[i - left.len()]));
        }
    }
}

proof fn lemma_list_is_in_line(count: nat)
    ensures
        !action_list(count).contains('\n'),
    decreases count,
{
    reveal_strlit("new-window;");
    reveal_strlit("profile-");
    reveal_strlit(";");
    if count > 0 {
        let before = action_list((count - 1) as nat);
        lemma_list_is_in_line((count - 1) as nat);
        lemma_decimal_is_in_line(count);
        lemma_joined_in_line(before, "profile-"@);
        lemma_joined_in_line(before + "profile-"@, decimal_text(count));
        lemma_joined_in_line(before + "profile-"@ + decimal_text(count), ";"@);
    }
}

proof fn lemma_actions_lines(count: nat)
    ensures
        pieces(actions_block(count), '\n') == actions_lines(count),
        is_block(actions_lines(count), ACTIONS_BEGIN@, ACTIONS_END@),
        is_unmarked(actions_line(count)),
        !has_prefix(ACTIONS_BEGIN@, "Exec="@),
        !has_prefix(actions_line(count), "Exec="@),
        !has_prefix(ACTIONS_END@, "Exec="@),
{
    reveal_strlit("\nActions=");
    reveal_strlit("Actions=");
    reveal_strlit("\n");
    reveal_strlit("Exec=");
    lemma_markers();
    lemma_list_is_in_line(count);
    let line = actions_line(count);
    lemma_joined_in_line("Actions="@, action_list(count));
    lemma_one_piece(ACTIONS_BEGIN@, '\n');
    lemma_one_piece(line, '\n');
    lemma_one_piece(ACTIONS_END@, '\n');
    lemma_pieces_of_two(line, ACTIONS_END@, '\n');
    lemma_pieces_of_two(ACTIONS_BEGIN@, line.push('\n') + ACTIONS_END@, '\n');
    assert(actions_block(count) =~= ACTIONS_BEGIN@.push('\n') + (line.push('\n') + ACTIONS_END@));
    assert(pieces(actions_block(count), '\n') =~= actions_lines(count));
    assert(line[0] == 'A');
    assert("Exec="@[0] == 'E');
    if has_prefix(ACTIONS_BEGIN@, "Exec="@) {
        assert(ACTIONS_BEGIN@.take(5)[0] == 'E');
    }
    if has_prefix(line, "Exec="@) {
        assert(line.take(5)[0] == 'E');
    }
    if has_prefix(ACTIONS_END@, "Exec="@) {
        assert(ACTIONS_END@.take(5)[0] == 'E');
    }
}

/// The lines of the group of one action, with an empty one before them.
pub open spec fn group_lines(number: nat, name: Seq<char>, executable: Seq<char>) -> Seq<Seq<char>> {
    seq![
        Seq::empty(),
        "[Desktop Action profile-"@ + decimal_text(number) + "]"@,
        "Name="@ + escaped(name),
        "Exec="@ + executable + " --new-window --profile "@ + exec_argument(name),
    ]
}

/// The lines of the entry's actions behind their first marker.
pub open spec fn all_group_lines(names: Seq<Seq<char>>, executable: Seq<char>) -> Seq<Seq<char>>
    decreases names.len(),
{
    if names.len() == 0 {
        seq![GROUPS_BEGIN@]
    } else {
        all_group_lines(names.drop_last(), executable) + group_lines(
            names.len(),
            names.last(),
            executable,
        )
    }
}

/// The lines of the entry's actions, with their markers.
pub open spec fn groups_lines(names: Seq<Seq<char>>, executable: Seq<char>) -> Seq<Seq<char>> {
    all_group_lines(names, executable).push(GROUPS_END@)
}

proof fn lemma_escaped_is_in_line(text: Seq<char>)
    ensures
        !escaped(text).contains('\n'),
    decreases text.len(),
{
    if text.len() > 0 {
        lemma_escaped_is_in_line(text.drop_first());
        let head = escaped_character(text.first());
        assert(!head.contains('\n'));
        lemma_joined_in_line(head, escaped(text.drop_first()));
    }
}

proof fn lemma_quoted_is_in_line(text: Seq<char>)
    requires
        is_exec_argument(text),
    ensures
        !text.contains('\n'),
        !quoted_body(text).contains('\n'),
    decreases text.len(),
{
    if text.len() > 0 {
        let rest = text.drop_first();
        assert(!crate::text::is_control_character(text[0]));
        assert forall|i: int| 0 <= i < rest.len() implies !crate::text::is_control_character(
            #[trigger] rest[i],
        ) by {
            assert(rest[i] == text[i + 1]);
        }
        lemma_quoted_is_in_line(rest);
        let head = quoted_character(text.first());
        assert(!head.contains('\n'));
        lemma_joined_in_line(head, quoted_body(rest));
        assert(text =~= seq![text.first()] + rest);
        lemma_joined_in_line(seq![text.first()], rest);
    }
}

proof fn lemma_argument_is_in_line(argument: Seq<char>)
    requires
        is_exec_argument(argument),
    ensures
        !exec_argument(argument).contains('\n'),
{
    lemma_quoted_is_in_line(argument);
    let quote = seq!['"'];
    assert(!quote.contains('\n'));
    lemma_joined_in_line(quote, quoted_body(argument));
    lemma_joined_in_line(quote + quoted_body(argument), quote);
}

/// Whether names can stand in the entry.
spec fn are_shown(names: Seq<Seq<char>>) -> bool {
    forall|i: int| 0 <= i < names.len() ==> is_exec_argument(#[trigger] names[i])
}

proof fn lemma_shown(profiles: Seq<Profile>, hidden: Seq<bool>)
    ensures
        are_shown(shown_names(profiles, hidden)),
    decreases profiles.len(),
{
    if profiles.len() > 0 {
        lemma_shown(profiles.drop_last(), hidden);
    }
}

proof fn lemma_group_lines(text: Seq<char>, number: nat, name: Seq<char>, executable: Seq<char>)
    requires
        is_exec_argument(name),
        !executable.contains('\n'),
    ensures
        pieces(text + action_group(number, name, executable), '\n') == pieces(text, '\n')
            + group_lines(number, name, executable),
{
    reveal_strlit("\n\n[Desktop Action profile-");
    reveal_strlit("[Desktop Action profile-");
    reveal_strlit("]\nName=");
    reveal_strlit("]");
    reveal_strlit("Name=");
    reveal_strlit("\nExec=");
    reveal_strlit("Exec=");
    reveal_strlit(" --new-window --profile ");
    let count = decimal_text(number);
    let lines = group_lines(number, name, executable);
    lemma_decimal_is_in_line(number);
    lemma_escaped_is_in_line(name);
    lemma_argument_is_in_line(name);
    lemma_joined_in_line("[Desktop Action profile-"@, count);
    lemma_joined_in_line("[Desktop Action profile-"@ + count, "]"@);
    lemma_joined_in_line("Name="@, escaped(name));
    lemma_joined_in_line("Exec="@, executable);
    lemma_joined_in_line("Exec="@ + executable, " --new-window --profile "@);
    lemma_joined_in_line(
        "Exec="@ + executable + " --new-window --profile "@,
        exec_argument(name),
    );
    lemma_one_piece(lines[0], '\n');
    lemma_one_piece(lines[1], '\n');
    lemma_one_piece(lines[2], '\n');
    lemma_one_piece(lines[3], '\n');
    let third = lines[2].push('\n') + lines[3];
    let second = lines[1].push('\n') + third;
    let first = lines[0].push('\n') + second;
    lemma_pieces_of_two(lines[2], lines[3], '\n');
    lemma_pieces_of_two(lines[1], third, '\n');
    lemma_pieces_of_two(lines[0], second, '\n');
    lemma_pieces_of_two(text, first, '\n');
    assert("\n\n[Desktop Action profile-"@ =~= seq!['\n', '\n'] + "[Desktop Action profile-"@);
    assert("]\nName="@ =~= "]"@.push('\n') + "Name="@);
    assert("\nExec="@ =~= seq!['\n'] + "Exec="@);
    assert(text + action_group(number, name, executable) =~= text.push('\n') + first);
    assert(pieces(first, '\n') =~= lines);
}

proof fn lemma_groups_text(names: Seq<Seq<char>>, executable: Seq<char>)
    requires
        are_shown(names),
        !executable.contains('\n'),
    ensures
        pieces(groups_text(names, executable), '\n') == all_group_lines(names, executable),
    decreases names.len(),
{
    lemma_markers();
    if names.len() == 0 {
        lemma_one_piece(GROUPS_BEGIN@, '\n');
    } else {
        let shorter = names.drop_last();
        assert forall|i: int| 0 <= i < shorter.len() implies is_exec_argument(
            #[trigger] shorter[i],
        ) by {
            assert(shorter[i] == names[i]);
        }
        lemma_groups_text(shorter, executable);
        assert(is_exec_argument(names[names.len() - 1]));
        lemma_group_lines(
            groups_text(shorter, executable),
            names.len(),
            names.last(),
            executable,
        );
    }
}

/// Whether a line of the groups is no marker, and is a command only two lines
/// behind the heading of an action.
spec fn is_group_line(lines: Seq<Seq<char>>, index: int) -> bool {
    &&& is_unmarked(lines[index])
    &&& has_prefix(lines[index], "Exec="@) ==> index > 2 && has_prefix(
        lines[index - 2],
        "[Desktop Action "@,
    )
}

proof fn lemma_all_group_lines(names: Seq<Seq<char>>, executable: Seq<char>)
    ensures
        all_group_lines(names, executable).len() > 0,
        all_group_lines(names, executable)[0] == GROUPS_BEGIN@,
        forall|i: int|
            0 < i < all_group_lines(names, executable).len() ==> #[trigger] is_group_line(
                all_group_lines(names, executable),
                i,
            ),
    decreases names.len(),
{
    if names.len() > 0 {
        let before = all_group_lines(names.drop_last(), executable);
        let lines = all_group_lines(names, executable);
        let group = group_lines(names.len(), names.last(), executable);
        lemma_all_group_lines(names.drop_last(), executable);
        reveal_strlit("[Desktop Action profile-");
        reveal_strlit("[Desktop Action ");
        reveal_strlit("Name=");
        reveal_strlit("Exec=");
        let heading = group[1];
        assert(heading[0] == '[');
        assert(heading.take("[Desktop Action "@.len() as int) =~= "[Desktop Action "@);
        assert(group[2][0] == 'N');
        assert(group[3][0] == 'E');
        assert forall|i: int| 0 < i < lines.len() implies #[trigger] is_group_line(lines, i) by {
            if i < before.len() {
                assert(is_group_line(before, i));
                assert(lines[i] == before[i]);
                if i > 2 {
                    assert(lines[i - 2] == before[i - 2]);
                }
            } else {
                let at = i - before.len();
                assert(lines[i] == group[at]);
                if has_prefix(lines[i], "Exec="@) {
                    assert(lines[i].take(5)[0] == 'E');
                    assert(at == 3);
                    assert(lines[i - 2] == group[1]);
                }
            }
        }
    }
}

proof fn lemma_groups_lines(names: Seq<Seq<char>>, executable: Seq<char>)
    requires
        are_shown(names),
        !executable.contains('\n'),
    ensures
        pieces(groups_block(names, executable), '\n') == groups_lines(names, executable),
        is_block(groups_lines(names, executable), GROUPS_BEGIN@, GROUPS_END@),
        forall|i: int|
            0 < i < groups_lines(names, executable).len() - 1 ==> #[trigger] is_group_line(
                groups_lines(names, executable),
                i,
            ),
        !has_prefix(GROUPS_BEGIN@, "Exec="@),
        !has_prefix(GROUPS_END@, "Exec="@),
{
    reveal_strlit("\n");
    reveal_strlit("Exec=");
    lemma_markers();
    lemma_groups_text(names, executable);
    lemma_all_group_lines(names, executable);
    let text = groups_text(names, executable);
    let before = all_group_lines(names, executable);
    let lines = groups_lines(names, executable);
    assert(groups_block(names, executable) =~= text.push('\n') + GROUPS_END@);
    lemma_one_piece(GROUPS_END@, '\n');
    lemma_pieces_of_two(text, GROUPS_END@, '\n');
    assert(before + seq![GROUPS_END@] =~= lines);
    assert(lines[0] == before[0]);
    assert forall|i: int| 0 < i < lines.len() - 1 implies #[trigger] is_group_line(lines, i) by {
        assert(is_group_line(before, i));
        assert(lines[i] == before[i]);
        if i > 2 {
            assert(lines[i - 2] == before[i - 2]);
        }
    }
    if has_prefix(GROUPS_BEGIN@, "Exec="@) {
        assert(GROUPS_BEGIN@.take(5)[0] == 'E');
    }
    if has_prefix(GROUPS_END@, "Exec="@) {
        assert(GROUPS_END@.take(5)[0] == 'E');
    }
}

/// The line of the main command.
pub open spec fn command_line(executable: Seq<char>, generation: u64) -> Seq<char> {
    "Exec="@ + executable + " --zetta-profile-actions-generation "@ + decimal_text(
        generation as nat,
    )
}

proof fn lemma_command_text(executable: Seq<char>, generation: u64)
    requires
        !executable.contains('\n'),
    ensures
        main_exec(executable, generation) == command_line(executable, generation).push('\n'),
        !command_line(executable, generation).contains('\n'),
        has_prefix(command_line(executable, generation), "Exec="@),
        !has_prefix(command_line(executable, generation), "[Desktop Action "@),
{
    reveal_strlit("\n");
    reveal_strlit("Exec=");
    reveal_strlit("[Desktop Action ");
    reveal_strlit(" --zetta-profile-actions-generation ");
    let count = decimal_text(generation as nat);
    let line = command_line(executable, generation);
    lemma_decimal_is_in_line(generation as nat);
    lemma_joined_in_line("Exec="@, executable);
    lemma_joined_in_line("Exec="@ + executable, " --zetta-profile-actions-generation "@);
    lemma_joined_in_line(
        "Exec="@ + executable + " --zetta-profile-actions-generation "@,
        count,
    );
    assert(main_exec(executable, generation) =~= line.push('\n'));
    assert(line.take(5) =~= "Exec="@);
    assert(line[0] == 'E');
    if has_prefix(line, "[Desktop Action "@) {
        assert(line.take("[Desktop Action "@.len() as int)[0] == '[');
    }
}

proof fn lemma_command_is_unmarked(line: Seq<char>)
    requires
        has_prefix(line, "Exec="@),
    ensures
        is_unmarked(line),
        line.len() > 0,
{
    reveal_strlit("Exec=");
    assert(line.take(5)[0] == 'E');
}

/// Whether the lines that list the actions stand among the groups.
pub open spec fn is_list_enclosed(text: Seq<char>) -> bool {
    match (
        only_marked(marker_marks(text, GROUPS_BEGIN@)),
        only_marked(marker_marks(text, ACTIONS_BEGIN@)),
        only_marked(marker_marks(text, GROUPS_END@)),
    ) {
        (Some(first), Some(at), Some(last)) => first < at < last,
        _ => false,
    }
}

/// Replacing lines leaves a marker that is not among them.
proof fn lemma_marker_is_kept(
    listed: Seq<char>,
    grouped: Seq<char>,
    marker: Seq<char>,
    first: int,
    last: int,
    inner: Seq<Seq<char>>,
    at: int,
)
    requires
        0 <= first < last < pieces(listed, '\n').len(),
        pieces(grouped, '\n') == with_lines(pieces(listed, '\n'), first, last, inner),
        is_marker(marker),
        is_only(marker_marks(listed, marker), at),
        at < first || last < at,
        forall|i: int| 0 <= i < inner.len() ==> without_return(#[trigger] inner[i]) != marker,
    ensures
        only_marked(marker_marks(grouped, marker)) is Some,
{
    let parts = pieces(listed, '\n');
    let lines = pieces(grouped, '\n');
    let before = marker_marks(listed, marker);
    let marks = marker_marks(grouped, marker);
    let behind = lines_behind(parts, last);
    let shift = first + inner.len() - last - 1;
    let place = if at < first {
        at
    } else {
        at + shift
    };
    assert(before[at]);
    if at > last {
        assert(lines[place] == behind[at - last - 1]);
    }
    assert(lines[place] == parts[at]);
    assert(marks[place]);
    assert forall|i: int| 0 <= i < marks.len() && #[trigger] marks[i] implies i == place by {
        if i < first {
            assert(lines[i] == parts[i]);
            assert(before[i]);
        } else if i < first + inner.len() {
            assert(lines[i] == inner[i - first]);
        } else {
            assert(lines[i] == behind[i - first - inner.len()]);
            if last + 1 < parts.len() {
                assert(lines[i] == parts[i - shift]);
                assert(before[i - shift]);
            }
        }
    }
    lemma_only_marked(marks, place);
}

/// Where the lines that list the actions do not stand among the groups, their
/// markers are left when the groups are replaced.
proof fn lemma_list_markers_are_kept(
    listed: Seq<char>,
    names: Seq<Seq<char>>,
    executable: Seq<char>,
    from: int,
)
    requires
        are_shown(names),
        !executable.contains('\n'),
        with_block(listed, GROUPS_BEGIN@, GROUPS_END@, groups_block(names, executable)) is Some,
        stand_at(actions_lines(names.len()), listed, from),
        is_only(marker_marks(listed, ACTIONS_BEGIN@), from),
        is_only(marker_marks(listed, ACTIONS_END@), from + 2),
        !is_list_enclosed(listed),
    ensures
        ({
            let grouped = with_block(
                listed,
                GROUPS_BEGIN@,
                GROUPS_END@,
                groups_block(names, executable),
            )->0;
            &&& only_marked(marker_marks(grouped, ACTIONS_BEGIN@)) is Some
            &&& only_marked(marker_marks(grouped, ACTIONS_END@)) is Some
        }),
{
    let block = groups_block(names, executable);
    let grouped = with_block(listed, GROUPS_BEGIN@, GROUPS_END@, block)->0;
    let inner = groups_lines(names, executable);
    let parts = pieces(listed, '\n');
    lemma_markers();
    lemma_groups_lines(names, executable);
    lemma_actions_lines(names.len());
    let place = lemma_block_lines(listed, GROUPS_BEGIN@, GROUPS_END@, block);
    let first = place.0;
    let last = place.1;
    lemma_only_marked(marker_marks(listed, GROUPS_BEGIN@), first);
    lemma_only_marked(marker_marks(listed, GROUPS_END@), last);
    lemma_only_marked(marker_marks(listed, ACTIONS_BEGIN@), from);
    let stood = parts.subrange(from, from + 3);
    assert(stood[0] == parts[from] && stood[1] == parts[from + 1] && stood[2] == parts[from + 2]);
    assert(marker_marks(listed, GROUPS_BEGIN@)[first]);
    assert(marker_marks(listed, GROUPS_END@)[last]);
    lemma_unmarked(parts[from + 1]);
    assert forall|i: int| 0 <= i < inner.len() implies without_return(#[trigger] inner[i])
        != ACTIONS_BEGIN@ && without_return(inner[i]) != ACTIONS_END@ by {
        if 0 < i < inner.len() - 1 {
            assert(is_group_line(inner, i));
            lemma_unmarked(inner[i]);
        }
    }
    lemma_marker_is_kept(listed, grouped, ACTIONS_BEGIN@, first, last, inner, from);
    lemma_marker_is_kept(listed, grouped, ACTIONS_END@, first, last, inner, from + 2);
}

/// Where a marker is left, the lines that list the actions are left with it
/// when the groups are replaced.
proof fn lemma_list_is_kept(
    listed: Seq<char>,
    names: Seq<Seq<char>>,
    executable: Seq<char>,
    from: int,
) -> (at: int)
    requires
        are_shown(names),
        !executable.contains('\n'),
        with_block(listed, GROUPS_BEGIN@, GROUPS_END@, groups_block(names, executable)) is Some,
        stand_at(actions_lines(names.len()), listed, from),
        is_only(marker_marks(listed, ACTIONS_BEGIN@), from),
        only_marked(
            marker_marks(
                with_block(
                    listed,
                    GROUPS_BEGIN@,
                    GROUPS_END@,
                    groups_block(names, executable),
                )->0,
                ACTIONS_BEGIN@,
            ),
        ) is Some,
    ensures
        stand_at(
            actions_lines(names.len()),
            with_block(listed, GROUPS_BEGIN@, GROUPS_END@, groups_block(names, executable))->0,
            at,
        ),
        !is_list_enclosed(listed),
{
    let block = groups_block(names, executable);
    let grouped = with_block(listed, GROUPS_BEGIN@, GROUPS_END@, block)->0;
    let inner = groups_lines(names, executable);
    let list = actions_lines(names.len());
    let parts = pieces(listed, '\n');
    let lines = pieces(grouped, '\n');
    lemma_markers();
    lemma_groups_lines(names, executable);
    lemma_actions_lines(names.len());
    let place = lemma_block_lines(listed, GROUPS_BEGIN@, GROUPS_END@, block);
    let first = place.0;
    let last = place.1;
    let marks = marker_marks(grouped, ACTIONS_BEGIN@);
    let before = marker_marks(listed, ACTIONS_BEGIN@);
    let at = only_marked(marks)->0;
    assert(is_only(marks, at));
    let stood = parts.subrange(from, from + 3);
    assert(stood[0] == parts[from] && stood[1] == parts[from + 1] && stood[2] == parts[from + 2]);
    assert(marker_marks(listed, GROUPS_BEGIN@)[first]);
    assert(marker_marks(listed, GROUPS_END@)[last]);
    lemma_unmarked(parts[from + 1]);
    lemma_only_marked(marker_marks(listed, GROUPS_BEGIN@), first);
    lemma_only_marked(marker_marks(listed, GROUPS_END@), last);
    lemma_only_marked(before, from);
    if at < first {
        assert(lines[at] == parts[at]);
        assert(before[at]);
        assert(at == from);
        assert(first != from + 1 && first != from + 2);
        assert(lines.subrange(at, at + 3) =~= list);
    } else if at < first + inner.len() {
        assert(lines[at] == inner[at - first]);
        if 0 < at - first < inner.len() - 1 {
            assert(is_group_line(inner, at - first));
            lemma_unmarked(inner[at - first]);
        }
        assert(false);
    } else {
        let behind = lines_behind(parts, last);
        assert(lines[at] == behind[at - first - inner.len()]);
        assert(last + 1 < parts.len());
        let old_at = last + 1 + at - first - inner.len();
        assert(lines[at] == parts[old_at]);
        assert(before[old_at]);
        assert(old_at == from);
        assert forall|i: int| 0 <= i < 3 implies lines[at + i] == list[i] by {
            assert(lines[at + i] == behind[at + i - first - inner.len()]);
            assert(behind[at + i - first - inner.len()] == parts[from + i]);
            assert(stood[i] == parts[from + i]);
        }
        assert(lines.subrange(at, at + 3) =~= list);
    }
    at
}

/// Replacing the main command leaves every marker where it is.
proof fn lemma_markers_stay(grouped: Seq<char>, updated: Seq<char>, index: int, line: Seq<char>, marker: Seq<char>)
    requires
        0 <= index < pieces(grouped, '\n').len(),
        pieces(updated, '\n') == pieces(grouped, '\n').update(index, line),
        without_return(pieces(grouped, '\n')[index]) != marker,
        without_return(line) != marker,
    ensures
        marker_marks(updated, marker) == marker_marks(grouped, marker),
{
    assert(marker_marks(updated, marker) =~= marker_marks(grouped, marker));
}

/// Replacing the main command leaves all markers where they are.
proof fn lemma_markers_all_stay(
    grouped: Seq<char>,
    updated: Seq<char>,
    action: int,
    index: int,
    line: Seq<char>,
)
    requires
        is_command(pieces(grouped, '\n'), action, index),
        pieces(updated, '\n') == pieces(grouped, '\n').update(index, line),
        has_prefix(line, "Exec="@),
    ensures
        marker_marks(updated, ACTIONS_BEGIN@) == marker_marks(grouped, ACTIONS_BEGIN@),
        marker_marks(updated, ACTIONS_END@) == marker_marks(grouped, ACTIONS_END@),
        marker_marks(updated, GROUPS_BEGIN@) == marker_marks(grouped, GROUPS_BEGIN@),
        marker_marks(updated, GROUPS_END@) == marker_marks(grouped, GROUPS_END@),
{
    let parts = pieces(grouped, '\n');
    lemma_command_is_unmarked(line);
    lemma_unmarked(line);
    lemma_command_is_unmarked(parts[index]);
    lemma_unmarked(parts[index]);
    lemma_markers_stay(grouped, updated, index, line, ACTIONS_BEGIN@);
    lemma_markers_stay(grouped, updated, index, line, ACTIONS_END@);
    lemma_markers_stay(grouped, updated, index, line, GROUPS_BEGIN@);
    lemma_markers_stay(grouped, updated, index, line, GROUPS_END@);
}

/// The lines that list the actions stand where they were put.
proof fn lemma_listed(contents: Seq<char>, count: nat) -> (from: int)
    requires
        with_block(contents, ACTIONS_BEGIN@, ACTIONS_END@, actions_block(count)) is Some,
    ensures
        ({
            let listed = with_block(contents, ACTIONS_BEGIN@, ACTIONS_END@, actions_block(count))->0;
            &&& stand_at(actions_lines(count), listed, from)
            &&& is_only(marker_marks(listed, ACTIONS_BEGIN@), from)
            &&& is_only(marker_marks(listed, ACTIONS_END@), from + 2)
        }),
{
    let list = actions_lines(count);
    let actions = actions_block(count);
    let listed = with_block(contents, ACTIONS_BEGIN@, ACTIONS_END@, actions)->0;
    lemma_markers();
    lemma_actions_lines(count);
    lemma_unmarked(list[1]);
    lemma_markers_of_block(contents, ACTIONS_BEGIN@, ACTIONS_END@, actions);
    let from = choose|at: int| #[trigger] stand_at(list, listed, at);
    let parts = pieces(listed, '\n');
    let stood = parts.subrange(from, from + 3);
    let begin_marks = marker_marks(listed, ACTIONS_BEGIN@);
    let end_marks = marker_marks(listed, ACTIONS_END@);
    assert(is_only(begin_marks, only_marked(begin_marks)->0));
    assert(is_only(end_marks, only_marked(end_marks)->0));
    assert(stood[0] == parts[from]);
    assert(stood[2] == parts[from + 2]);
    assert(begin_marks[from]);
    assert(end_marks[from + 2]);
    from
}

/// The groups stand where they were put.
proof fn lemma_grouped(listed: Seq<char>, names: Seq<Seq<char>>, executable: Seq<char>) -> (at: int)
    requires
        are_shown(names),
        !executable.contains('\n'),
        with_block(listed, GROUPS_BEGIN@, GROUPS_END@, groups_block(names, executable)) is Some,
    ensures
        ({
            let grouped = with_block(
                listed,
                GROUPS_BEGIN@,
                GROUPS_END@,
                groups_block(names, executable),
            )->0;
            &&& stand_at(groups_lines(names, executable), grouped, at)
            &&& only_marked(marker_marks(grouped, GROUPS_BEGIN@)) is Some
            &&& only_marked(marker_marks(grouped, GROUPS_END@)) is Some
        }),
{
    let groups = groups_block(names, executable);
    let inner = groups_lines(names, executable);
    let grouped = with_block(listed, GROUPS_BEGIN@, GROUPS_END@, groups)->0;
    lemma_markers();
    lemma_groups_lines(names, executable);
    assert forall|i: int| 0 < i < inner.len() - 1 implies without_return(#[trigger] inner[i])
        != GROUPS_BEGIN@ && without_return(inner[i]) != GROUPS_END@ by {
        assert(is_group_line(inner, i));
        lemma_unmarked(inner[i]);
    }
    lemma_markers_of_block(listed, GROUPS_BEGIN@, GROUPS_END@, groups);
    choose|at: int| #[trigger] stand_at(inner, grouped, at)
}

/// The main command is not among the groups.
proof fn lemma_groups_stay(
    grouped: Seq<char>,
    entry: Seq<char>,
    names: Seq<Seq<char>>,
    executable: Seq<char>,
    at: int,
    action: int,
    index: int,
    line: Seq<char>,
)
    requires
        are_shown(names),
        !executable.contains('\n'),
        stand_at(groups_lines(names, executable), grouped, at),
        is_command(pieces(grouped, '\n'), action, index),
        pieces(entry, '\n') == pieces(grouped, '\n').update(index, line),
    ensures
        stand_at(groups_lines(names, executable), entry, at),
{
    let inner = groups_lines(names, executable);
    let parts = pieces(grouped, '\n');
    let lines = pieces(entry, '\n');
    lemma_groups_lines(names, executable);
    let stood = parts.subrange(at, at + inner.len());
    if at <= index < at + inner.len() {
        let place = index - at;
        assert(stood[place] == parts[index]);
        if 0 < place < inner.len() - 1 {
            assert(is_group_line(inner, place));
            assert(stood[place - 2] == parts[index - 2]);
        }
        assert(false);
    }
    assert forall|i: int| 0 <= i < inner.len() implies lines[at + i] == inner[i] by {
        assert(stood[i] == parts[at + i]);
    }
    assert(lines.subrange(at, at + inner.len()) =~= inner);
}

/// The main command is not among the lines that list the actions.
proof fn lemma_list_stays(
    grouped: Seq<char>,
    entry: Seq<char>,
    count: nat,
    at: int,
    action: int,
    index: int,
    line: Seq<char>,
)
    requires
        stand_at(actions_lines(count), grouped, at),
        is_command(pieces(grouped, '\n'), action, index),
        pieces(entry, '\n') == pieces(grouped, '\n').update(index, line),
    ensures
        stand_at(actions_lines(count), entry, at),
{
    let list = actions_lines(count);
    let parts = pieces(grouped, '\n');
    let lines = pieces(entry, '\n');
    lemma_actions_lines(count);
    let stood = parts.subrange(at, at + 3);
    assert(stood[0] == parts[at] && stood[1] == parts[at + 1] && stood[2] == parts[at + 2]);
    assert(lines.subrange(at, at + 3) =~= list);
}

/// Whether an entry lists an action for each name, and has their groups.
pub open spec fn holds_rendered(entry: Seq<char>, executable: Seq<char>, names: Seq<Seq<char>>) -> bool {
    &&& exists|at: int| #[trigger] stand_at(actions_lines(names.len()), entry, at)
    &&& holds_groups(entry, executable, names)
}

/// Whether an entry has a group for each name, and the main command for them.
pub open spec fn holds_groups(entry: Seq<char>, executable: Seq<char>, names: Seq<Seq<char>>) -> bool {
    let argument = exec_argument(executable);
    &&& exists|at: int| #[trigger] stand_at(groups_lines(names, argument), entry, at)
    &&& exists|action: int, index: int| #[trigger]
        is_command(pieces(entry, '\n'), action, index) && pieces(entry, '\n')[index]
            == command_line(argument, generation_of(names))
}

/// A rendered entry has a group for each profile that is shown, and the main
/// command for them. It lists their actions, too, and rendering it again leaves
/// it as it is, unless the lines that list the actions stood among the groups,
/// which are replaced as a whole: it is then managed no more, and is not
/// rendered again.
pub proof fn law_rendered_entry_stays(
    contents: Seq<char>,
    executable: Seq<char>,
    profiles: Seq<Profile>,
    hidden: Seq<bool>,
)
    ensures
        ({
            let names = shown_names(profiles, hidden);
            let actions = actions_block(names.len());
            rendered(contents, executable, names) matches Some(entry) ==> {
                let listed = with_block(contents, ACTIONS_BEGIN@, ACTIONS_END@, actions)->0;
                &&& holds_groups(entry, executable, names)
                &&& !is_list_enclosed(listed) ==> {
                    &&& is_managed(entry)
                    &&& holds_rendered(entry, executable, names)
                    &&& rendered(entry, executable, names) == Some(entry)
                }
                &&& is_list_enclosed(listed) ==> {
                    &&& !is_managed(entry)
                    &&& rendered(entry, executable, names) is None
                }
            }
        }),
{
    let names = shown_names(profiles, hidden);
    if let Some(entry) = rendered(contents, executable, names) {
        let argument = exec_argument(executable);
        let generation = generation_of(names);
        let actions = actions_block(names.len());
        let groups = groups_block(names, argument);
        let line = command_line(argument, generation);
        lemma_shown(profiles, hidden);
        lemma_argument_is_in_line(executable);
        let listed = with_block(contents, ACTIONS_BEGIN@, ACTIONS_END@, actions)->0;
        let from = lemma_listed(contents, names.len());
        let grouped = with_block(listed, GROUPS_BEGIN@, GROUPS_END@, groups)->0;
        let groups_at = lemma_grouped(listed, names, argument);
        lemma_command_text(argument, generation);
        let (action, index) = lemma_command_is_there(grouped, argument, generation);
        lemma_command_line(grouped, argument, generation, action, index, line);
        lemma_groups_stay(grouped, entry, names, argument, groups_at, action, index, line);
        lemma_markers_all_stay(grouped, entry, action, index, line);
        assert(is_command(pieces(entry, '\n'), action, index));
        if !is_list_enclosed(listed) {
            lemma_list_markers_are_kept(listed, names, argument, from);
        }
        if is_managed(entry) {
            let list_at = lemma_list_is_kept(listed, names, argument, from);
            lemma_list_stays(grouped, entry, names.len(), list_at, action, index, line);
            lemma_markers();
            lemma_actions_lines(names.len());
            lemma_groups_lines(names, argument);
            lemma_block_stands(entry, ACTIONS_BEGIN@, ACTIONS_END@, actions, list_at);
            lemma_block_stands(entry, GROUPS_BEGIN@, GROUPS_END@, groups, groups_at);
            lemma_command_line(entry, argument, generation, action, index, line);
            let again = with_main_exec(entry, argument, generation)->0;
            assert(pieces(entry, '\n').update(index, line) =~= pieces(entry, '\n'));
            lemma_same_lines(again, entry);
        }
    }
}

} // verus!
