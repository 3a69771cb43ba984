//! What holds of the profiles in a desktop entry.

use vstd::prelude::*;
use vstd::utf8::encode_utf8;

use crate::linux_desktop::{
    action_group, action_list, escaped, exec_argument, generation_of, groups_text, is_exec_argument,
    line_end, line_start, main_exec, marker_line, mixed, mixed_all, needs_quotes, shown_names,
    stands_alone, unquoted, with_block,
};
use crate::linux_desktop::blocks::lemma_cut_before_line;
use crate::profile::Profile;
use crate::text::{decimal_text, has_part, has_prefix, pieces};

verus! {

/// Of profiles, those are shown that are not hidden and whose names can be written, in
/// their order.
pub proof fn law_shown_profiles_are_not_hidden(
    profiles: Seq<Profile>,
    profile: Profile,
    hidden: Seq<bool>,
)
    requires
        hidden.len() > profiles.len(),
    ensures
        shown_names(profiles.push(profile), hidden) == if hidden[profiles.len() as int]
            || profile.name@.len() == 0 || !is_exec_argument(profile.name@) {
            shown_names(profiles, hidden)
        } else {
            shown_names(profiles, hidden).push(profile.name@)
        },
        shown_names(Seq::empty(), hidden).len() == 0,
        profile.name@.contains('\n') ==> !is_exec_argument(profile.name@),
{
    assert(profiles.push(profile).drop_last() =~= profiles);
    if profile.name@.contains('\n') {
        let i = choose|i: int| 0 <= i < profile.name@.len() && profile.name@[i] == '\n';
        assert(crate::text::is_control_character(profile.name@[i]));
    }
}

proof fn lemma_part_of_longer(text: Seq<char>, more: Seq<char>, part: Seq<char>)
    ensures
        has_part(text, part) ==> has_part(text + more, part),
        has_part(more, part) ==> has_part(text + more, part),
{
    let whole = text + more;
    if has_part(text, part) {
        let start = choose|start: int|
            0 <= start && start + part.len() <= text.len() && #[trigger] text.subrange(
                start,
                start + part.len(),
            ) == part;
        assert(whole.subrange(start, start + part.len()) =~= text.subrange(
            start,
            start + part.len(),
        ));
    }
    if has_part(more, part) {
        let start = choose|start: int|
            0 <= start && start + part.len() <= more.len() && #[trigger] more.subrange(
                start,
                start + part.len(),
            ) == part;
        let at = text.len() + start;
        assert(whole.subrange(at, at + part.len()) =~= more.subrange(start, start + part.len()));
    }
}

proof fn lemma_own_part(text: Seq<char>)
    ensures
        has_part(text, text),
{
    assert(text.subrange(0, 0int + text.len()) =~= text);
}

/// Each profile has an action of its own, which is in the list of actions under its
/// number and has its name and its command in a group of that number.
pub proof fn law_each_profile_has_its_action(
    names: Seq<Seq<char>>,
    executable: Seq<char>,
    number: nat,
)
    requires
        1 <= number <= names.len(),
    ensures
        has_part(action_list(names.len()), "profile-"@ + decimal_text(number) + ";"@),
        has_part(groups_text(names, executable), action_group(number, names[number - 1], executable)),
        has_prefix(action_list(names.len()), "new-window;"@),
    decreases names.len(),
{
    let shorter = names.drop_last();
    let count = names.len();
    let own = "profile-"@ + decimal_text(count) + ";"@;
    assert(action_list(count) =~= action_list((count - 1) as nat) + own);
    let part = "profile-"@ + decimal_text(number) + ";"@;
    lemma_part_of_longer(action_list((count - 1) as nat), own, part);
    let group = action_group(number, names[number - 1], executable);
    let last = action_group(count, names.last(), executable);
    assert(groups_text(names, executable) == groups_text(shorter, executable) + last);
    lemma_part_of_longer(groups_text(shorter, executable), last, group);
    if number == count {
        lemma_own_part(own);
        lemma_own_part(last);
        lemma_list_begins((count - 1) as nat);
        lemma_list_begins(count);
    } else {
        assert(shorter[number - 1] == names[number - 1]);
        law_each_profile_has_its_action(shorter, executable, number);
        lemma_list_begins(count);
    }
}

proof fn lemma_list_begins(count: nat)
    ensures
        has_prefix(action_list(count), "new-window;"@),
    decreases count,
{
    let first = "new-window;"@;
    if count == 0 {
        assert(first.take(first.len() as int) =~= first);
    } else {
        lemma_list_begins((count - 1) as nat);
        let before = action_list((count - 1) as nat);
        let whole = action_list(count);
        assert(whole.take(first.len() as int) =~= before.take(first.len() as int));
    }
}

/// An action opens a new window with its profile: its command is the program's, asks for
/// a new window, and names the profile as one argument.
pub proof fn law_action_opens_its_profile(number: nat, name: Seq<char>, executable: Seq<char>)
    ensures
        has_part(action_group(number, name, executable), "Exec="@ + executable
            + " --new-window --profile "@ + exec_argument(name)),
        has_part(action_group(number, name, executable), "Name="@ + escaped(name)),
        has_part(action_group(number, name, executable), "[Desktop Action profile-"@ + decimal_text(
            number,
        ) + "]"@),
        unquoted(exec_argument(name)) == name,
{
    reveal_strlit("\n\n[Desktop Action profile-");
    reveal_strlit("[Desktop Action profile-");
    reveal_strlit("]\nName=");
    reveal_strlit("]");
    reveal_strlit("Name=");
    reveal_strlit("\nExec=");
    reveal_strlit("Exec=");
    crate::linux_desktop::law_arguments_read_back(name);
    let group = action_group(number, name, executable);
    let digits = decimal_text(number);
    let command = "Exec="@ + executable + " --new-window --profile "@ + exec_argument(name);
    let at = group.len() - command.len();
    assert(group.subrange(at, at + command.len()) =~= command);
    let header = "[Desktop Action profile-"@ + digits + "]"@;
    assert(group.subrange(2, 2int + header.len()) =~= header);
    let title = "Name="@ + escaped(name);
    let start = ("\n\n[Desktop Action profile-"@ + digits).len() + 2;
    assert(group.subrange(start as int, start as int + title.len()) =~= title);
}

/// A text in an entry has no line break, tab or carriage return of its own, and what
/// stands for them is a backslash and a letter.
pub proof fn law_escaped_text_stays_on_its_line(text: Seq<char>)
    ensures
        !escaped(text).contains('\n'),
        !escaped(text).contains('\r'),
        !escaped(text).contains('\t'),
        escaped(seq!['\n']) == seq!['\\', 'n'],
        escaped(seq!['\t']) == seq!['\\', 't'],
        escaped(seq!['\r']) == seq!['\\', 'r'],
        escaped(seq![';']) == seq!['\\', ';'],
        escaped(seq!['\\']) == seq!['\\', '\\'],
    decreases text.len(),
{
    reveal_with_fuel(escaped, 2);
    assert(seq!['\n'].drop_first() =~= Seq::<char>::empty());
    assert(seq!['\t'].drop_first() =~= Seq::<char>::empty());
    assert(seq!['\r'].drop_first() =~= Seq::<char>::empty());
    assert(seq![';'].drop_first() =~= Seq::<char>::empty());
    assert(seq!['\\'].drop_first() =~= Seq::<char>::empty());
    assert(escaped(seq!['\n']) =~= seq!['\\', 'n']);
    assert(escaped(seq!['\t']) =~= seq!['\\', 't']);
    assert(escaped(seq!['\r']) =~= seq!['\\', 'r']);
    assert(escaped(seq![';']) =~= seq!['\\', ';']);
    assert(escaped(seq!['\\']) =~= seq!['\\', '\\']);
    if text.len() > 0 {
        law_escaped_text_stays_on_its_line(text.drop_first());
        let first = crate::linux_desktop::escaped_character(text.first());
        let rest = escaped(text.drop_first());
        assert(escaped(text) == first + rest);
        assert forall|i: int| 0 <= i < escaped(text).len() implies escaped(text)[i] != '\n'
            && escaped(text)[i] != '\r' && escaped(text)[i] != '\t' by {
            if i < first.len() {
                assert(escaped(text)[i] == first[i]);
            } else {
                assert(escaped(text)[i] == rest[i - first.len()]);
                assert(rest.contains(rest[i - first.len()]));
            }
        }
    }
}

/// An argument stands between quotes where it is empty or has a character that means
/// something to a shell, and as it is otherwise.
pub proof fn law_special_arguments_are_quoted(argument: Seq<char>, character: char)
    ensures
        argument.len() == 0 ==> exec_argument(argument) == seq!['"', '"'],
        argument.contains(character) && (character == ' ' || character == '"' || character == '\\'
            || character == '$' || character == '`' || character == '%' || character == ';'
            || character == '&' || character == '|' || character == '<' || character == '>')
            ==> exec_argument(argument).len() > 1 && exec_argument(argument)[0] == '"'
            && exec_argument(argument).last() == '"',
        (forall|i: int|
            0 <= i < argument.len() ==> 'a' <= #[trigger] argument[i] <= 'z' || argument[i] == '/'
                || argument[i] == '-' || argument[i] == '.') && argument.len() > 0 ==> exec_argument(
            argument,
        ) == argument,
{
    reveal_strlit(" \t\n\"'\\<>~|&;$*?#()`");
    let special = " \t\n\"'\\<>~|&;$*?#()`"@;
    assert(special[0] == ' ' && special[3] == '"' && special[5] == '\\' && special[6] == '<');
    assert(special[7] == '>' && special[9] == '|' && special[10] == '&' && special[11] == ';');
    assert(special[12] == '$' && special[18] == '`');
    if argument.len() == 0 {
        assert(exec_argument(argument) =~= seq!['"', '"']);
    }
    if argument.contains(character) && (character == ' ' || character == '"' || character == '\\'
        || character == '$' || character == '`' || character == '%' || character == ';' || character
        == '&' || character == '|' || character == '<' || character == '>') {
        let i = choose|i: int| 0 <= i < argument.len() && argument[i] == character;
        assert(special.contains(character) || character == '%');
        assert(needs_quotes(argument[i]));
        assert(!stands_alone(argument));
    }
}

/// The number of a list of names starts from the same number each time, and each name
/// changes it byte by byte, with a mark behind it.
pub proof fn law_number_of_names_is_made_name_by_name(names: Seq<Seq<char>>, name: Seq<char>)
    ensures
        generation_of(Seq::empty()) == 0xcbf29ce484222325u64,
        generation_of(names.push(name)) == mixed(
            mixed_all(generation_of(names), encode_utf8(name)),
            0xff,
        ),
{
    assert(names.push(name).drop_last() =~= names);
}

/// The main command is the program's, with the number of the profiles that are shown.
pub proof fn law_main_command_is_the_programs(executable: Seq<char>, generation: u64)
    ensures
        has_prefix(main_exec(executable, generation), "Exec="@ + executable
            + " --zetta-profile-actions-generation "@ + decimal_text(generation as nat)),
        main_exec(executable, generation).last() == '\n',
{
    reveal_strlit("\n");
    let line = "Exec="@ + executable + " --zetta-profile-actions-generation "@ + decimal_text(
        generation as nat,
    );
    assert(main_exec(executable, generation).take(line.len() as int) =~= line);
}

/// What is put in the place of a block leaves the text before the block and behind it as
/// it was.
pub proof fn law_text_around_a_block_stays(
    contents: Seq<char>,
    begin: Seq<char>,
    end: Seq<char>,
    replacement: Seq<char>,
)
    ensures
        with_block(contents, begin, end, replacement) matches Some(after) ==> {
            let (first, _) = marker_line(contents, begin)->0;
            let (_, last) = marker_line(contents, end)->0;
            &&& marker_line(contents, begin) is Some && marker_line(contents, end) is Some
            &&& after == contents.take(first) + replacement + "\n"@ + contents.skip(last)
        },
        marker_line(contents, begin) is None ==> with_block(contents, begin, end, replacement)
            is None,
        marker_line(contents, end) is None ==> with_block(contents, begin, end, replacement)
            is None,
{
}

/// A line stands in the text where it is said to begin, and the next begins behind its
/// break.
pub proof fn law_lines_stand_where_they_begin(text: Seq<char>, index: int)
    requires
        0 <= index < pieces(text, '\n').len(),
    ensures
        ({
            let parts = pieces(text, '\n');
            let start = line_start(parts, index);
            &&& 0 <= start <= text.len()
            &&& index == 0 ==> start == 0
            &&& index > 0 ==> start == line_start(parts, index - 1) + parts[index - 1].len() + 1
            &&& index + 1 < parts.len() ==> line_end(parts, index) == start + parts[index].len() + 1
            &&& index + 1 == parts.len() ==> line_end(parts, index) == start + parts[index].len()
        }),
{
    lemma_cut_before_line(text, index);
}

} // verus!
