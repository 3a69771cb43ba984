//! What holds of paths as they are joined and taken apart.

use vstd::prelude::*;

use crate::path::{below, last_dot, name_of, naming_parts, resolved, segments, stem_and_extension};
use crate::path::windows::{
    is_rooted, is_separator, part_end, prefix_of, put_together, windows_below, windows_identity,
    windows_parts, windows_spelling, PrefixKind,
};
use crate::project::paths::with_slashes;
use crate::text::{
    chained, has_prefix, has_suffix, lemma_one_piece, lemma_pieces_of_two, lower_character, lowered,
    pieces,
};

verus! {

/// The parts of a list that name something are those of its beginning and then those
/// of its end.
proof fn lemma_naming_parts_of_two(left: Seq<Seq<char>>, right: Seq<Seq<char>>)
    ensures
        naming_parts(left + right) == naming_parts(left) + naming_parts(right),
    decreases right.len(),
{
    if right.len() == 0 {
        assert(left + right =~= left);
        assert(naming_parts(left) + naming_parts(right) =~= naming_parts(left));
    } else {
        let whole = left + right;
        assert(whole.last() == right.last());
        assert(whole.drop_last() =~= left + right.drop_last());
        lemma_naming_parts_of_two(left, right.drop_last());
        assert(naming_parts(whole) =~= naming_parts(left) + naming_parts(right));
    }
}

/// A path that is joined to a directory leads through the directory's names and then
/// through its own; one that begins at the root leads through its own alone.
pub proof fn law_joined_path_leads_through_both(base: Seq<char>, relative: Seq<char>)
    ensures
        relative.len() > 0 && relative[0] == '/' ==> below(base, relative, false) == relative,
        (relative.len() == 0 || relative[0] != '/') && base.len() > 0 ==> segments(
            below(base, relative, false),
        ) == segments(base) + segments(relative),
        (relative.len() == 0 || relative[0] != '/') ==> has_prefix(
            below(base, relative, false),
            base,
        ) && has_suffix(below(base, relative, false), relative),
        below(Seq::empty(), relative, false) == relative,
{
    if relative.len() > 0 {
        assert(relative.first() == relative[0]);
    }
    assert(Seq::<char>::empty() + relative =~= relative);
    if relative.len() == 0 || relative[0] != '/' {
        let joined = below(base, relative, false);
        assert(joined.take(base.len() as int) =~= base);
        assert(joined.skip(joined.len() - relative.len()) =~= relative);
        if base.len() > 0 {
            if base.last() == '/' {
                let shorter = base.drop_last();
                assert(base =~= shorter.push('/'));
                lemma_pieces_of_two(shorter, relative, '/');
                lemma_pieces_of_two(shorter, Seq::empty(), '/');
                assert(shorter.push('/') + Seq::empty() =~= base);
                lemma_one_piece(Seq::empty(), '/');
                let nothing = seq![Seq::<char>::empty()];
                lemma_naming_parts_of_two(pieces(shorter, '/'), nothing);
                assert(nothing.drop_last() =~= Seq::<Seq<char>>::empty());
                assert(naming_parts(nothing) =~= Seq::<Seq<char>>::empty()) by {
                    reveal_with_fuel(naming_parts, 2);
                }
                assert(segments(base) =~= naming_parts(pieces(shorter, '/')));
                lemma_naming_parts_of_two(pieces(shorter, '/'), pieces(relative, '/'));
            } else {
                lemma_pieces_of_two(base, relative, '/');
                lemma_naming_parts_of_two(pieces(base, '/'), pieces(relative, '/'));
            }
        }
    }
}

/// A name that is joined to a directory is the name of what the path leads to.
pub proof fn law_joined_name_is_the_last(base: Seq<char>, name: Seq<char>)
    requires
        base.len() > 0,
        name.len() > 0,
        name != "."@,
        name != ".."@,
        !name.contains('/'),
    ensures
        name_of(below(base, name, false), false) == Some(name),
{
    assert(name.contains(name[0]));
    law_joined_path_leads_through_both(base, name);
    lemma_one_piece(name, '/');
    let one = seq![name];
    assert(one.drop_last() =~= Seq::<Seq<char>>::empty());
    reveal_with_fuel(naming_parts, 2);
    assert(segments(name) =~= seq![name]);
    assert((segments(base) + seq![name]).last() == name);
}

/// The parts that name something are neither empty nor the directory itself, and no
/// part that names something is lost.
pub proof fn law_naming_parts_name_something(parts: Seq<Seq<char>>, part: Seq<char>)
    ensures
        naming_parts(parts).contains(part) == (parts.contains(part) && part.len() > 0 && part
            != "."@),
        naming_parts(parts).len() <= parts.len(),
    decreases parts.len(),
{
    if parts.len() > 0 {
        let shorter = parts.drop_last();
        let last = parts.last();
        law_naming_parts_name_something(shorter, part);
        assert(parts =~= shorter.push(last));
        lemma_list_pushed(shorter, last, part);
        lemma_list_pushed(naming_parts(shorter), last, part);
    }
}

proof fn lemma_list_pushed(list: Seq<Seq<char>>, last: Seq<char>, part: Seq<char>)
    ensures
        list.push(last).contains(part) == (list.contains(part) || part == last),
{
    let longer = list.push(last);
    assert(longer[list.len() as int] == last);
    if list.contains(part) {
        let i = choose|i: int| 0 <= i < list.len() && list[i] == part;
        assert(longer[i] == part);
    }
    if longer.contains(part) {
        let i = choose|i: int| 0 <= i < longer.len() && longer[i] == part;
        if i < list.len() {
            assert(list[i] == part);
        }
    }
}

/// Going into a directory and back out leads nowhere else, names without `..` stay as
/// they are, none is above the root, and no `..` is left.
pub proof fn law_going_back_undoes_going_in(parts: Seq<Seq<char>>, name: Seq<char>)
    requires
        name != ".."@,
    ensures
        resolved(parts.push(name)) == resolved(parts).push(name),
        resolved(parts.push(name).push(".."@)) == resolved(parts),
        resolved(seq![".."@]) == Seq::<Seq<char>>::empty(),
        !parts.contains(".."@) ==> resolved(parts) == parts,
        !resolved(parts).contains(".."@),
    decreases parts.len(),
{
    assert(parts.push(name).drop_last() =~= parts);
    let further = parts.push(name);
    assert(further.push(".."@).drop_last() =~= further);
    assert(resolved(parts).push(name).drop_last() =~= resolved(parts));
    assert(seq![".."@].drop_last() =~= Seq::<Seq<char>>::empty());
    reveal_with_fuel(resolved, 2);
    if parts.len() > 0 {
        let shorter = parts.drop_last();
        law_going_back_undoes_going_in(shorter, name);
        assert(parts =~= shorter.push(parts.last()));
        lemma_list_pushed(shorter, parts.last(), ".."@);
        lemma_list_pushed(resolved(shorter), parts.last(), ".."@);
        if !parts.contains(".."@) {
            assert(parts.last() != ".."@) by {
                assert(parts[parts.len() - 1] == parts.last());
            }
            assert(resolved(parts) =~= parts);
        }
        if parts.last() == ".."@ && resolved(shorter).len() > 0 {
            let before = resolved(shorter);
            assert forall|i: int| 0 <= i < before.drop_last().len() implies before.drop_last()[i]
                != ".."@ by {
                assert(before.drop_last()[i] == before[i]);
                assert(before.contains(before[i]));
            }
        }
    } else {
        assert(parts =~= Seq::<Seq<char>>::empty());
    }
}

/// A name is its stem, a dot and its extension; the extension has no dot, and where a
/// name has no dot but at its start there is none.
pub proof fn law_stem_and_extension_make_the_name(name: Seq<char>)
    ensures
        match stem_and_extension(name) {
            (stem, Some(extension)) => name == stem + seq!['.'] + extension && stem.len() > 0
                && !extension.contains('.'),
            (stem, None) => stem == name && forall|i: int|
                0 < i < name.len() ==> #[trigger] name[i] != '.',
        },
{
    lemma_last_dot(name);
    if let Some(dot) = last_dot(name) {
        let extension = name.skip(dot + 1);
        assert forall|i: int| 0 <= i < extension.len() implies extension[i] != '.' by {
            assert(extension[i] == name[dot + 1 + i]);
        }
        assert(name =~= name.take(dot) + seq!['.'] + extension);
    }
}

proof fn lemma_last_dot(name: Seq<char>)
    ensures
        match last_dot(name) {
            Some(dot) => 0 <= dot < name.len() && name[dot] == '.' && forall|i: int|
                dot < i < name.len() ==> #[trigger] name[i] != '.',
            None => forall|i: int| 0 <= i < name.len() ==> #[trigger] name[i] != '.',
        },
    decreases name.len(),
{
    if name.len() > 0 && name.last() != '.' {
        let shorter = name.drop_last();
        lemma_last_dot(shorter);
        assert forall|i: int| 0 <= i < shorter.len() implies #[trigger] name[i] == shorter[i] by {}
        if let Some(dot) = last_dot(shorter) {
            assert(name[dot] == shorter[dot]);
        }
    }
}

/// On Windows a path with a prefix of its own replaces the directory it is joined to,
/// one that begins at the root keeps the directory's prefix alone, and any other is
/// put behind the directory with one separator between.
pub proof fn law_windows_path_is_joined(base: Seq<char>, relative: Seq<char>)
    requires
        !prefix_of(base).0.is_verbatim(),
    ensures
        prefix_of(relative).0 != PrefixKind::Absent ==> windows_below(base, relative) == relative,
        prefix_of(relative).0 == PrefixKind::Absent && is_rooted(relative) ==> windows_below(
            base,
            relative,
        ) == base.take(prefix_of(base).1) + relative,
        prefix_of(relative).0 == PrefixKind::Absent && !is_rooted(relative) ==> {
            let joined = windows_below(base, relative);
            &&& has_prefix(joined, base)
            &&& has_suffix(joined, relative)
            &&& joined.len() <= base.len() + 1 + relative.len()
            &&& joined.len() == base.len() + 1 + relative.len() ==> joined[base.len() as int]
                == '\\' && !is_separator(base.last(), false)
            &&& joined.len() == base.len() + relative.len() ==> base.len() == 0 || is_separator(
                base.last(),
                false,
            ) || base.last() == ':'
        },
{
    reveal_strlit(r"\");
    if prefix_of(relative).0 == PrefixKind::Absent && !is_rooted(relative) {
        let joined = windows_below(base, relative);
        assert(joined.take(base.len() as int) =~= base);
        assert(joined.skip(joined.len() - relative.len()) =~= relative);
    }
}

proof fn lemma_part_ends(path: Seq<char>, from: int, end: int, verbatim: bool)
    requires
        0 <= from <= end <= path.len(),
        forall|i: int| from <= i < end ==> !is_separator(#[trigger] path[i], verbatim),
        end < path.len() ==> is_separator(path[end], verbatim),
    ensures
        part_end(path, from, verbatim) == end,
    decreases end - from,
{
    if from < end {
        lemma_part_ends(path, from + 1, end, verbatim);
    }
}

/// A letter and a colon are a drive, also behind the mark of a verbatim path; a path on
/// a drive begins at the root where a separator follows.
pub proof fn law_drive_is_a_prefix(letter: char, rest: Seq<char>)
    requires
        'a' <= letter <= 'z' || 'A' <= letter <= 'Z',
    ensures
        prefix_of(seq![letter, ':'] + rest) == (PrefixKind::Drive, 2int),
        is_rooted(seq![letter, ':'] + rest) == (rest.len() > 0 && (rest[0] == '\\' || rest[0]
            == '/')),
        rest.len() == 0 || rest[0] == '\\' ==> prefix_of(
            seq!['\\', '\\', '?', '\\', letter, ':'] + rest,
        ) == (PrefixKind::VerbatimDrive, 6int),
{
    reveal_strlit(r"\\?\UNC\");
    reveal_strlit(r"\\?\");
    let path = seq![letter, ':'] + rest;
    assert(path[0] == letter && path[1] == ':');
    assert(path.len() > 2 ==> path[2] == rest[0]);
    assert(!has_prefix(path, r"\\?\UNC\"@)) by {
        if has_prefix(path, r"\\?\UNC\"@) {
            assert(path.take(8)[0] == path[0]);
        }
    }
    assert(!has_prefix(path, r"\\?\"@)) by {
        if has_prefix(path, r"\\?\"@) {
            assert(path.take(4)[0] == path[0]);
        }
    }
    let verbatim = seq!['\\', '\\', '?', '\\', letter, ':'] + rest;
    assert(verbatim.take(4) =~= r"\\?\"@);
    assert(verbatim[4] == letter && verbatim[5] == ':');
    assert(verbatim.len() > 6 ==> verbatim[6] == rest[0]);
    assert(!has_prefix(verbatim, r"\\?\UNC\"@)) by {
        if has_prefix(verbatim, r"\\?\UNC\"@) {
            assert(verbatim.take(8)[5] == verbatim[5]);
        }
    }
}

/// A server and its share are a prefix, and a path on a share begins at the root.
pub proof fn law_share_is_a_prefix(server: Seq<char>, share: Seq<char>, rest: Seq<char>)
    requires
        server.len() > 0,
        share.len() > 0,
        server != seq!['.'],
        server != seq!['?'],
        forall|i: int| 0 <= i < server.len() ==> !is_separator(#[trigger] server[i], false),
        forall|i: int| 0 <= i < share.len() ==> !is_separator(#[trigger] share[i], false),
        rest.len() > 0 ==> is_separator(rest[0], false),
    ensures
        ({
            let path = seq!['\\', '\\'] + server + seq!['\\'] + share + rest;
            &&& prefix_of(path) == (PrefixKind::Share, 3 + server.len() + share.len() as int)
            &&& is_rooted(path)
        }),
{
    reveal_strlit(r"\\?\UNC\");
    reveal_strlit(r"\\?\");
    let path = seq!['\\', '\\'] + server + seq!['\\'] + share + rest;
    let middle = 2 + server.len() as int;
    let end = middle + 1 + share.len();
    assert(path[0] == '\\' && path[1] == '\\' && path[middle] == '\\');
    assert forall|i: int| 2 <= i < middle implies !is_separator(#[trigger] path[i], false) by {
        assert(path[i] == server[i - 2]);
    }
    assert forall|i: int| middle + 1 <= i < end implies !is_separator(
        #[trigger] path[i],
        false,
    ) by {
        assert(path[i] == share[i - middle - 1]);
    }
    if rest.len() > 0 {
        assert(path[end] == rest[0]);
    }
    lemma_part_ends(path, 2, middle, false);
    lemma_part_ends(path, middle + 1, end, false);
    assert(path[2] == server[0]);
    if server.len() == 1 {
        assert(server =~= seq![server[0]]);
        assert(server[0] != '.' && server[0] != '?');
    } else {
        assert(path[3] == server[1]);
        assert(!is_separator(server[1], false));
    }
    assert(!has_prefix(path, r"\\?\UNC\"@)) by {
        if has_prefix(path, r"\\?\UNC\"@) {
            assert(path.take(8)[2] == path[2]);
            assert(path.take(8)[3] == path[3]);
        }
    }
    assert(!has_prefix(path, r"\\?\"@)) by {
        if has_prefix(path, r"\\?\"@) {
            assert(path.take(4)[2] == path[2]);
            assert(path.take(4)[3] == path[3]);
        }
    }
}

/// A path is put together from its prefix and its parts with one separator between each
/// two, and one before them where it begins at the root.
pub proof fn law_paths_are_put_together(prefix: Seq<char>, first: Seq<char>, second: Seq<char>)
    ensures
        put_together(prefix, PrefixKind::Drive, true, seq![first, second]) == prefix + seq!['\\']
            + first + seq!['\\'] + second,
        put_together(prefix, PrefixKind::Drive, false, seq![first, second]) == prefix + first + seq![
            '\\',
        ] + second,
        put_together(prefix, PrefixKind::Share, false, seq![first]) == prefix + seq!['\\'] + first,
        put_together(prefix, PrefixKind::Absent, false, seq![first]) == prefix + first,
{
    reveal_strlit(r"\");
    let parts = seq![first, second];
    assert(parts.drop_last() =~= seq![first]);
    reveal_with_fuel(chained, 3);
    assert(chained(parts, r"\"@) == first + r"\"@ + second);
    assert(chained(seq![first], r"\"@) == first);
    assert(put_together(prefix, PrefixKind::Drive, true, parts) =~= prefix + seq!['\\'] + first
        + seq!['\\'] + second);
    assert(put_together(prefix, PrefixKind::Drive, false, parts) =~= prefix + first + seq!['\\']
        + second);
    assert(put_together(prefix, PrefixKind::Share, false, seq![first]) =~= prefix + seq!['\\']
        + first);
    assert(put_together(prefix, PrefixKind::Absent, false, seq![first]) =~= prefix + first);
}

/// A path on a drive is the same whichever way the drive's letter is written.
pub proof fn law_drive_letters_are_the_same_in_any_case(letter: char, rest: Seq<char>)
    requires
        'A' <= letter <= 'Z',
    ensures
        windows_spelling(seq![letter, ':'] + rest) == windows_spelling(
            seq![lower_character(letter), ':'] + rest,
        ),
        windows_parts(seq![letter, ':'] + rest) == windows_parts(
            seq![lower_character(letter), ':'] + rest,
        ),
{
    let large = seq![letter, ':'] + rest;
    let small = seq![lower_character(letter), ':'] + rest;
    law_drive_is_a_prefix(letter, rest);
    law_drive_is_a_prefix(lower_character(letter), rest);
    assert(large.skip(2) =~= rest && small.skip(2) =~= rest);
    assert(lowered(large.take(2)) =~= lowered(small.take(2))) by {
        assert(large.take(2) =~= seq![letter, ':']);
        assert(small.take(2) =~= seq![lower_character(letter), ':']);
    }
    assert(windows_spelling(large).1 == lowered(large.take(2)));
    assert(windows_spelling(small).1 == lowered(small.take(2)));
}

/// What identifies a path has no capital letter and leans its slashes one way, and is the
/// same whichever way the drive's letter is written.
pub proof fn law_identity_ignores_case_and_leaning(path: Seq<char>, letter: char, rest: Seq<char>)
    requires
        'A' <= letter <= 'Z',
    ensures
        !windows_identity(path).contains('\\'),
        forall|i: int|
            0 <= i < windows_identity(path).len() ==> !('A' <= #[trigger] windows_identity(path)[i]
                <= 'Z'),
        windows_identity(seq![letter, ':'] + rest) == windows_identity(
            seq![lower_character(letter), ':'] + rest,
        ),
{
    let large = seq![letter, ':'] + rest;
    let small = seq![lower_character(letter), ':'] + rest;
    law_drive_letters_are_the_same_in_any_case(letter, rest);
    law_drive_is_a_prefix(letter, rest);
    law_drive_is_a_prefix(lower_character(letter), rest);
    let parts = resolved(windows_parts(large));
    let one = put_together(large.take(2), PrefixKind::Drive, is_rooted(large), parts);
    let two = put_together(small.take(2), PrefixKind::Drive, is_rooted(small), parts);
    assert(large.take(2) =~= seq![letter, ':']);
    assert(small.take(2) =~= seq![lower_character(letter), ':']);
    assert(one.len() == two.len());
    assert forall|i: int| 0 <= i < one.len() implies lower_character(#[trigger] one[i])
        == lower_character(two[i]) by {
        if i >= 2 {
            assert(one[i] == two[i]);
        }
    }
    assert(lowered(with_slashes(one)) =~= lowered(with_slashes(two))) by {
        assert forall|i: int| 0 <= i < one.len() implies #[trigger] lowered(with_slashes(one))[i]
            == lowered(with_slashes(two))[i] by {
            assert(lower_character(one[i]) == lower_character(two[i]));
        }
    }
}

} // verus!
