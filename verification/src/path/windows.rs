//! Paths as Windows reads them: with a drive or a share before their parts, and
//! `\` or `/` between these.

use vstd::prelude::*;

use crate::path::{
    naming_parts, path_segments, resolve_parts, resolved, segments, split_names,
};
use crate::project::paths::{replace_backslashes, same_texts, with_slashes};
use crate::text::{
    chained, characters, has_prefix, join_texts, lemma_one_piece, lemma_pieces_nonempty,
    lemma_pieces_of_two, lowered, pieces, same_text, starts_with, text_between, texts,
    to_ascii_lowercase,
};

verus! {

/// What a path begins with.
#[derive(Clone, Copy, Debug, PartialEq, Eq, Structural)]
pub enum PrefixKind {
    Absent,
    /// A drive: `C:`.
    Drive,
    /// A share or a device: `\\server\share`, `\\.\device`.
    Share,
    /// A drive that is taken as it is: `\\?\C:`.
    VerbatimDrive,
    /// Anything else that is taken as it is: `\\?\name`, `\\?\UNC\server\share`.
    Verbatim,
}

impl PrefixKind {
    /// Whether the path is taken as it is, with `\` alone between its parts.
    pub open spec fn is_verbatim(self) -> bool {
        self == PrefixKind::VerbatimDrive || self == PrefixKind::Verbatim
    }

    /// Whether the path is taken as it is.
    pub fn verbatim(self) -> (result: bool)
        ensures
            result == self.is_verbatim(),
    {
        self == PrefixKind::VerbatimDrive || self == PrefixKind::Verbatim
    }
}

/// Whether a character stands between parts.
pub open spec fn is_separator(character: char, verbatim: bool) -> bool {
    character == '\\' || (!verbatim && character == '/')
}

/// Where the part ends that begins at a place.
pub open spec fn part_end(path: Seq<char>, from: int, verbatim: bool) -> int
    decreases path.len() - from,
{
    if from < 0 || from >= path.len() || is_separator(path[from], verbatim) {
        from
    } else {
        part_end(path, from + 1, verbatim)
    }
}

fn find_part_end(path: &Vec<char>, from: usize, verbatim: bool) -> (result: usize)
    requires
        from <= path@.len(),
    ensures
        result == part_end(path@, from as int, verbatim),
        from <= result <= path@.len(),
{
    let mut end = from;
    while end < path.len() && !(path[end] == '\\' || (!verbatim && path[end] == '/'))
        invariant
            from <= end <= path@.len(),
            part_end(path@, from as int, verbatim) == part_end(path@, end as int, verbatim),
        decreases path@.len() - end,
    {
        end = end + 1;
    }
    end
}

/// Where the second of two parts ends, the first of which begins at a place; the
/// end of the first, where the second is empty.
pub open spec fn second_part_end(path: Seq<char>, from: int, verbatim: bool) -> int {
    let server = part_end(path, from, verbatim);
    if server < path.len() && part_end(path, server + 1, verbatim) > server + 1 {
        part_end(path, server + 1, verbatim)
    } else {
        server
    }
}

fn find_second_part_end(path: &Vec<char>, from: usize, verbatim: bool) -> (result: (usize, usize))
    requires
        from <= path@.len(),
    ensures
        result.0 == part_end(path@, from as int, verbatim),
        result.1 == second_part_end(path@, from as int, verbatim),
        from <= result.0 <= result.1 <= path@.len(),
{
    let server = find_part_end(path, from, verbatim);
    if server < path.len() {
        let share = find_part_end(path, server + 1, verbatim);
        if share > server + 1 {
            return (server, share);
        }
    }
    (server, server)
}

/// Whether a drive is named at a place.
pub open spec fn is_drive_at(path: Seq<char>, at: int) -> bool {
    &&& at + 1 < path.len()
    &&& 'a' <= path[at] <= 'z' || 'A' <= path[at] <= 'Z'
    &&& path[at + 1] == ':'
}

fn names_drive(path: &Vec<char>, at: usize) -> (result: bool)
    requires
        at < usize::MAX,
    ensures
        result == is_drive_at(path@, at as int),
{
    at + 1 < path.len() && (('a' <= path[at] && path[at] <= 'z') || ('A' <= path[at] && path[at]
        <= 'Z')) && path[at + 1] == ':'
}

/// What a path begins with, and how long that is.
pub open spec fn prefix_of(path: Seq<char>) -> (PrefixKind, int) {
    if has_prefix(path, r"\\?\UNC\"@) {
        (PrefixKind::Verbatim, second_part_end(path, 8, true))
    } else if has_prefix(path, r"\\?\"@) {
        if is_drive_at(path, 4) && (path.len() == 6 || path[6] == '\\') {
            (PrefixKind::VerbatimDrive, 6)
        } else {
            (PrefixKind::Verbatim, part_end(path, 4, true))
        }
    } else if path.len() > 1 && is_separator(path[0], false) && is_separator(path[1], false) {
        if path.len() > 3 && path[2] == '.' && is_separator(path[3], false) {
            (PrefixKind::Share, part_end(path, 4, false))
        } else if part_end(path, 2, false) > 2 && second_part_end(path, 2, false) > part_end(
            path,
            2,
            false,
        ) {
            (PrefixKind::Share, second_part_end(path, 2, false))
        } else {
            (PrefixKind::Absent, 0)
        }
    } else if is_drive_at(path, 0) {
        (PrefixKind::Drive, 2)
    } else {
        (PrefixKind::Absent, 0)
    }
}

fn separates(character: char) -> (result: bool)
    ensures
        result == is_separator(character, false),
{
    character == '\\' || character == '/'
}

/// What a path begins with, and how long that is.
pub fn find_prefix(path: &str) -> (result: (PrefixKind, usize))
    ensures
        (result.0, result.1 as int) == prefix_of(path@),
        result.1 <= path@.len(),
{
    let content = characters(path);
    proof {
        reveal_strlit(r"\\?\UNC\");
        reveal_strlit(r"\\?\");
    }
    if starts_with(path, r"\\?\UNC\") {
        let (_, end) = find_second_part_end(&content, 8, true);
        return (PrefixKind::Verbatim, end);
    }
    if starts_with(path, r"\\?\") {
        if names_drive(&content, 4) && (content.len() == 6 || content[6] == '\\') {
            return (PrefixKind::VerbatimDrive, 6);
        }
        return (PrefixKind::Verbatim, find_part_end(&content, 4, true));
    }
    if content.len() > 1 && separates(content[0]) && separates(content[1]) {
        if content.len() > 3 && content[2] == '.' && separates(content[3]) {
            return (PrefixKind::Share, find_part_end(&content, 4, false));
        }
        let (server, share) = find_second_part_end(&content, 2, false);
        if server > 2 && share > server {
            return (PrefixKind::Share, share);
        }
        return (PrefixKind::Absent, 0);
    }
    if names_drive(&content, 0) {
        return (PrefixKind::Drive, 2);
    }
    (PrefixKind::Absent, 0)
}

/// Whether a path starts at the root of what it begins with.
pub open spec fn is_rooted(path: Seq<char>) -> bool {
    let (kind, length) = prefix_of(path);
    ||| kind == PrefixKind::Share
    ||| 0 <= length < path.len() && is_separator(path[length], kind.is_verbatim())
}

/// The parts of a path behind what it begins with, without empty ones and
/// single dots.
pub open spec fn windows_parts(path: Seq<char>) -> Seq<Seq<char>> {
    let (kind, length) = prefix_of(path);
    if kind.is_verbatim() {
        naming_parts(pieces(path.skip(length), '\\'))
    } else {
        segments(with_slashes(path.skip(length)))
    }
}

/// A path, taken apart.
pub struct WindowsPath {
    pub kind: PrefixKind,
    pub prefix: String,
    pub rooted: bool,
    pub parts: Vec<String>,
}

/// Takes a path apart.
pub fn take_apart(path: &str) -> (result: WindowsPath)
    ensures
        result.kind == prefix_of(path@).0,
        result.prefix@ == path@.take(prefix_of(path@).1),
        result.rooted == is_rooted(path@),
        texts(result.parts@) == windows_parts(path@),
{
    let (kind, length) = find_prefix(path);
    let content = characters(path);
    let prefix = text_between(&content, 0, length);
    let rest = text_between(&content, length, content.len());
    proof {
        assert(path@.take(length as int) =~= content@.subrange(0, length as int));
        assert(path@.skip(length as int) =~= content@.subrange(
            length as int,
            content@.len() as int,
        ));
    }
    let rooted = kind == PrefixKind::Share || (length < content.len() && (content[length] == '\\'
        || (!kind.verbatim() && content[length] == '/')));
    let parts = if kind.verbatim() {
        split_names(rest.as_str(), '\\')
    } else {
        path_segments(replace_backslashes(rest.as_str()).as_str())
    };
    WindowsPath { kind, prefix, rooted, parts }
}

/// A path of what it begins with and its parts.
pub open spec fn put_together(
    prefix: Seq<char>,
    kind: PrefixKind,
    rooted: bool,
    parts: Seq<Seq<char>>,
) -> Seq<char> {
    let joins = rooted || (parts.len() > 0 && kind != PrefixKind::Absent && kind
        != PrefixKind::Drive);
    if joins {
        prefix + r"\"@ + chained(parts, r"\"@)
    } else {
        prefix + chained(parts, r"\"@)
    }
}

fn assemble(prefix: &str, kind: PrefixKind, rooted: bool, parts: &Vec<String>) -> (result: String)
    ensures
        result@ == put_together(prefix@, kind, rooted, texts(parts@)),
{
    proof {
        assert(texts(parts@).len() == parts@.len());
    }
    let mut result = prefix.to_owned();
    if rooted || (parts.len() > 0 && kind != PrefixKind::Absent && kind != PrefixKind::Drive) {
        result.push_str(r"\");
    }
    result.push_str(join_texts(parts, r"\").as_str());
    result
}

/// `relative` below `base`. One with a drive or a share stands for itself, and
/// one that starts at a root keeps what `base` begins with. Where `base` is
/// taken as it is, the dots of `relative` are resolved by name.
pub open spec fn windows_below(base: Seq<char>, relative: Seq<char>) -> Seq<char> {
    let (kind, length) = prefix_of(base);
    if prefix_of(relative).0 != PrefixKind::Absent {
        relative
    } else if kind.is_verbatim() && relative.len() > 0 {
        let parts = if is_rooted(relative) {
            windows_parts(relative)
        } else {
            windows_parts(base) + windows_parts(relative)
        };
        put_together(
            base.take(length),
            kind,
            is_rooted(base) || is_rooted(relative),
            resolved(parts),
        )
    } else if is_rooted(relative) {
        base.take(length) + relative
    } else if base.len() == 0 || is_separator(base.last(), false) || (kind == PrefixKind::Drive
        && base.len() == 2) {
        base + relative
    } else {
        base + r"\"@ + relative
    }
}

/// `relative` below `base`. See [`windows_below`].
pub fn windows_join(base: &str, relative: &str) -> (result: String)
    ensures
        result@ == windows_below(base@, relative@),
{
    let above = take_apart(base);
    let behind = take_apart(relative);
    if behind.kind != PrefixKind::Absent {
        return relative.to_owned();
    }
    if above.kind.verbatim() && !relative.is_empty() {
        let ghost start = texts(above.parts@);
        let ghost added = texts(behind.parts@);
        let mut parts = above.parts;
        if behind.rooted {
            parts = Vec::new();
            proof {
                assert(texts(parts@) =~= Seq::<Seq<char>>::empty());
            }
        }
        let ghost first = texts(parts@);
        let mut index: usize = 0;
        proof {
            assert(first + added.take(0) =~= first);
        }
        while index < behind.parts.len()
            invariant
                index <= behind.parts@.len(),
                added == texts(behind.parts@),
                texts(parts@) == first + added.take(index as int),
            decreases behind.parts@.len() - index,
        {
            let ghost before = parts@;
            parts.push(behind.parts[index].clone());
            proof {
                assert(texts(parts@) =~= texts(before).push(added[index as int]));
                assert(first + added.take(index + 1) =~= (first + added.take(index as int)).push(
                    added[index as int],
                ));
            }
            index = index + 1;
        }
        proof {
            assert(added.take(index as int) == added);
            if behind.rooted {
                assert(first + added =~= added);
            }
        }
        let kept = resolve_parts(&parts);
        return assemble(
            above.prefix.as_str(),
            above.kind,
            above.rooted || behind.rooted,
            &kept,
        );
    }
    if behind.rooted {
        let mut result = above.prefix;
        result.push_str(relative);
        return result;
    }
    let whole = characters(base);
    let mut result = base.to_owned();
    let joined = whole.len() == 0 || separates(whole[whole.len() - 1]) || (above.kind
        == PrefixKind::Drive && whole.len() == 2);
    if !joined {
        result.push_str(r"\");
    }
    result.push_str(relative);
    result
}

/// What identifies a path: its dots resolved by name, with `/` between its parts
/// and its ASCII letters in lower case.
pub open spec fn windows_identity(path: Seq<char>) -> Seq<char> {
    let (kind, length) = prefix_of(path);
    lowered(
        with_slashes(
            put_together(path.take(length), kind, is_rooted(path), resolved(windows_parts(path))),
        ),
    )
}

/// What identifies a path. See [`windows_identity`].
pub fn identify(path: &str) -> (result: String)
    ensures
        result@ == windows_identity(path@),
{
    let apart = take_apart(path);
    let kept = resolve_parts(&apart.parts);
    let whole = assemble(apart.prefix.as_str(), apart.kind, apart.rooted, &kept);
    to_ascii_lowercase(replace_backslashes(whole.as_str()).as_str())
}

/// What tells a path from others of another spelling: what it begins with, in
/// which the case of a drive does not count, whether it is rooted, and its parts.
pub open spec fn windows_spelling(path: Seq<char>) -> (PrefixKind, Seq<char>, bool, Seq<Seq<char>>) {
    let (kind, length) = prefix_of(path);
    let prefix = path.take(length);
    (
        kind,
        match kind {
            PrefixKind::Drive | PrefixKind::VerbatimDrive => lowered(prefix),
            PrefixKind::Share => with_slashes(prefix),
            _ => prefix,
        },
        is_rooted(path),
        windows_parts(path),
    )
}

fn spelled_prefix(kind: PrefixKind, prefix: &str) -> (result: String)
    ensures
        result@ == match kind {
            PrefixKind::Drive | PrefixKind::VerbatimDrive => lowered(prefix@),
            PrefixKind::Share => with_slashes(prefix@),
            _ => prefix@,
        },
{
    match kind {
        PrefixKind::Drive | PrefixKind::VerbatimDrive => to_ascii_lowercase(prefix),
        PrefixKind::Share => replace_backslashes(prefix),
        _ => prefix.to_owned(),
    }
}

/// Whether two paths are spelled alike. See [`windows_spelling`].
pub fn spelled_alike(left: &str, right: &str) -> (result: bool)
    ensures
        result == (windows_spelling(left@) == windows_spelling(right@)),
{
    let first = take_apart(left);
    let second = take_apart(right);
    let one = spelled_prefix(first.kind, first.prefix.as_str());
    let other = spelled_prefix(second.kind, second.prefix.as_str());
    first.kind == second.kind && first.rooted == second.rooted && same_text(
        one.as_str(),
        other.as_str(),
    ) && same_texts(&first.parts, &second.parts)
}

proof fn lemma_part_end(path: Seq<char>, from: int, verbatim: bool)
    requires
        0 <= from <= path.len(),
    ensures
        from <= part_end(path, from, verbatim) <= path.len(),
    decreases path.len() - from,
{
    if from < path.len() && !is_separator(path[from], verbatim) {
        lemma_part_end(path, from + 1, verbatim);
    }
}

/// What a path begins with lies within it.
pub proof fn lemma_prefix_within(path: Seq<char>)
    ensures
        0 <= prefix_of(path).1 <= path.len(),
{
    reveal_strlit(r"\\?\UNC\");
    reveal_strlit(r"\\?\");
    assert forall|from: int, verbatim: bool| 0 <= from <= path.len() implies from
        <= #[trigger] part_end(path, from, verbatim) <= path.len() by {
        lemma_part_end(path, from, verbatim);
    }
}

/// Whether a text can be the last part of a path: it names something, and
/// neither begins as a drive does nor has a separator in it.
pub open spec fn is_plain_name(name: Seq<char>) -> bool {
    &&& name.len() > 0
    &&& name != "."@
    &&& name != ".."@
    &&& !name.contains('/')
    &&& !name.contains('\\')
    &&& !is_drive_at(name, 0)
}

proof fn lemma_plain_name(name: Seq<char>)
    requires
        is_plain_name(name),
    ensures
        prefix_of(name) == (PrefixKind::Absent, 0int),
        !is_rooted(name),
        windows_parts(name) == seq![name],
        with_slashes(name) == name,
{
    reveal_strlit(r"\\?\UNC\");
    reveal_strlit(r"\\?\");
    assert(name.contains(name[0]));
    if has_prefix(name, r"\\?\UNC\"@) {
        assert(name.take(8)[0] == '\\');
    }
    if has_prefix(name, r"\\?\"@) {
        assert(name.take(4)[0] == '\\');
    }
    assert forall|i: int| 0 <= i < name.len() implies name[i] != '\\' by {
        assert(name.contains(name[i]));
    }
    assert(with_slashes(name) =~= name);
    assert(name.skip(0) =~= name);
    lemma_last_name(name, Seq::empty(), name, '/', false);
    lemma_one_piece(name, '/');
    assert(naming_parts(seq![name].drop_last()) =~= Seq::<Seq<char>>::empty());
    assert(naming_parts(seq![name]) =~= seq![name]);
}

/// What stands behind the last separator is the last part.
proof fn lemma_last_name(
    text: Seq<char>,
    above: Seq<char>,
    name: Seq<char>,
    separator: char,
    separated: bool,
)
    requires
        name.len() > 0,
        name != "."@,
        !name.contains(separator),
        separated ==> text == above.push(separator) + name,
        !separated ==> text == name,
    ensures
        naming_parts(pieces(text, separator)).len() > 0,
        naming_parts(pieces(text, separator)).last() == name,
{
    lemma_one_piece(name, separator);
    if separated {
        lemma_pieces_of_two(above, name, separator);
    }
    assert(pieces(text, separator).last() == name);
    lemma_pieces_nonempty(text, separator);
}

/// The name of what a path below a directory leads to, unless it became part of
/// what the path begins with.
pub proof fn lemma_name_below(directory: Seq<char>, name: Seq<char>)
    requires
        is_plain_name(name),
        prefix_of(windows_below(directory, name)) == prefix_of(directory),
    ensures
        windows_parts(windows_below(directory, name)).len() > 0,
        windows_parts(windows_below(directory, name)).last() == name,
{
    let path = windows_below(directory, name);
    let (kind, length) = prefix_of(directory);
    let rest = path.skip(length);
    reveal_strlit(r"\");
    assert(r"\"@ =~= seq!['\\']);
    lemma_plain_name(name);
    lemma_prefix_within(directory);
    if kind.is_verbatim() {
        let parts = windows_parts(directory) + seq![name];
        assert(parts.drop_last() =~= windows_parts(directory));
        let before = resolved(windows_parts(directory));
        let kept = resolved(parts);
        assert(kept == before.push(name));
        assert(kept.drop_last() =~= before);
        let prefix = directory.take(length);
        if before.len() == 0 {
            assert(chained(kept, r"\"@) == name);
            assert(rest =~= Seq::<char>::empty().push('\\') + name);
            lemma_last_name(rest, Seq::empty(), name, '\\', true);
        } else {
            let above = seq!['\\'] + chained(before, r"\"@);
            assert(rest =~= above.push('\\') + name);
            lemma_last_name(rest, above, name, '\\', true);
        }
    } else {
        let head = directory.skip(length);
        let text = with_slashes(rest);
        if directory.len() == 0 || is_separator(directory.last(), false) || (kind
            == PrefixKind::Drive && directory.len() == 2) {
            assert(rest =~= head + name);
            assert(text =~= with_slashes(head) + with_slashes(name));
            if head.len() == 0 {
                assert(text =~= name);
                lemma_last_name(text, Seq::empty(), name, '/', false);
            } else {
                let above = with_slashes(head).drop_last();
                assert(head.last() == directory.last());
                assert(with_slashes(head) =~= above.push('/'));
                lemma_last_name(text, above, name, '/', true);
            }
        } else {
            assert(rest =~= head.push('\\') + name);
            assert(text =~= with_slashes(head).push('/') + with_slashes(name));
            lemma_last_name(text, with_slashes(head), name, '/', true);
        }
    }
}

} // verus!
