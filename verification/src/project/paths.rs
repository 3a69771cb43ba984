//! When two paths are the same, and when one lies within another.
//!
//! `windows` says whether the platform's own rules are those of Windows.

use vstd::prelude::*;

use crate::path::windows::{spelled_alike, windows_spelling};
use crate::path::{file_name, name_of, path_segments, segments};
use crate::text::{
    characters, has_prefix, joined, optional_text, pieces, same_text, split, starts_with,
    strip_prefix, text_between, texts, without_prefix,
};

verus! {

/// The text that `str::to_lowercase` gives.
pub uninterp spec fn lowercase_text(text: Seq<char>) -> Seq<char>;

/// `str::to_lowercase`: the lower case of a text, by Unicode's rules.
#[verifier::external_body]
pub(crate) fn lower_text(text: &str) -> (result: String)
    ensures
        result@ == lowercase_text(text@),
{
    text.to_lowercase()
}

/// The characters that `char::to_lowercase` gives.
pub uninterp spec fn lowercase_characters(character: char) -> Seq<char>;

/// `char::to_lowercase`: the lower case of one character, which may be several
/// characters, by Unicode's rules.
#[verifier::external_body]
fn lower_characters(character: char) -> (result: Vec<char>)
    ensures
        result@ == lowercase_characters(character),
{
    character.to_lowercase().collect()
}

/// A path without the marks of a verbatim one.
pub open spec fn without_verbatim(path: Seq<char>) -> Seq<char> {
    match without_prefix(path, r"\\?\UNC\"@) {
        Some(rest) => r"\\"@ + rest,
        None => match without_prefix(path, r"\\?\"@) {
            Some(rest) => rest,
            None => path,
        },
    }
}

fn strip_verbatim(path: &str) -> (result: String)
    ensures
        result@ == without_verbatim(path@),
{
    match strip_prefix(path, r"\\?\UNC\") {
        Some(rest) => joined(r"\\", rest.as_str()),
        None => match strip_prefix(path, r"\\?\") {
            Some(rest) => rest,
            None => path.to_owned(),
        },
    }
}

/// A text in which a slash stands for each backslash.
pub open spec fn with_slashes(path: Seq<char>) -> Seq<char> {
    path.map_values(
        |character: char|
            if character == '\\' {
                '/'
            } else {
                character
            },
    )
}

/// A text in which a slash stands for each backslash.
pub fn replace_backslashes(path: &str) -> (result: String)
    ensures
        result@ == with_slashes(path@),
{
    let content = characters(path);
    let mut text = String::new();
    let mut index: usize = 0;
    while index < content.len()
        invariant
            content@ == path@,
            index <= content@.len(),
            text@ == with_slashes(path@).take(index as int),
        decreases content@.len() - index,
    {
        let character = if content[index] == '\\' {
            '/'
        } else {
            content[index]
        };
        text.push(character);
        proof {
            assert(with_slashes(path@).take(index + 1) =~= with_slashes(path@).take(
                index as int,
            ).push(character));
        }
        index = index + 1;
    }
    proof {
        assert(with_slashes(path@).take(index as int) == with_slashes(path@));
    }
    text
}

/// A text without slashes at its end.
pub open spec fn without_end_slashes(path: Seq<char>) -> Seq<char>
    decreases path.len(),
{
    if path.len() > 0 && path.last() == '/' {
        without_end_slashes(path.drop_last())
    } else {
        path
    }
}

fn trim_end_slashes(path: &str) -> (result: String)
    ensures
        result@ == without_end_slashes(path@),
{
    let content = characters(path);
    let mut end: usize = content.len();
    proof {
        assert(content@.take(end as int) == path@);
    }
    while end > 0 && content[end - 1] == '/'
        invariant
            content@ == path@,
            end <= content@.len(),
            without_end_slashes(path@) == without_end_slashes(content@.take(end as int)),
        decreases end,
    {
        proof {
            assert(content@.take(end as int).last() == content@[end - 1]);
            assert(content@.take(end as int).drop_last() == content@.take(end - 1));
        }
        end = end - 1;
    }
    proof {
        if end > 0 {
            assert(content@.take(end as int).last() == content@[end - 1]);
        }
        assert(content@.subrange(0, end as int) == content@.take(end as int));
    }
    text_between(&content, 0, end)
}

/// The text by which paths are ordered, and compared on Windows.
pub open spec fn identity_of(path: Seq<char>, windows: bool) -> Seq<char> {
    if windows {
        lowercase_text(without_end_slashes(with_slashes(without_verbatim(path))))
    } else {
        without_end_slashes(with_slashes(path))
    }
}

/// The text by which paths are ordered, and compared on Windows.
pub fn path_identity(path: &str, windows: bool) -> (result: String)
    ensures
        result@ == identity_of(path@, windows),
{
    if windows {
        let plain = strip_verbatim(path);
        let slashed = replace_backslashes(plain.as_str());
        let trimmed_path = trim_end_slashes(slashed.as_str());
        lower_text(trimmed_path.as_str())
    } else {
        let slashed = replace_backslashes(path);
        trim_end_slashes(slashed.as_str())
    }
}

/// The lower case of each character, in their order.
pub open spec fn all_lowercase(text: Seq<char>) -> Seq<char>
    decreases text.len(),
{
    if text.len() == 0 {
        Seq::empty()
    } else {
        all_lowercase(text.drop_last()) + lowercase_characters(text.last())
    }
}

/// The characters that decide the identity of a path on Windows: the verbatim
/// prefix removed, separators unified, trailing separators dropped, and in
/// lower case.
pub open spec fn windows_characters(path: Seq<char>) -> Seq<char> {
    all_lowercase(verbatim_mark(path) + without_end_slashes(with_slashes(verbatim_rest(path))))
}

/// What stands for the mark of a verbatim network path.
pub open spec fn verbatim_mark(path: Seq<char>) -> Seq<char> {
    if has_prefix(path, r"\\?\UNC\"@) {
        "//"@
    } else {
        Seq::empty()
    }
}

/// What follows the marks of a verbatim path.
pub open spec fn verbatim_rest(path: Seq<char>) -> Seq<char> {
    match without_prefix(path, r"\\?\UNC\"@) {
        Some(rest) => rest,
        None => match without_prefix(path, r"\\?\"@) {
            Some(rest) => rest,
            None => path,
        },
    }
}

fn normalized_windows_chars(path: &str) -> (result: Vec<char>)
    ensures
        result@ == windows_characters(path@),
{
    let (mark, rest) = match strip_prefix(path, r"\\?\UNC\") {
        Some(rest) => ("//", rest),
        None => match strip_prefix(path, r"\\?\") {
            Some(rest) => ("", rest),
            None => ("", path.to_owned()),
        },
    };
    let slashed = replace_backslashes(rest.as_str());
    let trimmed_rest = trim_end_slashes(slashed.as_str());
    let whole = joined(mark, trimmed_rest.as_str());
    proof {
        reveal_strlit("");
        assert(mark@ == verbatim_mark(path@));
        assert(rest@ == verbatim_rest(path@));
    }
    let content = characters(whole.as_str());
    let mut result: Vec<char> = Vec::new();
    let mut index: usize = 0;
    proof {
        assert(content@.take(0) == Seq::<char>::empty());
    }
    while index < content.len()
        invariant
            content@ == whole@,
            index <= content@.len(),
            result@ == all_lowercase(content@.take(index as int)),
        decreases content@.len() - index,
    {
        proof {
            let longer = content@.take(index + 1);
            assert(longer.drop_last() == content@.take(index as int));
            assert(longer.last() == content@[index as int]);
        }
        let mut lower = lower_characters(content[index]);
        result.append(&mut lower);
        index = index + 1;
    }
    proof {
        assert(content@.take(index as int) == content@);
    }
    result
}

/// Whether two texts name the same path on Windows.
pub fn windows_paths_equal(left: &str, right: &str) -> (result: bool)
    ensures
        result == (windows_characters(left@) == windows_characters(right@)),
{
    crate::text::same_characters(&normalized_windows_chars(left), &normalized_windows_chars(right))
}

/// The parts of a path that decide what it names: a first slash, or a first
/// dot, and the names behind it.
pub open spec fn components(path: Seq<char>) -> Seq<Seq<char>> {
    if has_prefix(path, "/"@) {
        seq!["/"@] + segments(path)
    } else if pieces(path, '/').first() == "."@ {
        seq!["."@] + segments(path)
    } else {
        segments(path)
    }
}

/// The parts of a path that decide what it names. See [`components`].
pub fn path_components(path: &str) -> (result: Vec<String>)
    ensures
        texts(result@) == components(path@),
{
    let mut names = path_segments(path);
    let parts = split(path, '/');
    proof {
        assert(texts(parts@)[0] == parts@[0]@);
    }
    let mut result: Vec<String> = Vec::new();
    if starts_with(path, "/") {
        result.push("/".to_owned());
        proof {
            assert(texts(result@) =~= seq!["/"@]);
        }
    } else if same_text(parts[0].as_str(), ".") {
        result.push(".".to_owned());
        proof {
            assert(texts(result@) =~= seq!["."@]);
        }
    } else {
        proof {
            assert(texts(result@) =~= Seq::<Seq<char>>::empty());
        }
    }
    let ghost first = result@;
    let ghost rest = names@;
    result.append(&mut names);
    proof {
        assert(texts(result@) =~= texts(first) + texts(rest));
        assert(Seq::<Seq<char>>::empty() + segments(path@) =~= segments(path@));
    }
    result
}

/// Whether two paths are the same.
pub open spec fn same_path(left: Seq<char>, right: Seq<char>, windows: bool) -> bool {
    if windows {
        windows_characters(left) == windows_characters(right)
    } else {
        components(left) == components(right)
    }
}

/// Whether two paths are spelled alike. Off Windows equal paths are.
pub open spec fn same_spelling(left: Seq<char>, right: Seq<char>, windows: bool) -> bool {
    if windows {
        windows_spelling(left) == windows_spelling(right)
    } else {
        same_path(left, right, false)
    }
}

/// Whether two paths are spelled alike.
pub fn spellings_equal(left: &str, right: &str, windows: bool) -> (result: bool)
    ensures
        result == same_spelling(left@, right@, windows),
{
    if windows {
        spelled_alike(left, right)
    } else {
        paths_equal(left, right, false)
    }
}

/// Whether two lists hold the same texts.
pub fn same_texts(left: &Vec<String>, right: &Vec<String>) -> (result: bool)
    ensures
        result == (texts(left@) == texts(right@)),
{
    proof {
        assert(texts(left@).len() == left@.len());
        assert(texts(right@).len() == right@.len());
        assert(texts(left@).take(left@.len() as int) == texts(left@));
        assert(texts(right@).take(right@.len() as int) == texts(right@));
    }
    left.len() == right.len() && same_parts(left, right, left.len())
}

fn same_parts(left: &Vec<String>, right: &Vec<String>, count: usize) -> (result: bool)
    requires
        count <= left@.len(),
        count <= right@.len(),
    ensures
        result == (texts(left@).take(count as int) == texts(right@).take(count as int)),
{
    let mut index: usize = 0;
    while index < count
        invariant
            index <= count <= left@.len(),
            count <= right@.len(),
            forall|i: int| 0 <= i < index ==> texts(left@)[i] == texts(right@)[i],
        decreases count - index,
    {
        if !same_text(left[index].as_str(), right[index].as_str()) {
            proof {
                assert(texts(left@).take(count as int)[index as int] == left@[index as int]@);
                assert(texts(right@).take(count as int)[index as int] == right@[index as int]@);
            }
            return false;
        }
        index = index + 1;
    }
    proof {
        assert(texts(left@).take(count as int) =~= texts(right@).take(count as int));
    }
    true
}

/// Whether two paths are the same.
pub fn paths_equal(left: &str, right: &str, windows: bool) -> (result: bool)
    ensures
        result == same_path(left@, right@, windows),
{
    if windows {
        return windows_paths_equal(left, right);
    }
    same_texts(&path_components(left), &path_components(right))
}

/// Whether a path begins with the parts of another.
pub open spec fn begins_with(path: Seq<char>, root: Seq<char>) -> bool {
    &&& components(root).len() <= components(path).len()
    &&& components(path).take(components(root).len() as int) == components(root)
}

fn path_begins_with(path: &str, root: &str) -> (result: bool)
    ensures
        result == begins_with(path@, root@),
{
    let first = path_components(root);
    let second = path_components(path);
    proof {
        assert(texts(first@).len() == first@.len());
        assert(texts(second@).len() == second@.len());
        assert(texts(first@).take(first@.len() as int) == texts(first@));
    }
    first.len() <= second.len() && same_parts(&second, &first, first.len())
}

/// Whether a text lies behind another that a separator ends.
pub open spec fn identity_within(path: Seq<char>, root: Seq<char>) -> bool {
    path == root || match without_prefix(path, root) {
        Some(rest) => has_prefix(rest, "/"@) || has_prefix(rest, r"\"@),
        None => false,
    }
}

/// Whether a path lies within another. Where it has a canonical form, that one
/// counts too: a path from outside may lead through links.
pub open spec fn is_within(
    path: Seq<char>,
    canonical: Option<Seq<char>>,
    root: Seq<char>,
    windows: bool,
) -> bool {
    if windows {
        identity_within(identity_of(path, true), identity_of(root, true))
    } else {
        begins_with(path, root) || match canonical {
            Some(canonical) => begins_with(canonical, root),
            None => false,
        }
    }
}

/// A path as it is written and, where it exists, as it is canonical.
#[derive(Debug, PartialEq, Eq)]
pub struct QueryPath {
    pub path: String,
    pub canonical: Option<String>,
}

impl QueryPath {
    pub open spec fn within(self, root: Seq<char>, windows: bool) -> bool {
        is_within(self.path@, optional_text(self.canonical), root, windows)
    }
}

/// Whether a path lies within another. See [`is_within`].
pub fn path_is_within(query: &QueryPath, root: &str, windows: bool) -> (result: bool)
    ensures
        result == query.within(root@, windows),
{
    if windows {
        let path = path_identity(query.path.as_str(), true);
        let root = path_identity(root, true);
        if same_text(path.as_str(), root.as_str()) {
            return true;
        }
        return match strip_prefix(path.as_str(), root.as_str()) {
            Some(rest) => starts_with(rest.as_str(), "/") || starts_with(rest.as_str(), r"\"),
            None => false,
        };
    }
    if path_begins_with(query.path.as_str(), root) {
        return true;
    }
    match &query.canonical {
        Some(canonical) => path_begins_with(canonical.as_str(), root),
        None => false,
    }
}

/// How deep a path lies.
pub open spec fn depth(path: Seq<char>, windows: bool) -> nat {
    if windows {
        components(identity_of(path, true)).len()
    } else {
        components(path).len()
    }
}

/// How deep a path lies.
pub fn path_depth(path: &str, windows: bool) -> (result: usize)
    ensures
        result == depth(path@, windows),
{
    let parts = if windows {
        let identity = path_identity(path, true);
        path_components(identity.as_str())
    } else {
        path_components(path)
    };
    proof {
        assert(texts(parts@).len() == parts@.len());
    }
    parts.len()
}

/// Whether a path leads into a Linux distribution of Windows.
pub fn is_wsl_unc_path(path: &str) -> (result: bool)
    ensures
        result == (has_prefix(path@, r"\\wsl$\"@) || has_prefix(path@, r"\\wsl.localhost\"@)),
{
    starts_with(path, r"\\wsl$\") || starts_with(path, r"\\wsl.localhost\")
}

/// The short label for a project root: its directory name, or `Project` for a
/// root that has none, such as a filesystem root.
pub open spec fn display_name(root: Seq<char>, windows: bool) -> Seq<char> {
    match name_of(root, windows) {
        Some(name) => name,
        None => "Project"@,
    }
}

/// The short label for a project root. See [`display_name`].
pub fn project_display_name(root: &str, windows: bool) -> (result: String)
    ensures
        result@ == display_name(root@, windows),
{
    match file_name(root, windows) {
        Some(name) => name,
        None => "Project".to_owned(),
    }
}

/// The text that a project root is remembered by.
pub open spec fn key_of(path: Seq<char>, windows: bool) -> Seq<char> {
    if windows {
        lowercase_text(with_slashes(path))
    } else {
        with_slashes(path)
    }
}

/// The text that a project root is remembered by.
pub fn project_key(path: &str, windows: bool) -> (result: String)
    ensures
        result@ == key_of(path@, windows),
{
    let slashed = replace_backslashes(path);
    if windows {
        lower_text(slashed.as_str())
    } else {
        slashed
    }
}

/// A path lies within itself, and within whatever what it lies in lies within.
pub proof fn law_lying_within_carries(path: Seq<char>, middle: Seq<char>, root: Seq<char>)
    requires
        begins_with(path, middle),
        begins_with(middle, root),
    ensures
        begins_with(path, path),
        begins_with(path, root),
        begins_with(root, path) ==> same_path(path, root, false),
{
    let parts = components(path);
    assert(parts.take(parts.len() as int) =~= parts);
    let count = components(root).len() as int;
    assert(parts.take(count) =~= components(middle).take(count)) by {
        assert(parts.take(components(middle).len() as int) == components(middle));
    }
    if begins_with(root, path) {
        assert(components(root).take(parts.len() as int) =~= components(root));
    }
}

/// A verbatim path on Windows is the same as the path that it spells.
pub proof fn law_verbatim_mark_is_ignored(rest: Seq<char>)
    requires
        !has_prefix(rest, r"UNC\"@),
        !has_prefix(rest, r"\\?\"@),
    ensures
        same_path(r"\\?\"@ + rest, rest, true),
{
    reveal_strlit(r"\\?\UNC\");
    reveal_strlit(r"\\?\");
    reveal_strlit(r"UNC\");
    let mark = r"\\?\"@;
    let long = r"\\?\UNC\"@;
    let path = mark + rest;
    if has_prefix(path, long) {
        assert(rest.take(4) =~= path.take(8).skip(4));
        assert(long.skip(4) =~= r"UNC\"@);
    }
    if has_prefix(rest, long) {
        assert(rest.take(4) =~= rest.take(8).take(4));
        assert(long.take(4) =~= mark);
    }
    assert(path.take(4) =~= mark);
    assert(path.skip(4) =~= rest);
}

} // verus!
