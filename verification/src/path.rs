//! Paths as text, with `/` between their parts. On Windows there is more to them:
//! see [`windows`].

use vstd::prelude::*;

use crate::path::windows::{take_apart, windows_below, windows_join, windows_parts};
use crate::text::{characters, optional_text, pieces, same_text, split, text_between, texts};

pub mod laws;
pub mod windows;

verus! {

/// `relative` below `base`. An absolute `relative` stands for itself.
pub open spec fn below(base: Seq<char>, relative: Seq<char>, windows: bool) -> Seq<char> {
    if windows {
        windows_below(base, relative)
    } else if relative.len() > 0 && relative.first() == '/' {
        relative
    } else if base.len() == 0 || base.last() == '/' {
        base + relative
    } else {
        base.push('/') + relative
    }
}

/// `relative` below `base`. See [`below`].
pub fn join(base: &str, relative: &str, windows: bool) -> (result: String)
    ensures
        result@ == below(base@, relative@, windows),
{
    if windows {
        return windows_join(base, relative);
    }
    let whole = characters(base);
    let part = characters(relative);
    if part.len() > 0 && part[0] == '/' {
        return relative.to_owned();
    }
    let mut result = base.to_owned();
    if whole.len() > 0 && whole[whole.len() - 1] != '/' {
        result.push('/');
    }
    result.push_str(relative);
    result
}

/// The parts that name something: neither empty nor a single dot.
pub open spec fn naming_parts(parts: Seq<Seq<char>>) -> Seq<Seq<char>>
    decreases parts.len(),
{
    if parts.len() == 0 {
        Seq::empty()
    } else {
        let before = naming_parts(parts.drop_last());
        if parts.last().len() == 0 || parts.last() == "."@ {
            before
        } else {
            before.push(parts.last())
        }
    }
}

/// The parts of a path, without empty ones and single dots.
pub open spec fn segments(path: Seq<char>) -> Seq<Seq<char>> {
    naming_parts(pieces(path, '/'))
}

/// The parts of a path, without empty ones and single dots.
pub fn path_segments(path: &str) -> (result: Vec<String>)
    ensures
        texts(result@) == segments(path@),
{
    split_names(path, '/')
}

/// The parts of a text between separators, without empty ones and single dots.
pub fn split_names(text: &str, separator: char) -> (result: Vec<String>)
    ensures
        texts(result@) == naming_parts(pieces(text@, separator)),
{
    let parts = split(text, separator);
    let mut result: Vec<String> = Vec::new();
    let mut index: usize = 0;
    proof {
        assert(texts(parts@).take(0) == Seq::<Seq<char>>::empty());
        assert(texts(result@) == Seq::<Seq<char>>::empty());
    }
    while index < parts.len()
        invariant
            index <= parts@.len(),
            texts(result@) == naming_parts(texts(parts@).take(index as int)),
        decreases parts@.len() - index,
    {
        proof {
            let longer = texts(parts@).take(index + 1);
            assert(longer.drop_last() == texts(parts@).take(index as int));
            assert(longer.last() == parts@[index as int]@);
        }
        let part = parts[index].as_str();
        if !part.is_empty() && !same_text(part, ".") {
            let ghost before = result@;
            result.push(part.to_owned());
            proof {
                assert(texts(result@) == texts(before).push(part@));
            }
        }
        index = index + 1;
    }
    proof {
        assert(texts(parts@).take(index as int) == texts(parts@));
    }
    result
}

/// The name of the file or directory that a path leads to.
pub open spec fn name_of(path: Seq<char>, windows: bool) -> Option<Seq<char>> {
    let parts = if windows {
        windows_parts(path)
    } else {
        segments(path)
    };
    if parts.len() == 0 || parts.last() == ".."@ {
        None
    } else {
        Some(parts.last())
    }
}

/// The name of the file or directory that a path leads to.
pub fn file_name(path: &str, windows: bool) -> (result: Option<String>)
    ensures
        optional_text(result) == name_of(path@, windows),
{
    let parts = if windows {
        take_apart(path).parts
    } else {
        path_segments(path)
    };
    let count: usize = parts.len();
    proof {
        assert(texts(parts@).len() == count);
    }
    if count == 0 {
        return None;
    }
    proof {
        assert(texts(parts@).last() == parts@[count - 1]@);
    }
    if same_text(parts[count - 1].as_str(), "..") {
        return None;
    }
    Some(parts[count - 1].clone())
}

/// Where the last dot of a name stands, if there is one.
pub open spec fn last_dot(name: Seq<char>) -> Option<int>
    decreases name.len(),
{
    if name.len() == 0 {
        None
    } else if name.last() == '.' {
        Some(name.len() - 1)
    } else {
        last_dot(name.drop_last())
    }
}

/// A name split at its last dot, unless that is what it begins with.
pub open spec fn stem_and_extension(name: Seq<char>) -> (Seq<char>, Option<Seq<char>>) {
    match last_dot(name) {
        Some(dot) if dot > 0 => (name.take(dot), Some(name.skip(dot + 1))),
        _ => (name, None),
    }
}

/// A name split at its last dot, unless that is what it begins with.
pub fn split_extension(name: &str) -> (result: (String, Option<String>))
    ensures
        (result.0@, optional_text(result.1)) == stem_and_extension(name@),
{
    let content = characters(name);
    let mut end: usize = content.len();
    proof {
        assert(content@.take(end as int) == name@);
    }
    while end > 0
        invariant
            content@ == name@,
            end <= content@.len(),
            last_dot(name@) == last_dot(content@.take(end as int)),
        decreases end,
    {
        proof {
            assert(content@.take(end as int).drop_last() == content@.take(end - 1));
            assert(content@.take(end as int).last() == content@[end - 1]);
        }
        if content[end - 1] == '.' {
            if end == 1 {
                return (name.to_owned(), None);
            }
            let stem = text_between(&content, 0, end - 1);
            let extension = text_between(&content, end, content.len());
            proof {
                assert(name@.take(end - 1) == content@.subrange(0, end - 1));
                assert(name@.skip(end as int) == content@.subrange(
                    end as int,
                    content@.len() as int,
                ));
            }
            return (stem, Some(extension));
        }
        end = end - 1;
    }
    (name.to_owned(), None)
}

/// The segments that a path resolves to by name alone: `..` takes back the
/// segment before it.
pub open spec fn resolved(parts: Seq<Seq<char>>) -> Seq<Seq<char>>
    decreases parts.len(),
{
    if parts.len() == 0 {
        Seq::empty()
    } else {
        let before = resolved(parts.drop_last());
        if parts.last() == ".."@ {
            if before.len() > 0 {
                before.drop_last()
            } else {
                before
            }
        } else {
            before.push(parts.last())
        }
    }
}

/// The parts that a path resolves to by name alone. See [`resolved`].
pub fn resolve_parts(parts: &Vec<String>) -> (result: Vec<String>)
    ensures
        texts(result@) == resolved(texts(parts@)),
{
    let ghost shown = texts(parts@);
    let mut kept: Vec<String> = Vec::new();
    let mut index: usize = 0;
    proof {
        assert(shown.take(0) == Seq::<Seq<char>>::empty());
        assert(texts(kept@) == Seq::<Seq<char>>::empty());
    }
    while index < parts.len()
        invariant
            shown == texts(parts@),
            index <= parts@.len(),
            texts(kept@) == resolved(shown.take(index as int)),
        decreases parts@.len() - index,
    {
        proof {
            let longer = shown.take(index + 1);
            assert(longer.drop_last() == shown.take(index as int));
            assert(longer.last() == parts@[index as int]@);
        }
        let ghost before = kept@;
        if same_text(parts[index].as_str(), "..") {
            if kept.len() > 0 {
                kept.pop();
                proof {
                    assert(texts(kept@) == texts(before).drop_last());
                }
            }
        } else {
            kept.push(parts[index].clone());
            proof {
                assert(texts(kept@) == texts(before).push(parts@[index as int]@));
            }
        }
        index = index + 1;
    }
    proof {
        assert(shown.take(index as int) == shown);
    }
    kept
}

} // verus!
