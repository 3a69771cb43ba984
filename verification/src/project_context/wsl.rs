//! Directories of Linux distributions on Windows.

use vstd::prelude::*;

use crate::profile::{Profile, Shell};
use crate::text::{
    characters, has_prefix, is_control, is_control_character, joined, list_contains,
    optional_text, pieces, same_text, split, starts_with, strip_prefix, texts, without_prefix,
};

verus! {

/// Whether an argument names what follows as a distribution.
pub open spec fn names_distribution(argument: Seq<char>) -> bool {
    argument == "--distribution"@ || argument == "-d"@
}

/// The distribution that a shell's arguments name.
pub open spec fn distribution_in(arguments: Seq<Seq<char>>) -> Option<Seq<char>>
    decreases arguments.len(),
{
    if arguments.len() < 2 {
        None
    } else if names_distribution(arguments[0]) {
        Some(arguments[1])
    } else {
        distribution_in(arguments.drop_first())
    }
}

/// The distribution that a profile runs, where it runs one: by its arguments,
/// else by its name.
pub open spec fn distribution_of(profile: Profile, is_wsl: bool) -> Option<Seq<char>> {
    if !is_wsl {
        None
    } else {
        let by_arguments = match profile.command {
            Shell::WithArguments { args, .. } => distribution_in(texts(args@)),
            _ => None,
        };
        match by_arguments {
            Some(distribution) => Some(distribution),
            None => without_prefix(profile.name@, "WSL: "@),
        }
    }
}

fn find_distribution(arguments: &Vec<String>) -> (result: Option<String>)
    ensures
        optional_text(result) == distribution_in(texts(arguments@)),
{
    let mut index: usize = 0;
    let count: usize = arguments.len();
    let ghost all = texts(arguments@);
    proof {
        assert(all.skip(0) == all);
    }
    while index < count && count - index >= 2
        invariant
            index <= count == arguments@.len(),
            all == texts(arguments@),
            distribution_in(all) == distribution_in(all.skip(index as int)),
        decreases count - index,
    {
        proof {
            let rest = all.skip(index as int);
            assert(rest[0] == arguments@[index as int]@);
            assert(rest[1] == arguments@[index + 1]@);
            assert(rest.drop_first() == all.skip(index + 1));
        }
        let argument = arguments[index].as_str();
        if same_text(argument, "--distribution") || same_text(argument, "-d") {
            return Some(arguments[index + 1].clone());
        }
        index = index + 1;
    }
    None
}

/// The distribution that a profile runs, where it runs one.
pub fn wsl_distribution(profile: &Profile, is_wsl: bool) -> (result: Option<String>)
    ensures
        optional_text(result) == distribution_of(*profile, is_wsl),
{
    if !is_wsl {
        return None;
    }
    if let Shell::WithArguments { args, .. } = &profile.command {
        let distribution = find_distribution(args);
        if distribution.is_some() {
            return distribution;
        }
    }
    strip_prefix(profile.name.as_str(), "WSL: ")
}

/// Whether any character is a control character.
pub open spec fn has_control(text: Seq<char>) -> bool {
    exists|i: int| 0 <= i < text.len() && is_control_character(#[trigger] text[i])
}

fn contains_control(text: &str) -> (result: bool)
    ensures
        result == has_control(text@),
{
    let content = characters(text);
    let mut index: usize = 0;
    while index < content.len()
        invariant
            content@ == text@,
            index <= content@.len(),
            forall|i: int| 0 <= i < index ==> !is_control_character(#[trigger] content@[i]),
        decreases content@.len() - index,
    {
        if is_control(content[index]) {
            return true;
        }
        index = index + 1;
    }
    false
}

/// Whether a name can be that of a distribution.
pub open spec fn is_distribution_name(name: Seq<char>) -> bool {
    name.len() > 0 && !has_control(name) && !name.contains('/') && !name.contains('\\')
}

/// Whether a directory is absolute, plain, and without ways up.
pub open spec fn is_plain_directory(directory: Seq<char>) -> bool {
    &&& has_prefix(directory, "/"@)
    &&& !has_control(directory)
    &&& !pieces(directory, '/').contains("."@)
    &&& !pieces(directory, '/').contains(".."@)
}

/// A text without slashes at its start.
pub open spec fn without_start_slashes(path: Seq<char>) -> Seq<char>
    decreases path.len(),
{
    if path.len() > 0 && path.first() == '/' {
        without_start_slashes(path.drop_first())
    } else {
        path
    }
}

/// A text in which a backslash stands for each slash.
pub open spec fn with_backslashes(path: Seq<char>) -> Seq<char> {
    path.map_values(
        |character: char|
            if character == '/' {
                '\\'
            } else {
                character
            },
    )
}

fn windows_relative(directory: &str) -> (result: String)
    ensures
        result@ == with_backslashes(without_start_slashes(directory@)),
{
    let content = characters(directory);
    let mut start: usize = 0;
    proof {
        assert(content@.skip(0) == directory@);
    }
    while start < content.len() && content[start] == '/'
        invariant
            content@ == directory@,
            start <= content@.len(),
            without_start_slashes(directory@) == without_start_slashes(
                content@.skip(start as int),
            ),
        decreases content@.len() - start,
    {
        proof {
            assert(content@.skip(start as int).first() == content@[start as int]);
            assert(content@.skip(start as int).drop_first() == content@.skip(start + 1));
        }
        start = start + 1;
    }
    let ghost rest = content@.skip(start as int);
    proof {
        if start < content@.len() {
            assert(rest.first() == content@[start as int]);
        }
    }
    let mut text = String::new();
    let mut index: usize = start;
    while index < content.len()
        invariant
            start <= index <= content@.len(),
            rest == content@.skip(start as int),
            text@ == with_backslashes(rest).take(index - start),
        decreases content@.len() - index,
    {
        let character = if content[index] == '/' {
            '\\'
        } else {
            content[index]
        };
        text.push(character);
        proof {
            assert(rest[index - start] == content@[index as int]);
            assert(with_backslashes(rest).take(index + 1 - start) =~= with_backslashes(rest).take(
                index - start,
            ).push(character));
        }
        index = index + 1;
    }
    proof {
        assert(with_backslashes(rest).take(index - start) == with_backslashes(rest));
    }
    text
}

/// The path by which Windows reaches a directory of a distribution.
pub open spec fn distribution_path(distribution: Seq<char>, directory: Seq<char>) -> Seq<char> {
    r"\\wsl.localhost\"@ + distribution + r"\"@ + with_backslashes(
        without_start_slashes(directory),
    )
}

/// The path by which Windows reaches the directory that a pane reports.
pub open spec fn reported_directory(profile: Profile, is_wsl: bool, directory: Seq<char>) -> Option<
    Seq<char>,
> {
    match distribution_of(profile, is_wsl) {
        Some(distribution) => if is_distribution_name(distribution) && is_plain_directory(
            directory,
        ) {
            Some(distribution_path(distribution, directory))
        } else {
            None
        },
        None => None,
    }
}

/// The path by which Windows reaches the directory that a pane reports; none
/// where what it reports cannot be trusted to be one.
pub fn wsl_reported_directory(profile: &Profile, is_wsl: bool, directory: &str) -> (result: Option<
    String,
>)
    ensures
        optional_text(result) == reported_directory(*profile, is_wsl, directory@),
{
    let distribution = match wsl_distribution(profile, is_wsl) {
        Some(distribution) => distribution,
        None => {
            return None;
        },
    };
    let name = distribution.as_str();
    if name.is_empty() || contains_control(name) || crate::text::contains_character(name, '/')
        || crate::text::contains_character(name, '\\') {
        return None;
    }
    if !starts_with(directory, "/") || contains_control(directory) {
        return None;
    }
    let parts = split(directory, '/');
    if list_contains(&parts, ".") || list_contains(&parts, "..") {
        return None;
    }
    let relative = windows_relative(directory);
    let mut path = joined(r"\\wsl.localhost\", name);
    path.push_str(r"\");
    path.push_str(relative.as_str());
    Some(path)
}

} // verus!
