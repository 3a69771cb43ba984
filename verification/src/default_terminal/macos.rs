//! Shell scripts that are opened by this application on macOS.

use vstd::prelude::*;

use crate::command_panes::PaneCommand;
use crate::path::{file_name, name_of, split_extension, stem_and_extension};
use crate::text::{
    eq_ignore_ascii_case, joined, optional_text, same_ignoring_case, same_text, signed_decimal,
    signed_text, texts, decimal, decimal_text,
};

verus! {

/// How many kinds of scripts there are.
pub const SCRIPT_EXTENSION_COUNT: usize = 6;

/// The file name extensions of scripts.
pub open spec fn script_extension(index: int) -> Seq<char> {
    if index == 0 {
        "command"@
    } else if index == 1 {
        "tool"@
    } else if index == 2 {
        "zsh"@
    } else if index == 3 {
        "csh"@
    } else if index == 4 {
        "sh"@
    } else {
        "pl"@
    }
}

/// A file name extension of scripts, by its place in their order.
pub fn script_extension_at(index: usize) -> (result: &'static str)
    requires
        index < SCRIPT_EXTENSION_COUNT,
    ensures
        result@ == script_extension(index as int),
{
    if index == 0 {
        "command"
    } else if index == 1 {
        "tool"
    } else if index == 2 {
        "zsh"
    } else if index == 3 {
        "csh"
    } else if index == 4 {
        "sh"
    } else {
        "pl"
    }
}

/// Whether a file is a script by its name.
pub open spec fn is_script(path: Seq<char>) -> bool {
    match name_of(path, false) {
        None => false,
        Some(name) => match stem_and_extension(name).1 {
            None => false,
            Some(extension) => exists|i: int|
                0 <= i < SCRIPT_EXTENSION_COUNT && same_ignoring_case(
                    extension,
                    #[trigger] script_extension(i),
                ),
        },
    }
}

/// Whether a file is a script by its name, in whatever case.
pub fn accepted_script_extension(path: &str) -> (result: bool)
    ensures
        result == is_script(path@),
{
    let name = match file_name(path, false) {
        Some(name) => name,
        None => {
            return false;
        },
    };
    let (_, extension) = split_extension(name.as_str());
    let extension = match extension {
        Some(extension) => extension,
        None => {
            return false;
        },
    };
    let mut index: usize = 0;
    while index < SCRIPT_EXTENSION_COUNT
        invariant
            index <= SCRIPT_EXTENSION_COUNT,
            name_of(path@, false) == Some(name@),
            stem_and_extension(name@).1 == Some(extension@),
            forall|i: int|
                0 <= i < index ==> !same_ignoring_case(extension@, #[trigger] script_extension(i)),
        decreases SCRIPT_EXTENSION_COUNT - index,
    {
        if eq_ignore_ascii_case(extension.as_str(), script_extension_at(index)) {
            return true;
        }
        index = index + 1;
    }
    false
}

/// The path of a file that a URL leads to.
#[derive(Clone, Debug)]
pub struct FilePath {
    /// The path as the system has it.
    pub bytes: Vec<u8>,
    /// The path as text. What is not Unicode stands as replacement characters.
    pub text: String,
}

/// A path by what it holds: its bytes, and its text.
pub type PathParts = (Seq<u8>, Seq<char>);

impl View for FilePath {
    type V = PathParts;

    open spec fn view(&self) -> PathParts {
        (self.bytes@, self.text@)
    }
}

/// What stands in for the path, where there is one.
pub open spec fn optional_path(path: Option<FilePath>) -> Option<PathParts> {
    match path {
        Some(path) => Some(path@),
        None => None,
    }
}

/// What stands in for each path.
pub open spec fn path_parts(paths: Seq<FilePath>) -> Seq<PathParts> {
    paths.map_values(|path: FilePath| path@)
}

/// The scheme of a URL, and the path of the file that it leads to where it
/// leads to one.
pub uninterp spec fn url_parts(url: Seq<char>) -> Option<(Seq<char>, Option<(Seq<u8>, Seq<char>)>)>;

/// Reads a URL with `url::Url::parse` and takes its `scheme` and, where there
/// is one on the platform that the library is built for, its `to_file_path`: the
/// bytes of that path, and its text, in which replacement characters stand for
/// what is not Unicode.
#[verifier::external_body]
fn read_url(url: &str) -> (result: Option<(String, Option<FilePath>)>)
    ensures
        match result {
            Some((scheme, path)) => url_parts(url@) == Some((scheme@, optional_path(path))),
            None => url_parts(url@) is None,
        },
{
    let parsed = url::Url::parse(url).ok()?;
    let path = match parsed.to_file_path() {
        Ok(path) => Some(FilePath {
            bytes: path.as_os_str().as_encoded_bytes().to_vec(),
            text: path.to_string_lossy().into_owned(),
        }),
        Err(_) => None,
    };
    Some((parsed.scheme().to_owned(), path))
}

/// The script that a URL leads to, by its parts, if it leads to one.
pub open spec fn script_behind(parts: Option<(Seq<char>, Option<PathParts>)>) -> Option<PathParts> {
    match parts {
        Some((scheme, Some(path))) if scheme == "file"@ && is_script(path.1) => Some(path),
        _ => None,
    }
}

/// The script that a URL leads to, by its parts, if it leads to one.
pub fn script_of_url(scheme: &str, path: Option<FilePath>) -> (result: Option<FilePath>)
    ensures
        optional_path(result) == script_behind(Some((scheme@, optional_path(path)))),
{
    match path {
        Some(path) => if same_text(scheme, "file") && accepted_script_extension(
            path.text.as_str(),
        ) {
            Some(path)
        } else {
            None
        },
        None => None,
    }
}

/// The scripts that some URLs lead to, in their order.
pub open spec fn scripts_behind(urls: Seq<Seq<char>>) -> Seq<PathParts>
    decreases urls.len(),
{
    if urls.len() == 0 {
        Seq::empty()
    } else {
        let before = scripts_behind(urls.drop_last());
        match script_behind(url_parts(urls.last())) {
            Some(path) => before.push(path),
            None => before,
        }
    }
}

/// The scripts that some URLs lead to, in their order.
pub fn script_paths_from_urls(urls: &Vec<String>) -> (result: Vec<FilePath>)
    ensures
        path_parts(result@) == scripts_behind(texts(urls@)),
{
    let mut paths: Vec<FilePath> = Vec::new();
    let mut index: usize = 0;
    let ghost all = texts(urls@);
    proof {
        assert(all.take(0) == Seq::<Seq<char>>::empty());
        assert(path_parts(paths@) =~= Seq::<PathParts>::empty());
    }
    while index < urls.len()
        invariant
            index <= urls@.len(),
            all == texts(urls@),
            path_parts(paths@) == scripts_behind(all.take(index as int)),
        decreases urls@.len() - index,
    {
        proof {
            let longer = all.take(index + 1);
            assert(longer.drop_last() == all.take(index as int));
            assert(longer.last() == urls@[index as int]@);
        }
        if let Some((scheme, path)) = read_url(urls[index].as_str()) {
            if let Some(script) = script_of_url(scheme.as_str(), path) {
                let ghost before = paths@;
                paths.push(script);
                proof {
                    assert(path_parts(paths@) =~= path_parts(before).push(script@));
                }
            }
        }
        index = index + 1;
    }
    proof {
        assert(all.take(index as int) == all);
    }
    paths
}

/// The command that opens a script in a pane of its own, by the text of its
/// path.
pub fn script_command(path: &str) -> (result: PaneCommand)
    ensures
        result.direction is None,
        result.label is None,
        result.pane is None,
        result.overlay is None,
        !result.stack,
        !result.list,
        texts(result.command@) == seq![path@],
{
    let mut command: Vec<String> = Vec::new();
    command.push(path.to_owned());
    proof {
        assert(texts(command@) =~= seq![path@]);
    }
    PaneCommand {
        direction: None,
        label: None,
        pane: None,
        overlay: None,
        stack: false,
        list: false,
        command,
    }
}

/// The notice that some scripts could not be opened.
pub open spec fn rejection_notice(rejected: nat) -> Option<Seq<char>> {
    if rejected == 0 {
        None
    } else {
        Some("Could not open "@ + decimal_text(rejected) + " shell-script file(s) in Zetta"@)
    }
}

/// The notice that some scripts could not be opened, if any were not.
pub fn rejected_scripts_notice(rejected: u64) -> (result: Option<String>)
    ensures
        optional_text(result) == rejection_notice(rejected as nat),
{
    if rejected == 0 {
        return None;
    }
    let number = decimal(rejected);
    let mut notice = joined("Could not open ", number.as_str());
    notice.push_str(" shell-script file(s) in Zetta");
    Some(notice)
}

/// What registering for one extension came to.
#[derive(Clone, Copy, Debug, PartialEq, Eq, Structural)]
pub enum Registration {
    /// No tag could be made for the extension.
    NoTag,
    /// The status that Launch Services gave back; a missing content type
    /// counts as -1.
    Status(i32),
}

/// What went wrong while registering, after some registrations.
pub open spec fn registration_failure(outcomes: Seq<Registration>) -> Option<Seq<char>>
    decreases outcomes.len(),
{
    if outcomes.len() == 0 {
        None
    } else {
        let before = registration_failure(outcomes.drop_last());
        match outcomes.last() {
            Registration::NoTag => Some(
                "could not create Launch Services tag for .\""@ + script_extension(
                    outcomes.len() - 1,
                ) + "\""@,
            ),
            Registration::Status(status) => if status != 0 && before is None {
                Some("Launch Services returned OSStatus "@ + signed_text(status as int))
            } else {
                before
            },
        }
    }
}

/// What registering for the extensions came to: the first bad status, or the
/// last extension for which no tag could be made before it.
pub fn register_macos_script_handlers(strings_created: bool, outcomes: &Vec<Registration>) -> (result:
    Result<(), String>)
    requires
        outcomes@.len() <= SCRIPT_EXTENSION_COUNT,
    ensures
        match result {
            Ok(_) => strings_created && registration_failure(outcomes@) is None,
            Err(error) => if strings_created {
                registration_failure(outcomes@) == Some(error@)
            } else {
                error@ == "could not create Launch Services strings"@
            },
        },
{
    if !strings_created {
        return Err("could not create Launch Services strings".to_owned());
    }
    let mut failure: Option<String> = None;
    let mut index: usize = 0;
    proof {
        assert(outcomes@.take(0) == Seq::<Registration>::empty());
    }
    while index < outcomes.len()
        invariant
            index <= outcomes@.len() <= SCRIPT_EXTENSION_COUNT,
            optional_text(failure) == registration_failure(outcomes@.take(index as int)),
        decreases outcomes@.len() - index,
    {
        proof {
            let longer = outcomes@.take(index + 1);
            assert(longer.drop_last() == outcomes@.take(index as int));
            assert(longer.last() == outcomes@[index as int]);
        }
        match outcomes[index] {
            Registration::NoTag => {
                let mut text = joined(
                    "could not create Launch Services tag for .\"",
                    script_extension_at(index),
                );
                text.push_str("\"");
                failure = Some(text);
            },
            Registration::Status(status) => {
                if status != 0 && failure.is_none() {
                    let number = signed_decimal(status);
                    failure = Some(joined("Launch Services returned OSStatus ", number.as_str()));
                }
            },
        }
        index = index + 1;
    }
    proof {
        assert(outcomes@.take(index as int) == outcomes@);
    }
    match failure {
        Some(error) => Err(error),
        None => Ok(()),
    }
}

/// Whether scripts are opened by this application: whether every extension was
/// asked for, and that holds of each. `None` says of an extension that nothing
/// is registered for it, or that it could not be asked.
pub fn macos_script_handlers_are_zetta(strings_created: bool, handlers: &Vec<Option<bool>>) -> (result:
    bool)
    ensures
        result == (strings_created && handlers@.len() == SCRIPT_EXTENSION_COUNT && (forall|i: int|
            0 <= i < handlers@.len() ==> #[trigger] handlers@[i] == Some(true))),
{
    if !strings_created || handlers.len() != SCRIPT_EXTENSION_COUNT {
        return false;
    }
    let mut all_registered = true;
    let mut index: usize = 0;
    while index < handlers.len()
        invariant
            index <= handlers@.len(),
            all_registered == (forall|i: int|
                0 <= i < index ==> #[trigger] handlers@[i] == Some(true)),
        decreases handlers@.len() - index,
    {
        match handlers[index] {
            Some(true) => {},
            _ => {
                all_registered = false;
                assert(handlers@[index as int] != Some(true));
            },
        }
        index = index + 1;
    }
    all_registered
}

/// Only scripts are opened, and each of them was asked for.
pub proof fn law_only_scripts_are_opened(urls: Seq<Seq<char>>, index: int)
    requires
        0 <= index < scripts_behind(urls).len(),
    ensures
        is_script(scripts_behind(urls)[index].1),
        exists|i: int|
            0 <= i < urls.len() && script_behind(url_parts(#[trigger] urls[i])) == Some(
                scripts_behind(urls)[index],
            ),
    decreases urls.len(),
{
    let shorter = urls.drop_last();
    if index < scripts_behind(shorter).len() {
        law_only_scripts_are_opened(shorter, index);
        let i = choose|i: int|
            0 <= i < shorter.len() && script_behind(url_parts(#[trigger] shorter[i])) == Some(
                scripts_behind(shorter)[index],
            );
        assert(urls[i] == shorter[i]);
    } else {
        assert(script_behind(url_parts(urls[urls.len() - 1])) == Some(scripts_behind(urls)[index]));
    }
}

} // verus!
