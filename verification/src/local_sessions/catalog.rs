//! Publishing and reading session catalogs.

use vstd::prelude::*;

use crate::local_sessions::protocol::{
    shown_in_public, BackgroundSessionCatalog, BackgroundSessionSummary, CATALOG_VERSION,
};
use crate::path::windows::{lemma_name_below, prefix_of};
use crate::path::{
    below, file_name, join, last_dot, name_of, split_extension, stem_and_extension,
};
use crate::text::{
    characters, decimal, decimal_text, has_prefix, lemma_decimal_round_trip, lemma_one_piece,
    lemma_pieces_nonempty, lemma_pieces_of_two, parse_unsigned, pieces, same_text, split, starts_with, text_between, texts, unsigned_value,
};

verus! {

/// The file that a runner of a process publishes its catalog in.
pub open spec fn catalog_file_name(process_id: nat, runner_id: nat) -> Seq<char> {
    "zetta-"@ + decimal_text(process_id) + "-"@ + decimal_text(runner_id) + ".json"@
}

/// The runner that a catalog file's name tells: the number behind the last
/// dash of its stem, or zero.
pub open spec fn runner_of(path: Seq<char>, windows: bool) -> nat {
    match name_of(path, windows) {
        Some(name) => {
            let parts = pieces(stem_and_extension(name).0, '-');
            match unsigned_value(parts.last(), u64::MAX as nat) {
                Some(number) => number,
                None => 0,
            }
        },
        None => 0,
    }
}

/// Publishes the detached sessions of one runner in a file.
pub struct SessionCatalogPublisher {
    pub path: String,
    /// What the file holds, as far as this publisher wrote it.
    pub last_contents: Option<Vec<u8>>,
    /// Whether the path is one of Windows.
    pub windows: bool,
}

/// What publishing a catalog takes.
#[derive(Clone, Copy, Debug, PartialEq, Eq, Structural)]
pub enum PublishAction {
    /// Remove the file: there is nothing to publish.
    Remove,
    /// Nothing: the file holds just this.
    Keep,
    /// Write the contents beside the file and move them over it.
    Replace,
}

impl SessionCatalogPublisher {
    /// The publisher of a runner, in the directory of the catalogs.
    pub fn new(directory: &str, process_id: u32, runner_id: u64, windows: bool) -> (result:
        SessionCatalogPublisher)
        ensures
            result.path@ == below(
                directory@,
                catalog_file_name(process_id as nat, runner_id as nat),
                windows,
            ),
            result.last_contents is None,
            result.windows == windows,
    {
        let mut name = "zetta-".to_owned();
        name.push_str(decimal(process_id as u64).as_str());
        name.push_str("-");
        name.push_str(decimal(runner_id).as_str());
        name.push_str(".json");
        SessionCatalogPublisher::at_path(join(directory, name.as_str(), windows), windows)
    }

    /// A publisher for a file.
    pub fn at_path(path: String, windows: bool) -> (result: SessionCatalogPublisher)
        ensures
            result.path == path,
            result.last_contents is None,
            result.windows == windows,
    {
        SessionCatalogPublisher { path, last_contents: None, windows }
    }

    /// The runner that the file's name tells.
    pub fn runner_id(&self) -> (result: u64)
        ensures
            result == runner_of(self.path@, self.windows),
    {
        match file_name(self.path.as_str(), self.windows) {
            Some(name) => {
                let (stem, _) = split_extension(name.as_str());
                let parts = split(stem.as_str(), '-');
                proof {
                    lemma_pieces_nonempty(stem@, '-');
                    assert(texts(parts@).last() == parts@[parts@.len() - 1]@);
                }
                match parse_unsigned(parts[parts.len() - 1].as_str(), u64::MAX) {
                    Some(number) => number,
                    None => 0,
                }
            },
            None => 0,
        }
    }

    /// The catalog of the given sessions, as it is published.
    pub fn catalog_of(&self, process_id: u32, sessions: Vec<BackgroundSessionSummary>) -> (result:
        BackgroundSessionCatalog)
        ensures
            result.version == CATALOG_VERSION,
            result.process_id == process_id,
            result.runner_id == runner_of(self.path@, self.windows),
            result.sessions@.len() == sessions@.len(),
            forall|i: int|
                0 <= i < sessions@.len() ==> shown_in_public(
                    sessions@[i],
                    #[trigger] result.sessions@[i],
                ),
    {
        let ghost given = sessions@;
        let mut remaining = sessions;
        let mut reversed: Vec<BackgroundSessionSummary> = Vec::new();
        while remaining.len() > 0
            invariant
                remaining@.len() <= given.len(),
                remaining@ == given.take(remaining@.len() as int),
                reversed@.len() == given.len() - remaining@.len(),
                forall|i: int|
                    0 <= i < reversed@.len() ==> #[trigger] reversed@[i] == given[given.len() - 1
                        - i],
            decreases remaining@.len(),
        {
            let ghost count = remaining@.len();
            match remaining.pop() {
                Some(session) => {
                    reversed.push(session);
                },
                None => {},
            }
            proof {
                assert(remaining@ == given.take(count - 1));
            }
        }
        let mut shown: Vec<BackgroundSessionSummary> = Vec::new();
        while reversed.len() > 0
            invariant
                reversed@.len() <= given.len(),
                forall|i: int|
                    0 <= i < reversed@.len() ==> #[trigger] reversed@[i] == given[given.len() - 1
                        - i],
                shown@.len() == given.len() - reversed@.len(),
                forall|i: int|
                    0 <= i < shown@.len() ==> shown_in_public(given[i], #[trigger] shown@[i]),
            decreases reversed@.len(),
        {
            match reversed.pop() {
                Some(session) => {
                    shown.push(session.for_public_catalog());
                },
                None => {},
            }
        }
        BackgroundSessionCatalog {
            version: CATALOG_VERSION,
            process_id,
            runner_id: self.runner_id(),
            sessions: shown,
        }
    }

    /// What publishing takes, for a number of sessions and the catalog's
    /// bytes.
    pub fn publish(&self, session_count: usize, contents: &Vec<u8>) -> (result: PublishAction)
        ensures
            result == if session_count == 0 {
                PublishAction::Remove
            } else {
                match self.last_contents {
                    Some(last) if last@ == contents@ => PublishAction::Keep,
                    _ => PublishAction::Replace,
                }
            },
    {
        if session_count == 0 {
            return PublishAction::Remove;
        }
        match &self.last_contents {
            Some(last) => if same_bytes(last, contents) {
                PublishAction::Keep
            } else {
                PublishAction::Replace
            },
            None => PublishAction::Replace,
        }
    }

    /// Records that the file now holds the contents.
    pub fn published(&mut self, contents: Vec<u8>)
        ensures
            *final(self) == (SessionCatalogPublisher {
                last_contents: Some(contents),
                ..*old(self)
            }),
    {
        self.last_contents = Some(contents);
    }

    /// Records that the file is to be removed.
    pub fn clear(&mut self)
        ensures
            *final(self) == (SessionCatalogPublisher { last_contents: None, ..*old(self) }),
    {
        self.last_contents = None;
    }
}

fn same_bytes(left: &Vec<u8>, right: &Vec<u8>) -> (result: bool)
    ensures
        result == (left@ == right@),
{
    if left.len() != right.len() {
        return false;
    }
    let mut index: usize = 0;
    while index < left.len()
        invariant
            index <= left@.len(),
            left@.len() == right@.len(),
            forall|i: int| 0 <= i < index ==> left@[i] == right@[i],
        decreases left@.len() - index,
    {
        if left[index] != right[index] {
            return false;
        }
        index = index + 1;
    }
    proof {
        assert(left@ == right@);
    }
    true
}

/// Whether a file of the directory is a session catalog, by its name.
pub open spec fn names_a_catalog(name: Seq<char>) -> bool {
    stem_and_extension(name).1 == Some("json"@) && has_prefix(name, "zetta-"@)
}

/// Whether a file of the directory is a session catalog, by its name.
pub fn is_catalog_file(name: &str) -> (result: bool)
    ensures
        result == names_a_catalog(name@),
{
    match split_extension(name).1 {
        Some(extension) => same_text(extension.as_str(), "json") && starts_with(name, "zetta-"),
        None => false,
    }
}

proof fn lemma_catalog_name(process_id: nat, runner_id: nat)
    ensures
        stem_and_extension(catalog_file_name(process_id, runner_id)) == (
            "zetta-"@ + decimal_text(process_id) + "-"@ + decimal_text(runner_id),
            Some("json"@),
        ),
{
    let name = catalog_file_name(process_id, runner_id);
    reveal_strlit("zetta-");
    reveal_strlit("json");
    reveal_strlit(".json");
    let dot = name.len() - 5;
    assert(name[dot] == '.');
    assert(name[dot + 1] == 'j' && name[dot + 2] == 's' && name[dot + 3] == 'o' && name[dot + 4]
        == 'n');
    let one = name.drop_last();
    let two = one.drop_last();
    let three = two.drop_last();
    let four = three.drop_last();
    assert(last_dot(four) == Some(dot)) by {
        assert(four.last() == '.');
    }
    assert(last_dot(three) == Some(dot)) by {
        assert(three.last() == 'j');
    }
    assert(last_dot(two) == Some(dot)) by {
        assert(two.last() == 's');
    }
    assert(last_dot(one) == Some(dot)) by {
        assert(one.last() == 'o');
    }
    assert(last_dot(name) == Some(dot)) by {
        assert(name.last() == 'n');
    }
    assert(name.skip(dot + 1) =~= "json"@);
    assert(name.take(dot) =~= "zetta-"@ + decimal_text(process_id) + "-"@ + decimal_text(
        runner_id,
    ));
}

/// A file that a publisher makes is read as a catalog.
pub proof fn law_published_files_are_listed(process_id: nat, runner_id: nat)
    ensures
        names_a_catalog(catalog_file_name(process_id, runner_id)),
{
    lemma_catalog_name(process_id, runner_id);
    reveal_strlit("zetta-");
    assert(catalog_file_name(process_id, runner_id).take(6) =~= "zetta-"@);
}

/// A publisher's file tells the runner that it was made for. On Windows its name
/// must not become part of what its path begins with, as below `\\server`.
pub proof fn law_published_files_tell_their_runner(
    directory: Seq<char>,
    process_id: nat,
    runner_id: u64,
    windows: bool,
)
    requires
        windows ==> prefix_of(
            below(directory, catalog_file_name(process_id, runner_id as nat), true),
        ) == prefix_of(directory),
    ensures
        runner_of(
            below(directory, catalog_file_name(process_id, runner_id as nat), windows),
            windows,
        ) == runner_id,
{
    let name = catalog_file_name(process_id, runner_id as nat);
    let path = below(directory, name, windows);
    let process = decimal_text(process_id);
    let runner = decimal_text(runner_id as nat);
    lemma_decimal_round_trip(process_id);
    lemma_decimal_round_trip(runner_id as nat);
    reveal_strlit("zetta-");
    reveal_strlit("-");
    reveal_strlit(".json");
    reveal_strlit(".");
    reveal_strlit("..");
    assert(name[0] == 'z');
    // The file's name is the last part of its path.
    assert(!name.contains('/') && !name.contains('\\')) by {
        assert forall|i: int| 0 <= i < name.len() implies name[i] != '/' && name[i] != '\\' by {
            let shown = "zetta-"@.len() as int;
            if shown <= i < shown + process.len() {
                assert(name[i] == process[i - shown]);
            } else if shown + process.len() < i < shown + process.len() + 1 + runner.len() {
                assert(name[i] == runner[i - shown - process.len() - 1]);
            }
        }
    }
    assert(name != "."@ && name != ".."@) by {
        assert("."@[0] == '.');
        assert(".."@[0] == '.');
    }
    if windows {
        assert(name[1] == 'e');
        lemma_name_below(directory, name);
    } else {
        lemma_one_piece(name, '/');
        assert(pieces(path, '/').last() == name && pieces(path, '/').len() > 0) by {
            if directory.len() == 0 {
                assert(path =~= name);
            } else if directory.last() == '/' {
                assert(path =~= directory.drop_last().push('/') + name);
                lemma_pieces_of_two(directory.drop_last(), name, '/');
            } else {
                lemma_pieces_of_two(directory, name, '/');
            }
        }
    }
    assert(name_of(path, windows) == Some(name));
    // Its number stands behind the last dash.
    lemma_catalog_name(process_id, runner_id as nat);
    assert(!runner.contains('-')) by {
        assert forall|i: int| 0 <= i < runner.len() implies runner[i] != '-' by {}
    }
    lemma_one_piece(runner, '-');
    let lead = "zetta-"@ + process;
    let stem = "zetta-"@ + process + "-"@ + runner;
    assert(stem =~= lead.push('-') + runner);
    lemma_pieces_of_two(lead, runner, '-');
    assert(pieces(stem, '-').last() == runner);
}

/// Whether a catalog comes before another, or stands beside it.
pub open spec fn in_order(left: BackgroundSessionCatalog, right: BackgroundSessionCatalog) -> bool {
    left.process_id < right.process_id || (left.process_id == right.process_id && left.runner_id
        <= right.runner_id)
}

/// The list with `catalog` put behind those that come before it or stand
/// beside it.
pub open spec fn inserted(
    sorted: Seq<BackgroundSessionCatalog>,
    catalog: BackgroundSessionCatalog,
) -> Seq<BackgroundSessionCatalog>
    decreases sorted.len(),
{
    if sorted.len() == 0 || in_order(sorted.last(), catalog) {
        sorted.push(catalog)
    } else {
        inserted(sorted.drop_last(), catalog).push(sorted.last())
    }
}

/// The readable catalogs of the current version, by process and runner; those
/// of one process and runner keep their order.
pub open spec fn listed(found: Seq<Option<BackgroundSessionCatalog>>) -> Seq<
    BackgroundSessionCatalog,
>
    decreases found.len(),
{
    if found.len() == 0 {
        Seq::empty()
    } else {
        let before = listed(found.drop_last());
        match found.last() {
            Some(catalog) if catalog.version == CATALOG_VERSION => inserted(before, catalog),
            _ => before,
        }
    }
}

proof fn lemma_inserted_at(
    sorted: Seq<BackgroundSessionCatalog>,
    catalog: BackgroundSessionCatalog,
    at: int,
)
    requires
        0 <= at <= sorted.len(),
        at == 0 || in_order(sorted[at - 1], catalog),
        forall|i: int| at <= i < sorted.len() ==> !in_order(#[trigger] sorted[i], catalog),
    ensures
        inserted(sorted, catalog) == sorted.insert(at, catalog),
    decreases sorted.len(),
{
    if at == sorted.len() {
        assert(sorted.push(catalog) == sorted.insert(at, catalog));
    } else {
        let shorter = sorted.drop_last();
        assert(!in_order(sorted[sorted.len() - 1], catalog));
        assert forall|i: int| at <= i < shorter.len() implies !in_order(
            #[trigger] shorter[i],
            catalog,
        ) by {
            assert(shorter[i] == sorted[i]);
        }
        lemma_inserted_at(shorter, catalog, at);
        assert(shorter.insert(at, catalog).push(sorted.last()) == sorted.insert(at, catalog));
    }
}

/// The readable catalogs of the current version, in order. `found` holds what
/// each catalog file was read as, if it could be.
pub fn read_session_catalogs(found: Vec<Option<BackgroundSessionCatalog>>) -> (result: Vec<
    BackgroundSessionCatalog,
>)
    ensures
        result@ == listed(found@),
{
    let ghost given = found@;
    let mut reversed: Vec<Option<BackgroundSessionCatalog>> = Vec::new();
    let mut remaining = found;
    while remaining.len() > 0
        invariant
            remaining@.len() <= given.len(),
            remaining@ == given.take(remaining@.len() as int),
            reversed@.len() == given.len() - remaining@.len(),
            forall|i: int|
                0 <= i < reversed@.len() ==> #[trigger] reversed@[i] == given[given.len() - 1 - i],
        decreases remaining@.len(),
    {
        let ghost count = remaining@.len();
        match remaining.pop() {
            Some(catalog) => {
                reversed.push(catalog);
            },
            None => {},
        }
        proof {
            assert(remaining@ == given.take(count - 1));
        }
    }
    let mut result: Vec<BackgroundSessionCatalog> = Vec::new();
    proof {
        assert(given.take(0) == Seq::<Option<BackgroundSessionCatalog>>::empty());
    }
    while reversed.len() > 0
        invariant
            reversed@.len() <= given.len(),
            forall|i: int|
                0 <= i < reversed@.len() ==> #[trigger] reversed@[i] == given[given.len() - 1 - i],
            result@ == listed(given.take(given.len() - reversed@.len())),
        decreases reversed@.len(),
    {
        let ghost done = given.len() - reversed@.len();
        proof {
            assert(given.take(done + 1).drop_last() == given.take(done));
            assert(given.take(done + 1).last() == given[done]);
            assert(reversed@[reversed@.len() - 1] == given[done]);
        }
        match reversed.pop() {
            Some(Some(catalog)) => {
                if catalog.version == CATALOG_VERSION {
                    let mut at: usize = result.len();
                    while at > 0 && !(result[at - 1].process_id < catalog.process_id || (result[at
                        - 1].process_id == catalog.process_id && result[at - 1].runner_id
                        <= catalog.runner_id))
                        invariant
                            at <= result@.len(),
                            forall|i: int|
                                at <= i < result@.len() ==> !in_order(
                                    #[trigger] result@[i],
                                    catalog,
                                ),
                        decreases at,
                    {
                        at = at - 1;
                    }
                    proof {
                        lemma_inserted_at(result@, catalog, at as int);
                    }
                    result.insert(at, catalog);
                }
            },
            _ => {},
        }
    }
    proof {
        assert(given.take(given.len() as int) == given);
    }
    result
}

/// The listed catalogs are in order, and are exactly the readable ones of the
/// current version.
pub proof fn law_catalogs_are_listed_in_order(found: Seq<Option<BackgroundSessionCatalog>>)
    ensures
        forall|i: int, j: int|
            #![trigger listed(found)[i], listed(found)[j]]
            0 <= i <= j < listed(found).len() ==> in_order(listed(found)[i], listed(found)[j]),
        forall|catalog: BackgroundSessionCatalog| #[trigger]
            listed(found).contains(catalog) <==> catalog.version == CATALOG_VERSION
                && found.contains(Some(catalog)),
    decreases found.len(),
{
    if found.len() > 0 {
        let rest = found.drop_last();
        law_catalogs_are_listed_in_order(rest);
        let before = listed(rest);
        assert forall|catalog: BackgroundSessionCatalog| found.contains(Some(catalog)) <==> (
        rest.contains(Some(catalog)) || found.last() == Some(catalog)) by {
            if rest.contains(Some(catalog)) {
                let i = choose|i: int| 0 <= i < rest.len() && rest[i] == Some(catalog);
                assert(found[i] == Some(catalog));
            }
            if found.contains(Some(catalog)) {
                let i = choose|i: int| 0 <= i < found.len() && found[i] == Some(catalog);
                if i < rest.len() {
                    assert(rest[i] == Some(catalog));
                }
            }
            if found.last() == Some(catalog) {
                assert(found[found.len() - 1] == Some(catalog));
            }
        }
        match found.last() {
            Some(catalog) if catalog.version == CATALOG_VERSION => {
                lemma_insertion_keeps_order(before, catalog);
                assert forall|other: BackgroundSessionCatalog| #[trigger]
                    listed(found).contains(other) <==> other.version == CATALOG_VERSION
                        && found.contains(Some(other)) by {
                    assert(inserted(before, catalog).contains(other) <==> (before.contains(other)
                        || other == catalog));
                }
            },
            _ => {},
        }
    }
}

proof fn lemma_insertion_keeps_order(
    sorted: Seq<BackgroundSessionCatalog>,
    catalog: BackgroundSessionCatalog,
)
    requires
        forall|i: int, j: int|
            #![trigger sorted[i], sorted[j]]
            0 <= i <= j < sorted.len() ==> in_order(sorted[i], sorted[j]),
    ensures
        ({
            let result = inserted(sorted, catalog);
            &&& result.len() == sorted.len() + 1
            &&& forall|i: int, j: int|
                #![trigger result[i], result[j]]
                0 <= i <= j < result.len() ==> in_order(result[i], result[j])
            &&& forall|other: BackgroundSessionCatalog| #[trigger]
                result.contains(other) <==> (sorted.contains(other) || other == catalog)
        }),
    decreases sorted.len(),
{
    let result = inserted(sorted, catalog);
    if sorted.len() == 0 || in_order(sorted.last(), catalog) {
        assert forall|i: int, j: int|
            #![trigger result[i], result[j]]
            0 <= i <= j < result.len() implies in_order(result[i], result[j]) by {
            if j < sorted.len() {
                assert(in_order(sorted[i], sorted[j]));
            } else if i < sorted.len() {
                assert(in_order(sorted[i], sorted[sorted.len() - 1]));
            }
        }
        lemma_push_contains(sorted, catalog);
    } else {
        let shorter = sorted.drop_last();
        assert forall|i: int, j: int|
            #![trigger shorter[i], shorter[j]]
            0 <= i <= j < shorter.len() implies in_order(shorter[i], shorter[j]) by {
            assert(in_order(sorted[i], sorted[j]));
        }
        lemma_insertion_keeps_order(shorter, catalog);
        let inner = inserted(shorter, catalog);
        assert forall|i: int, j: int|
            #![trigger result[i], result[j]]
            0 <= i <= j < result.len() implies in_order(result[i], result[j]) by {
            if j < inner.len() {
                assert(in_order(inner[i], inner[j]));
            } else if i < inner.len() {
                assert(inner.contains(inner[i]));
                if inner[i] != catalog {
                    let k = choose|k: int| 0 <= k < shorter.len() && shorter[k] == inner[i];
                    assert(in_order(sorted[k], sorted[sorted.len() - 1]));
                }
            }
        }
        lemma_push_contains(inner, sorted.last());
        assert(shorter.push(sorted.last()) == sorted);
        lemma_push_contains(shorter, sorted.last());
    }
}

proof fn lemma_push_contains(
    list: Seq<BackgroundSessionCatalog>,
    catalog: BackgroundSessionCatalog,
)
    ensures
        forall|other: BackgroundSessionCatalog| #[trigger]
            list.push(catalog).contains(other) <==> (list.contains(other) || other == catalog),
{
    assert forall|other: BackgroundSessionCatalog| #[trigger]
        list.push(catalog).contains(other) <==> (list.contains(other) || other == catalog) by {
        let longer = list.push(catalog);
        if list.contains(other) {
            let i = choose|i: int| 0 <= i < list.len() && list[i] == other;
            assert(longer[i] == other);
        }
        if other == catalog {
            assert(longer[list.len() as int] == other);
        }
        if longer.contains(other) {
            let i = choose|i: int| 0 <= i < longer.len() && longer[i] == other;
            if i < list.len() {
                assert(list[i] == other);
            }
        }
    }
}

/// What follows the last separator of a command's path, or the whole command
/// where nothing does.
pub open spec fn application_name(executable: Seq<char>) -> Seq<char> {
    let tail = crate::profile_icon::tail_part(executable);
    if tail.len() == 0 {
        executable
    } else {
        tail
    }
}

/// The name of the application that a command line runs.
pub fn application_from_command_line(command: Option<&Vec<String>>) -> (result: Option<String>)
    ensures
        match command {
            Some(arguments) if arguments@.len() > 0 => result matches Some(name) && name@
                == application_name(arguments@[0]@),
            _ => result is None,
        },
{
    match command {
        Some(arguments) => {
            if arguments.len() == 0 {
                return None;
            }
            let executable = characters(arguments[0].as_str());
            let end: usize = executable.len();
            let mut start: usize = end;
            while start > 0 && executable[start - 1] != '/' && executable[start - 1] != '\\'
                invariant
                    start <= end,
                    end == executable@.len(),
                    forall|i: int|
                        start <= i < end ==> !crate::profile_icon::is_separator(
                            #[trigger] executable@[i],
                        ),
                decreases start,
            {
                start = start - 1;
            }
            proof {
                crate::profile_icon::lemma_tail_part(executable@, start as int);
                assert(executable@.skip(start as int) == executable@.subrange(
                    start as int,
                    end as int,
                ));
            }
            if start == end {
                Some(arguments[0].clone())
            } else {
                Some(text_between(&executable, start, end))
            }
        },
        None => None,
    }
}

} // verus!
