//! The commands that a project registers, and running them by name.

use vstd::prelude::*;
use vstd::string::StringSliceAdditionalSpecFns;

use crate::json::{
    entries_view, find_other_key, first_other_key, get, lemma_object_view, lookup, names_view, Json,
    JsonView,
};
use crate::text::{
    characters, contains_character, eq_ignore_ascii_case, has_prefix, is_control,
    is_control_character, is_space, is_whitespace, lowered, same_ignoring_case, same_text, starts_with,
    text_between, texts, trim, trimmed,
};

verus! {

/// The command string, its arguments, and the environment it carries over the
/// local process-control protocol are intentionally bounded. This keeps a
/// project file from turning one control request into an unbounded allocation.
pub const MAX_SHELL_COMMAND_BYTES: usize = 65_536;

/// Names and values, as they view.
pub open spec fn pairs(list: Seq<(String, String)>) -> Seq<(Seq<char>, Seq<char>)> {
    list.map_values(|pair: (String, String)| (pair.0@, pair.1@))
}

/// A command that a project registers.
#[derive(Debug, PartialEq, Eq)]
pub struct RegisteredProjectCommand {
    pub name: String,
    pub command: String,
    pub environment: Vec<(String, String)>,
}

/// What `zetta cmd` is asked to do.
#[derive(Debug, PartialEq, Eq)]
pub enum ProjectCommandInvocation {
    Help,
    List,
    Run { name: String, arguments: Vec<String> },
}

/// Why a command name is refused.
#[derive(Clone, Copy, Debug, PartialEq, Eq, Structural)]
pub enum CommandNameError {
    Empty,
    LeadingDash,
    WhitespaceOrControl,
}

/// Whether any character is whitespace or a control character.
pub open spec fn has_space_or_control(text: Seq<char>) -> bool {
    exists|i: int|
        0 <= i < text.len() && (is_space(#[trigger] text[i]) || is_control_character(text[i]))
}

/// Why a command name is refused, if it is.
pub open spec fn command_name_error(name: Seq<char>) -> Option<CommandNameError> {
    if name.len() == 0 {
        Some(CommandNameError::Empty)
    } else if name.first() == '-' {
        Some(CommandNameError::LeadingDash)
    } else if has_space_or_control(name) {
        Some(CommandNameError::WhitespaceOrControl)
    } else {
        None
    }
}

/// Checks a command name.
pub fn validate_command_name(name: &str) -> (result: Result<(), CommandNameError>)
    ensures
        result == match command_name_error(name@) {
            Some(error) => Err::<(), CommandNameError>(error),
            None => Ok(()),
        },
{
    let content = characters(name);
    if content.len() == 0 {
        return Err(CommandNameError::Empty);
    }
    if content[0] == '-' {
        return Err(CommandNameError::LeadingDash);
    }
    let mut index: usize = 0;
    while index < content.len()
        invariant
            content@ == name@,
            content@.len() > 0,
            name@.first() != '-',
            index <= content@.len(),
            forall|i: int|
                0 <= i < index ==> !(is_space(#[trigger] name@[i]) || is_control_character(
                    name@[i],
                )),
        decreases content@.len() - index,
    {
        if is_whitespace(content[index]) || is_control(content[index]) {
            proof {
                assert(is_space(name@[index as int]) || is_control_character(name@[index as int]));
            }
            return Err(CommandNameError::WhitespaceOrControl);
        }
        index = index + 1;
    }
    Ok(())
}

/// Why a command string is refused.
#[derive(Clone, Copy, Debug, PartialEq, Eq, Structural)]
pub enum CommandStringError {
    Blank,
    Nul,
    TooLong,
}

/// Why a command string is refused, if it is.
pub open spec fn command_string_error(command: Seq<char>) -> Option<CommandStringError> {
    if trimmed(command).len() == 0 {
        Some(CommandStringError::Blank)
    } else if command.contains('\0') {
        Some(CommandStringError::Nul)
    } else if byte_len(command) > MAX_SHELL_COMMAND_BYTES {
        Some(CommandStringError::TooLong)
    } else {
        None
    }
}

/// How many bytes a text takes.
pub open spec fn byte_len(text: Seq<char>) -> nat {
    vstd::utf8::encode_utf8(text).len()
}

/// Checks a command string.
pub fn validate_command_string(command: &str) -> (result: Result<(), CommandStringError>)
    ensures
        result == match command_string_error(command@) {
            Some(error) => Err::<(), CommandStringError>(error),
            None => Ok(()),
        },
{
    if trim(command).as_str().is_empty() {
        return Err(CommandStringError::Blank);
    }
    if contains_character(command, '\0') {
        return Err(CommandStringError::Nul);
    }
    if command.as_bytes().len() > MAX_SHELL_COMMAND_BYTES {
        return Err(CommandStringError::TooLong);
    }
    Ok(())
}

/// Why an environment entry is refused.
#[derive(Clone, Copy, Debug, PartialEq, Eq, Structural)]
pub enum EnvironmentEntryError {
    /// The name is empty or has `=` or NUL in it.
    InvalidName,
    /// The name is one of Zetta's own.
    Reserved,
    /// The value has NUL in it.
    NulInValue,
    /// The name is not a shell identifier.
    NotAnIdentifier,
}

/// Whether a variable is one of Zetta's own.
pub open spec fn is_reserved_variable(name: Seq<char>) -> bool {
    name.len() >= 6 && same_ignoring_case(name.take(6), "ZETTA_"@)
}

/// Why an environment entry is refused, if it is.
pub open spec fn environment_entry_error(name: Seq<char>, value: Seq<char>) -> Option<
    EnvironmentEntryError,
> {
    if name.len() == 0 || name.contains('=') || name.contains('\0') {
        Some(EnvironmentEntryError::InvalidName)
    } else if is_reserved_variable(name) {
        Some(EnvironmentEntryError::Reserved)
    } else if value.contains('\0') {
        Some(EnvironmentEntryError::NulInValue)
    } else {
        None
    }
}

/// Checks an environment entry.
pub fn validate_environment_entry(name: &str, value: &str) -> (result: Result<
    (),
    EnvironmentEntryError,
>)
    ensures
        result == match environment_entry_error(name@, value@) {
            Some(error) => Err::<(), EnvironmentEntryError>(error),
            None => Ok(()),
        },
{
    if name.is_empty() || contains_character(name, '=') || contains_character(name, '\0') {
        return Err(EnvironmentEntryError::InvalidName);
    }
    if is_reserved(name) {
        return Err(EnvironmentEntryError::Reserved);
    }
    if contains_character(value, '\0') {
        return Err(EnvironmentEntryError::NulInValue);
    }
    Ok(())
}

fn is_reserved(name: &str) -> (result: bool)
    ensures
        result == is_reserved_variable(name@),
{
    let content = characters(name);
    if content.len() < 6 {
        return false;
    }
    let prefix = text_between(&content, 0, 6);
    proof {
        assert(name@.take(6) == content@.subrange(0, 6));
    }
    eq_ignore_ascii_case(prefix.as_str(), "ZETTA_")
}

pub open spec fn is_identifier_start(character: char) -> bool {
    'a' <= character <= 'z' || 'A' <= character <= 'Z' || character == '_'
}

/// Whether a name is a shell identifier: letters, digits and underscores, the
/// first no digit.
pub open spec fn is_identifier(name: Seq<char>) -> bool {
    &&& name.len() > 0
    &&& is_identifier_start(name.first())
    &&& forall|i: int|
        0 <= i < name.len() ==> is_identifier_start(#[trigger] name[i]) || '0' <= name[i] <= '9'
}

fn identifier(name: &str) -> (result: bool)
    ensures
        result == is_identifier(name@),
{
    let content = characters(name);
    let mut index: usize = 0;
    while index < content.len()
        invariant
            content@ == name@,
            index <= content@.len(),
            index > 0 ==> is_identifier_start(name@.first()),
            forall|i: int|
                0 <= i < index ==> is_identifier_start(#[trigger] name@[i]) || '0' <= name@[i]
                    <= '9',
        decreases content@.len() - index,
    {
        let character = content[index];
        let starts = ('a' <= character && character <= 'z') || ('A' <= character && character
            <= 'Z') || character == '_';
        let digit = '0' <= character && character <= '9';
        if !starts && (index == 0 || !digit) {
            proof {
                assert(name@[index as int] == character);
            }
            return false;
        }
        index = index + 1;
    }
    content.len() > 0
}

/// Why an entry of a command's own environment is refused, if it is.
pub open spec fn command_environment_entry_error(name: Seq<char>, value: Seq<char>) -> Option<
    EnvironmentEntryError,
> {
    match environment_entry_error(name, value) {
        Some(error) => Some(error),
        None => if is_identifier(name) {
            None
        } else {
            Some(EnvironmentEntryError::NotAnIdentifier)
        },
    }
}

/// Checks an entry of a command's own environment.
pub fn validate_command_environment_entry(name: &str, value: &str) -> (result: Result<
    (),
    EnvironmentEntryError,
>)
    ensures
        result == match command_environment_entry_error(name@, value@) {
            Some(error) => Err::<(), EnvironmentEntryError>(error),
            None => Ok(()),
        },
{
    match validate_environment_entry(name, value) {
        Err(error) => Err(error),
        Ok(_) => if identifier(name) {
            Ok(())
        } else {
            Err(EnvironmentEntryError::NotAnIdentifier)
        },
    }
}

/// Whether a name is in the list, up to the case of ASCII letters.
pub open spec fn names_ignoring_case(
    list: Seq<(Seq<char>, Seq<char>)>,
    name: Seq<char>,
) -> bool {
    exists|i: int| 0 <= i < list.len() && same_ignoring_case((#[trigger] list[i]).0, name)
}

/// Whether a name is in the list, up to the case of ASCII letters.
pub fn contains_name(list: &Vec<(String, String)>, name: &str) -> (result: bool)
    ensures
        result == names_ignoring_case(pairs(list@), name@),
{
    let mut index: usize = 0;
    while index < list.len()
        invariant
            index <= list@.len(),
            forall|i: int| 0 <= i < index ==> !same_ignoring_case((#[trigger] pairs(list@)[i]).0, name@),
        decreases list@.len() - index,
    {
        if eq_ignore_ascii_case(list[index].0.as_str(), name) {
            proof {
                assert(same_ignoring_case(pairs(list@)[index as int].0, name@));
            }
            return true;
        }
        index = index + 1;
    }
    false
}

/// Why a command's environment is refused.
#[derive(Debug, PartialEq, Eq)]
pub enum CommandEnvironmentError {
    /// It is not an object.
    NotAnObject,
    /// A value is not a text.
    NotAText(String),
    /// An entry is not acceptable.
    Entry(String, EnvironmentEntryError),
    /// A name occurs twice, up to case.
    Duplicate(String),
}

/// A command's environment, as far as its entries are acceptable: the entries
/// read so far, or what is wrong with the first that is not.
pub open spec fn environment_read(entries: Seq<(Seq<char>, JsonView)>) -> Result<
    Seq<(Seq<char>, Seq<char>)>,
    EnvironmentFault,
>
    decreases entries.len(),
{
    if entries.len() == 0 {
        Ok(Seq::empty())
    } else {
        match environment_read(entries.drop_last()) {
            Err(fault) => Err(fault),
            Ok(read) => {
                let name = entries.last().0;
                match entries.last().1 {
                    JsonView::Text(value) => match command_environment_entry_error(name, value) {
                        Some(error) => Err(EnvironmentFault::Entry(name, error)),
                        None => if names_ignoring_case(read, name) {
                            Err(EnvironmentFault::Duplicate(name))
                        } else {
                            Ok(read.push((name, value)))
                        },
                    },
                    _ => Err(EnvironmentFault::NotAText(name)),
                }
            },
        }
    }
}

/// What is wrong with an environment, and with which of its entries.
pub ghost enum EnvironmentFault {
    NotAText(Seq<char>),
    Entry(Seq<char>, EnvironmentEntryError),
    Duplicate(Seq<char>),
}

/// Whether an error reports a fault.
pub open spec fn reports(error: CommandEnvironmentError, fault: EnvironmentFault) -> bool {
    match (error, fault) {
        (CommandEnvironmentError::NotAText(name), EnvironmentFault::NotAText(of)) => name@ == of,
        (CommandEnvironmentError::Entry(name, why), EnvironmentFault::Entry(of, because)) => name@
            == of && why == because,
        (CommandEnvironmentError::Duplicate(name), EnvironmentFault::Duplicate(of)) => name@ == of,
        _ => false,
    }
}

/// Whether reading a command's environment came out as it should.
pub open spec fn environment_outcome(
    value: JsonView,
    result: Result<Vec<(String, String)>, CommandEnvironmentError>,
) -> bool {
    match value {
        JsonView::Object(entries) => match environment_read(entries) {
            Ok(read) => result matches Ok(environment) && pairs(environment@) == read,
            Err(fault) => result matches Err(error) && reports(error, fault),
        },
        _ => result matches Err(CommandEnvironmentError::NotAnObject),
    }
}

/// A refused entry refuses every list of entries that goes on from there.
proof fn lemma_environment_fault_stays(entries: Seq<(Seq<char>, JsonView)>, length: int)
    requires
        0 <= length <= entries.len(),
        environment_read(entries.take(length)) is Err,
    ensures
        environment_read(entries) == environment_read(entries.take(length)),
    decreases entries.len() - length,
{
    if length < entries.len() {
        assert(entries.take(length + 1).drop_last() == entries.take(length));
        lemma_environment_fault_stays(entries, length + 1);
    } else {
        assert(entries.take(length) == entries);
    }
}

/// Reads a command's environment.
pub fn parse_command_environment(value: &Json) -> (result: Result<
    Vec<(String, String)>,
    CommandEnvironmentError,
>)
    ensures
        environment_outcome(value.view(), result),
{
    match value {
        Json::Object(entries) => {
            proof {
                lemma_object_view(*entries);
            }
            read_environment(entries)
        },
        _ => Err(CommandEnvironmentError::NotAnObject),
    }
}

fn read_environment(entries: &Vec<(String, Json)>) -> (result: Result<
    Vec<(String, String)>,
    CommandEnvironmentError,
>)
    ensures
        environment_outcome(JsonView::Object(entries_view(entries@)), result),
{
    let ghost shown = entries_view(entries@);
    let mut environment: Vec<(String, String)> = Vec::new();
    let mut index: usize = 0;
    proof {
        assert(shown.take(0) == Seq::<(Seq<char>, JsonView)>::empty());
        assert(pairs(environment@) == Seq::<(Seq<char>, Seq<char>)>::empty());
    }
    while index < entries.len()
        invariant
            shown == entries_view(entries@),
            index <= entries@.len(),
            environment_read(shown.take(index as int)) == Ok::<
                Seq<(Seq<char>, Seq<char>)>,
                EnvironmentFault,
            >(pairs(environment@)),
        decreases entries@.len() - index,
    {
        let name = &entries[index].0;
        proof {
            let longer = shown.take(index + 1);
            assert(longer.drop_last() == shown.take(index as int));
            assert(longer.last() == (entries@[index as int].0@, entries@[index as int].1.view()));
            if environment_read(longer) is Err {
                lemma_environment_fault_stays(shown, index + 1);
            }
        }
        match &entries[index].1 {
            Json::Text(value) => {
                match validate_command_environment_entry(name.as_str(), value.as_str()) {
                    Err(error) => {
                        return Err(CommandEnvironmentError::Entry(name.clone(), error));
                    },
                    Ok(_) => {},
                }
                if contains_name(&environment, name.as_str()) {
                    return Err(CommandEnvironmentError::Duplicate(name.clone()));
                }
                let ghost before = environment@;
                environment.push((name.clone(), value.clone()));
                proof {
                    assert(pairs(environment@) == pairs(before).push((name@, value@)));
                }
            },
            _ => {
                return Err(CommandEnvironmentError::NotAText(name.clone()));
            },
        }
        index = index + 1;
    }
    proof {
        assert(shown.take(index as int) == shown);
    }
    Ok(environment)
}

/// An environment that is read has every name once, up to case, and none of
/// Zetta's own.
pub proof fn law_read_environment_is_sound(entries: Seq<(Seq<char>, JsonView)>)
    ensures
        environment_read(entries) matches Ok(read) ==> {
            &&& read.len() == entries.len()
            &&& forall|i: int, j: int|
                #![trigger read[i], read[j]]
                0 <= i < j < read.len() ==> !same_ignoring_case(read[i].0, read[j].0)
            &&& forall|i: int|
                0 <= i < read.len() ==> !is_reserved_variable((#[trigger] read[i]).0)
                    && is_identifier(read[i].0)
        },
    decreases entries.len(),
{
    if entries.len() > 0 {
        law_read_environment_is_sound(entries.drop_last());
        if let Ok(before) = environment_read(entries.drop_last()) {
            if let Ok(read) = environment_read(entries) {
                assert forall|i: int, j: int|
                    #![trigger read[i], read[j]]
                    0 <= i < j < read.len() implies !same_ignoring_case(read[i].0, read[j].0) by {
                    if j < before.len() {
                        assert(!same_ignoring_case(before[i].0, before[j].0));
                    } else {
                        assert(before[i] == read[i]);
                    }
                }
                assert forall|i: int| 0 <= i < read.len() implies !is_reserved_variable(
                    (#[trigger] read[i]).0,
                ) && is_identifier(read[i].0) by {
                    if i < before.len() {
                        assert(before[i] == read[i]);
                    }
                }
            }
        }
    }
}

/// A list without the entries of a name, up to case.
pub open spec fn without_name(
    list: Seq<(Seq<char>, Seq<char>)>,
    name: Seq<char>,
) -> Seq<(Seq<char>, Seq<char>)>
    decreases list.len(),
{
    if list.len() == 0 {
        list
    } else {
        let before = without_name(list.drop_last(), name);
        if same_ignoring_case(list.last().0, name) {
            before
        } else {
            before.push(list.last())
        }
    }
}

/// A project's environment with a command's own entries over it.
///
/// Environment names are case-insensitive on Windows, and they are treated
/// that way on every platform so a configuration does not behave differently
/// merely because it moved between machines.
pub open spec fn merged(
    project: Seq<(Seq<char>, Seq<char>)>,
    command: Seq<(Seq<char>, Seq<char>)>,
) -> Seq<(Seq<char>, Seq<char>)>
    decreases command.len(),
{
    if command.len() == 0 {
        project
    } else {
        without_name(merged(project, command.drop_last()), command.last().0).push(command.last())
    }
}

fn drop_name(list: &Vec<(String, String)>, name: &str) -> (result: Vec<(String, String)>)
    ensures
        pairs(result@) == without_name(pairs(list@), name@),
{
    let mut kept: Vec<(String, String)> = Vec::new();
    let mut index: usize = 0;
    proof {
        assert(pairs(list@).take(0) == Seq::<(Seq<char>, Seq<char>)>::empty());
        assert(pairs(kept@) == Seq::<(Seq<char>, Seq<char>)>::empty());
    }
    while index < list.len()
        invariant
            index <= list@.len(),
            pairs(kept@) == without_name(pairs(list@).take(index as int), name@),
        decreases list@.len() - index,
    {
        proof {
            let longer = pairs(list@).take(index + 1);
            assert(longer.drop_last() == pairs(list@).take(index as int));
            assert(longer.last() == (list@[index as int].0@, list@[index as int].1@));
        }
        if !eq_ignore_ascii_case(list[index].0.as_str(), name) {
            let ghost before = kept@;
            kept.push((list[index].0.clone(), list[index].1.clone()));
            proof {
                assert(pairs(kept@) == pairs(before).push(
                    (list@[index as int].0@, list@[index as int].1@),
                ));
            }
        }
        index = index + 1;
    }
    proof {
        assert(pairs(list@).take(index as int) == pairs(list@));
    }
    kept
}

/// A copy of names and values.
pub fn copy_pairs(list: &Vec<(String, String)>) -> (result: Vec<(String, String)>)
    ensures
        pairs(result@) == pairs(list@),
{
    let mut copy: Vec<(String, String)> = Vec::new();
    let mut index: usize = 0;
    proof {
        assert(pairs(copy@) == pairs(list@).take(0));
    }
    while index < list.len()
        invariant
            index <= list@.len(),
            pairs(copy@) == pairs(list@).take(index as int),
        decreases list@.len() - index,
    {
        let ghost before = copy@;
        copy.push((list[index].0.clone(), list[index].1.clone()));
        index = index + 1;
        proof {
            let added = (list@[index - 1].0@, list@[index - 1].1@);
            assert(pairs(copy@) == pairs(before).push(added));
            assert(pairs(list@).take(index as int) == pairs(list@).take(index - 1).push(added));
        }
    }
    proof {
        assert(pairs(list@).take(index as int) == pairs(list@));
    }
    copy
}

/// A project's environment with a command's own entries over it.
pub fn merge_command_environment(
    project_environment: &Vec<(String, String)>,
    command_environment: &Vec<(String, String)>,
) -> (result: Vec<(String, String)>)
    ensures
        pairs(result@) == merged(pairs(project_environment@), pairs(command_environment@)),
{
    let mut environment = copy_pairs(project_environment);
    let mut index: usize = 0;
    let ghost command = pairs(command_environment@);
    proof {
        assert(command.take(0) == Seq::<(Seq<char>, Seq<char>)>::empty());
    }
    while index < command_environment.len()
        invariant
            command == pairs(command_environment@),
            index <= command_environment@.len(),
            pairs(environment@) == merged(pairs(project_environment@), command.take(index as int)),
        decreases command_environment@.len() - index,
    {
        let entry = &command_environment[index];
        proof {
            let longer = command.take(index + 1);
            assert(longer.drop_last() == command.take(index as int));
            assert(longer.last() == (entry.0@, entry.1@));
        }
        environment = drop_name(&environment, entry.0.as_str());
        let ghost before = environment@;
        environment.push((entry.0.clone(), entry.1.clone()));
        proof {
            assert(pairs(environment@) == pairs(before).push((entry.0@, entry.1@)));
        }
        index = index + 1;
    }
    proof {
        assert(command.take(index as int) == command);
    }
    environment
}

proof fn lemma_without_name(list: Seq<(Seq<char>, Seq<char>)>, name: Seq<char>)
    ensures
        forall|entry: (Seq<char>, Seq<char>)| #[trigger]
            without_name(list, name).contains(entry) <==> list.contains(entry)
                && !same_ignoring_case(entry.0, name),
    decreases list.len(),
{
    if list.len() > 0 {
        let shorter = list.drop_last();
        lemma_without_name(shorter, name);
        let kept = without_name(shorter, name);
        assert(list == shorter.push(list.last()));
        assert forall|entry: (Seq<char>, Seq<char>)| #[trigger]
            without_name(list, name).contains(entry) <==> list.contains(entry)
                && !same_ignoring_case(entry.0, name) by {
            lemma_push_entry(shorter, list.last(), entry);
            lemma_push_entry(kept, list.last(), entry);
        }
    }
}

proof fn lemma_push_entry(
    list: Seq<(Seq<char>, Seq<char>)>,
    added: (Seq<char>, Seq<char>),
    entry: (Seq<char>, Seq<char>),
)
    ensures
        list.push(added).contains(entry) == (list.contains(entry) || entry == added),
{
    let longer = list.push(added);
    if list.contains(entry) {
        let i = choose|i: int| 0 <= i < list.len() && list[i] == entry;
        assert(longer[i] == entry);
    }
    if entry == added {
        assert(longer[list.len() as int] == entry);
    }
    if longer.contains(entry) {
        let i = choose|i: int| 0 <= i < longer.len() && longer[i] == entry;
        if i < list.len() {
            assert(list[i] == entry);
        }
    }
}

/// A merged environment has the command's entries, and of the project's those
/// that the command does not name in whatever case.
pub proof fn law_command_entries_win(
    project: Seq<(Seq<char>, Seq<char>)>,
    command: Seq<(Seq<char>, Seq<char>)>,
)
    requires
        forall|i: int, j: int|
            #![trigger command[i], command[j]]
            0 <= i < j < command.len() ==> !same_ignoring_case(command[i].0, command[j].0),
    ensures
        forall|entry: (Seq<char>, Seq<char>)| #[trigger]
            merged(project, command).contains(entry) <==> command.contains(entry) || (
            project.contains(entry) && !names_ignoring_case(command, entry.0)),
    decreases command.len(),
{
    if command.len() > 0 {
        let shorter = command.drop_last();
        let last = command.last();
        assert(command == shorter.push(last));
        assert forall|i: int, j: int|
            #![trigger shorter[i], shorter[j]]
            0 <= i < j < shorter.len() implies !same_ignoring_case(shorter[i].0, shorter[j].0) by {
            assert(!same_ignoring_case(command[i].0, command[j].0));
        }
        law_command_entries_win(project, shorter);
        lemma_without_name(merged(project, shorter), last.0);
        assert forall|entry: (Seq<char>, Seq<char>)| #[trigger]
            merged(project, command).contains(entry) <==> command.contains(entry) || (
            project.contains(entry) && !names_ignoring_case(command, entry.0)) by {
            lemma_push_entry(without_name(merged(project, shorter), last.0), last, entry);
            lemma_push_entry(shorter, last, entry);
            assert(names_ignoring_case(command, entry.0) == (names_ignoring_case(shorter, entry.0)
                || same_ignoring_case(last.0, entry.0))) by {
                if names_ignoring_case(shorter, entry.0) {
                    let i = choose|i: int|
                        0 <= i < shorter.len() && same_ignoring_case(
                            (#[trigger] shorter[i]).0,
                            entry.0,
                        );
                    assert(same_ignoring_case(command[i].0, entry.0));
                }
                if same_ignoring_case(last.0, entry.0) {
                    assert(same_ignoring_case(command[command.len() - 1].0, entry.0));
                }
                if names_ignoring_case(command, entry.0) {
                    let i = choose|i: int|
                        0 <= i < command.len() && same_ignoring_case(
                            (#[trigger] command[i]).0,
                            entry.0,
                        );
                    if i < shorter.len() {
                        assert(same_ignoring_case(shorter[i].0, entry.0));
                    }
                }
            }
            if shorter.contains(entry) {
                let i = choose|i: int| 0 <= i < shorter.len() && shorter[i] == entry;
                assert(!same_ignoring_case(command[i].0, command[command.len() - 1].0));
            }
        }
    } else {
        assert forall|entry: (Seq<char>, Seq<char>)| #[trigger]
            merged(project, command).contains(entry) <==> command.contains(entry) || (
            project.contains(entry) && !names_ignoring_case(command, entry.0)) by {}
    }
}

/// Why a project's commands are refused.
#[derive(Debug, PartialEq, Eq)]
pub enum ProjectCommandsError {
    /// They are not an object.
    NotAnObject,
    /// A name is not acceptable.
    Name(String, CommandNameError),
    /// A command is neither a text nor an object.
    NotACommand(String),
    /// A command's object has a field that is not known.
    UnknownField(String),
    /// A command's object has no command text.
    MissingCommand(String),
    /// A command's environment is not acceptable.
    Environment(CommandEnvironmentError),
    /// A command's text is not acceptable.
    Command(CommandStringError),
}

/// What is wrong with a project's commands.
pub ghost enum CommandFault {
    Name(Seq<char>, CommandNameError),
    NotACommand(Seq<char>),
    UnknownField(Seq<char>),
    MissingCommand(Seq<char>),
    EnvironmentNotAnObject,
    Environment(EnvironmentFault),
    Command(CommandStringError),
}

/// A registered command, as it views.
pub ghost struct CommandView {
    pub name: Seq<char>,
    pub command: Seq<char>,
    pub environment: Seq<(Seq<char>, Seq<char>)>,
}

impl RegisteredProjectCommand {
    pub open spec fn view(self) -> CommandView {
        CommandView {
            name: self.name@,
            command: self.command@,
            environment: pairs(self.environment@),
        }
    }
}

/// The fields that a command's object may have.
pub open spec fn command_fields() -> Seq<Seq<char>> {
    seq!["command"@, "env"@]
}

/// The environment that a command's object gives: none where it says nothing.
pub open spec fn object_environment(entries: Seq<(Seq<char>, JsonView)>) -> Result<
    Seq<(Seq<char>, Seq<char>)>,
    CommandFault,
> {
    match lookup(entries, "env"@) {
        None => Ok(Seq::empty()),
        Some(JsonView::Object(inner)) => match environment_read(inner) {
            Ok(read) => Ok(read),
            Err(fault) => Err(CommandFault::Environment(fault)),
        },
        Some(_) => Err(CommandFault::EnvironmentNotAnObject),
    }
}

/// One registered command: a text, or an object with a text and an
/// environment.
pub open spec fn command_read(name: Seq<char>, value: JsonView) -> Result<CommandView, CommandFault> {
    match command_name_error(name) {
        Some(error) => Err(CommandFault::Name(name, error)),
        None => {
            let content = match value {
                JsonView::Text(command) => Ok((command, Seq::empty())),
                JsonView::Object(entries) => match first_other_key(entries, command_fields()) {
                    Some(field) => Err(CommandFault::UnknownField(field)),
                    None => match lookup(entries, "command"@) {
                        Some(JsonView::Text(command)) => match object_environment(entries) {
                            Ok(environment) => Ok((command, environment)),
                            Err(fault) => Err(fault),
                        },
                        _ => Err(CommandFault::MissingCommand(name)),
                    },
                },
                _ => Err(CommandFault::NotACommand(name)),
            };
            match content {
                Err(fault) => Err(fault),
                Ok((command, environment)) => match command_string_error(command) {
                    Some(error) => Err(CommandFault::Command(error)),
                    None => Ok(CommandView { name, command, environment }),
                },
            }
        },
    }
}

/// The registered commands: those of all entries, or what is wrong with the
/// first that is not acceptable.
pub open spec fn commands_read(entries: Seq<(Seq<char>, JsonView)>) -> Result<
    Seq<CommandView>,
    CommandFault,
>
    decreases entries.len(),
{
    if entries.len() == 0 {
        Ok(Seq::empty())
    } else {
        match commands_read(entries.drop_last()) {
            Err(fault) => Err(fault),
            Ok(read) => match command_read(entries.last().0, entries.last().1) {
                Err(fault) => Err(fault),
                Ok(command) => Ok(read.push(command)),
            },
        }
    }
}

/// Whether an error reports a fault.
pub open spec fn reports_command_fault(error: ProjectCommandsError, fault: CommandFault) -> bool {
    match (error, fault) {
        (ProjectCommandsError::Name(name, why), CommandFault::Name(of, because)) => name@ == of
            && why == because,
        (ProjectCommandsError::NotACommand(name), CommandFault::NotACommand(of)) => name@ == of,
        (ProjectCommandsError::UnknownField(field), CommandFault::UnknownField(of)) => field@ == of,
        (ProjectCommandsError::MissingCommand(name), CommandFault::MissingCommand(of)) => name@
            == of,
        (
            ProjectCommandsError::Environment(CommandEnvironmentError::NotAnObject),
            CommandFault::EnvironmentNotAnObject,
        ) => true,
        (ProjectCommandsError::Environment(error), CommandFault::Environment(inner)) => reports(
            error,
            inner,
        ),
        (ProjectCommandsError::Command(why), CommandFault::Command(because)) => why == because,
        _ => false,
    }
}

/// The registered commands, as they view.
pub open spec fn commands_view(commands: Seq<RegisteredProjectCommand>) -> Seq<CommandView> {
    commands.map_values(|command: RegisteredProjectCommand| command.view())
}

fn read_command(name: &String, value: &Json) -> (result: Result<
    RegisteredProjectCommand,
    ProjectCommandsError,
>)
    ensures
        match command_read(name@, value.view()) {
            Ok(view) => result matches Ok(command) && command.view() == view,
            Err(fault) => result matches Err(error) && reports_command_fault(error, fault),
        },
{
    match validate_command_name(name.as_str()) {
        Err(error) => {
            return Err(ProjectCommandsError::Name(name.clone(), error));
        },
        Ok(_) => {},
    }
    let (command, environment) = match value {
        Json::Text(command) => {
            let environment: Vec<(String, String)> = Vec::new();
            proof {
                assert(pairs(environment@) == Seq::<(Seq<char>, Seq<char>)>::empty());
            }
            (command.clone(), environment)
        },
        Json::Object(entries) => {
            proof {
                lemma_object_view(*entries);
            }
            let known: Vec<&'static str> = vec!["command", "env"];
            proof {
                assert(names_view(known@) == command_fields());
            }
            match find_other_key(entries, &known) {
                Some(field) => {
                    return Err(ProjectCommandsError::UnknownField(field));
                },
                None => {},
            }
            let command = match get(entries, "command") {
                Some(Json::Text(command)) => command.clone(),
                _ => {
                    return Err(ProjectCommandsError::MissingCommand(name.clone()));
                },
            };
            let environment = match get(entries, "env") {
                None => {
                    let environment: Vec<(String, String)> = Vec::new();
                    proof {
                        assert(pairs(environment@) == Seq::<(Seq<char>, Seq<char>)>::empty());
                    }
                    environment
                },
                Some(inner) => match parse_command_environment(inner) {
                    Ok(environment) => environment,
                    Err(error) => {
                        return Err(ProjectCommandsError::Environment(error));
                    },
                },
            };
            (command, environment)
        },
        _ => {
            return Err(ProjectCommandsError::NotACommand(name.clone()));
        },
    };
    match validate_command_string(command.as_str()) {
        Err(error) => Err(ProjectCommandsError::Command(error)),
        Ok(_) => Ok(RegisteredProjectCommand { name: name.clone(), command, environment }),
    }
}

proof fn lemma_command_fault_stays(entries: Seq<(Seq<char>, JsonView)>, length: int)
    requires
        0 <= length <= entries.len(),
        commands_read(entries.take(length)) is Err,
    ensures
        commands_read(entries) == commands_read(entries.take(length)),
    decreases entries.len() - length,
{
    if length < entries.len() {
        assert(entries.take(length + 1).drop_last() == entries.take(length));
        lemma_command_fault_stays(entries, length + 1);
    } else {
        assert(entries.take(length) == entries);
    }
}

/// Reads the commands that a project registers.
pub fn parse_project_commands(value: &Json) -> (result: Result<
    Vec<RegisteredProjectCommand>,
    ProjectCommandsError,
>)
    ensures
        match value.view() {
            JsonView::Object(entries) => match commands_read(entries) {
                Ok(views) => result matches Ok(commands) && commands_view(commands@) == views,
                Err(fault) => result matches Err(error) && reports_command_fault(error, fault),
            },
            _ => result matches Err(ProjectCommandsError::NotAnObject),
        },
{
    let entries = match value {
        Json::Object(entries) => entries,
        _ => {
            return Err(ProjectCommandsError::NotAnObject);
        },
    };
    let ghost shown = entries_view(entries@);
    let mut commands: Vec<RegisteredProjectCommand> = Vec::new();
    let mut index: usize = 0;
    proof {
        lemma_object_view(*entries);
        assert(shown.take(0) == Seq::<(Seq<char>, JsonView)>::empty());
        assert(commands_view(commands@) == Seq::<CommandView>::empty());
    }
    while index < entries.len()
        invariant
            shown == entries_view(entries@),
            value.view() == JsonView::Object(shown),
            index <= entries@.len(),
            commands_read(shown.take(index as int)) == Ok::<Seq<CommandView>, CommandFault>(
                commands_view(commands@),
            ),
        decreases entries@.len() - index,
    {
        proof {
            let longer = shown.take(index + 1);
            assert(longer.drop_last() == shown.take(index as int));
            assert(longer.last() == (entries@[index as int].0@, entries@[index as int].1.view()));
            if commands_read(longer) is Err {
                lemma_command_fault_stays(shown, index + 1);
            }
        }
        match read_command(&entries[index].0, &entries[index].1) {
            Ok(command) => {
                let ghost before = commands@;
                let ghost added = command.view();
                commands.push(command);
                proof {
                    assert(commands_view(commands@) == commands_view(before).push(added));
                }
            },
            Err(error) => {
                return Err(error);
            },
        }
        index = index + 1;
    }
    proof {
        assert(shown.take(index as int) == shown);
    }
    Ok(commands)
}

/// Why the arguments of `zetta cmd` are refused.
#[derive(Debug, PartialEq, Eq)]
pub enum CommandLineError {
    /// There is neither a name nor `--list`.
    MissingName,
    /// `--list` has arguments.
    ListWithArguments,
    /// An option is not known.
    UnknownOption(String),
    /// The command's arguments do not follow `--`.
    ArgumentsWithoutDelimiter,
    /// The name is not acceptable.
    Name(CommandNameError),
}

/// What the arguments of `zetta cmd` ask for.
pub ghost enum InvocationView {
    Help,
    List,
    Run(Seq<char>, Seq<Seq<char>>),
}

impl ProjectCommandInvocation {
    pub open spec fn view(self) -> InvocationView {
        match self {
            ProjectCommandInvocation::Help => InvocationView::Help,
            ProjectCommandInvocation::List => InvocationView::List,
            ProjectCommandInvocation::Run { name, arguments } => InvocationView::Run(
                name@,
                texts(arguments@),
            ),
        }
    }
}

/// Where `--` first stands.
pub open spec fn delimiter_at(arguments: Seq<Seq<char>>) -> Option<int>
    decreases arguments.len(),
{
    if arguments.len() == 0 {
        None
    } else if arguments.first() == "--"@ {
        Some(0)
    } else {
        match delimiter_at(arguments.drop_first()) {
            Some(index) => Some(index + 1),
            None => None,
        }
    }
}

/// Whether help is asked for before any `--`.
pub open spec fn asks_for_help(arguments: Seq<Seq<char>>) -> bool
    decreases arguments.len(),
{
    arguments.len() > 0 && arguments.first() != "--"@ && (arguments.first() == "--help"@
        || arguments.first() == "-h"@ || asks_for_help(arguments.drop_first()))
}

/// What the arguments of `zetta cmd` ask for, or why they are refused.
pub open spec fn invocation(
    arguments: Seq<Seq<char>>,
    result: Result<ProjectCommandInvocation, CommandLineError>,
) -> bool {
    if asks_for_help(arguments) {
        result matches Ok(asked) && asked.view() == InvocationView::Help
    } else if arguments.len() == 0 {
        result matches Err(CommandLineError::MissingName)
    } else {
        let name = arguments.first();
        if name == "--list"@ || name == "-l"@ {
            if arguments.len() == 1 {
                result matches Ok(asked) && asked.view() == InvocationView::List
            } else {
                result matches Err(CommandLineError::ListWithArguments)
            }
        } else if has_prefix(name, "-"@) {
            result matches Err(CommandLineError::UnknownOption(option)) && option@ == name
        } else if delimiter_at(arguments) matches Some(index) && index != 1 {
            result matches Err(CommandLineError::ArgumentsWithoutDelimiter)
        } else if command_name_error(name) is Some {
            result matches Err(CommandLineError::Name(error)) && command_name_error(name) == Some(
                error,
            )
        } else if delimiter_at(arguments) is Some {
            result matches Ok(asked) && asked.view() == InvocationView::Run(
                name,
                arguments.skip(2),
            )
        } else if arguments.len() == 1 {
            result matches Ok(asked) && asked.view() == InvocationView::Run(name, Seq::empty())
        } else {
            result matches Err(CommandLineError::ArgumentsWithoutDelimiter)
        }
    }
}

/// Reads the arguments of `zetta cmd`.
pub fn parse_project_command_args(arguments: &Vec<String>) -> (result: Result<
    ProjectCommandInvocation,
    CommandLineError,
>)
    ensures
        invocation(texts(arguments@), result),
{
    let ghost shown = texts(arguments@);
    let count: usize = arguments.len();
    let mut delimiter: Option<usize> = None;
    let mut help = false;
    let mut index: usize = 0;
    proof {
        assert(shown.skip(0) == shown);
    }
    while index < count && delimiter.is_none()
        invariant
            shown == texts(arguments@),
            count == arguments@.len(),
            index <= count,
            match delimiter {
                Some(at) => at == index && delimiter_at(shown) == Some(at as int) && at < count
                    && asks_for_help(shown) == help,
                None => {
                    &&& match delimiter_at(shown.skip(index as int)) {
                        Some(later) => delimiter_at(shown) == Some(index + later),
                        None => delimiter_at(shown) is None,
                    }
                    &&& asks_for_help(shown) == (help || asks_for_help(shown.skip(index as int)))
                },
            },
        decreases count - index, (if delimiter is None { 1int } else { 0int }),
    {
        let argument = arguments[index].as_str();
        proof {
            assert(shown.skip(index as int).first() == argument@);
            assert(shown.skip(index as int).drop_first() == shown.skip(index + 1));
        }
        if same_text(argument, "--") {
            delimiter = Some(index);
        } else {
            if same_text(argument, "--help") || same_text(argument, "-h") {
                help = true;
            }
            index = index + 1;
        }
    }
    if help {
        return Ok(ProjectCommandInvocation::Help);
    }
    if count == 0 {
        return Err(CommandLineError::MissingName);
    }
    let name = arguments[0].clone();
    proof {
        assert(shown.first() == name@);
    }
    if same_text(name.as_str(), "--list") || same_text(name.as_str(), "-l") {
        if count != 1 {
            return Err(CommandLineError::ListWithArguments);
        }
        return Ok(ProjectCommandInvocation::List);
    }
    if starts_with(name.as_str(), "-") {
        return Err(CommandLineError::UnknownOption(name));
    }
    if let Some(at) = delimiter {
        if at != 1 {
            return Err(CommandLineError::ArgumentsWithoutDelimiter);
        }
    }
    match validate_command_name(name.as_str()) {
        Err(error) => {
            return Err(CommandLineError::Name(error));
        },
        Ok(_) => {},
    }
    let mut rest: Vec<String> = Vec::new();
    if delimiter.is_some() {
        let mut index: usize = 2;
        proof {
            assert(texts(rest@) == shown.subrange(2, 2));
        }
        while index < count
            invariant
                shown == texts(arguments@),
                count == arguments@.len(),
                2 <= index <= count,
                texts(rest@) == shown.subrange(2, index as int),
            decreases count - index,
        {
            let ghost before = rest@;
            rest.push(arguments[index].clone());
            index = index + 1;
            proof {
                assert(texts(rest@) == texts(before).push(shown[index - 1]));
                assert(shown.subrange(2, index as int) == shown.subrange(2, index - 1).push(
                    shown[index - 1],
                ));
            }
        }
        proof {
            assert(shown.subrange(2, count as int) == shown.skip(2));
        }
    } else {
        if count != 1 {
            return Err(CommandLineError::ArgumentsWithoutDelimiter);
        }
        proof {
            assert(texts(rest@) == Seq::<Seq<char>>::empty());
        }
    }
    Ok(ProjectCommandInvocation::Run { name, arguments: rest })
}

/// An environment is read exactly where every entry is an acceptable text and no
/// name occurs twice in whatever case, and it is read as it is written: each
/// variable with its text, in the same order.
pub proof fn law_environment_is_read_as_written(entries: Seq<(Seq<char>, JsonView)>)
    ensures
        environment_read(entries) is Ok <==> {
            &&& forall|i: int|
                0 <= i < entries.len() ==> ((#[trigger] entries[i]).1 matches JsonView::Text(value)
                    && command_environment_entry_error(entries[i].0, value) is None)
            &&& forall|i: int, j: int|
                #![trigger entries[i], entries[j]]
                0 <= i < j < entries.len() ==> !same_ignoring_case(entries[i].0, entries[j].0)
        },
        environment_read(entries) matches Ok(read) ==> read.len() == entries.len() && forall|i: int|
            0 <= i < entries.len() ==> #[trigger] entries[i] == (
                read[i].0,
                JsonView::Text(read[i].1),
            ),
    decreases entries.len(),
{
    if entries.len() > 0 {
        let shorter = entries.drop_last();
        let last = entries.len() - 1;
        law_environment_is_read_as_written(shorter);
        assert forall|i: int| 0 <= i < shorter.len() implies #[trigger] shorter[i] == entries[i] by {}
        if let Ok(before) = environment_read(shorter) {
            assert forall|i: int| 0 <= i < shorter.len() implies before[i].0 == (
            #[trigger] entries[i]).0 by {
                assert(shorter[i] == entries[i]);
            }
            if names_ignoring_case(before, entries[last].0) {
                let i = choose|i: int|
                    0 <= i < before.len() && same_ignoring_case(
                        (#[trigger] before[i]).0,
                        entries[last].0,
                    );
                assert(same_ignoring_case(entries[i].0, entries[last].0));
            }
            if let Ok(read) = environment_read(entries) {
                assert forall|i: int| 0 <= i < entries.len() implies #[trigger] entries[i] == (
                    read[i].0,
                    JsonView::Text(read[i].1),
                ) by {
                    if i < last {
                        assert(shorter[i] == entries[i]);
                        assert(read[i] == before[i]);
                    }
                }
                assert forall|i: int, j: int|
                    #![trigger entries[i], entries[j]]
                    0 <= i < j < entries.len() implies !same_ignoring_case(
                    entries[i].0,
                    entries[j].0,
                ) by {
                    if j < last {
                        assert(shorter[i] == entries[i] && shorter[j] == entries[j]);
                    } else {
                        assert(before[i].0 == entries[i].0);
                    }
                }
                assert forall|i: int| 0 <= i < entries.len() implies ((#[trigger] entries[i]).1
                    matches JsonView::Text(value) && command_environment_entry_error(
                    entries[i].0,
                    value,
                ) is None) by {
                    if i < last {
                        assert(shorter[i] == entries[i]);
                    }
                }
            } else if forall|i: int, j: int|
                #![trigger entries[i], entries[j]]
                0 <= i < j < entries.len() ==> !same_ignoring_case(entries[i].0, entries[j].0) {
                assert(entries[last] == entries.last());
            }
        } else {
            if forall|i: int|
                0 <= i < entries.len() ==> ((#[trigger] entries[i]).1 matches JsonView::Text(value)
                    && command_environment_entry_error(entries[i].0, value) is None) {
                if forall|i: int, j: int|
                    #![trigger entries[i], entries[j]]
                    0 <= i < j < entries.len() ==> !same_ignoring_case(
                        entries[i].0,
                        entries[j].0,
                    ) {
                    assert forall|i: int| 0 <= i < shorter.len() implies ((#[trigger] shorter[i]).1
                        matches JsonView::Text(value) && command_environment_entry_error(
                        shorter[i].0,
                        value,
                    ) is None) by {
                        assert(shorter[i] == entries[i]);
                    }
                    assert forall|i: int, j: int|
                        #![trigger shorter[i], shorter[j]]
                        0 <= i < j < shorter.len() implies !same_ignoring_case(
                        shorter[i].0,
                        shorter[j].0,
                    ) by {
                        assert(shorter[i] == entries[i] && shorter[j] == entries[j]);
                    }
                }
            }
        }
    }
}

/// Whether a registered command says what is written of it: its name and its text,
/// and the variables of its `env`, each with its text and none else.
pub open spec fn says_what_is_written(
    command: CommandView,
    name: Seq<char>,
    value: JsonView,
) -> bool {
    &&& command.name == name
    &&& match value {
        JsonView::Text(text) => command.command == text && command.environment.len() == 0,
        JsonView::Object(entries) => {
            &&& lookup(entries, "command"@) == Some(JsonView::Text(command.command))
            &&& match lookup(entries, "env"@) {
                None => command.environment.len() == 0,
                Some(JsonView::Object(variables)) => {
                    &&& command.environment.len() == variables.len()
                    &&& forall|i: int|
                        0 <= i < variables.len() ==> #[trigger] variables[i] == (
                            command.environment[i].0,
                            JsonView::Text(command.environment[i].1),
                        )
                },
                Some(_) => false,
            }
        },
        _ => false,
    }
}

/// The commands that are read are those that are written, in the same order.
pub proof fn law_commands_are_read_as_written(entries: Seq<(Seq<char>, JsonView)>)
    ensures
        commands_read(entries) matches Ok(commands) ==> {
            &&& commands.len() == entries.len()
            &&& forall|i: int|
                0 <= i < entries.len() ==> says_what_is_written(
                    #[trigger] commands[i],
                    entries[i].0,
                    entries[i].1,
                )
        },
    decreases entries.len(),
{
    if entries.len() > 0 {
        let shorter = entries.drop_last();
        law_commands_are_read_as_written(shorter);
        let (name, value) = entries.last();
        if let JsonView::Object(fields) = value {
            if let Some(JsonView::Object(variables)) = lookup(fields, "env"@) {
                law_environment_is_read_as_written(variables);
            }
        }
        if let Ok(commands) = commands_read(entries) {
            let before = commands_read(shorter)->Ok_0;
            assert forall|i: int| 0 <= i < entries.len() implies says_what_is_written(
                #[trigger] commands[i],
                entries[i].0,
                entries[i].1,
            ) by {
                if i < shorter.len() {
                    assert(commands[i] == before[i]);
                    assert(says_what_is_written(before[i], shorter[i].0, shorter[i].1));
                }
            }
        }
    }
}

/// A command is accepted whose name has no space and does not begin like an
/// option, whose text is not blank, and whose variables are acceptable.
pub proof fn law_good_commands_are_accepted(
    name: Seq<char>,
    command: Seq<char>,
    variables: Seq<(Seq<char>, JsonView)>,
)
    requires
        name.len() > 0,
        name.first() != '-',
        forall|i: int|
            0 <= i < name.len() ==> !is_space(#[trigger] name[i]) && !is_control_character(name[i]),
        trimmed(command).len() > 0,
        !command.contains('\0'),
        byte_len(command) <= 65536,
        environment_read(variables) is Ok,
    ensures
        command_read(name, JsonView::Text(command)) is Ok,
        command_read(
            name,
            JsonView::Object(
                seq![("command"@, JsonView::Text(command)), ("env"@, JsonView::Object(variables))],
            ),
        ) is Ok,
        command_read(
            name,
            JsonView::Object(seq![("command"@, JsonView::Text(command))]),
        ) is Ok,
{
    reveal_strlit("command");
    reveal_strlit("env");
    let both = seq![("command"@, JsonView::Text(command)), ("env"@, JsonView::Object(variables))];
    let one = seq![("command"@, JsonView::Text(command))];
    assert(command_fields()[0] == "command"@ && command_fields()[1] == "env"@);
    assert(command_fields().contains("command"@) && command_fields().contains("env"@));
    assert(both.drop_first() =~= seq![("env"@, JsonView::Object(variables))]);
    assert(one.drop_first() =~= Seq::<(Seq<char>, JsonView)>::empty());
    reveal_with_fuel(lookup, 3);
    reveal_with_fuel(first_other_key, 3);
    assert(both.drop_first().drop_first() =~= Seq::<(Seq<char>, JsonView)>::empty());
    assert(first_other_key(both, command_fields()) is None);
    assert(first_other_key(one, command_fields()) is None);
}

/// Zetta's own variables are refused, and so is every name that a shell would not
/// take, whatever the value; what is left is refused only for a NUL in the value.
pub proof fn law_variables_are_refused_by_name(name: Seq<char>, value: Seq<char>)
    ensures
        name.len() >= 6 && lowered(name.take(6)) == "zetta_"@
            ==> command_environment_entry_error(name, value) is Some,
        name.len() == 0 || '0' <= name[0] <= '9' ==> command_environment_entry_error(name, value)
            is Some,
        name.contains('=') || name.contains(' ') || name.contains('-') || name.contains('.')
            ==> command_environment_entry_error(name, value) is Some,
        command_environment_entry_error(name, value) is None ==> !value.contains('\0') && forall|
            i: int,
        |
            0 <= i < name.len() ==> {
                ||| 'a' <= #[trigger] name[i] <= 'z'
                ||| 'A' <= name[i] <= 'Z'
                ||| '0' <= name[i] <= '9'
                ||| name[i] == '_'
            },
        is_identifier(name) && !value.contains('\0') && !(name.len() >= 6 && lowered(name.take(6))
            == "zetta_"@) ==> command_environment_entry_error(name, value) is None,
{
    reveal_strlit("ZETTA_");
    reveal_strlit("zetta_");
    assert(lowered("ZETTA_"@) =~= "zetta_"@);
    if is_identifier(name) {
        assert forall|c: char| #![auto] name.contains(c) implies is_identifier_start(c) || '0' <= c
            <= '9' by {
            let i = choose|i: int| 0 <= i < name.len() && name[i] == c;
            assert(is_identifier_start(name[i]) || '0' <= name[i] <= '9');
        }
        assert(!name.contains('=') && !name.contains('\0'));
    }
}

proof fn lemma_delimiter(arguments: Seq<Seq<char>>, at: int)
    requires
        0 <= at < arguments.len(),
        arguments[at] == "--"@,
        forall|i: int| 0 <= i < at ==> #[trigger] arguments[i] != "--"@,
    ensures
        delimiter_at(arguments) == Some(at),
    decreases at,
{
    if at > 0 {
        let rest = arguments.drop_first();
        assert(arguments[0] != "--"@);
        assert forall|i: int| 0 <= i < at - 1 implies #[trigger] rest[i] != "--"@ by {
            assert(rest[i] == arguments[i + 1]);
        }
        lemma_delimiter(rest, at - 1);
    }
}

proof fn lemma_delimiter_position(arguments: Seq<Seq<char>>)
    ensures
        delimiter_at(arguments) matches Some(at) ==> 0 <= at < arguments.len() && arguments[at]
            == "--"@,
    decreases arguments.len(),
{
    if arguments.len() > 0 {
        lemma_delimiter_position(arguments.drop_first());
        assert(arguments.first() == arguments[0]);
    }
}

/// A command runs by its name, with just the arguments that stand behind `--`,
/// whatever they are, and with none where there is no `--`.
pub proof fn law_command_runs_with_its_arguments(
    name: Seq<char>,
    arguments: Seq<Seq<char>>,
    result: Result<ProjectCommandInvocation, CommandLineError>,
)
    requires
        command_name_error(name) is None,
    ensures
        invocation(seq![name, "--"@] + arguments, result) ==> (result matches Ok(asked)
            && asked.view() == InvocationView::Run(name, arguments)),
        invocation(seq![name], result) ==> (result matches Ok(asked) && asked.view()
            == InvocationView::Run(name, Seq::empty())),
        arguments.len() > 0 && arguments[0] != "--"@ && !asks_for_help(arguments) && invocation(
            seq![name] + arguments,
            result,
        ) ==> result is Err,
        invocation(Seq::empty(), result) ==> result is Err,
{
    reveal_strlit("--");
    reveal_strlit("-");
    reveal_strlit("--help");
    reveal_strlit("-h");
    reveal_strlit("--list");
    reveal_strlit("-l");
    assert(name[0] != '-');
    assert("-"@[0] == '-');
    assert(!has_prefix(name, "-"@)) by {
        if has_prefix(name, "-"@) {
            assert(name.take(1)[0] == '-');
        }
    }
    let whole = seq![name, "--"@] + arguments;
    assert(whole.first() == name);
    assert(whole.drop_first().first() == "--"@);
    reveal_with_fuel(asks_for_help, 3);
    lemma_delimiter(whole, 1);
    assert(whole.skip(2) =~= arguments);
    let one = seq![name];
    assert(one.drop_first() =~= Seq::<Seq<char>>::empty());
    reveal_with_fuel(delimiter_at, 3);
    let bare = seq![name] + arguments;
    assert(bare.first() == name);
    assert(bare.drop_first() =~= arguments);
    assert(name != "--"@ && name != "--list"@ && name != "-l"@ && name != "--help"@ && name
        != "-h"@);
    if arguments.len() > 0 && arguments[0] != "--"@ {
        if let Some(at) = delimiter_at(bare) {
            lemma_delimiter_position(arguments);
            assert(arguments.first() == arguments[0]);
        }
    }
}

/// Asking for help or for the list is answered, wherever the help is asked for
/// before any `--`.
pub proof fn law_help_and_list_are_asked_for(
    arguments: Seq<Seq<char>>,
    at: int,
    result: Result<ProjectCommandInvocation, CommandLineError>,
)
    requires
        invocation(arguments, result),
    ensures
        0 <= at < arguments.len() && (arguments[at] == "--help"@ || arguments[at] == "-h"@) && (
        forall|i: int| 0 <= i < at ==> #[trigger] arguments[i] != "--"@) ==> (result matches Ok(
            asked,
        ) && asked.view() == InvocationView::Help),
        arguments == seq!["--list"@] || arguments == seq!["-l"@] ==> (result matches Ok(asked)
            && asked.view() == InvocationView::List),
{
    reveal_strlit("--");
    reveal_strlit("--help");
    reveal_strlit("-h");
    reveal_strlit("--list");
    reveal_strlit("-l");
    if 0 <= at < arguments.len() && (arguments[at] == "--help"@ || arguments[at] == "-h"@) && (
    forall|i: int| 0 <= i < at ==> #[trigger] arguments[i] != "--"@) {
        lemma_help(arguments, at);
    }
    reveal_with_fuel(asks_for_help, 2);
    if arguments == seq!["--list"@] || arguments == seq!["-l"@] {
        assert(arguments.drop_first() =~= Seq::<Seq<char>>::empty());
        assert(arguments.first() == arguments[0]);
        assert("--list"@[2] == 'l' && "--help"@[2] == 'h' && "-l"@[1] == 'l' && "-h"@[1] == 'h');
        assert(!asks_for_help(arguments.drop_first()));
        assert(!asks_for_help(arguments));
    }
}

proof fn lemma_help(arguments: Seq<Seq<char>>, at: int)
    requires
        0 <= at < arguments.len(),
        arguments[at] == "--help"@ || arguments[at] == "-h"@,
        forall|i: int| 0 <= i < at ==> #[trigger] arguments[i] != "--"@,
    ensures
        asks_for_help(arguments),
    decreases at,
{
    reveal_strlit("--");
    reveal_strlit("--help");
    reveal_strlit("-h");
    assert(arguments.first() == arguments[0]);
    assert("--help"@.len() == 6 && "-h"@.len() == 2 && "--"@.len() == 2);
    assert("-h"@[1] == 'h' && "--"@[1] == '-');
    if at > 0 {
        let rest = arguments.drop_first();
        assert(arguments[0] != "--"@);
        assert forall|i: int| 0 <= i < at - 1 implies #[trigger] rest[i] != "--"@ by {
            assert(rest[i] == arguments[i + 1]);
        }
        lemma_help(rest, at - 1);
    }
}

/// An error that is reported is of the same kind as what is wrong, and names the same
/// command, field or text.
pub proof fn law_reported_faults_are_the_ones_found(error: ProjectCommandsError, fault: CommandFault)
    requires
        reports_command_fault(error, fault),
    ensures
        fault matches CommandFault::Name(name, why) ==> (error matches ProjectCommandsError::Name(
            said,
            because,
        ) && said@ == name && because == why),
        fault matches CommandFault::NotACommand(name) ==> (
        error matches ProjectCommandsError::NotACommand(said) && said@ == name),
        fault matches CommandFault::UnknownField(field) ==> (
        error matches ProjectCommandsError::UnknownField(said) && said@ == field),
        fault matches CommandFault::MissingCommand(name) ==> (
        error matches ProjectCommandsError::MissingCommand(said) && said@ == name),
        fault matches CommandFault::Command(why) ==> error == ProjectCommandsError::Command(why),
{
}

/// A name is refused where it is empty, would be taken for an option or has a space in it,
/// and a command where it is blank, has a null character or is too long; whatever else is
/// right is accepted.
pub proof fn law_bad_names_and_commands_are_refused(name: Seq<char>, command: Seq<char>)
    ensures
        name.len() == 0 ==> command_name_error(name) == Some(CommandNameError::Empty),
        name.len() > 0 && name[0] == '-' ==> command_name_error(name) == Some(
            CommandNameError::LeadingDash,
        ),
        name.contains(' ') || name.contains('\n') || name.contains('\t') ==> command_name_error(
            name,
        ) is Some,
        trimmed(command).len() == 0 ==> command_string_error(command) == Some(
            CommandStringError::Blank,
        ),
        command.contains('\0') ==> command_string_error(command) is Some,
        byte_len(command) > 65536 ==> command_string_error(command) is Some,
        trimmed(command).len() > 0 && !command.contains('\0') && byte_len(command) <= 65536
            ==> command_string_error(command) is None,
{
    if name.len() > 0 {
        assert(name.first() == name[0]);
    }
    if name.contains(' ') {
        let i = choose|i: int| 0 <= i < name.len() && name[i] == ' ';
        assert(is_space(name[i]));
    }
    if name.contains('\n') {
        let i = choose|i: int| 0 <= i < name.len() && name[i] == '\n';
        assert(is_space(name[i]));
    }
    if name.contains('\t') {
        let i = choose|i: int| 0 <= i < name.len() && name[i] == '\t';
        assert(is_space(name[i]));
    }
}

} // verus!
