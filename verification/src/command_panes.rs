//! Commands that open panes.

use vstd::prelude::*;
use vstd::string::StringSliceAdditionalSpecFns;

use crate::pane::layout::PaneDirection;
use crate::pane::overlay::PaneOverlayRequest;
use crate::project_commands::byte_len;
use crate::text::{same_text, texts};

verus! {

/// How many bytes the arguments of a pane's command may take together.
pub const MAX_PANE_COMMAND_BYTES: usize = 65_536;

/// A command to run in a pane: a new one in a direction, an existing one, or
/// one stacked on it.
#[derive(Debug, PartialEq, Eq)]
pub struct PaneCommand {
    pub direction: Option<PaneDirection>,
    pub label: Option<String>,
    pub pane: Option<String>,
    pub overlay: Option<PaneOverlayRequest>,
    pub stack: bool,
    pub list: bool,
    pub command: Vec<String>,
}

/// A shell command with its arguments and environment.
#[derive(Debug, PartialEq, Eq)]
pub struct ShellCommandRequest {
    pub command: String,
    pub arguments: Vec<String>,
    pub environment: Vec<(String, String)>,
}

/// How many bytes texts take together.
pub open spec fn total_bytes(list: Seq<Seq<char>>) -> nat
    decreases list.len(),
{
    if list.len() == 0 {
        0
    } else {
        total_bytes(list.drop_last()) + byte_len(list.last())
    }
}

pub proof fn lemma_total_grows(list: Seq<Seq<char>>, length: int)
    requires
        0 <= length <= list.len(),
    ensures
        total_bytes(list.take(length)) <= total_bytes(list),
    decreases list.len() - length,
{
    if length < list.len() {
        assert(list.take(length + 1).drop_last() == list.take(length));
        lemma_total_grows(list, length + 1);
    } else {
        assert(list.take(length) == list);
    }
}

/// How many bytes texts take together, if that is within a limit.
pub fn bytes_within(list: &Vec<String>, limit: usize) -> (result: Option<usize>)
    ensures
        match result {
            Some(total) => total == total_bytes(texts(list@)) && total <= limit,
            None => total_bytes(texts(list@)) > limit,
        },
{
    let ghost shown = texts(list@);
    let mut total: usize = 0;
    let mut index: usize = 0;
    proof {
        assert(shown.take(0) == Seq::<Seq<char>>::empty());
    }
    while index < list.len()
        invariant
            shown == texts(list@),
            index <= list@.len(),
            total == total_bytes(shown.take(index as int)),
            total <= limit,
        decreases list@.len() - index,
    {
        proof {
            let longer = shown.take(index + 1);
            assert(longer.drop_last() == shown.take(index as int));
            assert(longer.last() == list@[index as int]@);
            lemma_total_grows(shown, index + 1);
        }
        let bytes: usize = list[index].as_str().as_bytes().len();
        if bytes > limit - total {
            return None;
        }
        total = total + bytes;
        index = index + 1;
    }
    proof {
        assert(shown.take(index as int) == shown);
    }
    Some(total)
}

/// The direction that a word names.
pub open spec fn direction_named(name: Seq<char>) -> Option<PaneDirection> {
    if name == "left"@ {
        Some(PaneDirection::Left)
    } else if name == "right"@ {
        Some(PaneDirection::Right)
    } else if name == "up"@ {
        Some(PaneDirection::Up)
    } else if name == "down"@ {
        Some(PaneDirection::Down)
    } else {
        None
    }
}

/// The word for a direction.
pub open spec fn direction_name(direction: PaneDirection) -> Seq<char> {
    match direction {
        PaneDirection::Left => "left"@,
        PaneDirection::Right => "right"@,
        PaneDirection::Up => "up"@,
        PaneDirection::Down => "down"@,
    }
}

/// The direction that a word names.
pub fn parse_pane_direction(name: &str) -> (result: Option<PaneDirection>)
    ensures
        result == direction_named(name@),
{
    if same_text(name, "left") {
        Some(PaneDirection::Left)
    } else if same_text(name, "right") {
        Some(PaneDirection::Right)
    } else if same_text(name, "up") {
        Some(PaneDirection::Up)
    } else if same_text(name, "down") {
        Some(PaneDirection::Down)
    } else {
        None
    }
}

/// The word for a direction.
pub fn pane_direction_name(direction: PaneDirection) -> (result: &'static str)
    ensures
        result@ == direction_name(direction),
{
    match direction {
        PaneDirection::Left => "left",
        PaneDirection::Right => "right",
        PaneDirection::Up => "up",
        PaneDirection::Down => "down",
    }
}

/// A direction's word names the direction.
pub proof fn law_direction_names_read_back(direction: PaneDirection)
    ensures
        direction_named(direction_name(direction)) == Some(direction),
{
    reveal_strlit("left");
    reveal_strlit("right");
    reveal_strlit("up");
    reveal_strlit("down");
    assert("left"@[0] == 'l' && "right"@[0] == 'r' && "up"@[0] == 'u' && "down"@[0] == 'd');
}

/// Each direction goes by its word.
pub proof fn law_directions_go_by_their_words(name: Seq<char>)
    ensures
        direction_named("left"@) == Some(PaneDirection::Left),
        direction_named("right"@) == Some(PaneDirection::Right),
        direction_named("up"@) == Some(PaneDirection::Up),
        direction_named("down"@) == Some(PaneDirection::Down),
        direction_named(name) matches Some(direction) ==> direction_name(direction) == name,
{
    law_direction_names_read_back(PaneDirection::Left);
    law_direction_names_read_back(PaneDirection::Right);
    law_direction_names_read_back(PaneDirection::Up);
    law_direction_names_read_back(PaneDirection::Down);
}

/// The size of a command is that of all its words together.
pub proof fn law_sizes_of_words_add_up(list: Seq<Seq<char>>, word: Seq<char>)
    ensures
        total_bytes(list.push(word)) == total_bytes(list) + byte_len(word),
        total_bytes(Seq::empty()) == 0,
{
    assert(list.push(word).drop_last() =~= list);
}

} // verus!
