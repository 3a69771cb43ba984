//! The control endpoints of running Zetta processes, and the endpoint files
//! they are published through.
//!
//! Every scan reaps the endpoint file and socket of a process that is gone, so
//! the catalog cannot accumulate endpoints that later requests keep trying to
//! connect to.

use vstd::prelude::*;

use crate::path::windows::{identify, windows_identity};
use crate::path::{path_segments, resolve_parts, resolved, segments};
use crate::secrets::random_bytes;
use crate::text::{
    characters, decimal, decimal_text, ends_with, has_prefix, has_suffix, starts_with, texts,
};

verus! {

/// Where a process listens for requests, and the token it answers to.
#[derive(Debug, PartialEq, Eq)]
pub struct ControlEndpoint {
    pub version: u32,
    pub process_id: u32,
    pub socket_path: String,
    pub token: String,
}

/// Whether a file of the catalog publishes an endpoint, by its name.
pub open spec fn names_an_endpoint(name: Seq<char>) -> bool {
    has_prefix(name, "control-"@) && has_suffix(name, ".json"@)
}

/// Whether a file of the catalog publishes an endpoint, by its name.
pub fn is_endpoint_file(name: &str) -> (result: bool)
    ensures
        result == names_an_endpoint(name@),
{
    starts_with(name, "control-") && ends_with(name, ".json")
}

/// The file that a process publishes its endpoint in.
pub open spec fn endpoint_file_name(process_id: nat) -> Seq<char> {
    "control-"@ + decimal_text(process_id) + ".json"@
}

/// The socket that a process listens on.
pub open spec fn socket_file_name(process_id: nat) -> Seq<char> {
    "control-"@ + decimal_text(process_id) + ".sock"@
}

/// The file that a process publishes its endpoint in.
pub fn control_endpoint_name(process_id: u32) -> (result: String)
    ensures
        result@ == endpoint_file_name(process_id as nat),
{
    let mut name = "control-".to_owned();
    name.push_str(decimal(process_id as u64).as_str());
    name.push_str(".json");
    name
}

/// The socket that a process listens on, beside its endpoint file.
pub fn control_socket_name(process_id: u32) -> (result: String)
    ensures
        result@ == socket_file_name(process_id as nat),
{
    let mut name = "control-".to_owned();
    name.push_str(decimal(process_id as u64).as_str());
    name.push_str(".sock");
    name
}

/// A process's own endpoint file is found by a scan, and its socket is not
/// taken for one.
pub proof fn law_endpoint_files_are_found(process_id: nat)
    ensures
        names_an_endpoint(endpoint_file_name(process_id)),
        !names_an_endpoint(socket_file_name(process_id)),
{
    reveal_strlit("control-");
    reveal_strlit(".json");
    reveal_strlit(".sock");
    let name = endpoint_file_name(process_id);
    assert(name.take(8) =~= "control-"@);
    assert(name.skip(name.len() - 5) =~= ".json"@);
    let socket = socket_file_name(process_id);
    assert(socket.last() == 'k');
    assert(socket.skip(socket.len() - 5).last() == 'k');
    assert(".json"@.last() == 'n');
}

/// Why an endpoint is not used.
#[derive(Clone, Copy, Debug, PartialEq, Eq, Structural)]
pub enum EndpointError {
    /// It is of another version, or of another process than its name says.
    Outdated,
}

/// Checks the endpoint that was read for one process.
pub fn check_endpoint(endpoint: &ControlEndpoint, current_version: u32, process_id: u32) -> (result:
    Result<(), EndpointError>)
    ensures
        result == if endpoint.version == current_version && endpoint.process_id == process_id {
            Ok(())
        } else {
            Err::<(), EndpointError>(EndpointError::Outdated)
        },
{
    if endpoint.version == current_version && endpoint.process_id == process_id {
        Ok(())
    } else {
        Err(EndpointError::Outdated)
    }
}

/// An endpoint file of the catalog: what it was read as, if it could be, and
/// whether that process is running.
pub struct FoundEndpoint {
    pub endpoint: Option<ControlEndpoint>,
    pub running: bool,
}

/// What a scan does about an endpoint file.
#[derive(Clone, Copy, Debug, PartialEq, Eq, Structural)]
pub enum EndpointFate {
    /// It is unreadable, or too old or too new to serve: leave it.
    Skip,
    /// Its process is gone: remove the file and the socket.
    Reap,
    /// It can be asked.
    Live,
}

/// What a scan does about an endpoint file.
pub open spec fn fate_of(found: FoundEndpoint, current_version: u32) -> EndpointFate {
    match found.endpoint {
        Some(endpoint) if endpoint.version == current_version => if found.running {
            EndpointFate::Live
        } else {
            EndpointFate::Reap
        },
        _ => EndpointFate::Skip,
    }
}

/// What a scan does about an endpoint file.
pub fn endpoint_fate(found: &FoundEndpoint, current_version: u32) -> (result: EndpointFate)
    ensures
        result == fate_of(*found, current_version),
{
    match &found.endpoint {
        Some(endpoint) => if endpoint.version != current_version {
            EndpointFate::Skip
        } else if found.running {
            EndpointFate::Live
        } else {
            EndpointFate::Reap
        },
        None => EndpointFate::Skip,
    }
}

/// The endpoints that can be asked, in the order they were found.
pub open spec fn live_endpoints(found: Seq<FoundEndpoint>, current_version: u32) -> Seq<
    ControlEndpoint,
>
    decreases found.len(),
{
    if found.len() == 0 {
        Seq::empty()
    } else {
        let before = live_endpoints(found.drop_last(), current_version);
        if fate_of(found.last(), current_version) == EndpointFate::Live {
            before.push(found.last().endpoint->0)
        } else {
            before
        }
    }
}

/// The endpoints whose file and socket are to be removed, in the order they
/// were found.
pub open spec fn stale_endpoints(found: Seq<FoundEndpoint>, current_version: u32) -> Seq<
    ControlEndpoint,
>
    decreases found.len(),
{
    if found.len() == 0 {
        Seq::empty()
    } else {
        let before = stale_endpoints(found.drop_last(), current_version);
        if fate_of(found.last(), current_version) == EndpointFate::Reap {
            before.push(found.last().endpoint->0)
        } else {
            before
        }
    }
}

/// Sorts what a scan found into the endpoints that can be asked and those to
/// be reaped.
pub fn live_control_endpoints(found: Vec<FoundEndpoint>, current_version: u32) -> (result: (
    Vec<ControlEndpoint>,
    Vec<ControlEndpoint>,
))
    ensures
        result.0@ == live_endpoints(found@, current_version),
        result.1@ == stale_endpoints(found@, current_version),
{
    let ghost given = found@;
    let mut remaining = found;
    let mut reversed: Vec<FoundEndpoint> = Vec::new();
    while remaining.len() > 0
        invariant
            remaining@.len() <= given.len(),
            remaining@ == given.take(remaining@.len() as int),
            reversed@.len() == given.len() - remaining@.len(),
            forall|i: int|
                0 <= i < reversed@.len() ==> #[trigger] reversed@[i] == given[given.len() - 1 - i],
        decreases remaining@.len(),
    {
        let ghost count = remaining@.len();
        match remaining.pop() {
            Some(endpoint) => {
                reversed.push(endpoint);
            },
            None => {},
        }
        proof {
            assert(remaining@ == given.take(count - 1));
        }
    }
    let mut live: Vec<ControlEndpoint> = Vec::new();
    let mut stale: Vec<ControlEndpoint> = Vec::new();
    proof {
        assert(given.take(0) == Seq::<FoundEndpoint>::empty());
    }
    while reversed.len() > 0
        invariant
            reversed@.len() <= given.len(),
            forall|i: int|
                0 <= i < reversed@.len() ==> #[trigger] reversed@[i] == given[given.len() - 1 - i],
            live@ == live_endpoints(given.take(given.len() - reversed@.len()), current_version),
            stale@ == stale_endpoints(given.take(given.len() - reversed@.len()), current_version),
        decreases reversed@.len(),
    {
        let ghost done = given.len() - reversed@.len();
        proof {
            assert(given.take(done + 1).drop_last() == given.take(done));
            assert(given.take(done + 1).last() == given[done]);
            assert(reversed@[reversed@.len() - 1] == given[done]);
        }
        match reversed.pop() {
            Some(found) => {
                let fate = endpoint_fate(&found, current_version);
                match found.endpoint {
                    Some(endpoint) => {
                        match fate {
                            EndpointFate::Live => {
                                live.push(endpoint);
                            },
                            EndpointFate::Reap => {
                                stale.push(endpoint);
                            },
                            EndpointFate::Skip => {},
                        }
                    },
                    None => {},
                }
            },
            None => {},
        }
    }
    proof {
        assert(given.take(given.len() as int) == given);
    }
    (live, stale)
}

/// Every endpoint that can be asked is of the current version.
pub proof fn law_live_endpoints_are_current(found: Seq<FoundEndpoint>, current_version: u32)
    ensures
        forall|i: int|
            0 <= i < live_endpoints(found, current_version).len() ==> (
            #[trigger] live_endpoints(found, current_version)[i]).version == current_version,
    decreases found.len(),
{
    if found.len() > 0 {
        law_live_endpoints_are_current(found.drop_last(), current_version);
        let before = live_endpoints(found.drop_last(), current_version);
        assert forall|i: int| 0 <= i < live_endpoints(found, current_version).len() implies (
        #[trigger] live_endpoints(found, current_version)[i]).version == current_version by {
            if i < before.len() {
                assert(live_endpoints(found, current_version)[i] == before[i]);
            }
        }
    }
}

/// The character for four bits.
pub open spec fn hex_character(value: int) -> char {
    if value < 10 {
        (48 + value) as char
    } else {
        (87 + value) as char
    }
}

/// Bytes as hexadecimal digits, two per byte, the higher four bits first.
pub open spec fn hex_of(bytes: Seq<u8>) -> Seq<char> {
    Seq::new(
        bytes.len() * 2,
        |i: int|
            if i % 2 == 0 {
                hex_character(bytes[i / 2] as int / 16)
            } else {
                hex_character(bytes[i / 2] as int % 16)
            },
    )
}

fn hex_digit(value: u8) -> (result: char)
    requires
        value < 16,
    ensures
        result == hex_character(value as int),
{
    if value < 10 {
        (48 + value) as char
    } else {
        (87 + value) as char
    }
}

/// Bytes as hexadecimal digits.
pub fn encode_hex(bytes: &Vec<u8>) -> (result: String)
    ensures
        result@ == hex_of(bytes@),
{
    let mut encoded = String::new();
    let mut index: usize = 0;
    proof {
        assert(hex_of(bytes@.take(0)) =~= Seq::<char>::empty());
    }
    while index < bytes.len()
        invariant
            index <= bytes@.len(),
            encoded@ == hex_of(bytes@.take(index as int)),
        decreases bytes@.len() - index,
    {
        let byte = bytes[index];
        encoded.push(hex_digit(byte / 16));
        encoded.push(hex_digit(byte % 16));
        proof {
            let shorter = bytes@.take(index as int);
            let longer = bytes@.take(index + 1);
            assert forall|i: int| 0 <= i < hex_of(longer).len() implies #[trigger] hex_of(longer)[i]
                == encoded@[i] by {
                if i < hex_of(shorter).len() {
                    assert(hex_of(shorter)[i] == hex_of(longer)[i]);
                }
            }
            assert(hex_of(longer) =~= encoded@);
        }
        index = index + 1;
    }
    proof {
        assert(bytes@.take(index as int) == bytes@);
    }
    encoded
}

/// Different bytes have different digits.
pub proof fn law_hex_is_faithful(left: Seq<u8>, right: Seq<u8>)
    requires
        hex_of(left) == hex_of(right),
    ensures
        left == right,
{
    assert(hex_of(left).len() == left.len() * 2);
    assert(hex_of(right).len() == right.len() * 2);
    assert forall|i: int| 0 <= i < left.len() implies left[i] == right[i] by {
        lemma_digits_of_byte(left, i);
        lemma_digits_of_byte(right, i);
        lemma_hex_characters_differ(left[i] as int / 16, right[i] as int / 16);
        lemma_hex_characters_differ(left[i] as int % 16, right[i] as int % 16);
    }
    assert(left =~= right);
}

proof fn lemma_digits_of_byte(bytes: Seq<u8>, i: int)
    requires
        0 <= i < bytes.len(),
    ensures
        hex_of(bytes)[2 * i] == hex_character(bytes[i] as int / 16),
        hex_of(bytes)[2 * i + 1] == hex_character(bytes[i] as int % 16),
{
    assert((2 * i) / 2 == i && (2 * i) % 2 == 0);
    assert((2 * i + 1) / 2 == i && (2 * i + 1) % 2 == 1);
}

proof fn lemma_hex_characters_differ(left: int, right: int)
    requires
        0 <= left < 16,
        0 <= right < 16,
        hex_character(left) == hex_character(right),
    ensures
        left == right,
{
}

/// Random bytes as hexadecimal digits, or nothing where the system gives none.
pub fn random_hex(byte_count: usize) -> (result: Option<String>)
    ensures
        result matches Some(digits) ==> exists|bytes: Seq<u8>|
            bytes.len() == byte_count && digits@ == #[trigger] hex_of(bytes),
{
    match random_bytes(byte_count) {
        Ok(bytes) => Some(encode_hex(&bytes)),
        Err(_) => None,
    }
}

/// Parts with a `/` between them.
pub open spec fn slash_joined(parts: Seq<Seq<char>>) -> Seq<char>
    decreases parts.len(),
{
    if parts.len() == 0 {
        Seq::empty()
    } else if parts.len() == 1 {
        parts[0]
    } else {
        slash_joined(parts.drop_last()).push('/') + parts.last()
    }
}

/// What identifies a configuration file: its path with `.` and `..` resolved
/// by name.
pub open spec fn path_identity_of(path: Seq<char>, windows: bool) -> Seq<char> {
    if windows {
        windows_identity(path)
    } else {
        resolved_path(path)
    }
}

/// A path with `.` and `..` resolved by name.
pub open spec fn resolved_path(path: Seq<char>) -> Seq<char> {
    let parts = slash_joined(resolved(segments(path)));
    if path.len() > 0 && path.first() == '/' {
        seq!['/'] + parts
    } else {
        parts
    }
}

/// What identifies a configuration file. The path is absolute, and canonical
/// where the file is there.
pub fn config_path_identity(path: &str, windows: bool) -> (result: String)
    ensures
        result@ == path_identity_of(path@, windows),
{
    if windows {
        return identify(path);
    }
    let kept = resolve_parts(&path_segments(path));
    let content = characters(path);
    let mut result = String::new();
    if content.len() > 0 && content[0] == '/' {
        result.push('/');
    }
    let ghost root = result@;
    proof {
        if content@.len() > 0 && content@[0] == '/' {
            assert(root == seq!['/']);
        } else {
            assert(root == Seq::<char>::empty());
        }
    }
    let ghost parts_kept = texts(kept@);
    let mut index: usize = 0;
    proof {
        assert(root + slash_joined(parts_kept.take(0)) == root);
    }
    while index < kept.len()
        invariant
            parts_kept == texts(kept@),
            index <= kept@.len(),
            result@ == root + slash_joined(parts_kept.take(index as int)),
        decreases kept@.len() - index,
    {
        proof {
            let longer = parts_kept.take(index + 1);
            assert(longer.drop_last() == parts_kept.take(index as int));
            assert(longer.last() == kept@[index as int]@);
            if index > 0 {
                assert(root + slash_joined(longer) == (root + slash_joined(
                    parts_kept.take(index as int),
                )).push('/') + kept@[index as int]@);
            } else {
                assert(root + slash_joined(longer) == root + kept@[0]@);
            }
        }
        if index > 0 {
            result.push('/');
        }
        result.push_str(kept[index].as_str());
        index = index + 1;
    }
    proof {
        assert(parts_kept.take(index as int) == parts_kept);
        assert(Seq::<char>::empty() + slash_joined(parts_kept) == slash_joined(parts_kept));
    }
    result
}

} // verus!
