//! The configured age identity, read for the multiplexer command line.
//!
//! A user who set `sessions.persistence.identity` once should not have to
//! repeat it on every command that needs it. One field is read, so that a
//! short-lived command does not pay for the whole configuration.

use vstd::prelude::*;

use crate::json::{get, json_of, lemma_object_view, lookup, parse, Json, JsonView};
use crate::local_sessions::paths::str_view;
use crate::path::{below, join};
use crate::text::{has_prefix, optional_text, same_text, strip_prefix, texts, trim, trimmed, without_prefix};

verus! {

/// The value under a key, where a value has keys.
pub open spec fn member(value: JsonView, key: Seq<char>) -> Option<JsonView> {
    match value {
        JsonView::Object(entries) => lookup(entries, key),
        _ => None,
    }
}

fn get_member<'a>(value: &'a Json, key: &str) -> (result: Option<&'a Json>)
    ensures
        match result {
            Some(found) => member(value.view(), key@) == Some(found.view()),
            None => member(value.view(), key@) is None,
        },
{
    match value {
        Json::Object(entries) => {
            proof {
                lemma_object_view(*entries);
            }
            get(entries, key)
        },
        _ => None,
    }
}

/// The identity that a configuration names, without spaces around it.
pub open spec fn identity_in(root: JsonView) -> Option<Seq<char>> {
    match member(root, "sessions"@) {
        Some(sessions) => match member(sessions, "persistence"@) {
            Some(persistence) => match member(persistence, "identity"@) {
                Some(JsonView::Text(identity)) if trimmed(identity).len() > 0 => Some(
                    trimmed(identity),
                ),
                _ => None,
            },
            None => None,
        },
        None => None,
    }
}

/// The identity that a configuration names, without spaces around it. A blank
/// one counts as none.
pub fn configured_identity(root: &Json) -> (result: Option<String>)
    ensures
        optional_text(result) == identity_in(root.view()),
{
    let sessions = match get_member(root, "sessions") {
        Some(sessions) => sessions,
        None => {
            return None;
        },
    };
    let persistence = match get_member(sessions, "persistence") {
        Some(persistence) => persistence,
        None => {
            return None;
        },
    };
    match get_member(persistence, "identity") {
        Some(Json::Text(identity)) => {
            let trimmed_identity = trim(identity.as_str());
            if trimmed_identity.as_str().is_empty() {
                None
            } else {
                Some(trimmed_identity)
            }
        },
        _ => None,
    }
}

/// A path whose leading `~/` stands for the home directory, or for the current
/// one where there is none.
pub open spec fn expanded(path: Seq<char>, home: Option<Seq<char>>, windows: bool) -> Seq<char> {
    match without_prefix(path, "~/"@) {
        None => path,
        Some(relative) => match home {
            Some(home) => below(home, relative, windows),
            None => below("."@, relative, windows),
        },
    }
}

/// Expands a leading `~/`, which is how an identity is conventionally written
/// in configuration.
pub fn expand_home(path: &str, home: Option<&str>, windows: bool) -> (result: String)
    ensures
        result@ == expanded(path@, str_view(home), windows),
{
    match strip_prefix(path, "~/") {
        None => path.to_owned(),
        Some(relative) => match home {
            Some(home) => join(home, relative.as_str(), windows),
            None => join(".", relative.as_str(), windows),
        },
    }
}

/// The identity that the text of a configuration names, if it is one.
pub open spec fn identity_in_text(contents: Option<Seq<char>>) -> Option<Seq<char>> {
    match contents {
        Some(contents) => match json_of(contents) {
            Some(root) => identity_in(root),
            None => None,
        },
        None => None,
    }
}

/// The identities to try: the configured one, else the fallback.
pub open spec fn identities(
    configured: Option<Seq<char>>,
    fallback: Option<Seq<char>>,
    home: Option<Seq<char>>,
    windows: bool,
) -> Seq<Seq<char>> {
    match configured {
        Some(identity) => seq![expanded(identity, home, windows)],
        None => match fallback {
            Some(path) => seq![path],
            None => Seq::empty(),
        },
    }
}

/// The identities to try, where the configuration names the given one.
pub fn identity_paths(
    configured: Option<String>,
    fallback: Option<String>,
    home: Option<&str>,
    windows: bool,
) -> (result: Vec<String>)
    ensures
        texts(result@) == identities(
            optional_text(configured),
            optional_text(fallback),
            str_view(home),
            windows,
        ),
{
    let mut paths: Vec<String> = Vec::new();
    match configured {
        Some(identity) => {
            let path = expand_home(identity.as_str(), home, windows);
            paths.push(path);
            proof {
                assert(texts(paths@) =~= seq![path@]);
            }
        },
        None => {
            match fallback {
                Some(path) => {
                    paths.push(path);
                    proof {
                        assert(texts(paths@) =~= seq![path@]);
                    }
                },
                None => {
                    proof {
                        assert(texts(paths@) =~= Seq::<Seq<char>>::empty());
                    }
                },
            }
        },
    }
    paths
}

/// The identity files that a multiplexer command should try. An explicitly
/// configured identity takes precedence, even when its path is missing; the
/// fallback is for a configuration that names none, or that cannot be read.
pub fn configured_identity_paths_with_fallback(
    contents: Option<&str>,
    fallback: Option<String>,
    home: Option<&str>,
    windows: bool,
) -> (result: Vec<String>)
    ensures
        texts(result@) == identities(
            identity_in_text(str_view(contents)),
            optional_text(fallback),
            str_view(home),
            windows,
        ),
{
    let configured = match contents {
        Some(contents) => match parse(contents) {
            Some(root) => configured_identity(&root),
            None => None,
        },
        None => None,
    };
    identity_paths(configured, fallback, home, windows)
}

/// An identity that is configured is the only one that is tried, whatever
/// there is to fall back on.
pub proof fn law_configured_identity_takes_precedence(
    identity: Seq<char>,
    fallback: Option<Seq<char>>,
    other: Option<Seq<char>>,
    home: Option<Seq<char>>,
    windows: bool,
)
    ensures
        identities(Some(identity), fallback, home, windows) == identities(
            Some(identity),
            other,
            home,
            windows,
        ),
        identities(Some(identity), fallback, home, windows) == seq![expanded(identity, home, windows)],
{
}

/// Whether a word is a command that can need an identity.
pub open spec fn needs_identity(command: Seq<char>) -> bool {
    ||| command == "resume"@
    ||| command == "reconnect"@
    ||| command == "attach"@
    ||| command == "kill"@
    ||| command == "share"@
    ||| command == "unshare"@
    ||| command == "forget"@
}

/// Whether a command can need an identity, and so is worth reading
/// configuration for. Everything else is a short-lived process that should not
/// pay for a file it will not use.
pub fn command_uses_an_identity(arguments: &Vec<String>) -> (result: bool)
    ensures
        result == exists|i: int|
            0 <= i < arguments@.len() && needs_identity(#[trigger] arguments@[i]@),
{
    let mut index: usize = 0;
    while index < arguments.len()
        invariant
            index <= arguments@.len(),
            forall|i: int| 0 <= i < index ==> !needs_identity(#[trigger] arguments@[i]@),
        decreases arguments@.len() - index,
    {
        let word = arguments[index].as_str();
        if same_text(word, "resume") || same_text(word, "reconnect") || same_text(word, "attach")
            || same_text(word, "kill") || same_text(word, "share") || same_text(word, "unshare")
            || same_text(word, "forget") {
            assert(needs_identity(arguments@[index as int]@));
            return true;
        }
        index = index + 1;
    }
    false
}

/// The identity that counts is the one that the configuration has under `sessions`,
/// `persistence` and `identity`, without the spaces around it.
pub proof fn law_identity_is_read_where_it_is_set(
    root: Seq<(Seq<char>, JsonView)>,
    sessions: Seq<(Seq<char>, JsonView)>,
    persistence: Seq<(Seq<char>, JsonView)>,
    identity: Seq<char>,
)
    requires
        lookup(root, "sessions"@) == Some(JsonView::Object(sessions)),
        lookup(sessions, "persistence"@) == Some(JsonView::Object(persistence)),
        lookup(persistence, "identity"@) == Some(JsonView::Text(identity)),
    ensures
        trimmed(identity).len() > 0 ==> identity_in(JsonView::Object(root)) == Some(
            trimmed(identity),
        ),
        trimmed(identity).len() == 0 ==> identity_in(JsonView::Object(root)) is None,
{
}

/// A path that begins with a tilde and a slash is meant from the home directory, or from
/// where one is if there is none; any other path stays as it is.
pub proof fn law_tilde_is_the_home_directory(
    path: Seq<char>,
    relative: Seq<char>,
    home: Seq<char>,
    windows: bool,
)
    ensures
        expanded("~/"@ + relative, Some(home), windows) == below(home, relative, windows),
        expanded("~/"@ + relative, None, windows) == below("."@, relative, windows),
        (path.len() == 0 || path[0] != '~') ==> expanded(path, Some(home), windows) == path,
        (path.len() < 2 || path[1] != '/') ==> expanded(path, Some(home), windows) == path,
{
    reveal_strlit("~/");
    let whole = "~/"@ + relative;
    assert(whole.take(2) =~= "~/"@);
    assert(whole.skip(2) =~= relative);
    if has_prefix(path, "~/"@) {
        assert(path.take(2)[0] == path[0] && path.take(2)[1] == path[1]);
    }
}

/// The commands that touch a kept session need its identity, and others do not.
pub proof fn law_commands_on_kept_sessions_need_an_identity(command: Seq<char>)
    ensures
        needs_identity("resume"@),
        needs_identity("reconnect"@),
        needs_identity("attach"@),
        needs_identity("kill"@),
        needs_identity("share"@),
        needs_identity("unshare"@),
        needs_identity("forget"@),
        needs_identity(command) ==> command.len() >= 4 && !has_prefix(command, "-"@),
{
    reveal_strlit("resume");
    reveal_strlit("reconnect");
    reveal_strlit("attach");
    reveal_strlit("kill");
    reveal_strlit("share");
    reveal_strlit("unshare");
    reveal_strlit("forget");
    reveal_strlit("-");
    if has_prefix(command, "-"@) {
        assert(command.take(1)[0] == command[0]);
    }
}

/// The identity of a file is that of its JSON, and a file that is no JSON, or is not
/// there, has none.
pub proof fn law_identity_is_that_of_the_file(contents: Seq<char>)
    ensures
        identity_in_text(None) is None,
        json_of(contents) is None ==> identity_in_text(Some(contents)) is None,
        json_of(contents) matches Some(root) ==> identity_in_text(Some(contents)) == identity_in(
            root,
        ),
{
}

} // verus!
