//! What holds of projects' paths and of what their files say.

use vstd::prelude::*;

use crate::json::{display_of_json, entries_view, first_other_key, lookup, JsonView};
use crate::path::{below, name_of, segments};
use crate::path::laws::{law_joined_name_is_the_last, law_joined_path_leads_through_both};
use crate::project::config::{
    commands_in, config_file_of, directory_in, drafted, environment_in, project_environment,
    project_fields, shared_fields, split_error, split_in, text_field, variables_in,
    wanted_directory, DirectoryError, EnvironmentProblem, FoundDirectory, ProjectConfigError,
    ProjectDraft,
};
use crate::project::{is_config_root, project_config_root, WorktreeMetadata};
use crate::project::paths::QueryPath;
use crate::project::paths::{
    components, depth, display_name, identity_of, identity_within, is_within, key_of, same_path,
    with_slashes,
};
use crate::project::registry::ProjectRegistry;
use crate::project_commands::{commands_read, commands_view, environment_entry_error, pairs};
use crate::text::{has_prefix, lemma_one_piece, lemma_pieces_of_two, pieces, trimmed};

verus! {

/// What lies below an absolute root is within it, one name further down for each name;
/// and a root is within itself.
pub proof fn law_what_is_below_is_within(root: Seq<char>, relative: Seq<char>, name: Seq<char>)
    requires
        root.len() > 0,
        root[0] == '/',
        relative.len() == 0 || relative[0] != '/',
    ensures
        is_within(below(root, relative, false), None, root, false),
        components(below(root, relative, false)) == components(root) + segments(relative),
        is_within(root, None, root, false),
        depth(below(root, relative, false), false) == depth(root, false) + segments(relative).len(),
        name.len() > 0 && name != "."@ && name != ".."@ && !name.contains('/') ==> {
            &&& display_name(below(root, name, false), false) == name
            &&& depth(below(root, name, false), false) == depth(root, false) + 1
        },
{
    lemma_below_components(root, relative);
    let below_root = components(below(root, relative, false));
    let count = components(root).len() as int;
    assert(below_root.take(count) =~= components(root));
    assert(components(root).take(count) =~= components(root));
    if name.len() > 0 && name != "."@ && name != ".."@ && !name.contains('/') {
        law_joined_name_is_the_last(root, name);
        assert(name.contains(name[0]));
        lemma_below_components(root, name);
        lemma_one_segment(name);
    }
}

proof fn lemma_below_components(root: Seq<char>, relative: Seq<char>)
    requires
        root.len() > 0,
        root[0] == '/',
        relative.len() == 0 || relative[0] != '/',
    ensures
        components(below(root, relative, false)) == components(root) + segments(relative),
{
    reveal_strlit("/");
    law_joined_path_leads_through_both(root, relative);
    let joined = below(root, relative, false);
    assert(joined[0] == root[0]) by {
        assert(joined.take(root.len() as int)[0] == joined[0]);
    }
    assert(joined.take(1) =~= "/"@);
    assert(root.take(1) =~= "/"@);
    assert(components(joined) =~= components(root) + segments(relative));
}

proof fn lemma_one_segment(name: Seq<char>)
    requires
        name.len() > 0,
        name != "."@,
        !name.contains('/'),
    ensures
        segments(name) == seq![name],
{
    lemma_one_piece(name, '/');
    assert(seq![name].drop_last() =~= Seq::<Seq<char>>::empty());
    reveal_with_fuel(crate::path::naming_parts, 2);
    assert(segments(name) =~= seq![name]);
}

/// A directory whose name begins as a root's does is not within it: the names are
/// compared whole.
pub proof fn law_longer_name_is_not_within(root: Seq<char>, rest: Seq<char>)
    requires
        rest.len() > 0,
        rest[0] != '/',
        rest[0] != '\\',
    ensures
        !identity_within(root + rest, root),
        identity_within(root, root),
        identity_within(root + seq!['/'] + rest, root),
{
    reveal_strlit("/");
    reveal_strlit(r"\");
    let longer = root + rest;
    assert(longer.skip(root.len() as int) =~= rest);
    if has_prefix(rest, "/"@) {
        assert(rest.take(1)[0] == rest[0]);
    }
    if has_prefix(rest, r"\"@) {
        assert(rest.take(1)[0] == rest[0]);
    }
    assert(longer != root) by {
        assert(longer.len() > root.len());
    }
    let inside = root + seq!['/'] + rest;
    assert(inside.take(root.len() as int) =~= root);
    assert(inside.skip(root.len() as int) =~= seq!['/'] + rest);
    assert((seq!['/'] + rest).take(1) =~= "/"@);
}

/// Slashes at the end of a path, and which way its slashes lean, do not make it another
/// path; a key tells apart a path with a slash at its end.
pub proof fn law_slashes_do_not_count(path: Seq<char>)
    ensures
        identity_of(path + seq!['/'], false) == identity_of(path, false),
        identity_of(path + seq!['\\'], false) == identity_of(path, false),
        identity_of(with_slashes(path), false) == identity_of(path, false),
        path.len() > 0 && path.last() == '/' ==> same_path(path + seq!['/'], path, false),
        path.len() > 0 && path != "."@ ==> same_path(path + seq!['/'], path, false),
        key_of(with_slashes(path), false) == key_of(path, false),
        key_of(path + seq!['/'], false) != key_of(path, false),
{
    let longer = path + seq!['/'];
    let leaning = path + seq!['\\'];
    assert(with_slashes(longer) =~= with_slashes(path) + seq!['/']);
    assert(with_slashes(leaning) =~= with_slashes(path) + seq!['/']);
    let slashed = with_slashes(path) + seq!['/'];
    assert(slashed.last() == '/' && slashed.drop_last() =~= with_slashes(path));
    assert(with_slashes(with_slashes(path)) =~= with_slashes(path));
    assert(key_of(longer, false).len() == path.len() + 1 && key_of(path, false).len()
        == path.len());
    if path.len() > 0 {
        lemma_end_slash(path);
    }
}

proof fn lemma_end_slash(path: Seq<char>)
    requires
        path.len() > 0,
    ensures
        components(path + seq!['/']) == components(path),
{
    reveal_strlit("/");
    reveal_strlit(".");
    let longer = path + seq!['/'];
    assert(longer =~= path.push('/') + Seq::<char>::empty());
    lemma_pieces_of_two(path, Seq::empty(), '/');
    lemma_one_piece(Seq::empty(), '/');
    let nothing = seq![Seq::<char>::empty()];
    lemma_names_before_nothing(pieces(path, '/'));
    assert(segments(longer) == segments(path));
    crate::text::lemma_pieces_nonempty(path, '/');
    assert((pieces(path, '/') + nothing).first() == pieces(path, '/').first());
    assert(longer.take(1) =~= path.take(1));
}

proof fn lemma_names_before_nothing(parts: Seq<Seq<char>>)
    ensures
        crate::path::naming_parts(parts + seq![Seq::<char>::empty()]) == crate::path::naming_parts(
            parts,
        ),
{
    let longer = parts + seq![Seq::<char>::empty()];
    assert(longer.drop_last() =~= parts);
    assert(longer.last().len() == 0);
}

/// A project's settings are in the file `config.json` of its directory `.zetta`.
pub proof fn law_settings_file_is_below_the_root(root: Seq<char>)
    requires
        root.len() > 0,
    ensures
        segments(config_file_of(root, false)) == segments(root) + seq![".zetta"@, "config.json"@],
        name_of(config_file_of(root, false), false) == Some("config.json"@),
        has_prefix(config_file_of(root, false), root),
{
    reveal_strlit(".zetta");
    reveal_strlit("config.json");
    reveal_strlit(".");
    reveal_strlit("..");
    let directory = below(root, ".zetta"@, false);
    law_joined_path_leads_through_both(root, ".zetta"@);
    law_joined_path_leads_through_both(directory, "config.json"@);
    assert(!".zetta"@.contains('/'));
    assert(!"config.json"@.contains('/'));
    assert(".zetta"@.len() == 6 && "config.json"@.len() == 11);
    lemma_one_segment(".zetta"@);
    lemma_one_segment("config.json"@);
    law_joined_name_is_the_last(directory, "config.json"@);
    assert(segments(root) + seq![".zetta"@] + seq!["config.json"@] =~= segments(root) + seq![
        ".zetta"@,
        "config.json"@,
    ]);
    let file = config_file_of(root, false);
    assert(file.take(root.len() as int) =~= directory.take(root.len() as int)) by {
        assert(file.take(directory.len() as int) == directory);
        assert(file.take(root.len() as int) =~= file.take(directory.len() as int).take(
            root.len() as int,
        ));
    }
}

/// The environment of a project's file has each variable that it names, with the value
/// that is written there, in the order of the file; and only a file in which some
/// variable is no text or cannot be set is refused.
pub proof fn law_project_environment_is_as_written(entries: Seq<(Seq<char>, JsonView)>)
    ensures
        match variables_in(entries) {
            Ok(read) => read.len() == entries.len() && forall|i: int|
                0 <= i < entries.len() ==> {
                    let entry = #[trigger] entries[i];
                    entry.1 == JsonView::Text(read[i].1) && entry.0 == read[i].0
                        && environment_entry_error(read[i].0, read[i].1) is None
                },
            Err(_) => exists|i: int| #![trigger entries[i]]
                0 <= i < entries.len() && match entries[i].1 {
                    JsonView::Text(text) => environment_entry_error(entries[i].0, text) is Some,
                    _ => true,
                },
        },
        project_environment(JsonView::Object(entries)) == variables_in(entries),
    decreases entries.len(),
{
    if entries.len() > 0 {
        let shorter = entries.drop_last();
        law_project_environment_is_as_written(shorter);
        assert forall|i: int| 0 <= i < shorter.len() implies #[trigger] entries[i]
            == shorter[i] by {}
        let last = entries.len() - 1;
        assert(entries[last] == entries.last());
        match variables_in(shorter) {
            Err(_) => {
                let i = choose|i: int| #![trigger shorter[i]]
                    0 <= i < shorter.len() && match shorter[i].1 {
                        JsonView::Text(text) => environment_entry_error(shorter[i].0, text) is Some,
                        _ => true,
                    };
                assert(entries[i] == shorter[i]);
            },
            Ok(before) => {
                if let Ok(read) = variables_in(entries) {
                    assert forall|i: int| 0 <= i < entries.len() implies {
                        let entry = #[trigger] entries[i];
                        entry.1 == JsonView::Text(read[i].1) && entry.0 == read[i].0
                            && environment_entry_error(read[i].0, read[i].1) is None
                    } by {
                        if i < last {
                            assert(entries[i] == shorter[i]);
                            assert(read[i] == before[i]);
                        }
                    }
                }
            },
        }
    }
}

/// Fields that the configuration shares are laid over it, all of them and in their
/// order, and the project's own are not.
pub proof fn law_shared_fields_are_laid_over(
    entries: Seq<(Seq<char>, JsonView)>,
    key: Seq<char>,
)
    ensures
        key != "env"@ && key != "commands"@ && key != "initial_split"@ ==> lookup(
            shared_fields(entries),
            key,
        ) == lookup(entries, key),
        lookup(shared_fields(entries), "env"@) is None,
        lookup(shared_fields(entries), "commands"@) is None,
        lookup(shared_fields(entries), "initial_split"@) is None,
    decreases entries.len(),
{
    let read = shared_fields(entries);
    if entries.len() > 0 {
        let shorter = entries.drop_last();
        let last = entries.last();
        law_shared_fields_are_laid_over(shorter, key);
        assert(entries =~= shorter.push(last));
        lemma_lookup_pushed(shorter, last, key);
        let before = shared_fields(shorter);
        lemma_lookup_pushed(before, last, key);
        lemma_lookup_pushed(before, last, "env"@);
        lemma_lookup_pushed(before, last, "commands"@);
        lemma_lookup_pushed(before, last, "initial_split"@);
    }
}

proof fn lemma_lookup_pushed(
    entries: Seq<(Seq<char>, JsonView)>,
    last: (Seq<char>, JsonView),
    key: Seq<char>,
)
    ensures
        lookup(entries.push(last), key) == match lookup(entries, key) {
            Some(value) => Some(value),
            None => if last.0 == key {
                Some(last.1)
            } else {
                None
            },
        },
    decreases entries.len(),
{
    let longer = entries.push(last);
    if entries.len() == 0 {
        assert(longer.first() == last);
        assert(longer.drop_first() =~= Seq::<(Seq<char>, JsonView)>::empty());
        reveal_with_fuel(lookup, 2);
    } else {
        assert(longer.first() == entries.first());
        assert(longer.drop_first() =~= entries.drop_first().push(last));
        lemma_lookup_pushed(entries.drop_first(), last, key);
    }
}

/// What a project's file says under `env`, `commands`, `initial_split` and
/// `working_directory` is what counts for these, whatever else it holds; and where it
/// says nothing, there are no variables, no commands and no split, and the directory
/// is the root.
pub proof fn law_each_field_is_read(
    entries: Seq<(Seq<char>, JsonView)>,
    variables: Seq<(Seq<char>, JsonView)>,
    commands: Seq<(Seq<char>, JsonView)>,
    split: Seq<char>,
    root: Seq<char>,
    found: FoundDirectory,
    windows: bool,
)
    ensures
        lookup(entries, "env"@) is None ==> environment_in(entries) == Ok::<
            Seq<(Seq<char>, Seq<char>)>,
            EnvironmentProblem,
        >(Seq::empty()),
        lookup(entries, "env"@) == Some(JsonView::Object(variables)) ==> environment_in(entries)
            == variables_in(variables),
        lookup(entries, "commands"@) is None ==> (commands_in(entries) matches Some(Ok(read))
            && read.len() == 0),
        lookup(entries, "commands"@) == Some(JsonView::Object(commands)) ==> commands_in(entries)
            == Some(commands_read(commands)),
        lookup(entries, "initial_split"@) is None ==> split_in(entries) is None && split_error(
            entries,
        ) is None,
        lookup(entries, "initial_split"@) == Some(JsonView::Text(split)) ==> split_in(entries)
            == Some(split) && (split_error(entries) is Some <==> trimmed(split).len() == 0),
        lookup(entries, "working_directory"@) is None ==> directory_in(
            entries,
            root,
            found,
            windows,
        ) == Ok::<Seq<char>, DirectoryError>(root),
        lookup(entries, "working_directory"@) is Some ==> (directory_in(
            entries,
            root,
            found,
            windows,
        ) matches Ok(directory) ==> is_within(directory, Some(directory), root, windows)),
{
}

/// A directory that a project asks for is refused where it leads out of the project:
/// up, to the root of the machine or, on Windows, to a drive; any other is meant from
/// the project's root.
pub proof fn law_directory_is_meant_from_the_root(
    root: Seq<char>,
    relative: Seq<char>,
    windows: bool,
)
    ensures
        wanted_directory(root, JsonView::Text(relative), windows) matches Ok(directory) ==> {
            &&& directory == below(root, relative, windows)
            &&& !pieces(relative, '/').contains(".."@) || windows
            &&& relative[0] != '/'
            &&& trimmed(relative).len() > 0
        },
        !windows && trimmed(relative).len() > 0 && !has_prefix(relative, "/"@) && !pieces(
            relative,
            '/',
        ).contains(".."@) ==> wanted_directory(root, JsonView::Text(relative), windows) is Ok,
{
    reveal_strlit("/");
    crate::text::laws::law_trimming_takes_spaces_off(relative);
    if trimmed(relative).len() > 0 {
        assert(relative.len() > 0);
        if relative[0] == '/' {
            assert(relative.take(1) =~= "/"@);
            assert(with_slashes(relative).take(1) =~= "/"@);
        }
    }
}

/// A field that a project's file may not have is the first that it has of those.
pub proof fn law_unknown_field_is_named(
    entries: Seq<(Seq<char>, JsonView)>,
    known: Seq<Seq<char>>,
)
    ensures
        match first_other_key(entries, known) {
            Some(key) => !known.contains(key) && exists|i: int| #![trigger entries[i]]
                0 <= i < entries.len() && entries[i].0 == key && forall|j: int|
                    0 <= j < i ==> known.contains((#[trigger] entries[j]).0),
            None => forall|i: int|
                0 <= i < entries.len() ==> known.contains((#[trigger] entries[i]).0),
        },
    decreases entries.len(),
{
    if entries.len() > 0 {
        assert(entries.first() == entries[0]);
        if known.contains(entries.first().0) {
            let rest = entries.drop_first();
            law_unknown_field_is_named(rest, known);
            assert forall|i: int| 1 <= i < entries.len() implies #[trigger] entries[i] == rest[i
                - 1] by {}
            if let Some(key) = first_other_key(rest, known) {
                let i = choose|i: int| #![trigger rest[i]]
                    0 <= i < rest.len() && rest[i].0 == key && forall|j: int|
                        0 <= j < i ==> known.contains((#[trigger] rest[j]).0);
                assert(entries[i + 1] == rest[i]);
                assert forall|j: int| 0 <= j < i + 1 implies known.contains(
                    (#[trigger] entries[j]).0,
                ) by {
                    if j > 0 {
                        assert(entries[j] == rest[j - 1]);
                    }
                }
            }
        }
    }
}

/// A project's file may say what a project may set, and each field that is read is one
/// of them.
pub proof fn law_fields_that_are_read_are_known()
    ensures
        project_fields().contains("env"@),
        project_fields().contains("commands"@),
        project_fields().contains("initial_split"@),
        project_fields().contains("working_directory"@),
        project_fields().contains("theme"@),
        project_fields().contains("dark_theme"@),
        project_fields().contains("profiles"@),
        project_fields().contains("default_profile"@),
        project_fields().contains("default_tab_icon"@),
        project_fields().contains("inactive_pane_opacity"@),
        project_fields().contains("pane_split_templates"@),
        project_fields().len() == 11,
{
    let fields = project_fields();
    assert(fields[0] == "theme"@ && fields[1] == "dark_theme"@ && fields[2]
        == "working_directory"@);
    assert(fields[3] == "default_profile"@ && fields[4] == "profiles"@ && fields[5]
        == "default_tab_icon"@);
    assert(fields[6] == "env"@ && fields[7] == "commands"@ && fields[8]
        == "inactive_pane_opacity"@);
    assert(fields[9] == "initial_split"@ && fields[10] == "pane_split_templates"@);
}

/// A project's file that is accepted has just the fields it may have, and its variables,
/// commands and split are those that stand in it; the rest is laid over the
/// configuration.
pub proof fn law_accepted_file_is_read(
    entries: Seq<(Seq<char>, JsonView)>,
    draft: ProjectDraft,
    variables: Seq<(Seq<char>, JsonView)>,
    commands: Seq<(Seq<char>, JsonView)>,
    at: int,
)
    requires
        drafted(entries, Ok(draft)),
        0 <= at < entries.len(),
    ensures
        project_fields().contains(entries[at].0),
        entries_view(draft.object@) == entries,
        lookup(entries, "env"@) is None ==> draft.environment@.len() == 0,
        lookup(entries, "env"@) == Some(JsonView::Object(variables)) ==> variables_in(variables)
            == Ok::<Seq<(Seq<char>, Seq<char>)>, EnvironmentProblem>(pairs(draft.environment@)),
        lookup(entries, "commands"@) is None ==> draft.commands@.len() == 0,
        lookup(entries, "commands"@) == Some(JsonView::Object(commands)) ==> (commands_read(
            commands,
        ) matches Ok(read) && read == commands_view(draft.commands@)),
        lookup(entries, "initial_split"@) is None ==> draft.initial_split is None,
        draft.initial_split matches Some(name) ==> lookup(entries, "initial_split"@) == Some(
            JsonView::Text(name@),
        ) && trimmed(name@).len() > 0,
        draft.overlay@ == display_of_json(JsonView::Object(shared_fields(entries))),
{
    law_unknown_field_is_named(entries, project_fields());
    assert(pairs(draft.environment@).len() == draft.environment@.len());
    assert(commands_view(draft.commands@).len() == draft.commands@.len());
}

/// A file with a field that it may not have is refused for the first of them, whatever
/// else is in it.
pub proof fn law_unknown_field_refuses_the_file(
    entries: Seq<(Seq<char>, JsonView)>,
    result: Result<ProjectDraft, ProjectConfigError>,
    at: int,
)
    requires
        drafted(entries, result),
        0 <= at < entries.len(),
        !project_fields().contains(entries[at].0),
    ensures
        result matches Err(ProjectConfigError::UnknownField(name)) && !project_fields().contains(
            name@,
        ),
{
    law_unknown_field_is_named(entries, project_fields());
    assert(first_other_key(entries, project_fields()) is Some) by {
        if first_other_key(entries, project_fields()) is None {
            assert(project_fields().contains(entries[at].0));
        }
    }
}

/// A field that must be a text is read as it is written, is left open where it is not
/// there, and refuses the file where it is anything else.
pub proof fn law_text_fields_are_read(
    entries: Seq<(Seq<char>, JsonView)>,
    key: Seq<char>,
    text: Seq<char>,
)
    ensures
        lookup(entries, key) == Some(JsonView::Text(text)) ==> text_field(entries, key) == Ok::<
            Option<Seq<char>>,
            (),
        >(Some(text)),
        lookup(entries, key) is None ==> text_field(entries, key) == Ok::<Option<Seq<char>>, ()>(
            None,
        ),
        lookup(entries, key) == Some(JsonView::Null) ==> text_field(entries, key) is Err,
{
}

/// A root's own file counts where the settings for the root are its own: in a registered
/// project, and in a worktree that has a file.
pub proof fn law_own_file_counts(
    registry: ProjectRegistry,
    root: QueryPath,
    worktree: Option<WorktreeMetadata>,
)
    ensures
        is_config_root(registry, root, worktree) ==> project_config_root(registry, root, worktree)
            is Some,
        project_config_root(registry, root, worktree) == Some(root.path@) ==> is_config_root(
            registry,
            root,
            worktree,
        ),
        project_config_root(registry, root, worktree) is None ==> !is_config_root(
            registry,
            root,
            worktree,
        ),
        project_config_root(registry, root, worktree) matches Some(settings) ==> is_config_root(
            registry,
            root,
            worktree,
        ) == same_path(settings, root.path@, registry.windows),
{
}

} // verus!
