//! Changes of the configuration that `zetta profile` makes.

use vstd::prelude::*;

use crate::json::{
    copy_items, entries_view, entry_map, get, items_view, json_of, lemma_array_view,
    lemma_lookup_position, lemma_object_view, lookup, parse, print, remove, text_of_json, Json,
    JsonView,
};
use crate::profile::Profile;
use crate::profile_cli::{ProfileCommand, ProfileCommandView};
use crate::project_context::themes::{find_profile, profile_named};
use crate::text::{
    eq_ignore_ascii_case, list_contains, optional_text, same_ignoring_case, same_text, texts,
};

verus! {

/// Why a configuration is not changed.
#[derive(Clone, Copy, Debug, PartialEq, Eq, Structural)]
pub enum MutationError {
    NotJson,
    NotAnObject,
    /// The profiles of the configuration are no array.
    ProfilesNotAnArray,
    /// No profile has the name.
    UnknownProfile,
    UnknownTheme,
    /// A profile of the name is there.
    ProfileExists,
    /// The profile was detected, and cannot be removed.
    DetectedProfile,
    /// The profile is the default, and cannot be removed.
    DefaultProfile,
    /// The changed configuration could not be printed.
    NotPrinted,
}

/// A change of a profile in the configuration.
#[derive(Debug, PartialEq, Eq)]
pub enum ProfileChange {
    Hide,
    Show,
    Theme(String),
    ResetTheme,
}

/// A change of a profile, as it views.
pub ghost enum ProfileChangeView {
    Hide,
    Show,
    Theme(Seq<char>),
    ResetTheme,
}

impl ProfileChange {
    pub open spec fn view(self) -> ProfileChangeView {
        match self {
            ProfileChange::Hide => ProfileChangeView::Hide,
            ProfileChange::Show => ProfileChangeView::Show,
            ProfileChange::Theme(theme) => ProfileChangeView::Theme(theme@),
            ProfileChange::ResetTheme => ProfileChangeView::ResetTheme,
        }
    }
}

/// Whether a change makes a difference to a profile's fields.
pub open spec fn makes_difference(
    entries: Seq<(Seq<char>, JsonView)>,
    change: ProfileChangeView,
) -> bool {
    match change {
        ProfileChangeView::Hide => lookup(entries, "hidden"@) != Some(JsonView::Bool(true)),
        ProfileChangeView::Show => lookup(entries, "hidden"@) == Some(JsonView::Bool(true)),
        ProfileChangeView::Theme(theme) => lookup(entries, "theme"@) != Some(
            JsonView::Text(theme),
        ),
        ProfileChangeView::ResetTheme => lookup(entries, "theme"@) is Some,
    }
}

/// A profile's fields after a change that makes a difference.
pub open spec fn changed_fields(
    fields: Map<Seq<char>, JsonView>,
    change: ProfileChangeView,
) -> Map<Seq<char>, JsonView> {
    match change {
        ProfileChangeView::Hide => fields.insert("hidden"@, JsonView::Bool(true)),
        ProfileChangeView::Show => fields.remove("hidden"@),
        ProfileChangeView::Theme(theme) => fields.insert("theme"@, JsonView::Text(theme)),
        ProfileChangeView::ResetTheme => fields.remove("theme"@),
    }
}

/// Whether a value of the configuration is the profile of a name.
pub open spec fn is_named(value: JsonView, name: Seq<char>) -> bool {
    match value {
        JsonView::Object(entries) => match lookup(entries, "name"@) {
            Some(JsonView::Text(text)) => same_ignoring_case(text, name),
            _ => false,
        },
        _ => false,
    }
}

fn has_name(value: &Json, name: &str) -> (result: bool)
    ensures
        result == is_named(value.view(), name@),
{
    match value {
        Json::Object(entries) => {
            proof {
                lemma_object_view(*entries);
            }
            match get(entries, "name") {
                Some(Json::Text(text)) => eq_ignore_ascii_case(text.as_str(), name),
                _ => false,
            }
        },
        _ => false,
    }
}

/// Whether a change makes a difference to a value of the configuration.
pub open spec fn is_affected(value: JsonView, name: Seq<char>, change: ProfileChangeView) -> bool {
    is_named(value, name) && makes_difference(value->Object_0, change)
}

/// Whether a value of the configuration is changed as it should be, where it is
/// the profile of a name, and else is left alone.
pub open spec fn is_reworked(
    before: JsonView,
    after: JsonView,
    name: Seq<char>,
    change: ProfileChangeView,
) -> bool {
    if is_affected(before, name, change) {
        after matches JsonView::Object(entries) && entry_map(entries) == changed_fields(
            entry_map(before->Object_0),
            change,
        )
    } else {
        after == before
    }
}

/// Whether the profiles of a configuration are changed as they should be.
pub open spec fn are_reworked(
    before: Seq<JsonView>,
    after: Seq<JsonView>,
    name: Seq<char>,
    change: ProfileChangeView,
) -> bool {
    &&& after.len() == before.len()
    &&& forall|i: int|
        0 <= i < before.len() ==> is_reworked(before[i], #[trigger] after[i], name, change)
}

/// Whether some value of the configuration is the profile of a name.
pub open spec fn any_named(profiles: Seq<JsonView>, name: Seq<char>) -> bool {
    exists|i: int| 0 <= i < profiles.len() && is_named(#[trigger] profiles[i], name)
}

/// Whether a change makes a difference to some profile of a name.
pub open spec fn any_affected(
    profiles: Seq<JsonView>,
    name: Seq<char>,
    change: ProfileChangeView,
) -> bool {
    exists|i: int| 0 <= i < profiles.len() && is_affected(#[trigger] profiles[i], name, change)
}

/// The profiles that a configuration lists; `None` where they are no list.
pub open spec fn listed_profiles(root: Seq<(Seq<char>, JsonView)>) -> Option<Seq<JsonView>> {
    match lookup(root, "profiles"@) {
        None => Some(Seq::empty()),
        Some(JsonView::Array(items)) => Some(items),
        Some(_) => None,
    }
}

/// What a configuration says of a profile that it did not list.
pub open spec fn new_profile(name: Seq<char>, change: ProfileChangeView) -> Option<JsonView> {
    match change {
        ProfileChangeView::Hide => Some(
            JsonView::Object(
                seq![("name"@, JsonView::Text(name)), ("hidden"@, JsonView::Bool(true))],
            ),
        ),
        ProfileChangeView::Theme(theme) => Some(
            JsonView::Object(
                seq![("name"@, JsonView::Text(name)), ("theme"@, JsonView::Text(theme))],
            ),
        ),
        _ => None,
    }
}

fn change_profile(value: &Json, name: &str, change: &ProfileChange) -> (result: (Json, bool))
    requires
        value.view().wf(),
    ensures
        is_reworked(value.view(), result.0.view(), name@, change.view()),
        result.1 == is_affected(value.view(), name@, change.view()),
{
    if !has_name(value, name) {
        return (value.duplicate(), false);
    }
    let copy = value.duplicate();
    match copy {
        Json::Object(mut entries) => {
            let ghost before = entries_view(entries@);
            proof {
                lemma_object_view(entries);
                assert(value.view() == JsonView::Object(before));
            }
            let affected = match change {
                ProfileChange::Hide => match get(&entries, "hidden") {
                    Some(Json::Bool(true)) => false,
                    _ => {
                        crate::json::set(&mut entries, "hidden", Json::Bool(true));
                        true
                    },
                },
                ProfileChange::Show => match get(&entries, "hidden") {
                    Some(Json::Bool(true)) => {
                        remove(&mut entries, "hidden");
                        true
                    },
                    _ => false,
                },
                ProfileChange::Theme(theme) => {
                    let same = match get(&entries, "theme") {
                        Some(Json::Text(text)) => same_text(text.as_str(), theme.as_str()),
                        _ => false,
                    };
                    if !same {
                        crate::json::set(&mut entries, "theme", Json::Text(theme.clone()));
                    }
                    !same
                },
                ProfileChange::ResetTheme => remove(&mut entries, "theme").is_some(),
            };
            proof {
                lemma_object_view(entries);
            }
            (Json::Object(entries), affected)
        },
        _ => (copy, false),
    }
}

fn copy_profiles(root: &Vec<(String, Json)>) -> (result: Option<Vec<Json>>)
    ensures
        match result {
            Some(profiles) => listed_profiles(entries_view(root@)) == Some(items_view(profiles@)),
            None => listed_profiles(entries_view(root@)) is None,
        },
{
    match get(root, "profiles") {
        None => {
            let none: Vec<Json> = Vec::new();
            proof {
                assert(items_view(none@) =~= Seq::<JsonView>::empty());
            }
            Some(none)
        },
        Some(Json::Array(items)) => {
            proof {
                lemma_array_view(*items);
            }
            Some(copy_items(items))
        },
        Some(_) => None,
    }
}

/// Whether setting the profiles of a configuration gave it the ones it should
/// have, and left the rest alone.
pub open spec fn lists_profiles(
    before: Seq<(Seq<char>, JsonView)>,
    after: Seq<(Seq<char>, JsonView)>,
    profiles: Seq<JsonView>,
) -> bool {
    entry_map(after) == entry_map(before).insert("profiles"@, JsonView::Array(profiles))
}

proof fn lemma_listed_wf(root: Seq<(Seq<char>, JsonView)>, profiles: Seq<JsonView>, at: int)
    requires
        JsonView::Object(root).wf(),
        listed_profiles(root) == Some(profiles),
        0 <= at < profiles.len(),
    ensures
        profiles[at].wf(),
{
    let index = lemma_lookup_position(root, "profiles"@);
    assert(root[index].1 == JsonView::Array(profiles));
    assert(root[index].1.wf());
    assert(JsonView::Array(profiles).wf());
}

fn rework_profiles(profiles: &Vec<Json>, name: &str, change: &ProfileChange) -> (result: (
    Vec<Json>,
    bool,
    bool,
))
    requires
        forall|i: int| 0 <= i < profiles@.len() ==> (#[trigger] profiles@[i]).view().wf(),
    ensures
        are_reworked(items_view(profiles@), items_view(result.0@), name@, change.view()),
        result.1 == any_named(items_view(profiles@), name@),
        result.2 == any_affected(items_view(profiles@), name@, change.view()),
{
    let mut reworked: Vec<Json> = Vec::new();
    let mut named = false;
    let mut affected = false;
    let mut index: usize = 0;
    let ghost all = items_view(profiles@);
    while index < profiles.len()
        invariant
            index <= profiles@.len(),
            all == items_view(profiles@),
            forall|i: int| 0 <= i < profiles@.len() ==> (#[trigger] profiles@[i]).view().wf(),
            reworked@.len() == index,
            forall|i: int|
                0 <= i < index ==> is_reworked(
                    all[i],
                    #[trigger] items_view(reworked@)[i],
                    name@,
                    change.view(),
                ),
            named == exists|i: int| 0 <= i < index && is_named(#[trigger] all[i], name@),
            affected == exists|i: int|
                0 <= i < index && is_affected(#[trigger] all[i], name@, change.view()),
        decreases profiles@.len() - index,
    {
        proof {
            assert(all[index as int] == profiles@[index as int].view());
        }
        let ghost before = items_view(reworked@);
        if has_name(&profiles[index], name) {
            named = true;
        }
        let (value, changed) = change_profile(&profiles[index], name, change);
        if changed {
            affected = true;
        }
        reworked.push(value);
        proof {
            assert(items_view(reworked@) =~= before.push(value.view()));
        }
        index = index + 1;
    }
    (reworked, named, affected)
}

/// What a change of a profile comes to, by the profiles that a configuration
/// lists.
pub open spec fn change_outcome(
    before: Seq<(Seq<char>, JsonView)>,
    after: Seq<(Seq<char>, JsonView)>,
    name: Seq<char>,
    change: ProfileChangeView,
    result: Result<bool, MutationError>,
) -> bool {
    match listed_profiles(before) {
        Some(profiles) => if any_named(profiles, name) {
            &&& result == Ok::<bool, MutationError>(any_affected(profiles, name, change))
            &&& any_affected(profiles, name, change) ==> exists|reworked: Seq<JsonView>|
                are_reworked(profiles, reworked, name, change) && #[trigger] lists_profiles(
                    before,
                    after,
                    reworked,
                )
            &&& !any_affected(profiles, name, change) ==> after == before
        } else {
            match new_profile(name, change) {
                Some(profile) => result == Ok::<bool, MutationError>(true) && lists_profiles(
                    before,
                    after,
                    profiles.push(profile),
                ),
                None => result == Ok::<bool, MutationError>(false) && after == before,
            }
        },
        None => {
            &&& after == before
            &&& result == match new_profile(name, change) {
                Some(_) => Err::<bool, MutationError>(MutationError::ProfilesNotAnArray),
                None => Ok(false),
            }
        },
    }
}

/// Makes a change of a profile in a configuration: in each place where it is
/// listed, or in a new one.
pub fn set_profile(root: &mut Vec<(String, Json)>, name: &str, change: &ProfileChange) -> (result:
    Result<bool, MutationError>)
    requires
        JsonView::Object(entries_view(old(root)@)).wf(),
    ensures
        change_outcome(
            entries_view(old(root)@),
            entries_view(final(root)@),
            name@,
            change.view(),
            result,
        ),
{
    let ghost before = entries_view(root@);
    let mut profiles = match copy_profiles(root) {
        Some(profiles) => profiles,
        None => {
            return match change {
                ProfileChange::Hide | ProfileChange::Theme(_) => Err(
                    MutationError::ProfilesNotAnArray,
                ),
                ProfileChange::Show | ProfileChange::ResetTheme => Ok(false),
            };
        },
    };
    let ghost listed = items_view(profiles@);
    proof {
        assert forall|i: int| 0 <= i < profiles@.len() implies (
        #[trigger] profiles@[i]).view().wf() by {
            assert(listed[i] == profiles@[i].view());
            lemma_listed_wf(before, listed, i);
        }
    }
    let (reworked, named, affected) = rework_profiles(&profiles, name, change);
    if named {
        if affected {
            let ghost shown = items_view(reworked@);
            proof {
                lemma_array_view(reworked);
            }
            crate::json::set(root, "profiles", Json::Array(reworked));
            proof {
                assert(lists_profiles(before, entries_view(root@), shown));
            }
        }
        return Ok(affected);
    }
    let mut fields: Vec<(String, Json)> = Vec::new();
    fields.push(("name".to_owned(), Json::Text(name.to_owned())));
    match change {
        ProfileChange::Hide => {
            fields.push(("hidden".to_owned(), Json::Bool(true)));
        },
        ProfileChange::Theme(theme) => {
            fields.push(("theme".to_owned(), Json::Text(theme.clone())));
        },
        ProfileChange::Show | ProfileChange::ResetTheme => {
            return Ok(false);
        },
    }
    proof {
        lemma_object_view(fields);
        assert(Some(JsonView::Object(entries_view(fields@))) == new_profile(name@, change.view()))
            by {
            assert(entries_view(fields@) =~= (new_profile(name@, change.view())->0)->Object_0);
        }
    }
    let value = Json::Object(fields);
    profiles.push(value);
    proof {
        assert(items_view(profiles@) =~= listed.push(value.view()));
        lemma_array_view(profiles);
    }
    crate::json::set(root, "profiles", Json::Array(profiles));
    Ok(true)
}

/// Hides a profile, or shows it again.
pub fn set_profile_hidden(root: &mut Vec<(String, Json)>, name: &str, hidden: bool) -> (result: Result<
    bool,
    MutationError,
>)
    requires
        JsonView::Object(entries_view(old(root)@)).wf(),
    ensures
        change_outcome(
            entries_view(old(root)@),
            entries_view(final(root)@),
            name@,
            if hidden {
                ProfileChangeView::Hide
            } else {
                ProfileChangeView::Show
            },
            result,
        ),
{
    if hidden {
        set_profile(root, name, &ProfileChange::Hide)
    } else {
        set_profile(root, name, &ProfileChange::Show)
    }
}

/// Sets a profile's theme, or resets it.
pub fn set_profile_theme(root: &mut Vec<(String, Json)>, name: &str, theme: &Option<String>) -> (result:
    Result<bool, MutationError>)
    requires
        JsonView::Object(entries_view(old(root)@)).wf(),
    ensures
        change_outcome(
            entries_view(old(root)@),
            entries_view(final(root)@),
            name@,
            match *theme {
                Some(theme) => ProfileChangeView::Theme(theme@),
                None => ProfileChangeView::ResetTheme,
            },
            result,
        ),
{
    match theme {
        Some(theme) => set_profile(root, name, &ProfileChange::Theme(theme.clone())),
        None => set_profile(root, name, &ProfileChange::ResetTheme),
    }
}

/// The profiles of a configuration without those of a name.
pub open spec fn without_named(profiles: Seq<JsonView>, name: Seq<char>) -> Seq<JsonView>
    decreases profiles.len(),
{
    if profiles.len() == 0 {
        Seq::empty()
    } else {
        let before = without_named(profiles.drop_last(), name);
        if is_named(profiles.last(), name) {
            before
        } else {
            before.push(profiles.last())
        }
    }
}

/// Takes a profile out of a configuration, in each place where it is listed.
pub fn remove_profile(root: &mut Vec<(String, Json)>, name: &str) -> (result: Result<
    bool,
    MutationError,
>)
    ensures
        match lookup(entries_view(old(root)@), "profiles"@) {
            Some(JsonView::Array(profiles)) => {
                &&& result == Ok::<bool, MutationError>(any_named(profiles, name@))
                &&& if any_named(profiles, name@) {
                    lists_profiles(
                        entries_view(old(root)@),
                        entries_view(final(root)@),
                        without_named(profiles, name@),
                    )
                } else {
                    entries_view(final(root)@) == entries_view(old(root)@)
                }
            },
            _ => result == Err::<bool, MutationError>(MutationError::ProfilesNotAnArray)
                && entries_view(final(root)@) == entries_view(old(root)@),
        },
{
    let profiles = match get(root, "profiles") {
        Some(Json::Array(items)) => {
            proof {
                lemma_array_view(*items);
            }
            copy_items(items)
        },
        _ => {
            return Err(MutationError::ProfilesNotAnArray);
        },
    };
    let ghost all = items_view(profiles@);
    let mut kept: Vec<Json> = Vec::new();
    let mut found = false;
    let mut index: usize = 0;
    proof {
        assert(all.take(0) == Seq::<JsonView>::empty());
        assert(items_view(kept@) =~= Seq::<JsonView>::empty());
    }
    while index < profiles.len()
        invariant
            index <= profiles@.len(),
            all == items_view(profiles@),
            items_view(kept@) == without_named(all.take(index as int), name@),
            found == exists|i: int| 0 <= i < index && is_named(#[trigger] all[i], name@),
        decreases profiles@.len() - index,
    {
        proof {
            let longer = all.take(index + 1);
            assert(longer.drop_last() == all.take(index as int));
            assert(longer.last() == profiles@[index as int].view());
            assert(all[index as int] == profiles@[index as int].view());
        }
        if has_name(&profiles[index], name) {
            found = true;
        } else {
            let ghost before = items_view(kept@);
            let value = profiles[index].duplicate();
            kept.push(value);
            proof {
                assert(items_view(kept@) =~= before.push(value.view()));
            }
        }
        index = index + 1;
    }
    proof {
        assert(all.take(index as int) == all);
    }
    if found {
        proof {
            lemma_array_view(kept);
        }
        crate::json::set(root, "profiles", Json::Array(kept));
    }
    Ok(found)
}

/// What a configuration says of a profile that is added.
pub open spec fn added_profile(
    name: Seq<char>,
    program: Seq<char>,
    args: Seq<Seq<char>>,
    theme: Option<Seq<char>>,
) -> JsonView {
    let fields = seq![
        ("name"@, JsonView::Text(name)),
        ("program"@, JsonView::Text(program)),
        ("args"@, JsonView::Array(args.map_values(|text: Seq<char>| JsonView::Text(text)))),
    ];
    JsonView::Object(
        match theme {
            Some(theme) => fields.push(("theme"@, JsonView::Text(theme))),
            None => fields,
        },
    )
}

fn write_profile(name: &str, program: &str, args: &Vec<String>, theme: &Option<String>) -> (result:
    Json)
    ensures
        result.view() == added_profile(name@, program@, texts(args@), optional_text(*theme)),
{
    let mut values: Vec<Json> = Vec::new();
    let mut index: usize = 0;
    let ghost wanted = texts(args@).map_values(|text: Seq<char>| JsonView::Text(text));
    while index < args.len()
        invariant
            index <= args@.len(),
            wanted == texts(args@).map_values(|text: Seq<char>| JsonView::Text(text)),
            items_view(values@) == wanted.take(index as int),
        decreases args@.len() - index,
    {
        let ghost before = items_view(values@);
        let value = Json::Text(args[index].clone());
        values.push(value);
        proof {
            assert(items_view(values@) =~= before.push(value.view()));
            assert(wanted.take(index + 1) =~= wanted.take(index as int).push(value.view()));
        }
        index = index + 1;
    }
    proof {
        assert(wanted.take(index as int) == wanted);
        lemma_array_view(values);
    }
    let mut fields: Vec<(String, Json)> = Vec::new();
    fields.push(("name".to_owned(), Json::Text(name.to_owned())));
    fields.push(("program".to_owned(), Json::Text(program.to_owned())));
    fields.push(("args".to_owned(), Json::Array(values)));
    if let Some(theme) = theme {
        fields.push(("theme".to_owned(), Json::Text(theme.clone())));
    }
    proof {
        lemma_object_view(fields);
        assert(entries_view(fields@) =~= added_profile(
            name@,
            program@,
            texts(args@),
            optional_text(*theme),
        )->Object_0);
    }
    Json::Object(fields)
}

/// What the configuration comes to, as far as changes go by it.
pub struct CurrentProfiles {
    pub profiles: Vec<Profile>,
    pub default_profile: usize,
    /// The names of the profiles that were detected.
    pub detected: Vec<String>,
    /// The names of the themes that there are.
    pub themes: Vec<String>,
}

/// Whether a list has a name, up to case.
pub open spec fn lists_name(names: Seq<String>, name: Seq<char>) -> bool {
    exists|i: int| 0 <= i < names.len() && same_ignoring_case((#[trigger] names[i])@, name)
}

fn has_listed_name(names: &Vec<String>, name: &str) -> (result: bool)
    ensures
        result == lists_name(names@, name@),
{
    let mut index: usize = 0;
    while index < names.len()
        invariant
            index <= names@.len(),
            forall|i: int|
                0 <= i < index ==> !same_ignoring_case((#[trigger] names@[i])@, name@),
        decreases names@.len() - index,
    {
        if eq_ignore_ascii_case(names[index].as_str(), name) {
            return true;
        }
        index = index + 1;
    }
    false
}

/// What a command on one profile does to a configuration, where the profile is
/// the one at an index.
pub open spec fn command_outcome(
    current: CurrentProfiles,
    command: ProfileCommandView,
    before: Seq<(Seq<char>, JsonView)>,
    after: Seq<(Seq<char>, JsonView)>,
    result: Result<bool, MutationError>,
) -> bool {
    let unchanged = after == before;
    match command {
        ProfileCommandView::Add { name, program, args, theme } => if profile_named(
            current.profiles@,
            name,
        ) is Some {
            result == Err::<bool, MutationError>(MutationError::ProfileExists) && unchanged
        } else if theme is Some && !texts(current.themes@).contains(theme->0) {
            result == Err::<bool, MutationError>(MutationError::UnknownTheme) && unchanged
        } else {
            match listed_profiles(before) {
                Some(profiles) => result == Ok::<bool, MutationError>(true) && lists_profiles(
                    before,
                    after,
                    profiles.push(added_profile(name, program, args, theme)),
                ),
                None => result == Err::<bool, MutationError>(MutationError::ProfilesNotAnArray)
                    && unchanged,
            }
        },
        ProfileCommandView::List | ProfileCommandView::Themes => result == Ok::<
            bool,
            MutationError,
        >(false) && unchanged,
        ProfileCommandView::Disable { profile } => match profile_named(
            current.profiles@,
            profile,
        ) {
            Some(index) => change_outcome(
                before,
                after,
                current.profiles@[index].name@,
                ProfileChangeView::Hide,
                result,
            ),
            None => result == Err::<bool, MutationError>(MutationError::UnknownProfile)
                && unchanged,
        },
        ProfileCommandView::Enable { profile } => match profile_named(current.profiles@, profile) {
            Some(index) => change_outcome(
                before,
                after,
                current.profiles@[index].name@,
                ProfileChangeView::Show,
                result,
            ),
            None => result == Err::<bool, MutationError>(MutationError::UnknownProfile)
                && unchanged,
        },
        ProfileCommandView::Theme { profile, theme } => match profile_named(
            current.profiles@,
            profile,
        ) {
            Some(index) => if theme is Some && !texts(current.themes@).contains(theme->0) {
                result == Err::<bool, MutationError>(MutationError::UnknownTheme) && unchanged
            } else {
                change_outcome(
                    before,
                    after,
                    current.profiles@[index].name@,
                    match theme {
                        Some(theme) => ProfileChangeView::Theme(theme),
                        None => ProfileChangeView::ResetTheme,
                    },
                    result,
                )
            },
            None => result == Err::<bool, MutationError>(MutationError::UnknownProfile)
                && unchanged,
        },
        ProfileCommandView::Default { profile } => match profile_named(
            current.profiles@,
            profile,
        ) {
            Some(index) => {
                let name = JsonView::Text(current.profiles@[index].name@);
                &&& result == Ok::<bool, MutationError>(
                    lookup(before, "default_profile"@) != Some(name),
                )
                &&& entry_map(after) == entry_map(before).insert("default_profile"@, name)
            },
            None => result == Err::<bool, MutationError>(MutationError::UnknownProfile)
                && unchanged,
        },
        ProfileCommandView::Remove { profile } => match profile_named(
            current.profiles@,
            profile,
        ) {
            Some(index) => {
                let name = current.profiles@[index].name@;
                if lists_name(current.detected@, name) {
                    result == Err::<bool, MutationError>(MutationError::DetectedProfile)
                        && unchanged
                } else if current.profiles@[current.default_profile as int].name@ == name {
                    result == Err::<bool, MutationError>(MutationError::DefaultProfile)
                        && unchanged
                } else {
                    match lookup(before, "profiles"@) {
                        Some(JsonView::Array(profiles)) => {
                            &&& result == Ok::<bool, MutationError>(any_named(profiles, name))
                            &&& if any_named(profiles, name) {
                                lists_profiles(before, after, without_named(profiles, name))
                            } else {
                                unchanged
                            }
                        },
                        _ => result == Err::<bool, MutationError>(
                            MutationError::ProfilesNotAnArray,
                        ) && unchanged,
                    }
                }
            },
            None => result == Err::<bool, MutationError>(MutationError::UnknownProfile)
                && unchanged,
        },
    }
}

fn find_current(current: &CurrentProfiles, requested: &str) -> (result: Result<
    usize,
    MutationError,
>)
    ensures
        match result {
            Ok(index) => index < current.profiles@.len() && profile_named(
                current.profiles@,
                requested@,
            ) == Some(index as int),
            Err(error) => profile_named(current.profiles@, requested@) is None && error
                == MutationError::UnknownProfile,
        },
{
    match find_profile(&current.profiles, requested) {
        Some(index) => Ok(index),
        None => Err(MutationError::UnknownProfile),
    }
}

fn theme_is_known(current: &CurrentProfiles, theme: &Option<String>) -> (result: bool)
    ensures
        result == !(*theme is Some && !texts(current.themes@).contains(theme->0@)),
{
    match theme {
        Some(theme) => list_contains(&current.themes, theme.as_str()),
        None => true,
    }
}

/// Makes the change that a command asks for in a configuration. Returns whether
/// anything changed.
pub fn apply_mutation(
    root: &mut Vec<(String, Json)>,
    current: &CurrentProfiles,
    command: &ProfileCommand,
) -> (result: Result<bool, MutationError>)
    requires
        JsonView::Object(entries_view(old(root)@)).wf(),
        current.default_profile < current.profiles@.len(),
    ensures
        command_outcome(
            *current,
            command.view(),
            entries_view(old(root)@),
            entries_view(final(root)@),
            result,
        ),
{
    match command {
        ProfileCommand::List | ProfileCommand::Themes => Ok(false),
        ProfileCommand::Disable { profile } => match find_current(current, profile.as_str()) {
            Ok(index) => set_profile_hidden(root, current.profiles[index].name.as_str(), true),
            Err(error) => Err(error),
        },
        ProfileCommand::Enable { profile } => match find_current(current, profile.as_str()) {
            Ok(index) => set_profile_hidden(root, current.profiles[index].name.as_str(), false),
            Err(error) => Err(error),
        },
        ProfileCommand::Theme { profile, theme } => match find_current(current, profile.as_str()) {
            Ok(index) => if theme_is_known(current, theme) {
                set_profile_theme(root, current.profiles[index].name.as_str(), theme)
            } else {
                Err(MutationError::UnknownTheme)
            },
            Err(error) => Err(error),
        },
        ProfileCommand::Default { profile } => match find_current(current, profile.as_str()) {
            Ok(index) => {
                let name = current.profiles[index].name.clone();
                let same = match get(root, "default_profile") {
                    Some(Json::Text(text)) => same_text(text.as_str(), name.as_str()),
                    _ => false,
                };
                crate::json::set(root, "default_profile", Json::Text(name));
                Ok(!same)
            },
            Err(error) => Err(error),
        },
        ProfileCommand::Add { name, program, args, theme } => {
            if find_profile(&current.profiles, name.as_str()).is_some() {
                return Err(MutationError::ProfileExists);
            }
            if !theme_is_known(current, theme) {
                return Err(MutationError::UnknownTheme);
            }
            let mut profiles = match copy_profiles(root) {
                Some(profiles) => profiles,
                None => {
                    return Err(MutationError::ProfilesNotAnArray);
                },
            };
            let ghost listed = items_view(profiles@);
            let value = write_profile(name.as_str(), program.as_str(), args, theme);
            profiles.push(value);
            proof {
                assert(items_view(profiles@) =~= listed.push(value.view()));
                lemma_array_view(profiles);
            }
            crate::json::set(root, "profiles", Json::Array(profiles));
            Ok(true)
        },
        ProfileCommand::Remove { profile } => match find_current(current, profile.as_str()) {
            Ok(index) => {
                let name = current.profiles[index].name.as_str();
                if has_listed_name(&current.detected, name) {
                    return Err(MutationError::DetectedProfile);
                }
                if same_text(current.profiles[current.default_profile].name.as_str(), name) {
                    return Err(MutationError::DefaultProfile);
                }
                remove_profile(root, name)
            },
            Err(error) => Err(error),
        },
    }
}

/// Whether a configuration that came out of a command is printed as it should
/// be: nothing is where nothing changed.
pub open spec fn printed_as(
    after: Seq<(Seq<char>, JsonView)>,
    outcome: Result<bool, MutationError>,
    result: Result<Option<String>, MutationError>,
) -> bool {
    match outcome {
        Err(error) => result == Err::<Option<String>, MutationError>(error),
        Ok(false) => result == Ok::<Option<String>, MutationError>(None),
        Ok(true) => match text_of_json(JsonView::Object(after)) {
            Some(text) => result matches Ok(Some(printed)) && printed@ == text,
            None => result == Err::<Option<String>, MutationError>(MutationError::NotPrinted),
        },
    }
}

/// The text of a configuration after a command, where it changes.
pub fn mutated_config(source: &str, current: &CurrentProfiles, command: &ProfileCommand) -> (result:
    Result<Option<String>, MutationError>)
    requires
        current.default_profile < current.profiles@.len(),
    ensures
        match json_of(source@) {
            None => result == Err::<Option<String>, MutationError>(MutationError::NotJson),
            Some(JsonView::Object(before)) => exists|
                after: Seq<(Seq<char>, JsonView)>,
                outcome: Result<bool, MutationError>,
            | #[trigger]
                command_outcome(*current, command.view(), before, after, outcome) && printed_as(
                    after,
                    outcome,
                    result,
                ),
            Some(_) => result == Err::<Option<String>, MutationError>(MutationError::NotAnObject),
        },
{
    let value = match parse(source) {
        Some(value) => value,
        None => {
            return Err(MutationError::NotJson);
        },
    };
    let mut root = match value {
        Json::Object(entries) => {
            proof {
                lemma_object_view(entries);
            }
            entries
        },
        _ => {
            return Err(MutationError::NotAnObject);
        },
    };
    let ghost before = entries_view(root@);
    let outcome = apply_mutation(&mut root, current, command);
    let ghost after = entries_view(root@);
    proof {
        assert(command_outcome(*current, command.view(), before, after, outcome));
        lemma_object_view(root);
    }
    match outcome {
        Err(error) => Err(error),
        Ok(false) => Ok(None),
        Ok(true) => match print(Json::Object(root)) {
            Some(text) => Ok(Some(text)),
            None => Err(MutationError::NotPrinted),
        },
    }
}

proof fn lemma_map_lookup(entries: Seq<(Seq<char>, JsonView)>, key: Seq<char>)
    ensures
        entry_map(entries).contains_key(key) == lookup(entries, key) is Some,
        lookup(entries, key) matches Some(value) ==> entry_map(entries)[key] == value,
{
}

proof fn lemma_reworked_once(
    before: JsonView,
    after: JsonView,
    name: Seq<char>,
    change: ProfileChangeView,
)
    requires
        is_reworked(before, after, name, change),
    ensures
        is_named(after, name) == is_named(before, name),
        !is_affected(after, name, change),
{
    reveal_strlit("name");
    reveal_strlit("hidden");
    reveal_strlit("theme");
    assert("name"@.len() == 4 && "hidden"@.len() == 6 && "theme"@.len() == 5);
    if is_affected(before, name, change) {
        let old_entries = before->Object_0;
        let new_entries = after->Object_0;
        lemma_map_lookup(old_entries, "name"@);
        lemma_map_lookup(new_entries, "name"@);
        lemma_map_lookup(new_entries, "hidden"@);
        lemma_map_lookup(new_entries, "theme"@);
        assert(lookup(new_entries, "name"@) == lookup(old_entries, "name"@));
    }
}

/// A change that was made is not made again: a second time it makes no
/// difference, and leaves the configuration as it is.
pub proof fn law_change_is_made_once(
    profiles: Seq<JsonView>,
    reworked: Seq<JsonView>,
    name: Seq<char>,
    change: ProfileChangeView,
)
    requires
        are_reworked(profiles, reworked, name, change),
    ensures
        any_named(reworked, name) == any_named(profiles, name),
        !any_affected(reworked, name, change),
{
    assert forall|i: int| 0 <= i < profiles.len() implies is_named(#[trigger] reworked[i], name)
        == is_named(profiles[i], name) && !is_affected(reworked[i], name, change) by {
        lemma_reworked_once(profiles[i], reworked[i], name, change);
    }
    if any_named(profiles, name) {
        let i = choose|i: int| 0 <= i < profiles.len() && is_named(#[trigger] profiles[i], name);
        assert(is_named(reworked[i], name));
    }
    if any_named(reworked, name) {
        let i = choose|i: int| 0 <= i < reworked.len() && is_named(#[trigger] reworked[i], name);
        assert(is_named(profiles[i], name));
    }
}

/// A profile that was taken out is listed no more, and every other one still
/// is.
pub proof fn law_removed_profile_is_gone(profiles: Seq<JsonView>, name: Seq<char>)
    ensures
        !any_named(without_named(profiles, name), name),
        forall|i: int|
            0 <= i < profiles.len() && !is_named(#[trigger] profiles[i], name) ==> without_named(
                profiles,
                name,
            ).contains(profiles[i]),
    decreases profiles.len(),
{
    if profiles.len() > 0 {
        let shorter = profiles.drop_last();
        let before = without_named(shorter, name);
        let after = without_named(profiles, name);
        law_removed_profile_is_gone(shorter, name);
        if any_named(after, name) {
            let i = choose|i: int| 0 <= i < after.len() && is_named(#[trigger] after[i], name);
            if i < before.len() {
                assert(is_named(before[i], name));
            }
        }
        assert forall|i: int|
            0 <= i < profiles.len() && !is_named(#[trigger] profiles[i], name) implies after.contains(
            profiles[i],
        ) by {
            if i < shorter.len() {
                assert(shorter[i] == profiles[i]);
                let at = choose|at: int| 0 <= at < before.len() && before[at] == shorter[i];
                assert(after[at] == profiles[i]);
            } else {
                assert(after.last() == profiles[i]);
            }
        }
    }
}

/// A profile that is added reads back as it was given: its name, its program, its
/// arguments in order, and its theme where it has one. Nothing else is said of it.
pub proof fn law_added_profile_reads_back(
    name: Seq<char>,
    program: Seq<char>,
    args: Seq<Seq<char>>,
    theme: Option<Seq<char>>,
)
    ensures
        is_named(added_profile(name, program, args, theme), name),
        added_profile(name, program, args, theme) matches JsonView::Object(fields) && {
            &&& lookup(fields, "name"@) == Some(JsonView::Text(name))
            &&& lookup(fields, "program"@) == Some(JsonView::Text(program))
            &&& lookup(fields, "args"@) matches Some(JsonView::Array(items)) && items.len()
                == args.len() && forall|i: int|
                0 <= i < args.len() ==> #[trigger] items[i] == JsonView::Text(args[i])
            &&& match theme {
                Some(theme) => lookup(fields, "theme"@) == Some(JsonView::Text(theme)),
                None => lookup(fields, "theme"@) is None,
            }
            &&& forall|key: Seq<char>|
                key != "name"@ && key != "program"@ && key != "args"@ && key != "theme"@
                    ==> #[trigger] lookup(fields, key) is None
        },
{
    reveal_strlit("name");
    reveal_strlit("program");
    reveal_strlit("args");
    reveal_strlit("theme");
    assert("name"@[0] == 'n' && "program"@[0] == 'p' && "args"@[0] == 'a' && "theme"@[0] == 't');
    let fields = added_profile(name, program, args, theme)->Object_0;
    let one = fields.drop_first();
    let two = one.drop_first();
    let three = two.drop_first();
    assert(one.first() == fields[1]);
    assert(two.first() == fields[2]);
    if theme is Some {
        assert(three.first() == fields[3]);
        assert(three.drop_first() =~= Seq::<(Seq<char>, JsonView)>::empty());
    } else {
        assert(three =~= Seq::<(Seq<char>, JsonView)>::empty());
    }
    reveal_with_fuel(lookup, 6);
}

/// Whether a profile's fields are as a change leaves them.
pub open spec fn shows_change(fields: Seq<(Seq<char>, JsonView)>, change: ProfileChangeView) -> bool {
    match change {
        ProfileChangeView::Hide => lookup(fields, "hidden"@) == Some(JsonView::Bool(true)),
        ProfileChangeView::Show => lookup(fields, "hidden"@) != Some(JsonView::Bool(true)),
        ProfileChangeView::Theme(theme) => lookup(fields, "theme"@) == Some(JsonView::Text(theme)),
        ProfileChangeView::ResetTheme => lookup(fields, "theme"@) is None,
    }
}

/// Whether a field is the one that a change is about.
pub open spec fn is_about(change: ProfileChangeView, key: Seq<char>) -> bool {
    match change {
        ProfileChangeView::Hide | ProfileChangeView::Show => key == "hidden"@,
        _ => key == "theme"@,
    }
}

proof fn lemma_reworked_shows(
    before: JsonView,
    after: JsonView,
    name: Seq<char>,
    change: ProfileChangeView,
    key: Seq<char>,
)
    requires
        is_reworked(before, after, name, change),
    ensures
        is_named(after, name) == is_named(before, name),
        is_named(after, name) ==> (after matches JsonView::Object(fields) && shows_change(
            fields,
            change,
        )),
        is_named(before, name) && !is_about(change, key) ==> lookup(after->Object_0, key) == lookup(
            before->Object_0,
            key,
        ),
        !is_named(before, name) ==> after == before,
{
    lemma_reworked_once(before, after, name, change);
    if is_affected(before, name, change) {
        lemma_map_lookup(before->Object_0, key);
        lemma_map_lookup(after->Object_0, key);
        lemma_map_lookup(after->Object_0, "hidden"@);
        lemma_map_lookup(after->Object_0, "theme"@);
        if lookup(after->Object_0, key) is Some {
            assert(entry_map(after->Object_0).contains_key(key));
        }
        if lookup(before->Object_0, key) is Some {
            assert(entry_map(before->Object_0).contains_key(key));
        }
    }
}

proof fn lemma_set_key(
    before: Seq<(Seq<char>, JsonView)>,
    after: Seq<(Seq<char>, JsonView)>,
    set_key: Seq<char>,
    value: JsonView,
    key: Seq<char>,
)
    requires
        entry_map(after) == entry_map(before).insert(set_key, value),
    ensures
        lookup(after, set_key) == Some(value),
        key != set_key ==> lookup(after, key) == lookup(before, key),
{
    lemma_map_lookup(before, key);
    lemma_map_lookup(after, key);
    lemma_map_lookup(after, set_key);
    assert(entry_map(after).contains_key(set_key));
    if lookup(after, key) is Some {
        assert(entry_map(after).contains_key(key));
    }
    if lookup(before, key) is Some {
        assert(entry_map(before).contains_key(key));
    }
}

/// A change of a profile shows in every place where the configuration lists it,
/// and hiding a profile or giving it a theme lists it where nothing did. Other
/// profiles, other fields of the profile and other settings stay.
pub proof fn law_change_shows_in_the_configuration(
    before: Seq<(Seq<char>, JsonView)>,
    after: Seq<(Seq<char>, JsonView)>,
    name: Seq<char>,
    change: ProfileChangeView,
    changed: bool,
    key: Seq<char>,
)
    requires
        change_outcome(before, after, name, change, Ok(changed)),
        listed_profiles(before) is Some,
    ensures
        listed_profiles(after) matches Some(profiles) && {
            let earlier = listed_profiles(before)->0;
            &&& forall|i: int|
                0 <= i < profiles.len() && is_named(#[trigger] profiles[i], name) ==> (profiles[i]
                    matches JsonView::Object(fields) && shows_change(fields, change))
            &&& change is Hide || change is Theme ==> any_named(profiles, name)
            &&& profiles.len() >= earlier.len()
            &&& forall|i: int|
                0 <= i < earlier.len() && !is_named(#[trigger] earlier[i], name) ==> profiles[i]
                    == earlier[i]
            &&& forall|i: int|
                0 <= i < earlier.len() && is_named(#[trigger] earlier[i], name) && !is_about(
                    change,
                    key,
                ) ==> lookup(profiles[i]->Object_0, key) == lookup(earlier[i]->Object_0, key)
            &&& any_named(earlier, name) ==> profiles.len() == earlier.len()
        },
        key != "profiles"@ ==> lookup(after, key) == lookup(before, key),
        !changed ==> after == before,
{
    let earlier = listed_profiles(before)->0;
    if any_named(earlier, name) {
        let reworked = if any_affected(earlier, name, change) {
            let reworked = choose|reworked: Seq<JsonView>|
                are_reworked(earlier, reworked, name, change) && #[trigger] lists_profiles(
                    before,
                    after,
                    reworked,
                );
            lemma_set_key(before, after, "profiles"@, JsonView::Array(reworked), key);
            reworked
        } else {
            earlier
        };
        assert(listed_profiles(after) == Some(reworked));
        assert(are_reworked(earlier, reworked, name, change)) by {
            if !any_affected(earlier, name, change) {
                assert forall|i: int| 0 <= i < earlier.len() implies is_reworked(
                    earlier[i],
                    #[trigger] reworked[i],
                    name,
                    change,
                ) by {
                    assert(!is_affected(earlier[i], name, change));
                }
            }
        }
        assert forall|i: int| 0 <= i < earlier.len() implies {
            &&& is_named(#[trigger] reworked[i], name) == is_named(earlier[i], name)
            &&& is_named(reworked[i], name) ==> (reworked[i] matches JsonView::Object(fields)
                && shows_change(fields, change))
            &&& is_named(earlier[i], name) && !is_about(change, key) ==> lookup(
                reworked[i]->Object_0,
                key,
            ) == lookup(earlier[i]->Object_0, key)
            &&& !is_named(earlier[i], name) ==> reworked[i] == earlier[i]
        } by {
            lemma_reworked_shows(earlier[i], reworked[i], name, change, key);
        }
        let at = choose|at: int| 0 <= at < earlier.len() && is_named(#[trigger] earlier[at], name);
        assert(is_named(reworked[at], name));
        assert forall|i: int|
            0 <= i < earlier.len() && !is_named(#[trigger] earlier[i], name) implies reworked[i]
            == earlier[i] by {
            assert(reworked[i] == reworked[i]);
        }
        assert forall|i: int|
            0 <= i < earlier.len() && is_named(#[trigger] earlier[i], name) && !is_about(
                change,
                key,
            ) implies lookup(reworked[i]->Object_0, key) == lookup(earlier[i]->Object_0, key) by {
            assert(is_named(reworked[i], name));
        }
    } else if let Some(profile) = new_profile(name, change) {
        let profiles = earlier.push(profile);
        lemma_set_key(before, after, "profiles"@, JsonView::Array(profiles), key);
        lemma_new_profile(name, change);
        assert(profiles[earlier.len() as int] == profile);
        assert forall|i: int|
            0 <= i < profiles.len() && is_named(#[trigger] profiles[i], name) implies (profiles[i]
            matches JsonView::Object(fields) && shows_change(fields, change)) by {
            if i < earlier.len() {
                assert(is_named(earlier[i], name));
            }
        }
    } else {
        assert forall|i: int| 0 <= i < earlier.len() implies !is_named(#[trigger] earlier[i], name) by {}
    }
}

proof fn lemma_new_profile(name: Seq<char>, change: ProfileChangeView)
    ensures
        new_profile(name, change) matches Some(profile) ==> is_named(profile, name) && (profile
            matches JsonView::Object(fields) && shows_change(fields, change)),
        new_profile(name, change) is Some == (change is Hide || change is Theme),
{
    reveal_strlit("name");
    reveal_strlit("hidden");
    reveal_strlit("theme");
    assert("name"@[0] == 'n' && "hidden"@[0] == 'h' && "theme"@[0] == 't');
    if let Some(JsonView::Object(fields)) = new_profile(name, change) {
        assert(fields.drop_first().first() == fields[1]);
        reveal_with_fuel(lookup, 3);
    }
}

/// Whether a name is the one that was asked for, in whatever case.
pub open spec fn is_asked_for(current: CurrentProfiles, name: Seq<char>, asked: Seq<char>) -> bool {
    same_ignoring_case(name, asked) && exists|i: int|
        0 <= i < current.profiles@.len() && (#[trigger] current.profiles@[i]).name@ == name
}

proof fn lemma_profile_named(profiles: Seq<Profile>, name: Seq<char>)
    ensures
        match profile_named(profiles, name) {
            Some(index) => {
                &&& 0 <= index < profiles.len()
                &&& same_ignoring_case(profiles[index].name@, name)
            },
            None => forall|i: int|
                0 <= i < profiles.len() ==> !same_ignoring_case((#[trigger] profiles[i]).name@, name),
        },
    decreases profiles.len(),
{
    if profiles.len() > 0 {
        lemma_profile_named(profiles.drop_last(), name);
        assert forall|i: int| 0 <= i < profiles.len() - 1 implies #[trigger] profiles[i]
            == profiles.drop_last()[i] by {}
    }
}

/// A profile that is added stands behind the others that are listed, as it was
/// asked for; it is refused where there is one of the name.
pub proof fn law_add_lists_the_profile(
    current: CurrentProfiles,
    name: Seq<char>,
    program: Seq<char>,
    args: Seq<Seq<char>>,
    theme: Option<Seq<char>>,
    before: Seq<(Seq<char>, JsonView)>,
    after: Seq<(Seq<char>, JsonView)>,
    result: Result<bool, MutationError>,
    key: Seq<char>,
)
    requires
        command_outcome(
            current,
            ProfileCommandView::Add { name, program, args, theme },
            before,
            after,
            result,
        ),
    ensures
        result is Ok ==> {
            let earlier = listed_profiles(before)->0;
            &&& result == Ok::<bool, MutationError>(true)
            &&& listed_profiles(before) is Some
            &&& lookup(after, "profiles"@) matches Some(JsonView::Array(profiles)) && {
                &&& profiles.len() == earlier.len() + 1
                &&& profiles.drop_last() == earlier
                &&& profiles.last() matches JsonView::Object(fields) && {
                    &&& lookup(fields, "name"@) == Some(JsonView::Text(name))
                    &&& lookup(fields, "program"@) == Some(JsonView::Text(program))
                    &&& lookup(fields, "args"@) matches Some(JsonView::Array(items)) && items.len()
                        == args.len() && forall|i: int|
                        0 <= i < args.len() ==> #[trigger] items[i] == JsonView::Text(args[i])
                    &&& theme matches Some(theme) ==> lookup(fields, "theme"@) == Some(
                        JsonView::Text(theme),
                    )
                }
            }
            &&& key != "profiles"@ ==> lookup(after, key) == lookup(before, key)
        },
        result is Err ==> after == before,
        (exists|i: int|
            0 <= i < current.profiles@.len() && same_ignoring_case(
                (#[trigger] current.profiles@[i]).name@,
                name,
            )) ==> result is Err,
        theme matches Some(theme) ==> (!texts(current.themes@).contains(theme) ==> result is Err),
        (forall|i: int|
            0 <= i < current.profiles@.len() ==> !same_ignoring_case(
                (#[trigger] current.profiles@[i]).name@,
                name,
            )) && (theme is None || texts(current.themes@).contains(theme->0)) && listed_profiles(
            before,
        ) is Some ==> result is Ok,
{
    lemma_profile_named(current.profiles@, name);
    law_added_profile_reads_back(name, program, args, theme);
    if result is Ok {
        let earlier = listed_profiles(before)->0;
        let profiles = earlier.push(added_profile(name, program, args, theme));
        lemma_set_key(before, after, "profiles"@, JsonView::Array(profiles), key);
        assert(profiles.drop_last() =~= earlier);
    }
}

/// What a command on a profile comes to is about the profile that was asked for:
/// disabling hides it, enabling shows it, a theme is set or reset, the default is
/// made it, and removing leaves none of its name.
pub proof fn law_commands_do_what_they_say(
    current: CurrentProfiles,
    command: ProfileCommandView,
    before: Seq<(Seq<char>, JsonView)>,
    after: Seq<(Seq<char>, JsonView)>,
    changed: bool,
) -> (name: Seq<char>)
    requires
        command_outcome(current, command, before, after, Ok(changed)),
        listed_profiles(before) is Some,
        !(command is Add),
    ensures
        !changed ==> entry_map(after) == entry_map(before),
        match command {
            ProfileCommandView::Disable { profile } => {
                &&& is_asked_for(current, name, profile)
                &&& any_named(listed_profiles(after)->0, name)
                &&& forall|i: int|
                    0 <= i < (listed_profiles(after)->0).len() && is_named(
                        #[trigger] (listed_profiles(after)->0)[i],
                        name,
                    ) ==> lookup((listed_profiles(after)->0)[i]->Object_0, "hidden"@) == Some(
                        JsonView::Bool(true),
                    )
            },
            ProfileCommandView::Enable { profile } => {
                &&& is_asked_for(current, name, profile)
                &&& forall|i: int|
                    0 <= i < (listed_profiles(after)->0).len() && is_named(
                        #[trigger] (listed_profiles(after)->0)[i],
                        name,
                    ) ==> lookup((listed_profiles(after)->0)[i]->Object_0, "hidden"@) != Some(
                        JsonView::Bool(true),
                    )
            },
            ProfileCommandView::Theme { profile, theme } => {
                &&& is_asked_for(current, name, profile)
                &&& theme matches Some(theme) ==> texts(current.themes@).contains(theme)
                    && any_named(listed_profiles(after)->0, name)
                &&& forall|i: int|
                    0 <= i < (listed_profiles(after)->0).len() && is_named(
                        #[trigger] (listed_profiles(after)->0)[i],
                        name,
                    ) ==> match theme {
                        Some(theme) => lookup(
                            (listed_profiles(after)->0)[i]->Object_0,
                            "theme"@,
                        ) == Some(JsonView::Text(theme)),
                        None => lookup((listed_profiles(after)->0)[i]->Object_0, "theme"@) is None,
                    }
            },
            ProfileCommandView::Default { profile } => {
                &&& is_asked_for(current, name, profile)
                &&& lookup(after, "default_profile"@) == Some(JsonView::Text(name))
                &&& lookup(after, "profiles"@) == lookup(before, "profiles"@)
            },
            ProfileCommandView::Remove { profile } => {
                &&& is_asked_for(current, name, profile)
                &&& !lists_name(current.detected@, name)
                &&& current.profiles@[current.default_profile as int].name@ != name
                &&& !any_named(listed_profiles(after)->0, name)
                &&& forall|i: int|
                    0 <= i < (listed_profiles(before)->0).len() && !is_named(
                        #[trigger] (listed_profiles(before)->0)[i],
                        name,
                    ) ==> (listed_profiles(after)->0).contains((listed_profiles(before)->0)[i])
            },
            _ => after == before && !changed,
        },
{
    reveal_strlit("profiles");
    reveal_strlit("default_profile");
    assert("profiles"@[0] == 'p' && "default_profile"@[0] == 'd');
    match command {
        ProfileCommandView::Disable { profile } => {
            lemma_profile_named(current.profiles@, profile);
            let index = profile_named(current.profiles@, profile)->0;
            let name = current.profiles@[index].name@;
            law_change_shows_in_the_configuration(
                before,
                after,
                name,
                ProfileChangeView::Hide,
                changed,
                "profiles"@,
            );
            name
        },
        ProfileCommandView::Enable { profile } => {
            lemma_profile_named(current.profiles@, profile);
            let index = profile_named(current.profiles@, profile)->0;
            let name = current.profiles@[index].name@;
            law_change_shows_in_the_configuration(
                before,
                after,
                name,
                ProfileChangeView::Show,
                changed,
                "profiles"@,
            );
            name
        },
        ProfileCommandView::Theme { profile, theme } => {
            lemma_profile_named(current.profiles@, profile);
            let index = profile_named(current.profiles@, profile)->0;
            let name = current.profiles@[index].name@;
            let change = match theme {
                Some(theme) => ProfileChangeView::Theme(theme),
                None => ProfileChangeView::ResetTheme,
            };
            law_change_shows_in_the_configuration(
                before,
                after,
                name,
                change,
                changed,
                "profiles"@,
            );
            name
        },
        ProfileCommandView::Default { profile } => {
            lemma_profile_named(current.profiles@, profile);
            let index = profile_named(current.profiles@, profile)->0;
            let name = current.profiles@[index].name@;
            lemma_set_key(
                before,
                after,
                "default_profile"@,
                JsonView::Text(name),
                "profiles"@,
            );
            if !changed {
                lemma_map_lookup(before, "default_profile"@);
                assert(entry_map(after) =~= entry_map(before));
            }
            name
        },
        ProfileCommandView::Remove { profile } => {
            lemma_profile_named(current.profiles@, profile);
            let index = profile_named(current.profiles@, profile)->0;
            let name = current.profiles@[index].name@;
            let profiles = listed_profiles(before)->0;
            law_removed_profile_is_gone(profiles, name);
            if any_named(profiles, name) {
                lemma_set_key(
                    before,
                    after,
                    "profiles"@,
                    JsonView::Array(without_named(profiles, name)),
                    "profiles"@,
                );
            }
            name
        },
        _ => Seq::empty(),
    }
}

/// Where nothing changes nothing is printed, what is printed is the configuration as it
/// is after the command, and an error stays one.
pub proof fn law_changed_configuration_is_printed(
    after: Seq<(Seq<char>, JsonView)>,
    outcome: Result<bool, MutationError>,
    result: Result<Option<String>, MutationError>,
)
    requires
        printed_as(after, outcome, result),
    ensures
        outcome matches Err(error) ==> result == Err::<Option<String>, MutationError>(error),
        outcome == Ok::<bool, MutationError>(false) ==> result == Ok::<
            Option<String>,
            MutationError,
        >(None),
        result matches Ok(Some(printed)) ==> outcome == Ok::<bool, MutationError>(true)
            && text_of_json(JsonView::Object(after)) == Some(printed@),
{
}

} // verus!
