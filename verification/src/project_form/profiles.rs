//! The profiles in the form of a project's configuration.

use vstd::prelude::*;

use crate::json::{
    entries_view, find_other_key, first_other_key, get, items_view, lemma_array_view,
    lemma_object_view, lookup, names_view, Json, JsonView,
};
use crate::profile_icon::{icon_named, ProfileIcon, ProfileIconError};
use crate::text::{
    chained, clone_optional, join_texts, lowered, optional_text, pieces, split, texts, trim,
    trimmed,
};

verus! {

/// A profile as the form shows it.
#[derive(Debug, PartialEq, Eq)]
pub struct ProjectProfileForm {
    pub name: String,
    pub program: String,
    pub arguments: String,
    pub theme: Option<String>,
    pub dark_theme: Option<String>,
    /// An explicit icon override. `None` means the profile keeps whichever icon
    /// the user configuration infers for it.
    pub icon: Option<ProfileIcon>,
    pub hidden: bool,
}

/// A profile as the form shows it, as it views.
pub ghost struct ProfileFormView {
    pub name: Seq<char>,
    pub program: Seq<char>,
    pub arguments: Seq<char>,
    pub theme: Option<Seq<char>>,
    pub dark_theme: Option<Seq<char>>,
    pub icon: Option<ProfileIcon>,
    pub hidden: bool,
}

impl ProjectProfileForm {
    pub open spec fn view(self) -> ProfileFormView {
        ProfileFormView {
            name: self.name@,
            program: self.program@,
            arguments: self.arguments@,
            theme: optional_text(self.theme),
            dark_theme: optional_text(self.dark_theme),
            icon: self.icon,
            hidden: self.hidden,
        }
    }
}

/// Texts without spaces around them, as far as they are not blank.
pub open spec fn named_parts(parts: Seq<Seq<char>>) -> Seq<Seq<char>>
    decreases parts.len(),
{
    if parts.len() == 0 {
        Seq::empty()
    } else {
        let before = named_parts(parts.drop_last());
        if trimmed(parts.last()).len() == 0 {
            before
        } else {
            before.push(trimmed(parts.last()))
        }
    }
}

/// The arguments of a comma-separated field.
pub open spec fn arguments_in(text: Seq<char>) -> Seq<Seq<char>> {
    named_parts(pieces(text, ','))
}

/// Splits a comma-separated argument field.
pub fn arguments(text: &str) -> (result: Vec<String>)
    ensures
        texts(result@) == arguments_in(text@),
{
    let parts = split(text, ',');
    let ghost all = texts(parts@);
    let mut result: Vec<String> = Vec::new();
    let mut index: usize = 0;
    proof {
        assert(all.take(0) == Seq::<Seq<char>>::empty());
        assert(texts(result@) =~= Seq::<Seq<char>>::empty());
    }
    while index < parts.len()
        invariant
            index <= parts@.len(),
            all == texts(parts@),
            texts(result@) == named_parts(all.take(index as int)),
        decreases parts@.len() - index,
    {
        proof {
            let longer = all.take(index + 1);
            assert(longer.drop_last() == all.take(index as int));
            assert(longer.last() == parts@[index as int]@);
        }
        let part = trim(parts[index].as_str());
        if !part.as_str().is_empty() {
            let ghost before = result@;
            result.push(part);
            proof {
                assert(texts(result@) =~= texts(before).push(part@));
            }
        }
        index = index + 1;
    }
    proof {
        assert(all.take(index as int) == all);
    }
    result
}

/// A text without spaces around it, unless it is blank.
pub open spec fn filled(text: Seq<char>) -> Option<Seq<char>> {
    if trimmed(text).len() == 0 {
        None
    } else {
        Some(trimmed(text))
    }
}

/// A text without spaces around it, unless it is blank.
pub fn non_empty(text: &str) -> (result: Option<String>)
    ensures
        optional_text(result) == filled(text@),
{
    let content = trim(text);
    if content.as_str().is_empty() {
        None
    } else {
        Some(content)
    }
}

/// Why a profile of a project's file is refused.
#[derive(Debug, PartialEq, Eq)]
pub enum ProfileFormError {
    NotAnObject,
    UnknownField(String),
    NameNotAText,
    Icon(ProfileIconError),
}

/// The fields of a profile.
pub open spec fn profile_fields() -> Seq<Seq<char>> {
    seq!["name"@, "program"@, "args"@, "theme"@, "dark_theme"@, "icon"@, "hidden"@]
}

/// A field that is a text.
pub open spec fn text_under(entries: Seq<(Seq<char>, JsonView)>, key: Seq<char>) -> Option<
    Seq<char>,
> {
    match lookup(entries, key) {
        Some(JsonView::Text(text)) => Some(text),
        _ => None,
    }
}

pub fn get_text(entries: &Vec<(String, Json)>, key: &str) -> (result: Option<String>)
    ensures
        optional_text(result) == text_under(entries_view(entries@), key@),
{
    match get(entries, key) {
        Some(Json::Text(text)) => Some(text.clone()),
        _ => None,
    }
}

/// The texts of a list.
pub open spec fn texts_in(items: Seq<JsonView>) -> Seq<Seq<char>>
    decreases items.len(),
{
    if items.len() == 0 {
        Seq::empty()
    } else {
        let before = texts_in(items.drop_last());
        match items.last() {
            JsonView::Text(text) => before.push(text),
            _ => before,
        }
    }
}

fn collect_texts(items: &Vec<Json>) -> (result: Vec<String>)
    ensures
        texts(result@) == texts_in(items_view(items@)),
{
    let ghost all = items_view(items@);
    let mut result: Vec<String> = Vec::new();
    let mut index: usize = 0;
    proof {
        assert(all.take(0) == Seq::<JsonView>::empty());
        assert(texts(result@) =~= Seq::<Seq<char>>::empty());
    }
    while index < items.len()
        invariant
            index <= items@.len(),
            all == items_view(items@),
            texts(result@) == texts_in(all.take(index as int)),
        decreases items@.len() - index,
    {
        proof {
            let longer = all.take(index + 1);
            assert(longer.drop_last() == all.take(index as int));
            assert(longer.last() == items@[index as int].view());
        }
        if let Json::Text(text) = &items[index] {
            let ghost before = result@;
            result.push(text.clone());
            proof {
                assert(texts(result@) =~= texts(before).push(text@));
            }
        }
        index = index + 1;
    }
    proof {
        assert(all.take(index as int) == all);
    }
    result
}

/// The arguments of a profile in one field.
pub open spec fn arguments_under(entries: Seq<(Seq<char>, JsonView)>) -> Seq<char> {
    match lookup(entries, "args"@) {
        Some(JsonView::Array(items)) => chained(texts_in(items), ", "@),
        _ => Seq::empty(),
    }
}

/// A text that is there, or none.
pub open spec fn or_empty(text: Option<Seq<char>>) -> Seq<char> {
    match text {
        Some(text) => text,
        None => Seq::empty(),
    }
}

/// What the icon of a profile is, if it is acceptable.
pub open spec fn icon_under(entries: Seq<(Seq<char>, JsonView)>) -> Option<Option<ProfileIcon>> {
    match lookup(entries, "icon"@) {
        None => Some(None),
        Some(JsonView::Null) => Some(None),
        Some(JsonView::Text(name)) => icon_named(lowered(name)),
        Some(_) => None,
    }
}

/// A profile of a project's file as the form shows it, where it is acceptable.
pub open spec fn profile_form(value: JsonView) -> Option<ProfileFormView> {
    match value {
        JsonView::Object(entries) => if first_other_key(entries, profile_fields()) is Some {
            None
        } else {
            match (text_under(entries, "name"@), icon_under(entries)) {
                (Some(name), Some(icon)) => Some(
                    ProfileFormView {
                        name,
                        program: or_empty(text_under(entries, "program"@)),
                        arguments: arguments_under(entries),
                        theme: text_under(entries, "theme"@),
                        dark_theme: text_under(entries, "dark_theme"@),
                        icon,
                        hidden: lookup(entries, "hidden"@) == Some(JsonView::Bool(true)),
                    },
                ),
                _ => None,
            }
        },
        _ => None,
    }
}

/// Whether an error is the first that a profile of a project's file gives rise
/// to.
pub open spec fn profile_form_error(value: JsonView, error: ProfileFormError) -> bool {
    match value {
        JsonView::Object(entries) => match first_other_key(entries, profile_fields()) {
            Some(field) => error matches ProfileFormError::UnknownField(name) && name@ == field,
            None => if text_under(entries, "name"@) is None {
                error == ProfileFormError::NameNotAText
            } else {
                match lookup(entries, "icon"@) {
                    Some(JsonView::Text(name)) => error matches ProfileFormError::Icon(
                        ProfileIconError::UnknownName(refused),
                    ) && refused@ == name,
                    _ => error == ProfileFormError::Icon(ProfileIconError::NotAName),
                }
            },
        },
        _ => error == ProfileFormError::NotAnObject,
    }
}

/// Reads a profile of a project's file.
pub fn parse_profile_form(value: &Json) -> (result: Result<ProjectProfileForm, ProfileFormError>)
    ensures
        match result {
            Ok(form) => profile_form(value.view()) == Some(form.view()),
            Err(error) => profile_form(value.view()) is None && profile_form_error(
                value.view(),
                error,
            ),
        },
{
    let entries = match value {
        Json::Object(entries) => entries,
        _ => {
            return Err(ProfileFormError::NotAnObject);
        },
    };
    proof {
        lemma_object_view(*entries);
    }
    let mut known: Vec<&'static str> = Vec::new();
    known.push("name");
    known.push("program");
    known.push("args");
    known.push("theme");
    known.push("dark_theme");
    known.push("icon");
    known.push("hidden");
    proof {
        assert(names_view(known@) =~= profile_fields());
    }
    if let Some(field) = find_other_key(entries, &known) {
        return Err(ProfileFormError::UnknownField(field));
    }
    let name = match get_text(entries, "name") {
        Some(name) => name,
        None => {
            return Err(ProfileFormError::NameNotAText);
        },
    };
    let program = match get_text(entries, "program") {
        Some(program) => program,
        None => String::new(),
    };
    let arguments = match get(entries, "args") {
        Some(Json::Array(items)) => {
            proof {
                lemma_array_view(*items);
            }
            let list = collect_texts(items);
            join_texts(&list, ", ")
        },
        _ => String::new(),
    };
    let icon = match get(entries, "icon") {
        Some(value) => match ProfileIcon::parse(value) {
            Ok(icon) => icon,
            Err(error) => {
                return Err(ProfileFormError::Icon(error));
            },
        },
        None => None,
    };
    let hidden = match get(entries, "hidden") {
        Some(Json::Bool(hidden)) => *hidden,
        _ => false,
    };
    Ok(
        ProjectProfileForm {
            name,
            program,
            arguments,
            theme: get_text(entries, "theme"),
            dark_theme: get_text(entries, "dark_theme"),
            icon,
            hidden,
        },
    )
}

/// The name by which the configuration can give an icon.
pub open spec fn icon_text(icon: Option<ProfileIcon>) -> Option<Seq<char>> {
    match icon {
        Some(ProfileIcon::Zetta) => Some("zetta"@),
        Some(ProfileIcon::Bash) => Some("bash"@),
        Some(ProfileIcon::Zsh) => Some("zsh"@),
        Some(ProfileIcon::Fish) => Some("fish"@),
        _ => None,
    }
}

/// Values with one more where there is one.
pub open spec fn with_text(
    entries: Seq<(Seq<char>, JsonView)>,
    key: Seq<char>,
    text: Option<Seq<char>>,
) -> Seq<(Seq<char>, JsonView)> {
    match text {
        Some(text) => entries.push((key, JsonView::Text(text))),
        None => entries,
    }
}

/// What a project's file says of a profile in the form.
pub open spec fn profile_entries(form: ProfileFormView) -> Seq<(Seq<char>, JsonView)> {
    let named = seq![("name"@, JsonView::Text(trimmed(form.name)))];
    let started = match filled(form.program) {
        Some(program) => named.push(("program"@, JsonView::Text(program))).push(
            (
                "args"@,
                JsonView::Array(
                    arguments_in(form.arguments).map_values(
                        |text: Seq<char>| JsonView::Text(text),
                    ),
                ),
            ),
        ),
        None => named,
    };
    let styled = with_text(
        with_text(with_text(started, "theme"@, form.theme), "dark_theme"@, form.dark_theme),
        "icon"@,
        icon_text(form.icon),
    );
    if form.hidden {
        styled.push(("hidden"@, JsonView::Bool(true)))
    } else {
        styled
    }
}

fn push_text(entries: &mut Vec<(String, Json)>, key: &str, text: Option<String>)
    ensures
        entries_view(final(entries)@) == with_text(
            entries_view(old(entries)@),
            key@,
            optional_text(text),
        ),
{
    if let Some(text) = text {
        let ghost before = entries_view(entries@);
        let value = Json::Text(text);
        entries.push((key.to_owned(), value));
        proof {
            assert(entries_view(entries@) =~= before.push((key@, value.view())));
        }
    }
}

fn text_values(list: &Vec<String>) -> (result: Json)
    ensures
        result.view() == JsonView::Array(
            texts(list@).map_values(|text: Seq<char>| JsonView::Text(text)),
        ),
{
    let ghost wanted = texts(list@).map_values(|text: Seq<char>| JsonView::Text(text));
    let mut values: Vec<Json> = Vec::new();
    let mut index: usize = 0;
    while index < list.len()
        invariant
            index <= list@.len(),
            wanted == texts(list@).map_values(|text: Seq<char>| JsonView::Text(text)),
            items_view(values@) == wanted.take(index as int),
        decreases list@.len() - index,
    {
        let ghost before = items_view(values@);
        let value = Json::Text(list[index].clone());
        values.push(value);
        proof {
            assert(items_view(values@) =~= before.push(value.view()));
            assert(wanted.take(index + 1) =~= wanted.take(index as int).push(value.view()));
        }
        index = index + 1;
    }
    proof {
        assert(wanted.take(index as int) == wanted);
        lemma_array_view(values);
    }
    Json::Array(values)
}

/// What a project's file says of a profile in the form.
pub fn profile_value(form: &ProjectProfileForm) -> (result: Json)
    ensures
        result.view() == JsonView::Object(profile_entries(form.view())),
{
    let mut entries: Vec<(String, Json)> = Vec::new();
    entries.push(("name".to_owned(), Json::Text(trim(form.name.as_str()))));
    proof {
        assert(entries_view(entries@) =~= seq![("name"@, JsonView::Text(trimmed(form.name@)))]);
    }
    if let Some(program) = non_empty(form.program.as_str()) {
        let ghost before = entries_view(entries@);
        let list = arguments(form.arguments.as_str());
        let value = text_values(&list);
        entries.push(("program".to_owned(), Json::Text(program)));
        entries.push(("args".to_owned(), value));
        proof {
            assert(entries_view(entries@) =~= before.push(
                ("program"@, JsonView::Text(program@)),
            ).push(("args"@, value.view())));
        }
    }
    push_text(&mut entries, "theme", clone_optional(&form.theme));
    push_text(&mut entries, "dark_theme", clone_optional(&form.dark_theme));
    let icon = match &form.icon {
        Some(ProfileIcon::Zetta) => Some("zetta".to_owned()),
        Some(ProfileIcon::Bash) => Some("bash".to_owned()),
        Some(ProfileIcon::Zsh) => Some("zsh".to_owned()),
        Some(ProfileIcon::Fish) => Some("fish".to_owned()),
        _ => None,
    };
    push_text(&mut entries, "icon", icon);
    if form.hidden {
        let ghost before = entries_view(entries@);
        entries.push(("hidden".to_owned(), Json::Bool(true)));
        proof {
            assert(entries_view(entries@) =~= before.push(("hidden"@, JsonView::Bool(true))));
        }
    }
    proof {
        lemma_object_view(entries);
    }
    Json::Object(entries)
}

proof fn lemma_lookup_pushed(
    entries: Seq<(Seq<char>, JsonView)>,
    entry: (Seq<char>, JsonView),
    key: Seq<char>,
)
    ensures
        lookup(entries.push(entry), key) == match lookup(entries, key) {
            Some(value) => Some(value),
            None => if entry.0 == key {
                Some(entry.1)
            } else {
                None
            },
        },
    decreases entries.len(),
{
    let longer = entries.push(entry);
    if entries.len() == 0 {
        assert(longer.first() == entry);
        assert(longer.drop_first() == entries);
    } else {
        assert(longer.first() == entries.first());
        assert(longer.drop_first() == entries.drop_first().push(entry));
        lemma_lookup_pushed(entries.drop_first(), entry, key);
    }
}

proof fn lemma_known_pushed(
    entries: Seq<(Seq<char>, JsonView)>,
    entry: (Seq<char>, JsonView),
    known: Seq<Seq<char>>,
)
    requires
        first_other_key(entries, known) is None,
        known.contains(entry.0),
    ensures
        first_other_key(entries.push(entry), known) is None,
    decreases entries.len(),
{
    let longer = entries.push(entry);
    if entries.len() == 0 {
        assert(longer.first() == entry);
        assert(longer.drop_first() == entries);
    } else {
        assert(longer.first() == entries.first());
        assert(longer.drop_first() == entries.drop_first().push(entry));
        lemma_known_pushed(entries.drop_first(), entry, known);
    }
}

proof fn lemma_texts_in(list: Seq<Seq<char>>)
    ensures
        texts_in(list.map_values(|text: Seq<char>| JsonView::Text(text))) == list,
    decreases list.len(),
{
    let values = list.map_values(|text: Seq<char>| JsonView::Text(text));
    if list.len() > 0 {
        lemma_texts_in(list.drop_last());
        assert(values.drop_last() =~= list.drop_last().map_values(
            |text: Seq<char>| JsonView::Text(text),
        ));
        assert(list.drop_last().push(list.last()) =~= list);
    } else {
        assert(texts_in(values) =~= list);
    }
}

/// One more step of building a profile's entries: what is under each key, and
/// that all keys are known.
proof fn lemma_with_text(
    entries: Seq<(Seq<char>, JsonView)>,
    key: Seq<char>,
    text: Option<Seq<char>>,
    other: Seq<char>,
)
    requires
        first_other_key(entries, profile_fields()) is None,
        profile_fields().contains(key),
    ensures
        first_other_key(with_text(entries, key, text), profile_fields()) is None,
        lookup(with_text(entries, key, text), other) == match lookup(entries, other) {
            Some(value) => Some(value),
            None => match text {
                Some(text) if key == other => Some(JsonView::Text(text)),
                _ => None,
            },
        },
{
    if let Some(text) = text {
        lemma_lookup_pushed(entries, (key, JsonView::Text(text)), other);
        lemma_known_pushed(entries, (key, JsonView::Text(text)), profile_fields());
    }
}

proof fn lemma_fields_differ()
    ensures
        profile_fields().no_duplicates(),
        forall|i: int| 0 <= i < 7 ==> profile_fields().contains(#[trigger] profile_fields()[i]),
{
    reveal_strlit("name");
    reveal_strlit("program");
    reveal_strlit("args");
    reveal_strlit("theme");
    reveal_strlit("dark_theme");
    reveal_strlit("icon");
    reveal_strlit("hidden");
    let fields = profile_fields();
    assert(fields[0].len() == 4 && fields[1].len() == 7 && fields[2].len() == 4 && fields[3].len()
        == 5 && fields[4].len() == 10 && fields[5].len() == 4 && fields[6].len() == 6);
    assert(fields[0][0] == 'n' && fields[2][0] == 'a' && fields[5][0] == 'i');
    assert forall|i: int, j: int| 0 <= i < 7 && 0 <= j < 7 && i != j implies fields[i]
        != fields[j] by {
        assert(i == 0 || i == 1 || i == 2 || i == 3 || i == 4 || i == 5 || i == 6);
        assert(j == 0 || j == 1 || j == 2 || j == 3 || j == 4 || j == 5 || j == 6);
    }
}

/// The entries of a profile up to its arguments.
spec fn started_entries(form: ProfileFormView) -> Seq<(Seq<char>, JsonView)> {
    let named = seq![("name"@, JsonView::Text(trimmed(form.name)))];
    match filled(form.program) {
        Some(program) => named.push(("program"@, JsonView::Text(program))).push(
            (
                "args"@,
                JsonView::Array(
                    arguments_in(form.arguments).map_values(
                        |text: Seq<char>| JsonView::Text(text),
                    ),
                ),
            ),
        ),
        None => named,
    }
}

proof fn lemma_started_entries(form: ProfileFormView, other: Seq<char>)
    ensures
        first_other_key(started_entries(form), profile_fields()) is None,
        lookup(started_entries(form), other) == if other == "name"@ {
            Some(JsonView::Text(trimmed(form.name)))
        } else {
            match filled(form.program) {
                Some(program) => if other == "program"@ {
                    Some(JsonView::Text(program))
                } else if other == "args"@ {
                    Some(
                        JsonView::Array(
                            arguments_in(form.arguments).map_values(
                                |text: Seq<char>| JsonView::Text(text),
                            ),
                        ),
                    )
                } else {
                    None
                },
                None => None,
            }
        },
{
    lemma_fields_differ();
    let fields = profile_fields();
    assert(fields[0] == "name"@ && fields[1] == "program"@ && fields[2] == "args"@);
    assert(fields[0] != fields[1] && fields[0] != fields[2] && fields[1] != fields[2]);
    let empty = Seq::<(Seq<char>, JsonView)>::empty();
    let named = seq![("name"@, JsonView::Text(trimmed(form.name)))];
    assert(named =~= empty.push(named[0]));
    lemma_lookup_pushed(empty, named[0], other);
    lemma_known_pushed(empty, named[0], fields);
    if let Some(program) = filled(form.program) {
        let second = ("program"@, JsonView::Text(program));
        let third = (
            "args"@,
            JsonView::Array(
                arguments_in(form.arguments).map_values(|text: Seq<char>| JsonView::Text(text)),
            ),
        );
        lemma_lookup_pushed(named, second, other);
        lemma_known_pushed(named, second, fields);
        lemma_lookup_pushed(named.push(second), third, other);
        lemma_known_pushed(named.push(second), third, fields);
    }
}

/// What is under a key of a profile that is written.
proof fn lemma_profile_entries(form: ProfileFormView, other: Seq<char>)
    ensures
        first_other_key(profile_entries(form), profile_fields()) is None,
        lookup(profile_entries(form), other) == match lookup(started_entries(form), other) {
            Some(value) => Some(value),
            None => if other == "theme"@ && form.theme is Some {
                Some(JsonView::Text(form.theme->0))
            } else if other == "dark_theme"@ && form.dark_theme is Some {
                Some(JsonView::Text(form.dark_theme->0))
            } else if other == "icon"@ && icon_text(form.icon) is Some {
                Some(JsonView::Text(icon_text(form.icon)->0))
            } else if other == "hidden"@ && form.hidden {
                Some(JsonView::Bool(true))
            } else {
                None
            },
        },
{
    lemma_fields_differ();
    let fields = profile_fields();
    assert(fields[3] == "theme"@ && fields[4] == "dark_theme"@ && fields[5] == "icon"@ && fields[6]
        == "hidden"@);
    assert(fields[3] != fields[4] && fields[3] != fields[5] && fields[3] != fields[6] && fields[4]
        != fields[5] && fields[4] != fields[6] && fields[5] != fields[6]);
    let started = started_entries(form);
    lemma_started_entries(form, other);
    lemma_with_text(started, "theme"@, form.theme, other);
    let themed = with_text(started, "theme"@, form.theme);
    lemma_with_text(themed, "dark_theme"@, form.dark_theme, other);
    let darkened = with_text(themed, "dark_theme"@, form.dark_theme);
    lemma_with_text(darkened, "icon"@, icon_text(form.icon), other);
    let styled = with_text(darkened, "icon"@, icon_text(form.icon));
    if form.hidden {
        let last = ("hidden"@, JsonView::Bool(true));
        lemma_lookup_pushed(styled, last, other);
        lemma_known_pushed(styled, last, fields);
    }
}

/// A profile of the form as it comes back from the file: without spaces around
/// its fields, and without arguments where it has no program.
pub open spec fn written_form(form: ProfileFormView) -> ProfileFormView {
    ProfileFormView {
        name: trimmed(form.name),
        program: or_empty(filled(form.program)),
        arguments: if filled(form.program) is Some {
            chained(arguments_in(form.arguments), ", "@)
        } else {
            Seq::empty()
        },
        icon: if icon_text(form.icon) is Some {
            form.icon
        } else {
            None
        },
        ..form
    }
}

/// A profile that was written is read as it was written.
pub proof fn law_profile_form_reads_back(form: ProfileFormView)
    ensures
        profile_form(JsonView::Object(profile_entries(form))) == Some(written_form(form)),
{
    lemma_fields_differ();
    let fields = profile_fields();
    assert(fields[0] == "name"@ && fields[1] == "program"@ && fields[2] == "args"@ && fields[3]
        == "theme"@ && fields[4] == "dark_theme"@ && fields[5] == "icon"@ && fields[6]
        == "hidden"@);
    assert forall|i: int, j: int| 0 <= i < 7 && 0 <= j < 7 && i != j implies #[trigger] fields[i]
        != #[trigger] fields[j] by {}
    assert(fields[0] != fields[1] && fields[0] != fields[2] && fields[0] != fields[3] && fields[0]
        != fields[4] && fields[0] != fields[5] && fields[0] != fields[6]);
    assert(fields[1] != fields[2] && fields[1] != fields[3] && fields[1] != fields[4] && fields[1]
        != fields[5] && fields[1] != fields[6]);
    assert(fields[2] != fields[3] && fields[2] != fields[4] && fields[2] != fields[5] && fields[2]
        != fields[6]);
    lemma_profile_entries(form, "name"@);
    lemma_profile_entries(form, "program"@);
    lemma_profile_entries(form, "args"@);
    lemma_profile_entries(form, "theme"@);
    lemma_profile_entries(form, "dark_theme"@);
    lemma_profile_entries(form, "icon"@);
    lemma_profile_entries(form, "hidden"@);
    lemma_started_entries(form, "name"@);
    lemma_started_entries(form, "program"@);
    lemma_started_entries(form, "args"@);
    lemma_started_entries(form, "theme"@);
    lemma_started_entries(form, "dark_theme"@);
    lemma_started_entries(form, "icon"@);
    lemma_started_entries(form, "hidden"@);
    lemma_texts_in(arguments_in(form.arguments));
    if let Some(name) = icon_text(form.icon) {
        lemma_icon_text(form.icon->0);
    }
}

proof fn lemma_icon_text(icon: ProfileIcon)
    ensures
        icon_text(Some(icon)) matches Some(name) ==> icon_named(lowered(name)) == Some(Some(icon)),
{
    if let Some(name) = icon_text(Some(icon)) {
        reveal_strlit("auto");
        reveal_strlit("zetta");
        reveal_strlit("bash");
        reveal_strlit("zsh");
        reveal_strlit("fish");
        assert("auto"@[0] == 'a' && "bash"@[0] == 'b' && "fish"@[0] == 'f' && "zsh"@.len() == 3
            && "zetta"@.len() == 5);
        assert(lowered(name) =~= name);
    }
}

} // verus!
