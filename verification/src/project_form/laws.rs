//! What holds of the form that a project's settings are edited in.

use vstd::prelude::*;

use crate::json::{entries_view, lookup, JsonView};
use crate::order::{law_order_is_kept, ordered};
use crate::profile_icon::{icon_named, ProfileIcon};
use crate::project::config::stays_inside;
use crate::project_commands::environment_entry_error;
use crate::project_form::{
    by_lowercase, environment_fault, forms_view, is_inherited, not_blank, opacity_error,
    profile_values, profiles_fault, renamed_to, repeats_variable, shown_as, shown_icon,
    shown_profiles, values_in, variable_entries, variables_view, with_lower_keys, with_value,
    without_adjacent, FormContext, FormFault, FormReadError, ProjectEnvironmentForm, ProjectForm,
    ProjectTabIcon, TemplatesForm,
};
use crate::project_form::fields::{text_at, text_replaced, ProjectTextField};
use crate::project_form::profiles::{
    arguments_in, filled, icon_text, law_profile_form_reads_back, named_parts, profile_form,
    profile_form_error, with_text, written_form, ProfileFormError, ProfileFormView,
    ProjectProfileForm,
};
use crate::text::{
    chained, lemma_one_piece, lemma_pieces_of_two, optional_text, pieces, same_ignoring_case, texts,
    trimmed,
};
use crate::text::laws::law_trimming_takes_spaces_off;

verus! {

proof fn lemma_pushed(
    entries: Seq<(Seq<char>, JsonView)>,
    last: (Seq<char>, JsonView),
    key: Seq<char>,
)
    ensures
        lookup(entries.push(last), key) == match lookup(entries, key) {
            Some(value) => Some(value),
            None => if last.0 == key {
                Some(last.1)
            } else {
                None
            },
        },
    decreases entries.len(),
{
    let longer = entries.push(last);
    if entries.len() == 0 {
        assert(longer.first() == last);
        assert(longer.drop_first() =~= Seq::<(Seq<char>, JsonView)>::empty());
        reveal_with_fuel(lookup, 2);
    } else {
        assert(longer.first() == entries.first());
        assert(longer.drop_first() =~= entries.drop_first().push(last));
        lemma_pushed(entries.drop_first(), last, key);
    }
}

proof fn lemma_valued(
    entries: Seq<(Seq<char>, JsonView)>,
    key: Seq<char>,
    value: Option<JsonView>,
    asked: Seq<char>,
)
    ensures
        lookup(with_value(entries, key, value), asked) == match lookup(entries, asked) {
            Some(found) => Some(found),
            None => if key == asked {
                value
            } else {
                None
            },
        },
{
    if let Some(value) = value {
        lemma_pushed(entries, (key, value), asked);
    }
}

/// A text as JSON, where there is one.
pub open spec fn as_json(text: Option<Seq<char>>) -> Option<JsonView> {
    match text {
        Some(text) => Some(JsonView::Text(text)),
        None => None,
    }
}

proof fn lemma_texted(
    entries: Seq<(Seq<char>, JsonView)>,
    key: Seq<char>,
    text: Option<Seq<char>>,
    asked: Seq<char>,
)
    ensures
        lookup(with_text(entries, key, text), asked) == match lookup(entries, asked) {
            Some(found) => Some(found),
            None => if key == asked {
                as_json(text)
            } else {
                None
            },
        },
{
    if let Some(text) = text {
        lemma_pushed(entries, (key, JsonView::Text(text)), asked);
    }
}

proof fn lemma_keys()
    ensures
        "theme"@ != "dark_theme"@,
        "theme"@ != "working_directory"@,
        "dark_theme"@ != "working_directory"@,
        "theme"@ != "default_profile"@,
        "dark_theme"@ != "default_profile"@,
        "working_directory"@ != "default_profile"@,
        "theme"@ != "default_tab_icon"@,
        "dark_theme"@ != "default_tab_icon"@,
        "working_directory"@ != "default_tab_icon"@,
        "default_profile"@ != "default_tab_icon"@,
        "theme"@ != "inactive_pane_opacity"@,
        "dark_theme"@ != "inactive_pane_opacity"@,
        "working_directory"@ != "inactive_pane_opacity"@,
        "default_profile"@ != "inactive_pane_opacity"@,
        "default_tab_icon"@ != "inactive_pane_opacity"@,
        "theme"@ != "env"@,
        "dark_theme"@ != "env"@,
        "working_directory"@ != "env"@,
        "default_profile"@ != "env"@,
        "default_tab_icon"@ != "env"@,
        "inactive_pane_opacity"@ != "env"@,
        "theme"@ != "initial_split"@,
        "dark_theme"@ != "initial_split"@,
        "working_directory"@ != "initial_split"@,
        "default_profile"@ != "initial_split"@,
        "default_tab_icon"@ != "initial_split"@,
        "inactive_pane_opacity"@ != "initial_split"@,
        "env"@ != "initial_split"@,
        "theme"@ != "pane_split_templates"@,
        "dark_theme"@ != "pane_split_templates"@,
        "working_directory"@ != "pane_split_templates"@,
        "default_profile"@ != "pane_split_templates"@,
        "default_tab_icon"@ != "pane_split_templates"@,
        "inactive_pane_opacity"@ != "pane_split_templates"@,
        "env"@ != "pane_split_templates"@,
        "initial_split"@ != "pane_split_templates"@,
        "theme"@ != "profiles"@,
        "dark_theme"@ != "profiles"@,
        "working_directory"@ != "profiles"@,
        "default_profile"@ != "profiles"@,
        "default_tab_icon"@ != "profiles"@,
        "inactive_pane_opacity"@ != "profiles"@,
        "env"@ != "profiles"@,
        "initial_split"@ != "profiles"@,
        "pane_split_templates"@ != "profiles"@,
        "theme"@ != "commands"@,
        "dark_theme"@ != "commands"@,
        "working_directory"@ != "commands"@,
        "default_profile"@ != "commands"@,
        "default_tab_icon"@ != "commands"@,
        "inactive_pane_opacity"@ != "commands"@,
        "env"@ != "commands"@,
        "initial_split"@ != "commands"@,
        "pane_split_templates"@ != "commands"@,
        "profiles"@ != "commands"@,
{
    reveal_strlit("theme");
    reveal_strlit("dark_theme");
    reveal_strlit("working_directory");
    reveal_strlit("default_profile");
    reveal_strlit("default_tab_icon");
    reveal_strlit("inactive_pane_opacity");
    reveal_strlit("env");
    reveal_strlit("initial_split");
    reveal_strlit("pane_split_templates");
    reveal_strlit("profiles");
    reveal_strlit("commands");
    assert("theme"@.len() == 5 && "dark_theme"@.len() == 10 && "working_directory"@.len() == 17);
    assert("default_profile"@.len() == 15 && "default_tab_icon"@.len() == 16 && "inactive_pane_opacity"@.len() == 21);
    assert("env"@.len() == 3 && "initial_split"@.len() == 13 && "pane_split_templates"@.len() == 20);
    assert("profiles"@.len() == 8 && "commands"@.len() == 8 && "commands"@[0] == 'c');
    assert("profiles"@[0] == 'p');
}

/// What the written file says under a key.
proof fn lemma_written(form: ProjectForm, asked: Seq<char>)
    ensures
        lookup(form.file_entries(), asked) == if asked == "theme"@ {
            as_json(optional_text(form.theme))
        } else if asked == "dark_theme"@ {
            as_json(optional_text(form.dark_theme))
        } else if asked == "working_directory"@ {
            as_json(filled(form.working_directory@))
        } else if asked == "default_profile"@ {
            as_json(optional_text(form.default_profile))
        } else if asked == "default_tab_icon"@ {
            form.icon_value()
        } else if asked == "inactive_pane_opacity"@ {
            match form.inactive_pane_opacity {
                Some(opacity) => Some(opacity.view()),
                None => None,
            }
        } else if asked == "env"@ {
            if form.environment@.len() > 0 {
                Some(JsonView::Object(variable_entries(form.environment@)))
            } else {
                None
            }
        } else if asked == "initial_split"@ {
            as_json(form.split_name())
        } else if asked == "pane_split_templates"@ {
            if form.pane_templates.entries@.len() > 0 {
                Some(JsonView::Object(entries_view(form.pane_templates.entries@)))
            } else {
                None
            }
        } else if asked == "profiles"@ {
            if form.profiles@.len() > 0 {
                Some(JsonView::Array(profile_values(form.profiles@)))
            } else {
                None
            }
        } else {
            None
        },
{
    lemma_keys();
    let none = Seq::<(Seq<char>, JsonView)>::empty();
    let light = with_text(none, "theme"@, optional_text(form.theme));
    lemma_texted(none, "theme"@, optional_text(form.theme), asked);
    let themed = with_text(light, "dark_theme"@, optional_text(form.dark_theme));
    lemma_texted(light, "dark_theme"@, optional_text(form.dark_theme), asked);
    let placed = with_text(themed, "working_directory"@, filled(form.working_directory@));
    lemma_texted(themed, "working_directory"@, filled(form.working_directory@), asked);
    let profiled = with_text(placed, "default_profile"@, optional_text(form.default_profile));
    lemma_texted(placed, "default_profile"@, optional_text(form.default_profile), asked);
    let marked = with_value(profiled, "default_tab_icon"@, form.icon_value());
    lemma_valued(profiled, "default_tab_icon"@, form.icon_value(), asked);
    let opacity = match form.inactive_pane_opacity {
        Some(opacity) => Some(opacity.view()),
        None => None,
    };
    let faded = with_value(marked, "inactive_pane_opacity"@, opacity);
    lemma_valued(marked, "inactive_pane_opacity"@, opacity, asked);
    let variables = if form.environment@.len() > 0 {
        Some(JsonView::Object(variable_entries(form.environment@)))
    } else {
        None
    };
    let set_up = with_value(faded, "env"@, variables);
    lemma_valued(faded, "env"@, variables, asked);
    let parted = with_text(set_up, "initial_split"@, form.split_name());
    lemma_texted(set_up, "initial_split"@, form.split_name(), asked);
    let templates = if form.pane_templates.entries@.len() > 0 {
        Some(JsonView::Object(entries_view(form.pane_templates.entries@)))
    } else {
        None
    };
    let arranged = with_value(parted, "pane_split_templates"@, templates);
    lemma_valued(parted, "pane_split_templates"@, templates, asked);
    let profiles = if form.profiles@.len() > 0 {
        Some(JsonView::Array(profile_values(form.profiles@)))
    } else {
        None
    };
    lemma_valued(arranged, "profiles"@, profiles, asked);
    assert(form.file_entries() == with_value(arranged, "profiles"@, profiles));
}

/// The file that a form is written to says each thing under its own key, as it stands in
/// the form, and says nothing of what the form leaves open.
pub proof fn law_form_is_written_under_its_keys(form: ProjectForm)
    ensures
        ({
            let entries = form.file_entries();
            &&& lookup(entries, "theme"@) == as_json(optional_text(form.theme))
            &&& lookup(entries, "dark_theme"@) == as_json(optional_text(form.dark_theme))
            &&& lookup(entries, "working_directory"@) == as_json(filled(form.working_directory@))
            &&& lookup(entries, "default_profile"@) == as_json(optional_text(form.default_profile))
            &&& lookup(entries, "initial_split"@) == as_json(form.split_name())
            &&& lookup(entries, "default_tab_icon"@) == match form.default_tab_icon {
                ProjectTabIcon::Inherit => None,
                ProjectTabIcon::NoIcon => Some(JsonView::Null),
                ProjectTabIcon::Icon(_) => Some(JsonView::Text(form.default_tab_icon_name@)),
            }
            &&& form.environment@.len() == 0 ==> lookup(entries, "env"@) is None
            &&& form.profiles@.len() == 0 ==> lookup(entries, "profiles"@) is None
            &&& form.pane_templates.entries@.len() == 0 ==> lookup(
                entries,
                "pane_split_templates"@,
            ) is None
            &&& lookup(entries, "commands"@) is None
        }),
{
    lemma_keys();
    lemma_written(form, "theme"@);
    lemma_written(form, "dark_theme"@);
    lemma_written(form, "working_directory"@);
    lemma_written(form, "default_profile"@);
    lemma_written(form, "initial_split"@);
    lemma_written(form, "default_tab_icon"@);
    lemma_written(form, "env"@);
    lemma_written(form, "profiles"@);
    lemma_written(form, "pane_split_templates"@);
    lemma_written(form, "commands"@);
}

/// The variables of a form are written with their values, and read from the file as they
/// were written.
pub proof fn law_form_variables_are_written(form: ProjectForm, at: int)
    requires
        0 <= at < form.environment@.len(),
    ensures
        lookup(form.file_entries(), "env"@) matches Some(JsonView::Object(variables))
            && variables.len() == form.environment@.len() && variables[at] == (
            form.environment@[at].name@,
            JsonView::Text(form.environment@[at].value@),
        ),
{
    lemma_keys();
    lemma_written(form, "env"@);
}

/// The profiles of a form are written each for itself, and read back as they were
/// written.
pub proof fn law_form_profiles_are_written(form: ProjectForm, at: int)
    requires
        0 <= at < form.profiles@.len(),
    ensures
        lookup(form.file_entries(), "profiles"@) matches Some(JsonView::Array(items)) && items.len()
            == form.profiles@.len() && profile_form(items[at]) == Some(
            written_form(form.profiles@[at].view()),
        ),
{
    lemma_keys();
    lemma_written(form, "profiles"@);
    law_profile_form_reads_back(form.profiles@[at].view());
}

/// A form that shows the file which another was written to shows what the other holds.
pub proof fn law_written_form_is_shown_again(
    form: ProjectForm,
    shown: ProjectForm,
    templates: TemplatesForm,
    icon: ProjectTabIcon,
    names: Seq<String>,
)
    requires
        shown.shows(form.file_entries(), templates, icon, names),
    ensures
        optional_text(shown.theme) == optional_text(form.theme),
        optional_text(shown.dark_theme) == optional_text(form.dark_theme),
        shown.working_directory@ == trimmed(form.working_directory@),
        optional_text(shown.default_profile) == optional_text(form.default_profile),
        optional_text(shown.initial_split) == form.split_name(),
        shown.profiles@.len() == form.profiles@.len(),
        form.default_tab_icon is Icon ==> shown.default_tab_icon_name@
            == form.default_tab_icon_name@,
        form.default_tab_icon is Inherit ==> shown_icon(form.file_entries(), None) == Some(
            ProjectTabIcon::Inherit,
        ),
        form.default_tab_icon is NoIcon ==> shown_icon(form.file_entries(), None) == Some(
            ProjectTabIcon::NoIcon,
        ),
{
    lemma_keys();
    lemma_written(form, "theme"@);
    lemma_written(form, "dark_theme"@);
    lemma_written(form, "working_directory"@);
    lemma_written(form, "default_profile"@);
    lemma_written(form, "initial_split"@);
    lemma_written(form, "default_tab_icon"@);
    lemma_written(form, "profiles"@);
    assert(trimmed(form.working_directory@).len() == 0 ==> trimmed(form.working_directory@)
        =~= Seq::<char>::empty());
    lemma_shown_count(profile_values(form.profiles@));
    assert(forms_view(shown.profiles@).len() == shown.profiles@.len());
}

proof fn lemma_shown_count(items: Seq<JsonView>)
    ensures
        shown_profiles(items) matches Some(shown) ==> shown.len() == items.len(),
    decreases items.len(),
{
    if items.len() > 0 {
        lemma_shown_count(items.drop_last());
    }
}

/// The variables of a form are accepted just where each can be set and no two have one
/// name in whatever case.
pub proof fn law_variables_are_accepted_once(entries: Seq<ProjectEnvironmentForm>)
    ensures
        environment_fault(entries) is None <==> (forall|i: int|
            0 <= i < entries.len() ==> environment_entry_error(
                (#[trigger] entries[i]).name@,
                entries[i].value@,
            ) is None) && (forall|i: int, j: int|
            #![trigger entries[i], entries[j]]
            0 <= i < j < entries.len() ==> !same_ignoring_case(entries[i].name@, entries[j].name@)),
    decreases entries.len(),
{
    if entries.len() > 0 {
        let shorter = entries.drop_last();
        let last = entries.len() - 1;
        law_variables_are_accepted_once(shorter);
        assert(entries[last] == entries.last());
        assert forall|i: int| 0 <= i < last implies #[trigger] entries[i] == shorter[i] by {}
        if environment_fault(entries) is None {
            assert forall|i: int, j: int|
                #![trigger entries[i], entries[j]]
                0 <= i < j < entries.len() implies !same_ignoring_case(
                entries[i].name@,
                entries[j].name@,
            ) by {
                if j == last {
                    assert(shorter[i] == entries[i]);
                } else {
                    assert(shorter[i] == entries[i] && shorter[j] == entries[j]);
                }
            }
        }
        if (forall|i: int|
            0 <= i < entries.len() ==> environment_entry_error(
                (#[trigger] entries[i]).name@,
                entries[i].value@,
            ) is None) && (forall|i: int, j: int|
            #![trigger entries[i], entries[j]]
            0 <= i < j < entries.len() ==> !same_ignoring_case(entries[i].name@, entries[j].name@)) {
            assert forall|i: int| 0 <= i < shorter.len() implies environment_entry_error(
                (#[trigger] shorter[i]).name@,
                shorter[i].value@,
            ) is None by {
                assert(shorter[i] == entries[i]);
            }
            assert forall|i: int, j: int|
                #![trigger shorter[i], shorter[j]]
                0 <= i < j < shorter.len() implies !same_ignoring_case(
                shorter[i].name@,
                shorter[j].name@,
            ) by {
                assert(shorter[i] == entries[i] && shorter[j] == entries[j]);
            }
            if repeats_variable(shorter, entries.last().name@) {
                let i = choose|i: int|
                    0 <= i < shorter.len() && same_ignoring_case(
                        (#[trigger] shorter[i]).name@,
                        entries.last().name@,
                    );
                assert(entries[i] == shorter[i]);
                assert(!same_ignoring_case(entries[i].name@, entries[last].name@));
            }
        }
    }
}

/// The last profile of a form is accepted just where it has a name that none before it
/// has and either a program or, without arguments, the name of a profile to change.
pub proof fn law_profiles_are_accepted(
    profiles: Seq<ProjectProfileForm>,
    last: ProjectProfileForm,
    inherited: Seq<String>,
)
    requires
        profiles_fault(profiles, inherited) is None,
    ensures
        profiles_fault(profiles.push(last), inherited) is None <==> {
            let name = trimmed(last.name@);
            &&& name.len() > 0
            &&& forall|i: int|
                0 <= i < profiles.len() ==> !same_ignoring_case(
                    trimmed((#[trigger] profiles[i]).name@),
                    name,
                )
            &&& trimmed(last.program@).len() > 0 || (arguments_in(last.arguments@).len() == 0
                && is_inherited(inherited, name))
        },
{
    assert(profiles.push(last).drop_last() =~= profiles);
    assert(profiles.push(last).last() == last);
}

/// A form without faults stays inside the project and begins with a split that it has.
pub proof fn law_form_without_faults_is_sound(form: ProjectForm, windows: bool)
    ensures
        form.fault(windows) is None <==> {
            &&& filled(form.working_directory@) matches Some(directory) ==> stays_inside(
                directory,
                windows,
            )
            &&& environment_fault(form.environment@) is None
            &&& profiles_fault(form.profiles@, form.inherited_profiles@) is None
            &&& form.split_name() matches Some(name) ==> form.split_names().contains(name)
            &&& form.pane_templates.error is None
        },
        filled(form.working_directory@) matches Some(directory) ==> !stays_inside(directory, windows)
            ==> form.fault(windows) == Some(FormFault::Directory),
{
}

/// A split that was renamed goes by its new name, and one that was not by its own.
pub proof fn law_renamed_split_goes_by_its_new_name(
    form: ProjectForm,
    name: String,
    new_name: String,
)
    requires
        form.initial_split == Some(name),
    ensures
        form.pane_templates.renamed@.len() == 0 ==> form.split_name() == Some(name@),
        form.pane_templates.renamed@.len() > 0 && form.pane_templates.renamed@[0] == (name, new_name)
            ==> form.split_name() == Some(new_name@),
        (forall|i: int|
            0 <= i < form.pane_templates.renamed@.len() ==> (
            #[trigger] form.pane_templates.renamed@[i]).0@ != name@) ==> form.split_name() == Some(
            name@,
        ),
{
    let renamed = form.pane_templates.renamed@;
    if renamed.len() > 0 {
        assert(renamed.first() == renamed[0]);
    }
    if forall|i: int| 0 <= i < renamed.len() ==> (#[trigger] renamed[i]).0@ != name@ {
        lemma_not_renamed(renamed, name@);
    }
}

proof fn lemma_not_renamed(renamed: Seq<(String, String)>, name: Seq<char>)
    requires
        forall|i: int| 0 <= i < renamed.len() ==> (#[trigger] renamed[i]).0@ != name,
    ensures
        renamed_to(renamed, name) is None,
    decreases renamed.len(),
{
    if renamed.len() > 0 {
        let rest = renamed.drop_first();
        assert(renamed.first() == renamed[0]);
        assert forall|i: int| 0 <= i < rest.len() implies (#[trigger] rest[i]).0@ != name by {
            assert(rest[i] == renamed[i + 1]);
        }
        lemma_not_renamed(rest, name);
    }
}

/// Typing into one field changes that field alone, and each field is what it is called.
pub proof fn law_typing_changes_one_field(
    before: ProjectForm,
    after: ProjectForm,
    field: ProjectTextField,
    other: ProjectTextField,
    text: String,
)
    requires
        text_at(before, field) is Some,
        text_replaced(before, after, field, text),
        other != field,
    ensures
        text_at(after, other) == text_at(before, other),
        after.theme == before.theme,
        after.dark_theme == before.dark_theme,
        text_at(before, ProjectTextField::WorkingDirectory) == Some(before.working_directory),
        field == ProjectTextField::WorkingDirectory ==> after.working_directory == text,
        field matches ProjectTextField::EnvironmentName(index) ==> after.environment@[
            index as int
        ].name == text,
        field matches ProjectTextField::EnvironmentValue(index) ==> after.environment@[
            index as int
        ].value == text,
        field matches ProjectTextField::ProfileName(index) ==> after.profiles@[index as int].name
            == text,
        field matches ProjectTextField::ProfileProgram(index) ==> after.profiles@[
            index as int
        ].program == text,
        field matches ProjectTextField::ProfileArguments(index) ==> after.profiles@[
            index as int
        ].arguments == text,
{
}

proof fn lemma_parts_of_two(left: Seq<Seq<char>>, right: Seq<Seq<char>>)
    ensures
        named_parts(left + right) == named_parts(left) + named_parts(right),
    decreases right.len(),
{
    if right.len() == 0 {
        assert(left + right =~= left);
        assert(named_parts(left) + named_parts(right) =~= named_parts(left));
    } else {
        let whole = left + right;
        assert(whole.last() == right.last());
        assert(whole.drop_last() =~= left + right.drop_last());
        lemma_parts_of_two(left, right.drop_last());
        assert(named_parts(whole) =~= named_parts(left) + named_parts(right));
    }
}

/// Arguments that are typed with commas between them are read one by one, without the
/// spaces around them.
pub proof fn law_arguments_read_back(arguments: Seq<Seq<char>>)
    requires
        forall|i: int|
            0 <= i < arguments.len() ==> trimmed(#[trigger] arguments[i]) == arguments[i]
                && arguments[i].len() > 0 && !arguments[i].contains(','),
    ensures
        arguments_in(chained(arguments, ", "@)) == arguments,
    decreases arguments.len(),
{
    reveal_strlit(", ");
    if arguments.len() == 0 {
        lemma_one_piece(Seq::empty(), ',');
        let nothing = seq![Seq::<char>::empty()];
        assert(nothing.drop_last() =~= Seq::<Seq<char>>::empty());
        reveal_with_fuel(named_parts, 2);
        law_trimming_takes_spaces_off(Seq::empty());
        assert(arguments_in(chained(arguments, ", "@)) =~= arguments);
    } else {
        let last = arguments.last();
        assert(arguments[arguments.len() - 1] == last);
        let shorter = arguments.drop_last();
        assert forall|i: int| 0 <= i < shorter.len() implies trimmed(#[trigger] shorter[i])
            == shorter[i] && shorter[i].len() > 0 && !shorter[i].contains(',') by {
            assert(shorter[i] == arguments[i]);
        }
        law_arguments_read_back(shorter);
        reveal_with_fuel(named_parts, 2);
        if arguments.len() == 1 {
            lemma_one_piece(last, ',');
            assert(arguments =~= seq![last]);
            assert(seq![last].drop_last() =~= Seq::<Seq<char>>::empty());
            assert(arguments_in(last) =~= seq![last]);
        } else {
            let spaced = seq![' '] + last;
            let before = chained(shorter, ", "@);
            assert(chained(arguments, ", "@) =~= before.push(',') + spaced);
            lemma_pieces_of_two(before, spaced, ',');
            assert forall|i: int| 0 <= i < spaced.len() implies spaced[i] != ',' by {
                if i > 0 {
                    assert(spaced[i] == last[i - 1]);
                    assert(last.contains(last[i - 1]));
                }
            }
            lemma_one_piece(spaced, ',');
            lemma_parts_of_two(pieces(before, ','), seq![spaced]);
            assert(trimmed(spaced) == last) by {
                assert(spaced.first() == ' ');
                assert(spaced.drop_first() =~= last);
                assert(crate::text::trimmed_start(spaced) == crate::text::trimmed_start(last));
            }
            assert(seq![spaced].drop_last() =~= Seq::<Seq<char>>::empty());
            assert(named_parts(seq![spaced]) =~= seq![last]);
            assert(shorter + seq![last] =~= arguments);
        }
    }
}

proof fn lemma_listed(list: Seq<Seq<char>>, last: Seq<char>, name: Seq<char>)
    ensures
        list.push(last).contains(name) == (list.contains(name) || name == last),
{
    let longer = list.push(last);
    assert(longer[list.len() as int] == last);
    if list.contains(name) {
        let i = choose|i: int| 0 <= i < list.len() && list[i] == name;
        assert(longer[i] == name);
    }
    if longer.contains(name) {
        let i = choose|i: int| 0 <= i < longer.len() && longer[i] == name;
        if i < list.len() {
            assert(list[i] == name);
        }
    }
}

proof fn lemma_not_blank(list: Seq<Seq<char>>, name: Seq<char>)
    ensures
        not_blank(list).contains(name) == (list.contains(name) && trimmed(name).len() > 0),
    decreases list.len(),
{
    if list.len() > 0 {
        let shorter = list.drop_last();
        lemma_not_blank(shorter, name);
        assert(list =~= shorter.push(list.last()));
        lemma_listed(shorter, list.last(), name);
        lemma_listed(not_blank(shorter), list.last(), name);
    }
}

proof fn lemma_without_adjacent(list: Seq<Seq<char>>, name: Seq<char>)
    ensures
        without_adjacent(list, false).contains(name) == list.contains(name),
    decreases list.len(),
{
    if list.len() > 0 {
        let shorter = list.drop_last();
        lemma_without_adjacent(shorter, name);
        assert(list =~= shorter.push(list.last()));
        lemma_listed(shorter, list.last(), name);
        let before = without_adjacent(shorter, false);
        lemma_listed(before, list.last(), name);
        if before.len() > 0 && before.last() == list.last() {
            assert(before[before.len() - 1] == list.last());
        }
    }
}

proof fn lemma_by_lowercase(list: Seq<Seq<char>>, name: Seq<char>)
    ensures
        by_lowercase(list).contains(name) == list.contains(name),
{
    broadcast use vstd::seq_lib::group_to_multiset_ensures;

    let keyed = with_lower_keys(list);
    let sorted = ordered(keyed);
    law_order_is_kept(keyed);
    let values = values_in(sorted);
    if values.contains(name) {
        let i = choose|i: int| 0 <= i < values.len() && values[i] == name;
        assert(sorted.contains(sorted[i]));
        assert(sorted.to_multiset().count(sorted[i]) > 0);
        assert(keyed.to_multiset().count(sorted[i]) > 0);
        assert(keyed.contains(sorted[i]));
        let k = choose|k: int| 0 <= k < keyed.len() && keyed[k] == sorted[i];
        assert(list[k] == name);
    }
    if list.contains(name) {
        let k = choose|k: int| 0 <= k < list.len() && list[k] == name;
        assert(keyed.contains(keyed[k]));
        assert(keyed.to_multiset().count(keyed[k]) > 0);
        assert(sorted.to_multiset().count(keyed[k]) > 0);
        assert(sorted.contains(keyed[k]));
        let i = choose|i: int| 0 <= i < sorted.len() && sorted[i] == keyed[k];
        assert(values[i] == name);
    }
}

/// The splits to begin with are the templates that have a name, all of them and no other.
pub proof fn law_named_templates_can_be_chosen(form: ProjectForm, name: Seq<char>)
    ensures
        form.split_names().contains(name) <==> texts(form.pane_templates.names@).contains(name)
            && trimmed(name).len() > 0,
{
    let names = texts(form.pane_templates.names@);
    lemma_not_blank(names, name);
    lemma_by_lowercase(not_blank(names), name);
    lemma_without_adjacent(by_lowercase(not_blank(names)), name);
}

/// An icon of a profile is written by its name, and read by it again.
pub proof fn law_profile_icons_are_written_by_name(icon: ProfileIcon)
    ensures
        icon_text(Some(ProfileIcon::Bash)) == Some("bash"@),
        icon_text(Some(ProfileIcon::Zsh)) == Some("zsh"@),
        icon_text(Some(ProfileIcon::Fish)) == Some("fish"@),
        icon_text(Some(ProfileIcon::Zetta)) == Some("zetta"@),
        icon_text(None) is None,
        icon_text(Some(icon)) matches Some(name) ==> icon_named(name) == Some(Some(icon)),
{
    crate::profile_icon::law_icons_go_by_their_names("auto"@);
}

/// A form that opens shows what stands in the file, each thing in its own field, and is
/// empty where the file says nothing.
pub proof fn law_opened_form_shows_the_file(
    entries: Seq<(Seq<char>, JsonView)>,
    context: FormContext,
    form: ProjectForm,
    text: Seq<char>,
)
    requires
        shown_as(entries, context, Ok(form)),
    ensures
        lookup(entries, "theme"@) == Some(JsonView::Text(text)) ==> optional_text(form.theme)
            == Some(text),
        lookup(entries, "dark_theme"@) == Some(JsonView::Text(text)) ==> optional_text(
            form.dark_theme,
        ) == Some(text),
        lookup(entries, "working_directory"@) == Some(JsonView::Text(text))
            ==> form.working_directory@ == text,
        lookup(entries, "default_profile"@) == Some(JsonView::Text(text)) ==> optional_text(
            form.default_profile,
        ) == Some(text),
        lookup(entries, "initial_split"@) == Some(JsonView::Text(text)) ==> optional_text(
            form.initial_split,
        ) == Some(text),
        lookup(entries, "theme"@) is None ==> form.theme is None,
        lookup(entries, "dark_theme"@) is None ==> form.dark_theme is None,
        lookup(entries, "working_directory"@) is None ==> form.working_directory@.len() == 0,
        lookup(entries, "initial_split"@) is None ==> form.initial_split is None,
        lookup(entries, "env"@) is None ==> form.environment@.len() == 0,
        lookup(entries, "profiles"@) is None ==> form.profiles@.len() == 0,
        lookup(entries, "default_tab_icon"@) is None ==> form.default_tab_icon
            == ProjectTabIcon::Inherit,
        lookup(entries, "default_tab_icon"@) == Some(JsonView::Null) ==> form.default_tab_icon
            == ProjectTabIcon::NoIcon,
        context.templates matches Ok(templates) && form.pane_templates == templates,
{
    assert(variables_view(form.environment@).len() == form.environment@.len());
    assert(forms_view(form.profiles@).len() == form.profiles@.len());
}

/// An opacity must be a number in range, a profile must be an object with a name, and
/// what is wrong with a profile is said.
pub proof fn law_wrong_values_are_refused(
    entries: Seq<(Seq<char>, JsonView)>,
    in_range: bool,
    text: Seq<char>,
    value: JsonView,
    error: ProfileFormError,
)
    ensures
        lookup(entries, "inactive_pane_opacity"@) is None ==> opacity_error(entries, in_range)
            is None,
        lookup(entries, "inactive_pane_opacity"@) == Some(JsonView::Text(text)) ==> opacity_error(
            entries,
            in_range,
        ) == Some(FormReadError::OpacityNotANumber),
        lookup(entries, "inactive_pane_opacity"@) matches Some(JsonView::Number(_))
            ==> opacity_error(entries, true) is None && opacity_error(entries, false) == Some(
            FormReadError::OpacityOutOfRange,
        ),
        profile_form_error(JsonView::Text(text), error) ==> error == ProfileFormError::NotAnObject,
        profile_form(JsonView::Text(text)) is None,
        value matches JsonView::Object(of_profile) ==> lookup(of_profile, "name"@) is None
            ==> profile_form(value) is None,
        value matches JsonView::Object(of_profile) ==> (profile_form(value) matches Some(form)
            ==> lookup(of_profile, "name"@) == Some(JsonView::Text(form.name)) && form.hidden == (
        lookup(of_profile, "hidden"@) == Some(JsonView::Bool(true)))),
{
}

/// A profile's form has what stands under each of the profile's keys.
pub proof fn law_profile_form_shows_the_profile(
    entries: Seq<(Seq<char>, JsonView)>,
    form: ProfileFormView,
    text: Seq<char>,
)
    requires
        profile_form(JsonView::Object(entries)) == Some(form),
    ensures
        lookup(entries, "program"@) == Some(JsonView::Text(text)) ==> form.program == text,
        lookup(entries, "theme"@) == Some(JsonView::Text(text)) ==> form.theme == Some(text),
        lookup(entries, "dark_theme"@) == Some(JsonView::Text(text)) ==> form.dark_theme == Some(
            text,
        ),
        lookup(entries, "icon"@) == Some(JsonView::Text(text)) ==> icon_named(
            crate::text::lowered(text),
        ) == Some(form.icon),
        lookup(entries, "theme"@) is None ==> form.theme is None,
        lookup(entries, "icon"@) is None ==> form.icon is None,
        lookup(entries, "program"@) is None ==> form.program.len() == 0,
{
}

} // verus!
