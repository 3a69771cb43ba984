//! The typed form behind a project's configuration.
//!
//! A project file is an overlay: a field that is absent inherits the user
//! configuration, so every field here has to be able to express "not set".

use vstd::prelude::*;

use crate::json::{
    entries_view, first_other_key, get, items_view, json_of, lemma_array_view, lemma_object_view,
    lookup, parse, print, text_of_json, Json, JsonView,
};
use crate::order::{keyed, ordered, sort_by_key};
use crate::pane::tab::IconName;
use crate::project::config::{project_fields, stays_inside, validate_project_fields};
use crate::project::paths::{lower_text, lowercase_text};
use crate::project_commands::{
    environment_entry_error, validate_environment_entry, EnvironmentEntryError,
};
use crate::project_form::profiles::{
    arguments, arguments_in, filled, non_empty, or_empty, parse_profile_form, profile_entries,
    profile_form, profile_form_error, profile_value, text_under, with_text, ProfileFormError,
    ProfileFormView, ProjectProfileForm,
};
use crate::text::{
    clone_optional, clone_texts, eq_ignore_ascii_case, list_contains, optional_text,
    same_ignoring_case, same_text, texts, trim, trimmed,
};

pub mod fields;
pub mod laws;
pub mod profiles;

verus! {

/// A project's `default_tab_icon`, which is three-valued: absent inherits the
/// user configuration, `null` means new tabs get no icon, and a name selects
/// one.
#[derive(Clone, Copy, Debug, PartialEq, Eq, Structural)]
pub enum ProjectTabIcon {
    Inherit,
    NoIcon,
    Icon(IconName),
}

impl ProjectTabIcon {
    /// The icon, where there is one.
    pub fn icon(self) -> (result: Option<IconName>)
        ensures
            result == match self {
                ProjectTabIcon::Icon(icon) => Some(icon),
                _ => None,
            },
    {
        match self {
            ProjectTabIcon::Icon(icon) => Some(icon),
            ProjectTabIcon::Inherit | ProjectTabIcon::NoIcon => None,
        }
    }

    /// How the choice is shown. `name` is how the icon is.
    pub fn label(self, name: String) -> (result: String)
        ensures
            result@ == match self {
                ProjectTabIcon::Inherit => "Inherit"@,
                ProjectTabIcon::NoIcon => "No icon"@,
                ProjectTabIcon::Icon(_) => name@,
            },
    {
        match self {
            ProjectTabIcon::Inherit => "Inherit".to_owned(),
            ProjectTabIcon::NoIcon => "No icon".to_owned(),
            ProjectTabIcon::Icon(_) => name,
        }
    }
}

/// A name that is shown for a field that is left to the user configuration.
pub const PROJECT_INHERIT_LABEL: &'static str = "Inherit";

/// A variable as the form shows it.
#[derive(Debug, PartialEq, Eq)]
pub struct ProjectEnvironmentForm {
    pub name: String,
    pub value: String,
}

/// What the form's pane templates come to.
#[derive(Debug, PartialEq, Eq)]
pub struct TemplatesForm {
    /// Their names, the inherited ones among them.
    pub names: Vec<String>,
    /// The names that were changed since the form was opened, with what they
    /// are now.
    pub renamed: Vec<(String, String)>,
    /// Why they cannot be written, if they cannot.
    pub error: Option<String>,
    /// What the file says of them.
    pub entries: Vec<(String, Json)>,
}

/// The form.
#[derive(Debug, PartialEq, Eq)]
pub struct ProjectForm {
    pub theme: Option<String>,
    pub dark_theme: Option<String>,
    /// A project-relative directory. Empty means the project root.
    pub working_directory: String,
    pub default_profile: Option<String>,
    pub default_tab_icon: ProjectTabIcon,
    /// The name of the icon, where one is chosen.
    pub default_tab_icon_name: String,
    /// A number from 0 to 1, as JSON.
    pub inactive_pane_opacity: Option<Json>,
    pub environment: Vec<ProjectEnvironmentForm>,
    pub initial_split: Option<String>,
    pub profiles: Vec<ProjectProfileForm>,
    pub pane_templates: TemplatesForm,
    /// The user configuration's profile names. A profile row without a program
    /// is an override matched against these by name.
    pub inherited_profiles: Vec<String>,
}

/// Texts with the keys that they are listed by.
pub open spec fn with_lower_keys(list: Seq<Seq<char>>) -> Seq<(Seq<char>, Seq<char>)> {
    list.map_values(|text: Seq<char>| (lowercase_text(text), text))
}

/// The texts among items.
pub open spec fn values_in(items: Seq<(Seq<char>, Seq<char>)>) -> Seq<Seq<char>> {
    items.map_values(|item: (Seq<char>, Seq<char>)| item.1)
}

/// Texts in the order of their lower case.
pub open spec fn by_lowercase(list: Seq<Seq<char>>) -> Seq<Seq<char>> {
    values_in(ordered(with_lower_keys(list)))
}

fn sort_by_lowercase(list: &Vec<String>) -> (result: Vec<String>)
    ensures
        texts(result@) == by_lowercase(texts(list@)),
{
    let ghost all = texts(list@);
    let ghost wanted = with_lower_keys(all);
    let mut items: Vec<(String, String)> = Vec::new();
    let mut index: usize = 0;
    while index < list.len()
        invariant
            index <= list@.len(),
            all == texts(list@),
            wanted == with_lower_keys(all),
            keyed(items@) == wanted.take(index as int),
        decreases list@.len() - index,
    {
        let ghost before = keyed(items@);
        let text = list[index].clone();
        let key = lower_text(text.as_str());
        items.push((key, text));
        proof {
            assert(keyed(items@) =~= before.push((key@, text@)));
            assert(wanted.take(index + 1) =~= wanted.take(index as int).push((key@, text@)));
        }
        index = index + 1;
    }
    proof {
        assert(wanted.take(index as int) == wanted);
    }
    let sorted = sort_by_key(&items);
    let ghost shown = keyed(sorted@);
    let mut result: Vec<String> = Vec::new();
    index = 0;
    while index < sorted.len()
        invariant
            index <= sorted@.len(),
            shown == keyed(sorted@),
            texts(result@) == values_in(shown).take(index as int),
        decreases sorted@.len() - index,
    {
        let ghost before = result@;
        let text = sorted[index].1.clone();
        result.push(text);
        proof {
            assert(texts(result@) =~= texts(before).push(text@));
            assert(shown[index as int] == (sorted@[index as int].0@, sorted@[index as int].1@));
            assert(values_in(shown).take(index + 1) =~= values_in(shown).take(index as int).push(
                text@,
            ));
        }
        index = index + 1;
    }
    proof {
        assert(values_in(shown).take(index as int) == values_in(shown));
    }
    result
}

/// Whether two texts count as repeated.
pub open spec fn repeats(left: Seq<char>, right: Seq<char>, ignoring_case: bool) -> bool {
    if ignoring_case {
        same_ignoring_case(left, right)
    } else {
        left == right
    }
}

/// Texts without those that repeat the one before them.
pub open spec fn without_adjacent(list: Seq<Seq<char>>, ignoring_case: bool) -> Seq<Seq<char>>
    decreases list.len(),
{
    if list.len() == 0 {
        Seq::empty()
    } else {
        let before = without_adjacent(list.drop_last(), ignoring_case);
        if before.len() > 0 && repeats(before.last(), list.last(), ignoring_case) {
            before
        } else {
            before.push(list.last())
        }
    }
}

fn drop_adjacent(list: &Vec<String>, ignoring_case: bool) -> (result: Vec<String>)
    ensures
        texts(result@) == without_adjacent(texts(list@), ignoring_case),
{
    let ghost all = texts(list@);
    let mut result: Vec<String> = Vec::new();
    let mut index: usize = 0;
    proof {
        assert(all.take(0) == Seq::<Seq<char>>::empty());
        assert(texts(result@) =~= Seq::<Seq<char>>::empty());
    }
    while index < list.len()
        invariant
            index <= list@.len(),
            all == texts(list@),
            texts(result@) == without_adjacent(all.take(index as int), ignoring_case),
        decreases list@.len() - index,
    {
        proof {
            let longer = all.take(index + 1);
            assert(longer.drop_last() == all.take(index as int));
            assert(longer.last() == list@[index as int]@);
        }
        let text = list[index].as_str();
        let count: usize = result.len();
        proof {
            assert(texts(result@).len() == count);
            if count > 0 {
                assert(texts(result@).last() == result@[count - 1]@);
            }
        }
        let repeated = count > 0 && if ignoring_case {
            eq_ignore_ascii_case(result[count - 1].as_str(), text)
        } else {
            same_text(result[count - 1].as_str(), text)
        };
        if !repeated {
            let ghost before = result@;
            result.push(text.to_owned());
            proof {
                assert(texts(result@) =~= texts(before).push(text@));
            }
        }
        index = index + 1;
    }
    proof {
        assert(all.take(index as int) == all);
    }
    result
}

/// The texts that are not blank.
pub open spec fn not_blank(list: Seq<Seq<char>>) -> Seq<Seq<char>>
    decreases list.len(),
{
    if list.len() == 0 {
        Seq::empty()
    } else {
        let before = not_blank(list.drop_last());
        if trimmed(list.last()).len() == 0 {
            before
        } else {
            before.push(list.last())
        }
    }
}

fn drop_blank(list: &Vec<String>) -> (result: Vec<String>)
    ensures
        texts(result@) == not_blank(texts(list@)),
{
    let ghost all = texts(list@);
    let mut result: Vec<String> = Vec::new();
    let mut index: usize = 0;
    proof {
        assert(all.take(0) == Seq::<Seq<char>>::empty());
        assert(texts(result@) =~= Seq::<Seq<char>>::empty());
    }
    while index < list.len()
        invariant
            index <= list@.len(),
            all == texts(list@),
            texts(result@) == not_blank(all.take(index as int)),
        decreases list@.len() - index,
    {
        proof {
            let longer = all.take(index + 1);
            assert(longer.drop_last() == all.take(index as int));
            assert(longer.last() == list@[index as int]@);
        }
        if !trim(list[index].as_str()).as_str().is_empty() {
            let ghost before = result@;
            result.push(list[index].clone());
            proof {
                assert(texts(result@) =~= texts(before).push(list@[index as int]@));
            }
        }
        index = index + 1;
    }
    proof {
        assert(all.take(index as int) == all);
    }
    result
}

/// The profile names that a project inherits, as they are listed.
pub fn list_inherited_profiles(names: &Vec<String>) -> (result: Vec<String>)
    ensures
        texts(result@) == without_adjacent(by_lowercase(texts(names@)), false),
{
    let sorted = sort_by_lowercase(names);
    drop_adjacent(&sorted, false)
}

/// What a name was changed to, if it was.
pub open spec fn renamed_to(renamed: Seq<(String, String)>, name: Seq<char>) -> Option<Seq<char>>
    decreases renamed.len(),
{
    if renamed.len() == 0 {
        None
    } else if renamed.first().0@ == name {
        Some(renamed.first().1@)
    } else {
        renamed_to(renamed.drop_first(), name)
    }
}

impl TemplatesForm {
    /// What a name was changed to, if it was.
    pub fn current_name_for(&self, name: &str) -> (result: Option<String>)
        ensures
            optional_text(result) == renamed_to(self.renamed@, name@),
    {
        let mut index: usize = 0;
        proof {
            assert(self.renamed@.skip(0) == self.renamed@);
        }
        while index < self.renamed.len()
            invariant
                index <= self.renamed@.len(),
                renamed_to(self.renamed@, name@) == renamed_to(
                    self.renamed@.skip(index as int),
                    name@,
                ),
            decreases self.renamed@.len() - index,
        {
            proof {
                assert(self.renamed@.skip(index as int).first() == self.renamed@[index as int]);
                assert(self.renamed@.skip(index as int).drop_first() == self.renamed@.skip(
                    index + 1,
                ));
            }
            if same_text(self.renamed[index].0.as_str(), name) {
                return Some(self.renamed[index].1.clone());
            }
            index = index + 1;
        }
        None
    }
}

/// The names of the form's profiles.
pub open spec fn form_names(profiles: Seq<ProjectProfileForm>) -> Seq<Seq<char>> {
    profiles.map_values(|profile: ProjectProfileForm| profile.name@)
}

impl ProjectForm {
    /// The names that `initial_split` can have.
    pub open spec fn split_names(self) -> Seq<Seq<char>> {
        without_adjacent(by_lowercase(not_blank(texts(self.pane_templates.names@))), false)
    }

    /// Every pane template the project can name in `initial_split`: the
    /// inherited ones plus its own.
    pub fn template_names(&self) -> (result: Vec<String>)
        ensures
            texts(result@) == self.split_names(),
    {
        let named = drop_blank(&self.pane_templates.names);
        let sorted = sort_by_lowercase(&named);
        drop_adjacent(&sorted, false)
    }

    /// The split that the file names.
    pub open spec fn split_name(self) -> Option<Seq<char>> {
        match self.initial_split {
            Some(name) => match renamed_to(self.pane_templates.renamed@, name@) {
                Some(current) => Some(current),
                None => Some(name@),
            },
            None => None,
        }
    }

    /// `initial_split` as it should be written out: renaming the template it
    /// names moves the reference with it.
    pub fn resolved_initial_split(&self) -> (result: Option<String>)
        ensures
            optional_text(result) == self.split_name(),
    {
        match &self.initial_split {
            Some(name) => match self.pane_templates.current_name_for(name.as_str()) {
                Some(current) => Some(current),
                None => Some(name.clone()),
            },
            None => None,
        }
    }

    /// Profile names `default_profile` may name: the user configuration's, plus
    /// the ones the form is currently adding.
    pub fn profile_options(&self) -> (result: Vec<String>)
        ensures
            texts(result@) == without_adjacent(
                by_lowercase(
                    texts(self.inherited_profiles@) + not_blank(form_names(self.profiles@)),
                ),
                true,
            ),
    {
        let mut added: Vec<String> = Vec::new();
        let ghost names = form_names(self.profiles@);
        let mut index: usize = 0;
        while index < self.profiles.len()
            invariant
                index <= self.profiles@.len(),
                names == form_names(self.profiles@),
                texts(added@) == names.take(index as int),
            decreases self.profiles@.len() - index,
        {
            let ghost before = added@;
            let name = self.profiles[index].name.clone();
            added.push(name);
            proof {
                assert(texts(added@) =~= texts(before).push(name@));
                assert(names.take(index + 1) =~= names.take(index as int).push(name@));
            }
            index = index + 1;
        }
        proof {
            assert(names.take(index as int) == names);
        }
        let mut filled_names = drop_blank(&added);
        let mut all = clone_texts(&self.inherited_profiles);
        let ghost first = all@;
        let ghost second = filled_names@;
        all.append(&mut filled_names);
        proof {
            assert(texts(all@) =~= texts(first) + texts(second));
        }
        let sorted = sort_by_lowercase(&all);
        drop_adjacent(&sorted, true)
    }
}

/// What is wrong with the form.
#[derive(Debug, PartialEq, Eq)]
pub enum FormError {
    /// The working directory leads out of the project.
    Directory,
    Variable(EnvironmentEntryError),
    RepeatedVariable(String),
    BlankProfile,
    RepeatedProfile(String),
    ArgumentsWithoutProgram(String),
    MissingProgram(String),
    UnknownSplit(String),
    Templates(String),
}

/// What is wrong with the form, as it views.
pub ghost enum FormFault {
    Directory,
    Variable(EnvironmentEntryError),
    RepeatedVariable(Seq<char>),
    BlankProfile,
    RepeatedProfile(Seq<char>),
    ArgumentsWithoutProgram(Seq<char>),
    MissingProgram(Seq<char>),
    UnknownSplit(Seq<char>),
    Templates(Seq<char>),
}

impl FormError {
    pub open spec fn view(self) -> FormFault {
        match self {
            FormError::Directory => FormFault::Directory,
            FormError::Variable(error) => FormFault::Variable(error),
            FormError::RepeatedVariable(name) => FormFault::RepeatedVariable(name@),
            FormError::BlankProfile => FormFault::BlankProfile,
            FormError::RepeatedProfile(name) => FormFault::RepeatedProfile(name@),
            FormError::ArgumentsWithoutProgram(name) => FormFault::ArgumentsWithoutProgram(name@),
            FormError::MissingProgram(name) => FormFault::MissingProgram(name@),
            FormError::UnknownSplit(name) => FormFault::UnknownSplit(name@),
            FormError::Templates(error) => FormFault::Templates(error@),
        }
    }
}

/// Whether a name is that of an earlier variable, up to case.
pub open spec fn repeats_variable(entries: Seq<ProjectEnvironmentForm>, name: Seq<char>) -> bool {
    exists|i: int| 0 <= i < entries.len() && same_ignoring_case((#[trigger] entries[i]).name@, name)
}

/// The first thing that is wrong with the variables.
pub open spec fn environment_fault(entries: Seq<ProjectEnvironmentForm>) -> Option<FormFault>
    decreases entries.len(),
{
    if entries.len() == 0 {
        None
    } else {
        match environment_fault(entries.drop_last()) {
            Some(fault) => Some(fault),
            None => {
                let entry = entries.last();
                match environment_entry_error(entry.name@, entry.value@) {
                    Some(error) => Some(FormFault::Variable(error)),
                    None => if repeats_variable(entries.drop_last(), entry.name@) {
                        Some(FormFault::RepeatedVariable(entry.name@))
                    } else {
                        None
                    },
                }
            },
        }
    }
}

proof fn lemma_environment_fault(entries: Seq<ProjectEnvironmentForm>, count: int)
    requires
        0 <= count <= entries.len(),
        environment_fault(entries.take(count)) is Some,
    ensures
        environment_fault(entries) == environment_fault(entries.take(count)),
    decreases entries.len(),
{
    if count < entries.len() {
        assert(entries.drop_last().take(count) == entries.take(count));
        lemma_environment_fault(entries.drop_last(), count);
    } else {
        assert(entries.take(count) == entries);
    }
}

fn find_environment_fault(entries: &Vec<ProjectEnvironmentForm>) -> (result: Option<FormError>)
    ensures
        match result {
            Some(error) => environment_fault(entries@) == Some(error.view()),
            None => environment_fault(entries@) is None,
        },
{
    let mut index: usize = 0;
    proof {
        assert(entries@.take(0) == Seq::<ProjectEnvironmentForm>::empty());
    }
    while index < entries.len()
        invariant
            index <= entries@.len(),
            environment_fault(entries@.take(index as int)) is None,
        decreases entries@.len() - index,
    {
        let entry = &entries[index];
        let ghost shorter = entries@.take(index as int);
        let ghost longer = entries@.take(index + 1);
        proof {
            assert(longer.drop_last() == shorter);
            assert(longer.last() == entries@[index as int]);
        }
        if let Err(error) = validate_environment_entry(entry.name.as_str(), entry.value.as_str()) {
            proof {
                lemma_environment_fault(entries@, index + 1);
            }
            return Some(FormError::Variable(error));
        }
        let mut earlier: usize = 0;
        while earlier < index
            invariant
                earlier <= index < entries@.len(),
                shorter == entries@.take(index as int),
                longer == entries@.take(index + 1),
                longer.drop_last() == shorter,
                longer.last() == entries@[index as int],
                *entry == entries@[index as int],
                environment_fault(shorter) is None,
                environment_entry_error(entry.name@, entry.value@) is None,
                forall|i: int|
                    0 <= i < earlier ==> !same_ignoring_case(
                        (#[trigger] shorter[i]).name@,
                        entry.name@,
                    ),
            decreases index - earlier,
        {
            proof {
                assert(shorter[earlier as int] == entries@[earlier as int]);
            }
            if eq_ignore_ascii_case(entries[earlier].name.as_str(), entry.name.as_str()) {
                proof {
                    assert(same_ignoring_case(shorter[earlier as int].name@, entry.name@));
                    assert(repeats_variable(shorter, entry.name@));
                    lemma_environment_fault(entries@, index + 1);
                }
                return Some(FormError::RepeatedVariable(entry.name.clone()));
            }
            earlier = earlier + 1;
        }
        proof {
            assert(!repeats_variable(shorter, entry.name@));
        }
        index = index + 1;
    }
    proof {
        assert(entries@.take(index as int) == entries@);
    }
    None
}

/// Whether a name is that of an earlier profile, up to case.
pub open spec fn repeats_profile(profiles: Seq<ProjectProfileForm>, name: Seq<char>) -> bool {
    exists|i: int|
        0 <= i < profiles.len() && same_ignoring_case(trimmed((#[trigger] profiles[i]).name@), name)
}

/// Whether a name is among some, up to case.
pub open spec fn is_inherited(names: Seq<String>, name: Seq<char>) -> bool {
    exists|i: int| 0 <= i < names.len() && same_ignoring_case((#[trigger] names[i])@, name)
}

/// The first thing that is wrong with the profiles.
pub open spec fn profiles_fault(
    profiles: Seq<ProjectProfileForm>,
    inherited: Seq<String>,
) -> Option<FormFault>
    decreases profiles.len(),
{
    if profiles.len() == 0 {
        None
    } else {
        match profiles_fault(profiles.drop_last(), inherited) {
            Some(fault) => Some(fault),
            None => {
                let profile = profiles.last();
                let name = trimmed(profile.name@);
                if name.len() == 0 {
                    Some(FormFault::BlankProfile)
                } else if repeats_profile(profiles.drop_last(), name) {
                    Some(FormFault::RepeatedProfile(name))
                } else if filled(profile.program@) is None && arguments_in(
                    profile.arguments@,
                ).len() > 0 {
                    Some(FormFault::ArgumentsWithoutProgram(name))
                } else if filled(profile.program@) is None && !is_inherited(inherited, name) {
                    Some(FormFault::MissingProgram(name))
                } else {
                    None
                }
            },
        }
    }
}

proof fn lemma_profiles_fault(
    profiles: Seq<ProjectProfileForm>,
    inherited: Seq<String>,
    count: int,
)
    requires
        0 <= count <= profiles.len(),
        profiles_fault(profiles.take(count), inherited) is Some,
    ensures
        profiles_fault(profiles, inherited) == profiles_fault(profiles.take(count), inherited),
    decreases profiles.len(),
{
    if count < profiles.len() {
        assert(profiles.drop_last().take(count) == profiles.take(count));
        lemma_profiles_fault(profiles.drop_last(), inherited, count);
    } else {
        assert(profiles.take(count) == profiles);
    }
}

fn inherits(names: &Vec<String>, name: &str) -> (result: bool)
    ensures
        result == is_inherited(names@, name@),
{
    let mut index: usize = 0;
    while index < names.len()
        invariant
            index <= names@.len(),
            forall|i: int|
                0 <= i < index ==> !same_ignoring_case((#[trigger] names@[i])@, name@),
        decreases names@.len() - index,
    {
        if eq_ignore_ascii_case(names[index].as_str(), name) {
            return true;
        }
        index = index + 1;
    }
    false
}

fn has_earlier_profile(profiles: &Vec<ProjectProfileForm>, count: usize, name: &str) -> (result: bool)
    requires
        count <= profiles@.len(),
    ensures
        result == repeats_profile(profiles@.take(count as int), name@),
{
    let ghost shorter = profiles@.take(count as int);
    let mut index: usize = 0;
    while index < count
        invariant
            index <= count <= profiles@.len(),
            shorter == profiles@.take(count as int),
            forall|i: int|
                0 <= i < index ==> !same_ignoring_case(
                    trimmed((#[trigger] shorter[i]).name@),
                    name@,
                ),
        decreases count - index,
    {
        let other = trim(profiles[index].name.as_str());
        proof {
            assert(shorter[index as int] == profiles@[index as int]);
        }
        if eq_ignore_ascii_case(other.as_str(), name) {
            return true;
        }
        index = index + 1;
    }
    false
}

fn find_profiles_fault(profiles: &Vec<ProjectProfileForm>, inherited: &Vec<String>) -> (result:
    Option<FormError>)
    ensures
        match result {
            Some(error) => profiles_fault(profiles@, inherited@) == Some(error.view()),
            None => profiles_fault(profiles@, inherited@) is None,
        },
{
    let mut index: usize = 0;
    proof {
        assert(profiles@.take(0) == Seq::<ProjectProfileForm>::empty());
    }
    while index < profiles.len()
        invariant
            index <= profiles@.len(),
            profiles_fault(profiles@.take(index as int), inherited@) is None,
        decreases profiles@.len() - index,
    {
        let profile = &profiles[index];
        proof {
            let longer = profiles@.take(index + 1);
            assert(longer.drop_last() == profiles@.take(index as int));
            assert(longer.last() == profiles@[index as int]);
        }
        let name = trim(profile.name.as_str());
        let blank_program = non_empty(profile.program.as_str()).is_none();
        let fault = if name.as_str().is_empty() {
            Some(FormError::BlankProfile)
        } else if has_earlier_profile(profiles, index, name.as_str()) {
            Some(FormError::RepeatedProfile(name))
        } else {
            let list = arguments(profile.arguments.as_str());
            proof {
                assert(texts(list@).len() == list@.len());
            }
            if blank_program && list.len() > 0 {
                Some(FormError::ArgumentsWithoutProgram(name))
            } else if blank_program && !inherits(inherited, name.as_str()) {
                Some(FormError::MissingProgram(name))
            } else {
                None
            }
        };
        if fault.is_some() {
            proof {
                lemma_profiles_fault(profiles@, inherited@, index + 1);
            }
            return fault;
        }
        index = index + 1;
    }
    proof {
        assert(profiles@.take(index as int) == profiles@);
    }
    None
}

impl ProjectForm {
    /// The first thing that is wrong with the form.
    pub open spec fn fault(self, windows: bool) -> Option<FormFault> {
        if filled(self.working_directory@) matches Some(directory) && !stays_inside(
            directory,
            windows,
        ) {
            Some(FormFault::Directory)
        } else if environment_fault(self.environment@) is Some {
            environment_fault(self.environment@)
        } else if profiles_fault(self.profiles@, self.inherited_profiles@) is Some {
            profiles_fault(self.profiles@, self.inherited_profiles@)
        } else if self.split_name() matches Some(name) && !self.split_names().contains(name) {
            Some(FormFault::UnknownSplit(self.split_name()->0))
        } else {
            match self.pane_templates.error {
                Some(error) => Some(FormFault::Templates(error@)),
                None => None,
            }
        }
    }

    /// Checks the form, without a look at what is on disk.
    pub fn validate(&self, windows: bool) -> (result: Result<(), FormError>)
        ensures
            match result {
                Ok(_) => self.fault(windows) is None,
                Err(error) => self.fault(windows) == Some(error.view()),
            },
    {
        if let Some(directory) = non_empty(self.working_directory.as_str()) {
            if !crate::project::config::is_inside(directory.as_str(), windows) {
                return Err(FormError::Directory);
            }
        }
        if let Some(error) = find_environment_fault(&self.environment) {
            return Err(error);
        }
        if let Some(error) = find_profiles_fault(&self.profiles, &self.inherited_profiles) {
            return Err(error);
        }
        if let Some(name) = self.resolved_initial_split() {
            let names = self.template_names();
            let known = list_contains(&names, name.as_str());
            proof {
                assert(known == texts(names@).contains(name@));
            }
            if !known {
                return Err(FormError::UnknownSplit(name));
            }
        }
        match &self.pane_templates.error {
            Some(error) => Err(FormError::Templates(error.clone())),
            None => Ok(()),
        }
    }
}

/// What the file says of the variables.
pub open spec fn variable_entries(entries: Seq<ProjectEnvironmentForm>) -> Seq<
    (Seq<char>, JsonView),
> {
    entries.map_values(
        |entry: ProjectEnvironmentForm| (entry.name@, JsonView::Text(entry.value@)),
    )
}

/// What the file says of the profiles.
pub open spec fn profile_values(profiles: Seq<ProjectProfileForm>) -> Seq<JsonView> {
    profiles.map_values(
        |profile: ProjectProfileForm| JsonView::Object(profile_entries(profile.view())),
    )
}

/// Entries with one more, where there is one.
pub open spec fn with_value(
    entries: Seq<(Seq<char>, JsonView)>,
    key: Seq<char>,
    value: Option<JsonView>,
) -> Seq<(Seq<char>, JsonView)> {
    match value {
        Some(value) => entries.push((key, value)),
        None => entries,
    }
}

impl ProjectForm {
    /// What the file says of the tab icon.
    pub open spec fn icon_value(self) -> Option<JsonView> {
        match self.default_tab_icon {
            ProjectTabIcon::Inherit => None,
            ProjectTabIcon::NoIcon => Some(JsonView::Null),
            ProjectTabIcon::Icon(_) => Some(JsonView::Text(self.default_tab_icon_name@)),
        }
    }

    /// What the file says.
    pub open spec fn file_entries(self) -> Seq<(Seq<char>, JsonView)> {
        let none = Seq::<(Seq<char>, JsonView)>::empty();
        let themed = with_text(
            with_text(none, "theme"@, optional_text(self.theme)),
            "dark_theme"@,
            optional_text(self.dark_theme),
        );
        let placed = with_text(themed, "working_directory"@, filled(self.working_directory@));
        let profiled = with_text(placed, "default_profile"@, optional_text(self.default_profile));
        let marked = with_value(profiled, "default_tab_icon"@, self.icon_value());
        let faded = with_value(
            marked,
            "inactive_pane_opacity"@,
            match self.inactive_pane_opacity {
                Some(opacity) => Some(opacity.view()),
                None => None,
            },
        );
        let set_up = with_value(
            faded,
            "env"@,
            if self.environment@.len() > 0 {
                Some(JsonView::Object(variable_entries(self.environment@)))
            } else {
                None
            },
        );
        let parted = with_text(set_up, "initial_split"@, self.split_name());
        let arranged = with_value(
            parted,
            "pane_split_templates"@,
            if self.pane_templates.entries@.len() > 0 {
                Some(JsonView::Object(entries_view(self.pane_templates.entries@)))
            } else {
                None
            },
        );
        with_value(
            arranged,
            "profiles"@,
            if self.profiles@.len() > 0 {
                Some(JsonView::Array(profile_values(self.profiles@)))
            } else {
                None
            },
        )
    }
}

fn push_value(entries: &mut Vec<(String, Json)>, key: &str, value: Json)
    ensures
        entries_view(final(entries)@) == entries_view(old(entries)@).push((key@, value.view())),
{
    let ghost before = entries_view(entries@);
    entries.push((key.to_owned(), value));
    proof {
        assert(entries_view(entries@) =~= before.push((key@, value.view())));
    }
}

fn push_optional_text(entries: &mut Vec<(String, Json)>, key: &str, text: Option<String>)
    ensures
        entries_view(final(entries)@) == with_text(
            entries_view(old(entries)@),
            key@,
            optional_text(text),
        ),
{
    if let Some(text) = text {
        push_value(entries, key, Json::Text(text));
    }
}

fn write_variables(entries: &Vec<ProjectEnvironmentForm>) -> (result: Json)
    ensures
        result.view() == JsonView::Object(variable_entries(entries@)),
{
    let ghost wanted = variable_entries(entries@);
    let mut values: Vec<(String, Json)> = Vec::new();
    let mut index: usize = 0;
    while index < entries.len()
        invariant
            index <= entries@.len(),
            wanted == variable_entries(entries@),
            entries_view(values@) == wanted.take(index as int),
        decreases entries@.len() - index,
    {
        push_value(
            &mut values,
            entries[index].name.as_str(),
            Json::Text(entries[index].value.clone()),
        );
        proof {
            assert(wanted.take(index + 1) =~= wanted.take(index as int).push(
                wanted[index as int],
            ));
        }
        index = index + 1;
    }
    proof {
        assert(wanted.take(index as int) == wanted);
        lemma_object_view(values);
    }
    Json::Object(values)
}

fn write_profiles(profiles: &Vec<ProjectProfileForm>) -> (result: Json)
    ensures
        result.view() == JsonView::Array(profile_values(profiles@)),
{
    let ghost wanted = profile_values(profiles@);
    let mut values: Vec<Json> = Vec::new();
    let mut index: usize = 0;
    while index < profiles.len()
        invariant
            index <= profiles@.len(),
            wanted == profile_values(profiles@),
            items_view(values@) == wanted.take(index as int),
        decreases profiles@.len() - index,
    {
        let ghost before = items_view(values@);
        let value = profile_value(&profiles[index]);
        values.push(value);
        proof {
            assert(items_view(values@) =~= before.push(value.view()));
            assert(wanted.take(index + 1) =~= wanted.take(index as int).push(
                wanted[index as int],
            ));
        }
        index = index + 1;
    }
    proof {
        assert(wanted.take(index as int) == wanted);
        lemma_array_view(values);
    }
    Json::Array(values)
}

/// Why the form is not written.
#[derive(Debug, PartialEq, Eq)]
pub enum FormWriteError {
    Form(FormError),
    NotPrinted,
}

impl ProjectForm {
    /// The text of the file.
    pub fn to_json(&self, windows: bool) -> (result: Result<String, FormWriteError>)
        ensures
            match self.fault(windows) {
                Some(fault) => result matches Err(FormWriteError::Form(error)) && error.view()
                    == fault,
                None => match text_of_json(JsonView::Object(self.file_entries())) {
                    Some(text) => result matches Ok(written) && written@ == text,
                    None => result == Err::<String, FormWriteError>(FormWriteError::NotPrinted),
                },
            },
    {
        if let Err(error) = self.validate(windows) {
            return Err(FormWriteError::Form(error));
        }
        let mut root: Vec<(String, Json)> = Vec::new();
        proof {
            assert(entries_view(root@) =~= Seq::<(Seq<char>, JsonView)>::empty());
        }
        push_optional_text(&mut root, "theme", clone_optional(&self.theme));
        push_optional_text(&mut root, "dark_theme", clone_optional(&self.dark_theme));
        push_optional_text(
            &mut root,
            "working_directory",
            non_empty(self.working_directory.as_str()),
        );
        push_optional_text(&mut root, "default_profile", clone_optional(&self.default_profile));
        match self.default_tab_icon {
            ProjectTabIcon::Inherit => {},
            ProjectTabIcon::NoIcon => {
                push_value(&mut root, "default_tab_icon", Json::Null);
            },
            ProjectTabIcon::Icon(_) => {
                push_value(
                    &mut root,
                    "default_tab_icon",
                    Json::Text(self.default_tab_icon_name.clone()),
                );
            },
        }
        if let Some(opacity) = &self.inactive_pane_opacity {
            push_value(&mut root, "inactive_pane_opacity", opacity.duplicate());
        }
        if self.environment.len() > 0 {
            push_value(&mut root, "env", write_variables(&self.environment));
        }
        push_optional_text(&mut root, "initial_split", self.resolved_initial_split());
        if self.pane_templates.entries.len() > 0 {
            let entries = crate::json::copy_entries(&self.pane_templates.entries);
            proof {
                lemma_object_view(entries);
            }
            push_value(&mut root, "pane_split_templates", Json::Object(entries));
        }
        if self.profiles.len() > 0 {
            push_value(&mut root, "profiles", write_profiles(&self.profiles));
        }
        proof {
            lemma_object_view(root);
            assert(entries_view(root@) == self.file_entries());
        }
        match print(Json::Object(root)) {
            Some(text) => Ok(text),
            None => Err(FormWriteError::NotPrinted),
        }
    }
}

/// Why a file cannot be shown in the form.
#[derive(Debug, PartialEq, Eq)]
pub enum FormReadError {
    NotJson,
    NotAnObject,
    UnknownField(String),
    /// The fields that the configuration shares could not be laid over it, or
    /// the templates could not be read.
    Overlay(String),
    IconNotAName,
    UnknownIcon(String),
    OpacityNotANumber,
    OpacityOutOfRange,
    EnvironmentNotAnObject,
    ProfilesNotAList,
    Profile(ProfileFormError),
}

/// The variables of a file as they are listed, with what is no text left
/// empty.
pub open spec fn shown_variables(entries: Seq<(Seq<char>, JsonView)>) -> Seq<
    (Seq<char>, Seq<char>),
> {
    entries.map_values(
        |entry: (Seq<char>, JsonView)|
            (
                entry.0,
                match entry.1 {
                    JsonView::Text(text) => text,
                    _ => Seq::empty(),
                },
            ),
    )
}

/// Variables of the form as they view.
pub open spec fn variables_view(entries: Seq<ProjectEnvironmentForm>) -> Seq<
    (Seq<char>, Seq<char>),
> {
    entries.map_values(|entry: ProjectEnvironmentForm| (entry.name@, entry.value@))
}

fn read_variables(entries: &Vec<(String, Json)>) -> (result: Vec<ProjectEnvironmentForm>)
    ensures
        variables_view(result@) == ordered(shown_variables(entries_view(entries@))),
{
    let ghost wanted = shown_variables(entries_view(entries@));
    let mut items: Vec<(String, String)> = Vec::new();
    let mut index: usize = 0;
    while index < entries.len()
        invariant
            index <= entries@.len(),
            wanted == shown_variables(entries_view(entries@)),
            keyed(items@) == wanted.take(index as int),
        decreases entries@.len() - index,
    {
        let ghost before = keyed(items@);
        let name = entries[index].0.clone();
        let value = match &entries[index].1 {
            Json::Text(text) => text.clone(),
            _ => String::new(),
        };
        items.push((name, value));
        proof {
            assert(keyed(items@) =~= before.push((name@, value@)));
            assert(entries_view(entries@)[index as int] == (
                entries@[index as int].0@,
                entries@[index as int].1.view(),
            ));
            assert(wanted[index as int] == (name@, value@)) by {
                assert(value@ =~= wanted[index as int].1);
            }
            assert(wanted.take(index + 1) =~= wanted.take(index as int).push((name@, value@)));
        }
        index = index + 1;
    }
    proof {
        assert(wanted.take(index as int) == wanted);
    }
    let sorted = sort_by_key(&items);
    let ghost shown = keyed(sorted@);
    let mut result: Vec<ProjectEnvironmentForm> = Vec::new();
    index = 0;
    while index < sorted.len()
        invariant
            index <= sorted@.len(),
            shown == keyed(sorted@),
            variables_view(result@) == shown.take(index as int),
        decreases sorted@.len() - index,
    {
        let ghost before = variables_view(result@);
        let entry = ProjectEnvironmentForm {
            name: sorted[index].0.clone(),
            value: sorted[index].1.clone(),
        };
        result.push(entry);
        proof {
            assert(variables_view(result@) =~= before.push((entry.name@, entry.value@)));
            assert(shown.take(index + 1) =~= shown.take(index as int).push(
                (entry.name@, entry.value@),
            ));
        }
        index = index + 1;
    }
    proof {
        assert(shown.take(index as int) == shown);
    }
    result
}

/// The profiles of a file as the form shows them, as far as they are
/// acceptable: `None` where one is not.
pub open spec fn shown_profiles(items: Seq<JsonView>) -> Option<Seq<ProfileFormView>>
    decreases items.len(),
{
    if items.len() == 0 {
        Some(Seq::empty())
    } else {
        match (shown_profiles(items.drop_last()), profile_form(items.last())) {
            (Some(before), Some(form)) => Some(before.push(form)),
            _ => None,
        }
    }
}

/// Profiles of the form as they view.
pub open spec fn forms_view(profiles: Seq<ProjectProfileForm>) -> Seq<ProfileFormView> {
    profiles.map_values(|profile: ProjectProfileForm| profile.view())
}

proof fn lemma_profiles_stop(items: Seq<JsonView>, count: int)
    requires
        0 <= count <= items.len(),
        shown_profiles(items.take(count)) is None,
    ensures
        shown_profiles(items) is None,
    decreases items.len(),
{
    if count < items.len() {
        assert(items.drop_last().take(count) == items.take(count));
        lemma_profiles_stop(items.drop_last(), count);
    } else {
        assert(items.take(count) == items);
    }
}

/// Whether an error is what the first profile gives rise to that is not
/// acceptable.
pub open spec fn is_first_profile_error(items: Seq<JsonView>, error: ProfileFormError) -> bool {
    exists|i: int|
        0 <= i < items.len() && shown_profiles(items.take(i)) is Some && profile_form(items[i])
            is None && #[trigger] profile_form_error(items[i], error)
}

fn read_profiles(items: &Vec<Json>) -> (result: Result<Vec<ProjectProfileForm>, ProfileFormError>)
    ensures
        match result {
            Ok(profiles) => shown_profiles(items_view(items@)) == Some(forms_view(profiles@)),
            Err(error) => shown_profiles(items_view(items@)) is None && is_first_profile_error(
                items_view(items@),
                error,
            ),
        },
{
    let ghost all = items_view(items@);
    let mut profiles: Vec<ProjectProfileForm> = Vec::new();
    let mut index: usize = 0;
    proof {
        assert(all.take(0) == Seq::<JsonView>::empty());
        assert(forms_view(profiles@) =~= Seq::<ProfileFormView>::empty());
    }
    while index < items.len()
        invariant
            index <= items@.len(),
            all == items_view(items@),
            shown_profiles(all.take(index as int)) == Some(forms_view(profiles@)),
        decreases items@.len() - index,
    {
        proof {
            let longer = all.take(index + 1);
            assert(longer.drop_last() == all.take(index as int));
            assert(longer.last() == items@[index as int].view());
            assert(all[index as int] == items@[index as int].view());
        }
        match parse_profile_form(&items[index]) {
            Ok(profile) => {
                let ghost before = forms_view(profiles@);
                profiles.push(profile);
                proof {
                    assert(forms_view(profiles@) =~= before.push(profile.view()));
                }
            },
            Err(error) => {
                proof {
                    lemma_profiles_stop(all, index + 1);
                    assert(profile_form_error(all[index as int], error));
                }
                return Err(error);
            },
        }
        index = index + 1;
    }
    proof {
        assert(all.take(index as int) == all);
    }
    Ok(profiles)
}

/// What there is besides a file to show it in the form.
pub struct FormContext {
    /// What came of laying the file over the configuration, and of reading its
    /// templates.
    pub templates: Result<TemplatesForm, String>,
    /// The icon that the file names, where there is one of that name.
    pub icon: Option<IconName>,
    /// Whether the opacity is a number from 0 to 1.
    pub opacity_in_range: bool,
    /// The names of the user configuration's profiles.
    pub profile_names: Vec<String>,
}

/// What a file says of the tab icon.
pub open spec fn shown_icon(
    entries: Seq<(Seq<char>, JsonView)>,
    icon: Option<IconName>,
) -> Option<ProjectTabIcon> {
    match lookup(entries, "default_tab_icon"@) {
        None => Some(ProjectTabIcon::Inherit),
        Some(JsonView::Null) => Some(ProjectTabIcon::NoIcon),
        Some(JsonView::Text(_)) => match icon {
            Some(icon) => Some(ProjectTabIcon::Icon(icon)),
            None => None,
        },
        Some(_) => None,
    }
}

/// Whether a file's opacity can be shown.
pub open spec fn opacity_error(
    entries: Seq<(Seq<char>, JsonView)>,
    in_range: bool,
) -> Option<FormReadError> {
    match lookup(entries, "inactive_pane_opacity"@) {
        None => None,
        Some(JsonView::Number(_)) => if in_range {
            None
        } else {
            Some(FormReadError::OpacityOutOfRange)
        },
        Some(_) => Some(FormReadError::OpacityNotANumber),
    }
}

/// Whether a file's fields are shown in the form as they say.
pub open spec fn shown_as(
    entries: Seq<(Seq<char>, JsonView)>,
    context: FormContext,
    result: Result<ProjectForm, FormReadError>,
) -> bool {
    match first_other_key(entries, project_fields()) {
        Some(field) => result matches Err(FormReadError::UnknownField(name)) && name@ == field,
        None => match context.templates {
            Err(error) => result == Err::<ProjectForm, FormReadError>(
                FormReadError::Overlay(error),
            ),
            Ok(templates) => match shown_icon(entries, context.icon) {
                None => match lookup(entries, "default_tab_icon"@) {
                    Some(JsonView::Text(name)) => result matches Err(
                        FormReadError::UnknownIcon(unknown),
                    ) && unknown@ == name,
                    _ => result matches Err(FormReadError::IconNotAName),
                },
                Some(icon) => match opacity_error(entries, context.opacity_in_range) {
                    Some(error) => result == Err::<ProjectForm, FormReadError>(error),
                    None => match lookup(entries, "env"@) {
                        Some(JsonView::Object(_)) | None => match lookup(entries, "profiles"@) {
                            Some(JsonView::Array(items)) if shown_profiles(items) is None =>
                                result matches Err(FormReadError::Profile(error))
                                    && is_first_profile_error(items, error),
                            Some(JsonView::Array(_)) | None => result matches Ok(form)
                                && form.shows(entries, templates, icon, context.profile_names@),
                            Some(_) => result matches Err(FormReadError::ProfilesNotAList),
                        },
                        Some(_) => result matches Err(FormReadError::EnvironmentNotAnObject),
                    },
                },
            },
        },
    }
}

impl ProjectForm {
    /// Whether the form shows a file's fields.
    pub open spec fn shows(
        self,
        entries: Seq<(Seq<char>, JsonView)>,
        templates: TemplatesForm,
        icon: ProjectTabIcon,
        profile_names: Seq<String>,
    ) -> bool {
        &&& optional_text(self.theme) == text_under(entries, "theme"@)
        &&& optional_text(self.dark_theme) == text_under(entries, "dark_theme"@)
        &&& self.working_directory@ == or_empty(text_under(entries, "working_directory"@))
        &&& optional_text(self.default_profile) == text_under(entries, "default_profile"@)
        &&& self.default_tab_icon == icon
        &&& self.default_tab_icon_name@ == or_empty(text_under(entries, "default_tab_icon"@))
        &&& lookup(entries, "inactive_pane_opacity"@) == match self.inactive_pane_opacity {
            Some(opacity) => Some(opacity.view()),
            None => None,
        }
        &&& variables_view(self.environment@) == match lookup(entries, "env"@) {
            Some(JsonView::Object(variables)) => ordered(shown_variables(variables)),
            _ => Seq::empty(),
        }
        &&& optional_text(self.initial_split) == text_under(entries, "initial_split"@)
        &&& Some(forms_view(self.profiles@)) == match lookup(entries, "profiles"@) {
            Some(JsonView::Array(items)) => shown_profiles(items),
            _ => Some(Seq::empty()),
        }
        &&& self.pane_templates == templates
        &&& texts(self.inherited_profiles@) == without_adjacent(
            by_lowercase(texts(profile_names)),
            false,
        )
    }

    /// The form of a project, given the fields of its file's object.
    pub fn read(object: &Vec<(String, Json)>, context: FormContext) -> (result: Result<
        ProjectForm,
        FormReadError,
    >)
        ensures
            shown_as(entries_view(object@), context, result),
    {
        let ghost entries = entries_view(object@);
        if let Err(field) = validate_project_fields(object) {
            return Err(FormReadError::UnknownField(field));
        }
        let pane_templates = match context.templates {
            Ok(templates) => templates,
            Err(error) => {
                return Err(FormReadError::Overlay(error));
            },
        };
        let (default_tab_icon, default_tab_icon_name) = match get(object, "default_tab_icon") {
            None => (ProjectTabIcon::Inherit, String::new()),
            Some(Json::Null) => (ProjectTabIcon::NoIcon, String::new()),
            Some(Json::Text(name)) => match context.icon {
                Some(icon) => (ProjectTabIcon::Icon(icon), name.clone()),
                None => {
                    return Err(FormReadError::UnknownIcon(name.clone()));
                },
            },
            Some(_) => {
                return Err(FormReadError::IconNotAName);
            },
        };
        let inactive_pane_opacity = match get(object, "inactive_pane_opacity") {
            None => None,
            Some(value) => match value {
                Json::Number(_) => {
                    if !context.opacity_in_range {
                        return Err(FormReadError::OpacityOutOfRange);
                    }
                    Some(value.duplicate())
                },
                _ => {
                    return Err(FormReadError::OpacityNotANumber);
                },
            },
        };
        let environment = match get(object, "env") {
            None => {
                let none: Vec<ProjectEnvironmentForm> = Vec::new();
                proof {
                    assert(variables_view(none@) =~= Seq::<(Seq<char>, Seq<char>)>::empty());
                }
                none
            },
            Some(Json::Object(variables)) => {
                proof {
                    lemma_object_view(*variables);
                }
                read_variables(variables)
            },
            Some(_) => {
                return Err(FormReadError::EnvironmentNotAnObject);
            },
        };
        let profiles = match get(object, "profiles") {
            None => {
                let none: Vec<ProjectProfileForm> = Vec::new();
                proof {
                    assert(forms_view(none@) =~= Seq::<ProfileFormView>::empty());
                }
                none
            },
            Some(Json::Array(items)) => {
                proof {
                    lemma_array_view(*items);
                }
                match read_profiles(items) {
                    Ok(profiles) => profiles,
                    Err(error) => {
                        return Err(FormReadError::Profile(error));
                    },
                }
            },
            Some(_) => {
                return Err(FormReadError::ProfilesNotAList);
            },
        };
        let working_directory = match profiles::get_text(object, "working_directory") {
            Some(directory) => directory,
            None => String::new(),
        };
        Ok(
            ProjectForm {
                theme: profiles::get_text(object, "theme"),
                dark_theme: profiles::get_text(object, "dark_theme"),
                working_directory,
                default_profile: profiles::get_text(object, "default_profile"),
                default_tab_icon,
                default_tab_icon_name,
                inactive_pane_opacity,
                environment,
                initial_split: profiles::get_text(object, "initial_split"),
                profiles,
                pane_templates,
                inherited_profiles: list_inherited_profiles(&context.profile_names),
            },
        )
    }

    /// Shows a file in the form. A blank file says nothing.
    pub fn parse(source: &str, context: FormContext) -> (result: Result<ProjectForm, FormReadError>)
        ensures
            if trimmed(source@).len() == 0 {
                shown_as(Seq::empty(), context, result)
            } else {
                match json_of(source@) {
                    None => result matches Err(FormReadError::NotJson),
                    Some(JsonView::Object(entries)) => shown_as(entries, context, result),
                    Some(_) => result matches Err(FormReadError::NotAnObject),
                }
            },
    {
        if trim(source).as_str().is_empty() {
            let none: Vec<(String, Json)> = Vec::new();
            proof {
                assert(entries_view(none@) =~= Seq::<(Seq<char>, JsonView)>::empty());
            }
            return ProjectForm::read(&none, context);
        }
        match parse(source) {
            None => Err(FormReadError::NotJson),
            Some(Json::Object(object)) => {
                proof {
                    lemma_object_view(object);
                }
                ProjectForm::read(&object, context)
            },
            Some(_) => Err(FormReadError::NotAnObject),
        }
    }
}

} // verus!
