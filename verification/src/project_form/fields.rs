//! The texts of the form that are typed into.

use vstd::prelude::*;

use crate::project_form::profiles::ProjectProfileForm;
use crate::project_form::{ProjectEnvironmentForm, ProjectForm};

verus! {

/// A text of the form.
#[derive(Clone, Copy, Debug, PartialEq, Eq, Structural)]
pub enum ProjectTextField {
    WorkingDirectory,
    EnvironmentName(usize),
    EnvironmentValue(usize),
    ProfileName(usize),
    ProfileProgram(usize),
    ProfileArguments(usize),
}

/// A text of the form, where it has such a one.
pub open spec fn text_at(form: ProjectForm, field: ProjectTextField) -> Option<String> {
    match field {
        ProjectTextField::WorkingDirectory => Some(form.working_directory),
        ProjectTextField::EnvironmentName(index) => if index < form.environment@.len() {
            Some(form.environment@[index as int].name)
        } else {
            None
        },
        ProjectTextField::EnvironmentValue(index) => if index < form.environment@.len() {
            Some(form.environment@[index as int].value)
        } else {
            None
        },
        ProjectTextField::ProfileName(index) => if index < form.profiles@.len() {
            Some(form.profiles@[index as int].name)
        } else {
            None
        },
        ProjectTextField::ProfileProgram(index) => if index < form.profiles@.len() {
            Some(form.profiles@[index as int].program)
        } else {
            None
        },
        ProjectTextField::ProfileArguments(index) => if index < form.profiles@.len() {
            Some(form.profiles@[index as int].arguments)
        } else {
            None
        },
    }
}

/// Whether a form is the same but for one text.
pub open spec fn text_replaced(
    before: ProjectForm,
    after: ProjectForm,
    field: ProjectTextField,
    text: String,
) -> bool {
    &&& after == (ProjectForm {
        working_directory: after.working_directory,
        environment: after.environment,
        profiles: after.profiles,
        ..before
    })
    &&& match field {
        ProjectTextField::WorkingDirectory => after.working_directory == text,
        _ => after.working_directory == before.working_directory,
    }
    &&& after.environment@ == match field {
        ProjectTextField::EnvironmentName(index) => before.environment@.update(
            index as int,
            ProjectEnvironmentForm { name: text, ..before.environment@[index as int] },
        ),
        ProjectTextField::EnvironmentValue(index) => before.environment@.update(
            index as int,
            ProjectEnvironmentForm { value: text, ..before.environment@[index as int] },
        ),
        _ => before.environment@,
    }
    &&& after.profiles@ == match field {
        ProjectTextField::ProfileName(index) => before.profiles@.update(
            index as int,
            ProjectProfileForm { name: text, ..before.profiles@[index as int] },
        ),
        ProjectTextField::ProfileProgram(index) => before.profiles@.update(
            index as int,
            ProjectProfileForm { program: text, ..before.profiles@[index as int] },
        ),
        ProjectTextField::ProfileArguments(index) => before.profiles@.update(
            index as int,
            ProjectProfileForm { arguments: text, ..before.profiles@[index as int] },
        ),
        _ => before.profiles@,
    }
}

impl ProjectForm {
    /// A text of the form to be typed into, where it has such a one.
    pub fn text_mut(&mut self, field: ProjectTextField) -> (result: Option<&mut String>)
        ensures
            match result {
                Some(text) => {
                    &&& text_at(*old(self), field) == Some(*text)
                    &&& text_replaced(*old(self), *final(self), field, *final(text))
                },
                None => text_at(*old(self), field) is None && *final(self) == *old(self),
            },
    {
        match field {
            ProjectTextField::WorkingDirectory => Some(&mut self.working_directory),
            ProjectTextField::EnvironmentName(index) => if index < self.environment.len() {
                Some(&mut self.environment[index].name)
            } else {
                None
            },
            ProjectTextField::EnvironmentValue(index) => if index < self.environment.len() {
                Some(&mut self.environment[index].value)
            } else {
                None
            },
            ProjectTextField::ProfileName(index) => if index < self.profiles.len() {
                Some(&mut self.profiles[index].name)
            } else {
                None
            },
            ProjectTextField::ProfileProgram(index) => if index < self.profiles.len() {
                Some(&mut self.profiles[index].program)
            } else {
                None
            },
            ProjectTextField::ProfileArguments(index) => if index < self.profiles.len() {
                Some(&mut self.profiles[index].arguments)
            } else {
                None
            },
        }
    }
}

/// What was typed into a text of the form is what it then holds.
pub proof fn law_typed_text_is_held(
    before: ProjectForm,
    after: ProjectForm,
    field: ProjectTextField,
    text: String,
)
    requires
        text_at(before, field) is Some,
        text_replaced(before, after, field, text),
    ensures
        text_at(after, field) == Some(text),
{
}

} // verus!
