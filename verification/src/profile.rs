//! Terminal profiles: what a terminal runs and how it looks.

use vstd::prelude::*;

use crate::profile_icon::ProfileIcon;
use crate::text::{clone_optional, clone_texts, optional_text, texts};

verus! {

/// What a profile runs.
#[derive(Debug, PartialEq, Eq)]
pub enum Shell {
    /// The system's shell, by the program it resolves to.
    System(String),
    /// A program without arguments.
    Program(String),
    /// A program with arguments.
    WithArguments { program: String, args: Vec<String>, title_override: Option<String> },
}

impl Shell {
    /// The program that the shell runs.
    pub open spec fn program_text(self) -> Seq<char> {
        match self {
            Shell::System(program) => program@,
            Shell::Program(program) => program@,
            Shell::WithArguments { program, .. } => program@,
        }
    }

    /// Whether two shells run the same.
    pub open spec fn same(self, other: Shell) -> bool {
        match (self, other) {
            (Shell::System(left), Shell::System(right)) => left@ == right@,
            (Shell::Program(left), Shell::Program(right)) => left@ == right@,
            (
                Shell::WithArguments { program: left, args: left_args, title_override: left_title },
                Shell::WithArguments {
                    program: right,
                    args: right_args,
                    title_override: right_title,
                },
            ) => {
                &&& left@ == right@
                &&& texts(left_args@) == texts(right_args@)
                &&& optional_text(left_title) == optional_text(right_title)
            },
            _ => false,
        }
    }

    /// The program that the shell runs.
    pub fn program(&self) -> (result: &str)
        ensures
            result@ == self.program_text(),
    {
        match self {
            Shell::System(program) => program.as_str(),
            Shell::Program(program) => program.as_str(),
            Shell::WithArguments { program, .. } => program.as_str(),
        }
    }

    /// A copy of the shell.
    pub fn duplicate(&self) -> (result: Shell)
        ensures
            result.same(*self),
    {
        match self {
            Shell::System(program) => Shell::System(program.clone()),
            Shell::Program(program) => Shell::Program(program.clone()),
            Shell::WithArguments { program, args, title_override } => Shell::WithArguments {
                program: program.clone(),
                args: clone_texts(args),
                title_override: clone_optional(title_override),
            },
        }
    }
}

/// A named way to open a terminal.
#[derive(Debug, PartialEq, Eq)]
pub struct Profile {
    pub name: String,
    pub command: Shell,
    /// The theme while the system appearance is light.
    pub theme: Option<String>,
    /// The theme while the system appearance is dark.
    pub dark_theme: Option<String>,
    pub icon: ProfileIcon,
}

impl Profile {
    /// Whether two profiles are the same in every respect.
    pub open spec fn same(self, other: Profile) -> bool {
        &&& self.name@ == other.name@
        &&& self.command.same(other.command)
        &&& optional_text(self.theme) == optional_text(other.theme)
        &&& optional_text(self.dark_theme) == optional_text(other.dark_theme)
        &&& self.icon.same(other.icon)
    }

    /// Whether two profiles are the same, whatever their themes.
    pub open spec fn same_besides_themes(self, other: Profile) -> bool {
        &&& self.name@ == other.name@
        &&& self.command.same(other.command)
        &&& self.icon.same(other.icon)
    }

    /// The profile's themes: the one for a light appearance, and the other.
    pub open spec fn themes(self) -> (Option<Seq<char>>, Option<Seq<char>>) {
        (optional_text(self.theme), optional_text(self.dark_theme))
    }

    /// A copy of the profile.
    pub fn duplicate(&self) -> (result: Profile)
        ensures
            result.same(*self),
    {
        Profile {
            name: self.name.clone(),
            command: self.command.duplicate(),
            theme: clone_optional(&self.theme),
            dark_theme: clone_optional(&self.dark_theme),
            icon: self.icon.duplicate(),
        }
    }
}

/// What the launch puts in the place of a theme.
#[derive(Debug, PartialEq, Eq)]
pub enum LaunchTheme {
    /// The theme stays.
    Kept,
    /// Another theme counts, or none.
    Replaced(Option<String>),
}

impl LaunchTheme {
    /// The theme that counts in the place of a theme.
    pub open spec fn over(self, theme: Option<Seq<char>>) -> Option<Seq<char>> {
        match self {
            LaunchTheme::Kept => theme,
            LaunchTheme::Replaced(theme) => optional_text(theme),
        }
    }

    fn apply(&self, theme: &mut Option<String>)
        ensures
            optional_text(*final(theme)) == self.over(optional_text(*old(theme))),
    {
        if let LaunchTheme::Replaced(given) = self {
            *theme = clone_optional(given);
        }
    }
}

/// The themes that the launch puts in the place of every profile's, whatever the
/// configuration says.
#[derive(Debug, PartialEq, Eq)]
pub struct LaunchThemes {
    pub theme: LaunchTheme,
    pub dark_theme: LaunchTheme,
}

impl LaunchThemes {
    /// The themes of a launch that says nothing of themes.
    pub fn unset() -> (result: LaunchThemes)
        ensures
            result == (LaunchThemes { theme: LaunchTheme::Kept, dark_theme: LaunchTheme::Kept }),
    {
        LaunchThemes { theme: LaunchTheme::Kept, dark_theme: LaunchTheme::Kept }
    }

    /// The themes that count in the place of a profile's.
    pub open spec fn over(self, themes: (Option<Seq<char>>, Option<Seq<char>>)) -> (
        Option<Seq<char>>,
        Option<Seq<char>>,
    ) {
        (self.theme.over(themes.0), self.dark_theme.over(themes.1))
    }
}

/// Gives a profile the launch's themes in the place of its own.
pub fn apply_launch_theme_override(profile: &mut Profile, launch: &LaunchThemes)
    ensures
        *final(profile) == (Profile {
            theme: final(profile).theme,
            dark_theme: final(profile).dark_theme,
            ..*old(profile)
        }),
        final(profile).themes() == launch.over(old(profile).themes()),
{
    launch.theme.apply(&mut profile.theme);
    launch.dark_theme.apply(&mut profile.dark_theme);
}

} // verus!
