//! `zetta profile`: what its arguments ask for.

use vstd::prelude::*;

use crate::text::{has_prefix, optional_text, same_text, starts_with, texts, trim, trimmed};

pub mod help;
pub mod laws;
pub mod mutation;

verus! {

/// What is done with profiles.
#[derive(Debug, PartialEq, Eq)]
pub enum ProfileCommand {
    List,
    Themes,
    Disable { profile: String },
    Enable { profile: String },
    Theme { profile: String, theme: Option<String> },
    Default { profile: String },
    Add { name: String, program: String, args: Vec<String>, theme: Option<String> },
    Remove { profile: String },
}

/// What is done with profiles, as it views.
pub ghost enum ProfileCommandView {
    List,
    Themes,
    Disable { profile: Seq<char> },
    Enable { profile: Seq<char> },
    Theme { profile: Seq<char>, theme: Option<Seq<char>> },
    Default { profile: Seq<char> },
    Add {
        name: Seq<char>,
        program: Seq<char>,
        args: Seq<Seq<char>>,
        theme: Option<Seq<char>>,
    },
    Remove { profile: Seq<char> },
}

impl ProfileCommand {
    pub open spec fn view(self) -> ProfileCommandView {
        match self {
            ProfileCommand::List => ProfileCommandView::List,
            ProfileCommand::Themes => ProfileCommandView::Themes,
            ProfileCommand::Disable { profile } => ProfileCommandView::Disable {
                profile: profile@,
            },
            ProfileCommand::Enable { profile } => ProfileCommandView::Enable { profile: profile@ },
            ProfileCommand::Theme { profile, theme } => ProfileCommandView::Theme {
                profile: profile@,
                theme: optional_text(theme),
            },
            ProfileCommand::Default { profile } => ProfileCommandView::Default {
                profile: profile@,
            },
            ProfileCommand::Add { name, program, args, theme } => ProfileCommandView::Add {
                name: name@,
                program: program@,
                args: texts(args@),
                theme: optional_text(theme),
            },
            ProfileCommand::Remove { profile } => ProfileCommandView::Remove { profile: profile@ },
        }
    }
}

/// The operations that take one profile, or nothing.
#[derive(Clone, Copy, Debug, PartialEq, Eq, Structural)]
pub enum ProfileOperation {
    List,
    Themes,
    Disable,
    Enable,
    Theme,
    Default,
    Add,
    Remove,
}

/// Why the arguments are refused.
#[derive(Clone, Copy, Debug, PartialEq, Eq, Structural)]
pub enum ProfileArgsError {
    RepeatedConfig,
    MissingConfigPath,
    MissingOperation,
    UnknownOperation,
    /// An operation takes no arguments.
    TakesNoArguments(ProfileOperation),
    /// An operation takes one profile.
    TakesOneProfile(ProfileOperation),
    InvalidProfileName,
    RepeatedReset,
    UnknownThemeOption,
    ThemeUsage,
    EmptyTheme,
    RepeatedProgram,
    MissingProgramValue,
    MissingArgValue,
    RepeatedTheme,
    MissingThemeValue,
    UnknownAddOption,
    SecondName,
    MissingName,
    MissingProgram,
    BlankProgram,
}

/// What the arguments ask for.
#[derive(Debug, PartialEq, Eq)]
pub enum ParsedProfileArgs {
    /// The help on an operation, or on all of them.
    Help { operation: Option<String> },
    Command { config_path: Option<String>, command: ProfileCommand },
}

/// What the arguments ask for, as it views.
pub ghost enum ParsedProfileView {
    Help { operation: Option<Seq<char>> },
    Command { config_path: Option<Seq<char>>, command: ProfileCommandView },
}

impl ParsedProfileArgs {
    pub open spec fn view(self) -> ParsedProfileView {
        match self {
            ParsedProfileArgs::Help { operation } => ParsedProfileView::Help {
                operation: optional_text(operation),
            },
            ParsedProfileArgs::Command { config_path, command } => ParsedProfileView::Command {
                config_path: optional_text(config_path),
                command: command.view(),
            },
        }
    }
}

/// Whether an argument names what follows as the configuration file.
pub open spec fn names_config(argument: Seq<char>) -> bool {
    argument == "--config"@ || argument == "-c"@
}

/// The configuration file that arguments name, and the arguments besides.
pub open spec fn without_config(
    arguments: Seq<Seq<char>>,
    config_path: Option<Seq<char>>,
) -> Result<(Option<Seq<char>>, Seq<Seq<char>>), ProfileArgsError>
    decreases arguments.len(),
{
    if arguments.len() == 0 {
        Ok((config_path, Seq::empty()))
    } else if names_config(arguments[0]) {
        if config_path is Some {
            Err(ProfileArgsError::RepeatedConfig)
        } else if arguments.len() == 1 {
            Err(ProfileArgsError::MissingConfigPath)
        } else {
            without_config(arguments.skip(2), Some(arguments[1]))
        }
    } else {
        match without_config(arguments.drop_first(), config_path) {
            Ok((path, rest)) => Ok((path, seq![arguments[0]] + rest)),
            Err(error) => Err(error),
        }
    }
}

fn split_config(arguments: &Vec<String>, initial: Option<String>) -> (result: Result<
    (Option<String>, Vec<String>),
    ProfileArgsError,
>)
    ensures
        match result {
            Ok((path, rest)) => without_config(texts(arguments@), optional_text(initial)) == Ok::<
                (Option<Seq<char>>, Seq<Seq<char>>),
                ProfileArgsError,
            >((optional_text(path), texts(rest@))),
            Err(error) => without_config(texts(arguments@), optional_text(initial)) == Err::<
                (Option<Seq<char>>, Seq<Seq<char>>),
                ProfileArgsError,
            >(error),
        },
{
    let ghost all = texts(arguments@);
    let ghost whole = without_config(all, optional_text(initial));
    let mut config_path = initial;
    let mut rest: Vec<String> = Vec::new();
    let mut index: usize = 0;
    let count: usize = arguments.len();
    proof {
        assert(all.skip(0) == all);
        assert(texts(rest@) =~= Seq::<Seq<char>>::empty());
        if let Ok((path, others)) = whole {
            assert(texts(rest@) + others =~= others);
        }
    }
    while index < count
        invariant
            index <= count == arguments@.len(),
            all == texts(arguments@),
            whole == without_config(all, optional_text(initial)),
            match without_config(all.skip(index as int), optional_text(config_path)) {
                Ok((path, others)) => whole == Ok::<
                    (Option<Seq<char>>, Seq<Seq<char>>),
                    ProfileArgsError,
                >((path, texts(rest@) + others)),
                Err(error) => whole == Err::<
                    (Option<Seq<char>>, Seq<Seq<char>>),
                    ProfileArgsError,
                >(error),
            },
        decreases count - index,
    {
        let argument = arguments[index].as_str();
        let ghost here = all.skip(index as int);
        proof {
            assert(here[0] == argument@);
            assert(here.drop_first() == all.skip(index + 1));
        }
        if same_text(argument, "--config") || same_text(argument, "-c") {
            if config_path.is_some() {
                return Err(ProfileArgsError::RepeatedConfig);
            }
            if count - index == 1 {
                return Err(ProfileArgsError::MissingConfigPath);
            }
            proof {
                assert(here[1] == arguments@[index + 1]@);
                assert(here.skip(2) == all.skip(index + 2));
            }
            config_path = Some(arguments[index + 1].clone());
            index = index + 2;
        } else {
            let ghost before = rest@;
            rest.push(argument.to_owned());
            proof {
                assert(texts(rest@) =~= texts(before).push(argument@));
                if let Ok((path, others)) = without_config(
                    all.skip(index + 1),
                    optional_text(config_path),
                ) {
                    assert(texts(before) + (seq![argument@] + others) =~= texts(rest@) + others);
                }
            }
            index = index + 1;
        }
    }
    proof {
        assert(all.skip(index as int) == Seq::<Seq<char>>::empty());
        assert(texts(rest@) + Seq::<Seq<char>>::empty() =~= texts(rest@));
    }
    Ok((config_path, rest))
}

/// Whether an argument asks for help.
pub open spec fn asks_help(argument: Seq<char>) -> bool {
    argument == "--help"@ || argument == "-h"@
}

/// Whether an argument is an option.
pub open spec fn is_option(argument: Seq<char>) -> bool {
    has_prefix(argument, "-"@)
}

/// Whether some argument asks for help.
pub open spec fn any_help(arguments: Seq<Seq<char>>) -> bool {
    exists|i: int| 0 <= i < arguments.len() && asks_help(#[trigger] arguments[i])
}

/// The first argument that is no option.
pub open spec fn first_word(arguments: Seq<Seq<char>>) -> Option<Seq<char>>
    decreases arguments.len(),
{
    if arguments.len() == 0 {
        None
    } else if !is_option(arguments.first()) {
        Some(arguments.first())
    } else {
        first_word(arguments.drop_first())
    }
}

/// Whether some argument asks for help.
pub fn wants_help(arguments: &Vec<String>) -> (result: bool)
    ensures
        result == any_help(texts(arguments@)),
{
    let mut index: usize = 0;
    while index < arguments.len()
        invariant
            index <= arguments@.len(),
            forall|i: int| 0 <= i < index ==> !asks_help(#[trigger] texts(arguments@)[i]),
        decreases arguments@.len() - index,
    {
        let argument = arguments[index].as_str();
        proof {
            assert(texts(arguments@)[index as int] == argument@);
        }
        if same_text(argument, "--help") || same_text(argument, "-h") {
            return true;
        }
        index = index + 1;
    }
    false
}

/// The first argument that is no option.
pub fn find_word(arguments: &Vec<String>) -> (result: Option<String>)
    ensures
        optional_text(result) == first_word(texts(arguments@)),
{
    let ghost all = texts(arguments@);
    let mut index: usize = 0;
    proof {
        assert(all.skip(0) == all);
    }
    while index < arguments.len()
        invariant
            index <= arguments@.len(),
            all == texts(arguments@),
            first_word(all) == first_word(all.skip(index as int)),
        decreases arguments@.len() - index,
    {
        proof {
            assert(all.skip(index as int).first() == arguments@[index as int]@);
            assert(all.skip(index as int).drop_first() == all.skip(index + 1));
        }
        if !starts_with(arguments[index].as_str(), "-") {
            return Some(arguments[index].clone());
        }
        index = index + 1;
    }
    None
}

/// Whether a text can be the name of a profile.
pub open spec fn is_profile_name(name: Seq<char>) -> bool {
    trimmed(name).len() > 0 && !name.contains('\r') && !name.contains('\n')
}

/// A text that can be the name of a profile.
pub fn validate_profile_argument(profile: &str) -> (result: Result<String, ProfileArgsError>)
    ensures
        match result {
            Ok(name) => is_profile_name(profile@) && name@ == profile@,
            Err(error) => !is_profile_name(profile@) && error
                == ProfileArgsError::InvalidProfileName,
        },
{
    if trim(profile).as_str().is_empty() || crate::text::contains_character(profile, '\r')
        || crate::text::contains_character(profile, '\n') {
        Err(ProfileArgsError::InvalidProfileName)
    } else {
        Ok(profile.to_owned())
    }
}

/// The one profile that arguments name.
pub open spec fn one_profile(operation: ProfileOperation, arguments: Seq<Seq<char>>) -> Result<
    Seq<char>,
    ProfileArgsError,
> {
    if arguments.len() != 1 || is_option(arguments[0]) {
        Err(ProfileArgsError::TakesOneProfile(operation))
    } else if !is_profile_name(arguments[0]) {
        Err(ProfileArgsError::InvalidProfileName)
    } else {
        Ok(arguments[0])
    }
}

/// The one profile that arguments name.
pub fn parse_one_profile_argument(operation: ProfileOperation, arguments: &Vec<String>) -> (result:
    Result<String, ProfileArgsError>)
    ensures
        match result {
            Ok(name) => one_profile(operation, texts(arguments@)) == Ok::<
                Seq<char>,
                ProfileArgsError,
            >(name@),
            Err(error) => one_profile(operation, texts(arguments@)) == Err::<
                Seq<char>,
                ProfileArgsError,
            >(error),
        },
{
    proof {
        assert(texts(arguments@).len() == arguments@.len());
    }
    if arguments.len() != 1 {
        return Err(ProfileArgsError::TakesOneProfile(operation));
    }
    proof {
        assert(texts(arguments@)[0] == arguments@[0]@);
    }
    if starts_with(arguments[0].as_str(), "-") {
        return Err(ProfileArgsError::TakesOneProfile(operation));
    }
    validate_profile_argument(arguments[0].as_str())
}

/// A command without arguments.
pub fn parse_no_arguments(
    operation: ProfileOperation,
    arguments: &Vec<String>,
    command: ProfileCommand,
) -> (result: Result<ProfileCommand, ProfileArgsError>)
    ensures
        result == if arguments@.len() == 0 {
            Ok::<ProfileCommand, ProfileArgsError>(command)
        } else {
            Err(ProfileArgsError::TakesNoArguments(operation))
        },
{
    if arguments.len() == 0 {
        Ok(command)
    } else {
        Err(ProfileArgsError::TakesNoArguments(operation))
    }
}

/// Whether an argument asks to reset a theme.
pub open spec fn asks_reset(argument: Seq<char>) -> bool {
    argument == "--reset"@ || argument == "-r"@
}

/// Whether arguments ask to reset a theme, and the words among them.
pub open spec fn theme_words(arguments: Seq<Seq<char>>) -> Result<
    (bool, Seq<Seq<char>>),
    ProfileArgsError,
>
    decreases arguments.len(),
{
    if arguments.len() == 0 {
        Ok((false, Seq::empty()))
    } else {
        match theme_words(arguments.drop_last()) {
            Err(error) => Err(error),
            Ok((reset, words)) => {
                let argument = arguments.last();
                if asks_reset(argument) {
                    if reset {
                        Err(ProfileArgsError::RepeatedReset)
                    } else {
                        Ok((true, words))
                    }
                } else if is_option(argument) {
                    Err(ProfileArgsError::UnknownThemeOption)
                } else {
                    Ok((reset, words.push(argument)))
                }
            },
        }
    }
}

proof fn lemma_theme_words_stop(arguments: Seq<Seq<char>>, count: int)
    requires
        0 <= count <= arguments.len(),
        theme_words(arguments.take(count)) is Err,
    ensures
        theme_words(arguments) == theme_words(arguments.take(count)),
    decreases arguments.len(),
{
    if count < arguments.len() {
        assert(arguments.drop_last().take(count) == arguments.take(count));
        lemma_theme_words_stop(arguments.drop_last(), count);
    } else {
        assert(arguments.take(count) == arguments);
    }
}

/// What `zetta profile theme` is asked to do.
pub open spec fn theme_command(arguments: Seq<Seq<char>>) -> Result<
    ProfileCommandView,
    ProfileArgsError,
> {
    match theme_words(arguments) {
        Err(error) => Err(error),
        Ok((reset, words)) => if !((reset && words.len() == 1) || (!reset && words.len() == 2)) {
            Err(ProfileArgsError::ThemeUsage)
        } else if !is_profile_name(words[0]) {
            Err(ProfileArgsError::InvalidProfileName)
        } else if reset {
            Ok(ProfileCommandView::Theme { profile: words[0], theme: None })
        } else if words[1].len() == 0 {
            Err(ProfileArgsError::EmptyTheme)
        } else {
            Ok(ProfileCommandView::Theme { profile: words[0], theme: Some(words[1]) })
        },
    }
}

/// Whether a command came out as `expected` says.
pub open spec fn commanded(
    result: Result<ProfileCommand, ProfileArgsError>,
    expected: Result<ProfileCommandView, ProfileArgsError>,
) -> bool {
    match result {
        Ok(command) => expected == Ok::<ProfileCommandView, ProfileArgsError>(command.view()),
        Err(error) => expected == Err::<ProfileCommandView, ProfileArgsError>(error),
    }
}

/// What `zetta profile theme` is asked to do.
pub fn parse_theme_command(arguments: &Vec<String>) -> (result: Result<
    ProfileCommand,
    ProfileArgsError,
>)
    ensures
        commanded(result, theme_command(texts(arguments@))),
{
    let ghost all = texts(arguments@);
    let mut reset = false;
    let mut words: Vec<String> = Vec::new();
    let mut index: usize = 0;
    proof {
        assert(all.take(0) == Seq::<Seq<char>>::empty());
        assert(texts(words@) =~= Seq::<Seq<char>>::empty());
    }
    while index < arguments.len()
        invariant
            index <= arguments@.len(),
            all == texts(arguments@),
            theme_words(all.take(index as int)) == Ok::<(bool, Seq<Seq<char>>), ProfileArgsError>(
                (reset, texts(words@)),
            ),
        decreases arguments@.len() - index,
    {
        let argument = arguments[index].as_str();
        proof {
            let longer = all.take(index + 1);
            assert(longer.drop_last() == all.take(index as int));
            assert(longer.last() == argument@);
        }
        if same_text(argument, "--reset") || same_text(argument, "-r") {
            if reset {
                proof {
                    lemma_theme_words_stop(all, index + 1);
                }
                return Err(ProfileArgsError::RepeatedReset);
            }
            reset = true;
        } else if starts_with(argument, "-") {
            proof {
                lemma_theme_words_stop(all, index + 1);
            }
            return Err(ProfileArgsError::UnknownThemeOption);
        } else {
            let ghost before = words@;
            words.push(argument.to_owned());
            proof {
                assert(texts(words@) =~= texts(before).push(argument@));
            }
        }
        index = index + 1;
    }
    proof {
        assert(all.take(index as int) == all);
        assert(texts(words@).len() == words@.len());
    }
    if !((reset && words.len() == 1) || (!reset && words.len() == 2)) {
        return Err(ProfileArgsError::ThemeUsage);
    }
    proof {
        assert(texts(words@)[0] == words@[0]@);
    }
    let profile = match validate_profile_argument(words[0].as_str()) {
        Ok(profile) => profile,
        Err(error) => {
            return Err(error);
        },
    };
    if reset {
        return Ok(ProfileCommand::Theme { profile, theme: None });
    }
    proof {
        assert(texts(words@)[1] == words@[1]@);
    }
    if words[1].as_str().is_empty() {
        return Err(ProfileArgsError::EmptyTheme);
    }
    let theme = words[1].clone();
    Ok(ProfileCommand::Theme { profile, theme: Some(theme) })
}

/// What was read of the arguments of `zetta profile add`.
pub ghost struct AddView {
    pub name: Option<Seq<char>>,
    pub program: Option<Seq<char>>,
    pub args: Seq<Seq<char>>,
    pub theme: Option<Seq<char>>,
}

/// What the arguments of `zetta profile add` say, after some were read.
pub open spec fn add_read(arguments: Seq<Seq<char>>, read: AddView) -> Result<
    AddView,
    ProfileArgsError,
>
    decreases arguments.len(),
{
    if arguments.len() == 0 {
        Ok(read)
    } else {
        let argument = arguments[0];
        if argument == "--program"@ || argument == "-p"@ {
            if read.program is Some {
                Err(ProfileArgsError::RepeatedProgram)
            } else if arguments.len() == 1 {
                Err(ProfileArgsError::MissingProgramValue)
            } else {
                add_read(arguments.skip(2), AddView { program: Some(arguments[1]), ..read })
            }
        } else if argument == "--arg"@ || argument == "-a"@ {
            if arguments.len() == 1 {
                Err(ProfileArgsError::MissingArgValue)
            } else {
                add_read(arguments.skip(2), AddView { args: read.args.push(arguments[1]), ..read })
            }
        } else if argument == "--theme"@ || argument == "-t"@ {
            if read.theme is Some {
                Err(ProfileArgsError::RepeatedTheme)
            } else if arguments.len() == 1 {
                Err(ProfileArgsError::MissingThemeValue)
            } else {
                add_read(arguments.skip(2), AddView { theme: Some(arguments[1]), ..read })
            }
        } else if is_option(argument) {
            Err(ProfileArgsError::UnknownAddOption)
        } else if read.name is Some {
            Err(ProfileArgsError::SecondName)
        } else {
            add_read(arguments.drop_first(), AddView { name: Some(argument), ..read })
        }
    }
}

/// Nothing read yet.
pub open spec fn nothing_added() -> AddView {
    AddView { name: None, program: None, args: Seq::empty(), theme: None }
}

/// What `zetta profile add` is asked to do.
pub open spec fn add_command(arguments: Seq<Seq<char>>) -> Result<
    ProfileCommandView,
    ProfileArgsError,
> {
    match add_read(arguments, nothing_added()) {
        Err(error) => Err(error),
        Ok(read) => match read.name {
            None => Err(ProfileArgsError::MissingName),
            Some(name) => if !is_profile_name(name) {
                Err(ProfileArgsError::InvalidProfileName)
            } else {
                match read.program {
                    None => Err(ProfileArgsError::MissingProgram),
                    Some(program) => if trimmed(program).len() == 0 {
                        Err(ProfileArgsError::BlankProgram)
                    } else {
                        Ok(
                            ProfileCommandView::Add {
                                name,
                                program,
                                args: read.args,
                                theme: read.theme,
                            },
                        )
                    },
                }
            },
        },
    }
}

/// What `zetta profile add` is asked to do.
pub fn parse_add_command(arguments: &Vec<String>) -> (result: Result<
    ProfileCommand,
    ProfileArgsError,
>)
    ensures
        commanded(result, add_command(texts(arguments@))),
{
    let ghost all = texts(arguments@);
    let mut name: Option<String> = None;
    let mut program: Option<String> = None;
    let mut args: Vec<String> = Vec::new();
    let mut theme: Option<String> = None;
    let mut index: usize = 0;
    let count: usize = arguments.len();
    proof {
        assert(all.skip(0) == all);
        assert(texts(args@) =~= Seq::<Seq<char>>::empty());
    }
    while index < count
        invariant
            index <= count == arguments@.len(),
            all == texts(arguments@),
            add_read(all, nothing_added()) == add_read(
                all.skip(index as int),
                AddView {
                    name: optional_text(name),
                    program: optional_text(program),
                    args: texts(args@),
                    theme: optional_text(theme),
                },
            ),
        decreases count - index,
    {
        let argument = arguments[index].as_str();
        let last = count - index == 1;
        let ghost here = all.skip(index as int);
        proof {
            assert(here[0] == argument@);
            assert(here.drop_first() == all.skip(index + 1));
            if !last {
                assert(here[1] == arguments@[index + 1]@);
                assert(here.skip(2) == all.skip(index + 2));
            }
        }
        if same_text(argument, "--program") || same_text(argument, "-p") {
            if program.is_some() {
                return Err(ProfileArgsError::RepeatedProgram);
            }
            if last {
                return Err(ProfileArgsError::MissingProgramValue);
            }
            program = Some(arguments[index + 1].clone());
            index = index + 2;
        } else if same_text(argument, "--arg") || same_text(argument, "-a") {
            if last {
                return Err(ProfileArgsError::MissingArgValue);
            }
            let ghost before = args@;
            args.push(arguments[index + 1].clone());
            proof {
                assert(texts(args@) =~= texts(before).push(arguments@[index + 1]@));
            }
            index = index + 2;
        } else if same_text(argument, "--theme") || same_text(argument, "-t") {
            if theme.is_some() {
                return Err(ProfileArgsError::RepeatedTheme);
            }
            if last {
                return Err(ProfileArgsError::MissingThemeValue);
            }
            theme = Some(arguments[index + 1].clone());
            index = index + 2;
        } else if starts_with(argument, "-") {
            return Err(ProfileArgsError::UnknownAddOption);
        } else {
            if name.is_some() {
                return Err(ProfileArgsError::SecondName);
            }
            name = Some(argument.to_owned());
            index = index + 1;
        }
    }
    proof {
        assert(all.skip(index as int) == Seq::<Seq<char>>::empty());
    }
    let name = match name {
        Some(name) => match validate_profile_argument(name.as_str()) {
            Ok(name) => name,
            Err(error) => {
                return Err(error);
            },
        },
        None => {
            return Err(ProfileArgsError::MissingName);
        },
    };
    let program = match program {
        Some(program) => program,
        None => {
            return Err(ProfileArgsError::MissingProgram);
        },
    };
    if trim(program.as_str()).as_str().is_empty() {
        return Err(ProfileArgsError::BlankProgram);
    }
    Ok(ProfileCommand::Add { name, program, args, theme })
}

/// What an operation is asked to do with its arguments.
pub open spec fn command_of(operation: Seq<char>, arguments: Seq<Seq<char>>) -> Result<
    ProfileCommandView,
    ProfileArgsError,
> {
    if operation == "list"@ {
        if arguments.len() == 0 {
            Ok(ProfileCommandView::List)
        } else {
            Err(ProfileArgsError::TakesNoArguments(ProfileOperation::List))
        }
    } else if operation == "themes"@ {
        if arguments.len() == 0 {
            Ok(ProfileCommandView::Themes)
        } else {
            Err(ProfileArgsError::TakesNoArguments(ProfileOperation::Themes))
        }
    } else if operation == "disable"@ {
        match one_profile(ProfileOperation::Disable, arguments) {
            Ok(profile) => Ok(ProfileCommandView::Disable { profile }),
            Err(error) => Err(error),
        }
    } else if operation == "enable"@ {
        match one_profile(ProfileOperation::Enable, arguments) {
            Ok(profile) => Ok(ProfileCommandView::Enable { profile }),
            Err(error) => Err(error),
        }
    } else if operation == "theme"@ {
        theme_command(arguments)
    } else if operation == "default"@ {
        match one_profile(ProfileOperation::Default, arguments) {
            Ok(profile) => Ok(ProfileCommandView::Default { profile }),
            Err(error) => Err(error),
        }
    } else if operation == "add"@ {
        add_command(arguments)
    } else if operation == "remove"@ {
        match one_profile(ProfileOperation::Remove, arguments) {
            Ok(profile) => Ok(ProfileCommandView::Remove { profile }),
            Err(error) => Err(error),
        }
    } else {
        Err(ProfileArgsError::UnknownOperation)
    }
}

fn parse_operation(operation: &str, arguments: &Vec<String>) -> (result: Result<
    ProfileCommand,
    ProfileArgsError,
>)
    ensures
        commanded(result, command_of(operation@, texts(arguments@))),
{
    proof {
        assert(texts(arguments@).len() == arguments@.len());
    }
    if same_text(operation, "list") {
        parse_no_arguments(ProfileOperation::List, arguments, ProfileCommand::List)
    } else if same_text(operation, "themes") {
        parse_no_arguments(ProfileOperation::Themes, arguments, ProfileCommand::Themes)
    } else if same_text(operation, "disable") {
        match parse_one_profile_argument(ProfileOperation::Disable, arguments) {
            Ok(profile) => Ok(ProfileCommand::Disable { profile }),
            Err(error) => Err(error),
        }
    } else if same_text(operation, "enable") {
        match parse_one_profile_argument(ProfileOperation::Enable, arguments) {
            Ok(profile) => Ok(ProfileCommand::Enable { profile }),
            Err(error) => Err(error),
        }
    } else if same_text(operation, "theme") {
        parse_theme_command(arguments)
    } else if same_text(operation, "default") {
        match parse_one_profile_argument(ProfileOperation::Default, arguments) {
            Ok(profile) => Ok(ProfileCommand::Default { profile }),
            Err(error) => Err(error),
        }
    } else if same_text(operation, "add") {
        parse_add_command(arguments)
    } else if same_text(operation, "remove") {
        match parse_one_profile_argument(ProfileOperation::Remove, arguments) {
            Ok(profile) => Ok(ProfileCommand::Remove { profile }),
            Err(error) => Err(error),
        }
    } else {
        Err(ProfileArgsError::UnknownOperation)
    }
}

/// What the arguments of `zetta profile` ask for.
pub open spec fn profile_args(
    arguments: Seq<Seq<char>>,
    initial: Option<Seq<char>>,
) -> Result<ParsedProfileView, ProfileArgsError> {
    match without_config(arguments, initial) {
        Err(error) => Err(error),
        Ok((config_path, rest)) => if any_help(rest) {
            Ok(ParsedProfileView::Help { operation: first_word(rest) })
        } else if rest.len() == 0 {
            Err(ProfileArgsError::MissingOperation)
        } else {
            match command_of(rest[0], rest.drop_first()) {
                Ok(command) => Ok(ParsedProfileView::Command { config_path, command }),
                Err(error) => Err(error),
            }
        },
    }
}

/// What the arguments of `zetta profile` ask for. The configuration file may be
/// named anywhere among them, once.
pub fn parse_profile_args(arguments: &Vec<String>, initial_config_path: Option<String>) -> (result:
    Result<ParsedProfileArgs, ProfileArgsError>)
    ensures
        match result {
            Ok(parsed) => profile_args(
                texts(arguments@),
                optional_text(initial_config_path),
            ) == Ok::<ParsedProfileView, ProfileArgsError>(parsed.view()),
            Err(error) => profile_args(
                texts(arguments@),
                optional_text(initial_config_path),
            ) == Err::<ParsedProfileView, ProfileArgsError>(error),
        },
{
    let (config_path, rest) = match split_config(arguments, initial_config_path) {
        Ok(parts) => parts,
        Err(error) => {
            return Err(error);
        },
    };
    if wants_help(&rest) {
        return Ok(ParsedProfileArgs::Help { operation: find_word(&rest) });
    }
    proof {
        assert(texts(rest@).len() == rest@.len());
    }
    if rest.len() == 0 {
        return Err(ProfileArgsError::MissingOperation);
    }
    let operation = rest[0].clone();
    let mut behind: Vec<String> = Vec::new();
    let mut index: usize = 1;
    while index < rest.len()
        invariant
            1 <= index <= rest@.len(),
            texts(behind@) == texts(rest@).subrange(1, index as int),
        decreases rest@.len() - index,
    {
        let ghost before = behind@;
        behind.push(rest[index].clone());
        proof {
            assert(texts(behind@) =~= texts(before).push(rest@[index as int]@));
            assert(texts(rest@).subrange(1, index + 1) =~= texts(rest@).subrange(
                1,
                index as int,
            ).push(rest@[index as int]@));
        }
        index = index + 1;
    }
    proof {
        assert(texts(rest@).subrange(1, index as int) =~= texts(rest@).drop_first());
        assert(texts(rest@)[0] == operation@);
    }
    match parse_operation(operation.as_str(), &behind) {
        Ok(command) => Ok(ParsedProfileArgs::Command { config_path, command }),
        Err(error) => Err(error),
    }
}

} // verus!
