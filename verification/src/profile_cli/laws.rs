//! What holds of the arguments of `zetta profile`.

use vstd::prelude::*;

use crate::profile_cli::{
    add_command, add_read, any_help, asks_help, command_of, is_option, is_profile_name,
    names_config, nothing_added, profile_args, theme_command, theme_words, without_config, AddView,
    ParsedProfileView, ProfileArgsError, ProfileCommandView,
};
use crate::text::trimmed;

verus! {

/// Arguments for a program, each behind its option.
pub open spec fn spelled_args(args: Seq<Seq<char>>) -> Seq<Seq<char>>
    decreases args.len(),
{
    if args.len() == 0 {
        Seq::empty()
    } else {
        seq!["--arg"@, args.first()] + spelled_args(args.drop_first())
    }
}

/// A command as one would type it behind `zetta profile`.
pub open spec fn spelled(command: ProfileCommandView) -> Seq<Seq<char>> {
    match command {
        ProfileCommandView::List => seq!["list"@],
        ProfileCommandView::Themes => seq!["themes"@],
        ProfileCommandView::Disable { profile } => seq!["disable"@, profile],
        ProfileCommandView::Enable { profile } => seq!["enable"@, profile],
        ProfileCommandView::Default { profile } => seq!["default"@, profile],
        ProfileCommandView::Remove { profile } => seq!["remove"@, profile],
        ProfileCommandView::Theme { profile, theme: None } => seq!["theme"@, profile, "--reset"@],
        ProfileCommandView::Theme { profile, theme: Some(theme) } => seq!["theme"@, profile, theme],
        ProfileCommandView::Add { name, program, args, theme: None } => seq![
            "add"@,
            name,
            "--program"@,
            program,
        ] + spelled_args(args),
        ProfileCommandView::Add { name, program, args, theme: Some(theme) } => seq![
            "add"@,
            name,
            "--program"@,
            program,
            "--theme"@,
            theme,
        ] + spelled_args(args),
    }
}

/// Whether a word is none that means something wherever it stands.
pub open spec fn is_plain_word(word: Seq<char>) -> bool {
    !names_config(word) && !asks_help(word)
}

/// Whether a word can stand for a profile.
pub open spec fn can_name(word: Seq<char>) -> bool {
    is_profile_name(word) && !is_option(word)
}

/// Whether a command can be typed.
pub open spec fn can_be_typed(command: ProfileCommandView) -> bool {
    match command {
        ProfileCommandView::List | ProfileCommandView::Themes => true,
        ProfileCommandView::Disable { profile } => can_name(profile),
        ProfileCommandView::Enable { profile } => can_name(profile),
        ProfileCommandView::Default { profile } => can_name(profile),
        ProfileCommandView::Remove { profile } => can_name(profile),
        ProfileCommandView::Theme { profile, theme } => can_name(profile) && (theme matches Some(
            theme,
        ) ==> theme.len() > 0 && !is_option(theme)),
        ProfileCommandView::Add { name, program, args, theme } => can_name(name) && trimmed(
            program,
        ).len() > 0,
    }
}

proof fn lemma_no_config(arguments: Seq<Seq<char>>, path: Option<Seq<char>>)
    requires
        forall|i: int| 0 <= i < arguments.len() ==> !names_config(#[trigger] arguments[i]),
    ensures
        without_config(arguments, path) == Ok::<
            (Option<Seq<char>>, Seq<Seq<char>>),
            ProfileArgsError,
        >((path, arguments)),
    decreases arguments.len(),
{
    if arguments.len() > 0 {
        let rest = arguments.drop_first();
        assert forall|i: int| 0 <= i < rest.len() implies !names_config(#[trigger] rest[i]) by {
            assert(rest[i] == arguments[i + 1]);
        }
        lemma_no_config(rest, path);
        assert(!names_config(arguments[0]));
        assert(seq![arguments[0]] + rest =~= arguments);
    } else {
        assert(arguments =~= Seq::empty());
    }
}

proof fn lemma_config_between(
    before: Seq<Seq<char>>,
    path: Seq<char>,
    after: Seq<Seq<char>>,
    option: Seq<char>,
)
    requires
        forall|i: int| 0 <= i < before.len() ==> !names_config(#[trigger] before[i]),
        forall|i: int| 0 <= i < after.len() ==> !names_config(#[trigger] after[i]),
        names_config(option),
    ensures
        without_config(before + seq![option, path] + after, None) == Ok::<
            (Option<Seq<char>>, Seq<Seq<char>>),
            ProfileArgsError,
        >((Some(path), before + after)),
    decreases before.len(),
{
    let whole = before + seq![option, path] + after;
    if before.len() == 0 {
        assert(whole =~= seq![option, path] + after);
        assert(whole[0] == option && whole[1] == path);
        assert(whole.skip(2) =~= after);
        assert(before + after =~= after);
        lemma_no_config(after, Some(path));
    } else {
        let rest = before.drop_first();
        assert forall|i: int| 0 <= i < rest.len() implies !names_config(#[trigger] rest[i]) by {
            assert(rest[i] == before[i + 1]);
        }
        lemma_config_between(rest, path, after, option);
        assert(whole[0] == before[0]);
        assert(whole.drop_first() =~= rest + seq![option, path] + after);
        assert(!names_config(before[0]));
        assert(seq![before[0]] + (rest + after) =~= before + after);
    }
}

/// The configuration file can be named anywhere among the arguments, by either
/// option, and means what it means where it is known beforehand.
pub proof fn law_configuration_can_be_named_anywhere(
    before: Seq<Seq<char>>,
    path: Seq<char>,
    after: Seq<Seq<char>>,
)
    requires
        forall|i: int| 0 <= i < before.len() ==> !names_config(#[trigger] before[i]),
        forall|i: int| 0 <= i < after.len() ==> !names_config(#[trigger] after[i]),
    ensures
        profile_args(before + seq!["--config"@, path] + after, None) == profile_args(
            before + after,
            Some(path),
        ),
        profile_args(before + seq!["-c"@, path] + after, None) == profile_args(
            before + after,
            Some(path),
        ),
        profile_args(before + seq!["--config"@, path] + after, Some(path)) is Err,
{
    lemma_config_between(before, path, after, "--config"@);
    lemma_config_between(before, path, after, "-c"@);
    let plain = before + after;
    assert forall|i: int| 0 <= i < plain.len() implies !names_config(#[trigger] plain[i]) by {
        if i < before.len() {
            assert(plain[i] == before[i]);
        } else {
            assert(plain[i] == after[i - before.len()]);
        }
    }
    lemma_no_config(plain, Some(path));
    lemma_named_twice(before, path, after);
}

proof fn lemma_named_twice(before: Seq<Seq<char>>, path: Seq<char>, after: Seq<Seq<char>>)
    requires
        forall|i: int| 0 <= i < before.len() ==> !names_config(#[trigger] before[i]),
    ensures
        without_config(before + seq!["--config"@, path] + after, Some(path)) is Err,
    decreases before.len(),
{
    let whole = before + seq!["--config"@, path] + after;
    if before.len() == 0 {
        assert(whole[0] == "--config"@);
    } else {
        let rest = before.drop_first();
        assert forall|i: int| 0 <= i < rest.len() implies !names_config(#[trigger] rest[i]) by {
            assert(rest[i] == before[i + 1]);
        }
        lemma_named_twice(rest, path, after);
        assert(whole[0] == before[0]);
        assert(!names_config(before[0]));
        assert(whole.drop_first() =~= rest + seq!["--config"@, path] + after);
    }
}

proof fn lemma_args_read(args: Seq<Seq<char>>, read: AddView)
    ensures
        add_read(spelled_args(args), read) == Ok::<AddView, ProfileArgsError>(
            AddView { args: read.args + args, ..read },
        ),
    decreases args.len(),
{
    let arguments = spelled_args(args);
    if args.len() == 0 {
        assert(read.args + args =~= read.args);
    } else {
        lemma_option_words();
        let rest = args.drop_first();
        let next = AddView { args: read.args.push(args.first()), ..read };
        assert(arguments[0] == "--arg"@ && arguments[1] == args.first());
        assert(arguments.skip(2) =~= spelled_args(rest));
        lemma_args_read(rest, next);
        assert(read.args.push(args.first()) + rest =~= read.args + args);
    }
}

proof fn lemma_option_words()
    ensures
        "--program"@ != "-p"@,
        "--arg"@ != "--program"@,
        "--arg"@ != "-p"@,
        "--theme"@ != "--program"@,
        "--theme"@ != "-p"@,
        "--theme"@ != "--arg"@,
        "--theme"@ != "-a"@,
        "-a"@ != "-p"@,
        "-a"@ != "--program"@,
        "-t"@ != "-a"@,
        "-t"@ != "-p"@,
        "-t"@ != "--program"@,
        "-t"@ != "--arg"@,
        is_option("--arg"@),
        is_option("-a"@),
        is_option("--program"@),
        is_option("-p"@),
        is_option("--theme"@),
        is_option("-t"@),
        is_option("--reset"@),
        is_option("-r"@),
{
    reveal_strlit("-");
    reveal_strlit("--arg");
    reveal_strlit("-a");
    reveal_strlit("--program");
    reveal_strlit("-p");
    reveal_strlit("--theme");
    reveal_strlit("-t");
    reveal_strlit("--reset");
    reveal_strlit("-r");
    assert("--arg"@.len() == 5 && "-a"@.len() == 2 && "--program"@.len() == 9);
    assert("-p"@.len() == 2 && "--theme"@.len() == 7 && "-t"@.len() == 2);
    assert("--reset"@.len() == 7 && "-r"@.len() == 2 && "-p"@[1] == 'p');
    assert("-a"@[1] == 'a' && "-t"@[1] == 't' && "-r"@[1] == 'r');
    assert("--reset"@[2] == 'r' && "--theme"@[2] == 't');
    assert("--arg"@.take(1) =~= "-"@ && "-a"@.take(1) =~= "-"@ && "--program"@.take(1) =~= "-"@);
    assert("-p"@.take(1) =~= "-"@ && "--theme"@.take(1) =~= "-"@ && "-t"@.take(1) =~= "-"@);
    assert("--reset"@.take(1) =~= "-"@ && "-r"@.take(1) =~= "-"@);
}

proof fn lemma_operations(arguments: Seq<Seq<char>>)
    ensures
        command_of("add"@, arguments) == add_command(arguments),
        command_of("theme"@, arguments) == theme_command(arguments),
        arguments.len() == 0 ==> command_of("list"@, arguments) == Ok::<
            ProfileCommandView,
            ProfileArgsError,
        >(ProfileCommandView::List),
        arguments.len() == 0 ==> command_of("themes"@, arguments) == Ok::<
            ProfileCommandView,
            ProfileArgsError,
        >(ProfileCommandView::Themes),
        arguments.len() == 1 && can_name(arguments[0]) ==> {
            &&& command_of("disable"@, arguments) == Ok::<ProfileCommandView, ProfileArgsError>(
                ProfileCommandView::Disable { profile: arguments[0] },
            )
            &&& command_of("enable"@, arguments) == Ok::<ProfileCommandView, ProfileArgsError>(
                ProfileCommandView::Enable { profile: arguments[0] },
            )
            &&& command_of("default"@, arguments) == Ok::<ProfileCommandView, ProfileArgsError>(
                ProfileCommandView::Default { profile: arguments[0] },
            )
            &&& command_of("remove"@, arguments) == Ok::<ProfileCommandView, ProfileArgsError>(
                ProfileCommandView::Remove { profile: arguments[0] },
            )
        },
{
    reveal_strlit("list");
    reveal_strlit("themes");
    reveal_strlit("disable");
    reveal_strlit("enable");
    reveal_strlit("theme");
    reveal_strlit("default");
    reveal_strlit("add");
    reveal_strlit("remove");
    assert("list"@.len() == 4 && "themes"@.len() == 6 && "disable"@.len() == 7);
    assert("enable"@.len() == 6 && "theme"@.len() == 5 && "default"@.len() == 7);
    assert("add"@.len() == 3 && "remove"@.len() == 6 && "enable"@[0] == 'e');
    assert("themes"@[0] == 't' && "remove"@[0] == 'r' && "default"@[1] == 'e');
    assert("disable"@[1] == 'i');
}

proof fn lemma_add_spelled(
    name: Seq<char>,
    program: Seq<char>,
    args: Seq<Seq<char>>,
    theme: Option<Seq<char>>,
)
    requires
        can_name(name),
        trimmed(program).len() > 0,
    ensures
        add_command(
            spelled(ProfileCommandView::Add { name, program, args, theme }).drop_first(),
        ) == Ok::<ProfileCommandView, ProfileArgsError>(
            ProfileCommandView::Add { name, program, args, theme },
        ),
{
    lemma_option_words();
    let arguments = spelled(ProfileCommandView::Add { name, program, args, theme }).drop_first();
    assert(arguments[0] == name);
    let named = AddView { name: Some(name), ..nothing_added() };
    let behind_name = arguments.drop_first();
    assert(add_read(arguments, nothing_added()) == add_read(behind_name, named));
    assert(behind_name[0] == "--program"@ && behind_name[1] == program);
    let with_program = AddView { program: Some(program), ..named };
    let behind_program = behind_name.skip(2);
    assert(add_read(behind_name, named) == add_read(behind_program, with_program));
    match theme {
        None => {
            assert(behind_program =~= spelled_args(args));
            lemma_args_read(args, with_program);
        },
        Some(theme) => {
            assert(behind_program[0] == "--theme"@ && behind_program[1] == theme);
            assert(behind_program.skip(2) =~= spelled_args(args));
            let with_theme = AddView { theme: Some(theme), ..with_program };
            assert(add_read(behind_program, with_program) == add_read(
                spelled_args(args),
                with_theme,
            ));
            lemma_args_read(args, with_theme);
        },
    }
    assert(Seq::<Seq<char>>::empty() + args =~= args);
}

proof fn lemma_theme_spelled(profile: Seq<char>, theme: Option<Seq<char>>)
    requires
        can_be_typed(ProfileCommandView::Theme { profile, theme }),
    ensures
        theme_command(
            spelled(ProfileCommandView::Theme { profile, theme }).drop_first(),
        ) == Ok::<ProfileCommandView, ProfileArgsError>(
            ProfileCommandView::Theme { profile, theme },
        ),
{
    lemma_option_words();
    let arguments = spelled(ProfileCommandView::Theme { profile, theme }).drop_first();
    let second = match theme {
        None => "--reset"@,
        Some(theme) => theme,
    };
    assert(arguments =~= seq![profile, second]);
    assert(arguments.drop_last() =~= seq![profile]);
    assert(arguments.drop_last().drop_last() =~= Seq::<Seq<char>>::empty());
    reveal_with_fuel(theme_words, 3);
    assert(arguments.last() == second && arguments.drop_last().last() == profile);
    assert(Seq::<Seq<char>>::empty().push(profile) =~= seq![profile]);
    assert(seq![profile].push(second) =~= seq![profile, second]);
}

/// Every command can be typed, and what is typed for it is read as that command,
/// with its own profile, program, arguments and theme. The words typed must not be
/// among those that ask for help or name the configuration file.
pub proof fn law_typed_commands_are_read(command: ProfileCommandView, path: Option<Seq<char>>)
    requires
        can_be_typed(command),
        forall|i: int|
            0 <= i < spelled(command).len() ==> is_plain_word(#[trigger] spelled(command)[i]),
    ensures
        profile_args(spelled(command), path) == Ok::<ParsedProfileView, ProfileArgsError>(
            ParsedProfileView::Command { config_path: path, command },
        ),
{
    let arguments = spelled(command);
    assert forall|i: int| 0 <= i < arguments.len() implies !names_config(#[trigger] arguments[i]) by {
        assert(is_plain_word(arguments[i]));
    }
    lemma_no_config(arguments, path);
    assert(!any_help(arguments)) by {
        if any_help(arguments) {
            let i = choose|i: int| 0 <= i < arguments.len() && asks_help(#[trigger] arguments[i]);
            assert(is_plain_word(arguments[i]));
        }
    }
    let rest = arguments.drop_first();
    lemma_operations(rest);
    match command {
        ProfileCommandView::Add { name, program, args, theme } => {
            lemma_add_spelled(name, program, args, theme);
            assert(arguments[0] == "add"@);
        },
        ProfileCommandView::Theme { profile, theme } => {
            lemma_theme_spelled(profile, theme);
            assert(arguments[0] == "theme"@);
        },
        ProfileCommandView::List => {
            assert(rest.len() == 0 && arguments[0] == "list"@);
        },
        ProfileCommandView::Themes => {
            assert(rest.len() == 0 && arguments[0] == "themes"@);
        },
        ProfileCommandView::Disable { profile } => {
            assert(rest =~= seq![profile] && arguments[0] == "disable"@);
        },
        ProfileCommandView::Enable { profile } => {
            assert(rest =~= seq![profile] && arguments[0] == "enable"@);
        },
        ProfileCommandView::Default { profile } => {
            assert(rest =~= seq![profile] && arguments[0] == "default"@);
        },
        ProfileCommandView::Remove { profile } => {
            assert(rest =~= seq![profile] && arguments[0] == "remove"@);
        },
    }
}

proof fn lemma_option_and_rest(name: Seq<char>, value: Seq<char>, rest: Seq<Seq<char>>)
    ensures
        (seq![name, value] + rest)[0] == name,
        (seq![name, value] + rest)[1] == value,
        (seq![name, value] + rest).skip(2) == rest,
{
    assert((seq![name, value] + rest).skip(2) =~= rest);
}

/// The short options of `add` and `theme` stand for the long ones.
pub proof fn law_short_profile_options_stand_for_long_ones(
    value: Seq<char>,
    rest: Seq<Seq<char>>,
    read: AddView,
    before: Seq<Seq<char>>,
)
    ensures
        add_read(seq!["-p"@, value] + rest, read) == add_read(
            seq!["--program"@, value] + rest,
            read,
        ),
        add_read(seq!["-a"@, value] + rest, read) == add_read(seq!["--arg"@, value] + rest, read),
        add_read(seq!["-t"@, value] + rest, read) == add_read(seq!["--theme"@, value] + rest, read),
        theme_words(before.push("-r"@)) == theme_words(before.push("--reset"@)),
        theme_words(before) matches Ok((reset, words)) ==> !reset ==> theme_words(
            before.push("-r"@),
        ) == Ok::<(bool, Seq<Seq<char>>), ProfileArgsError>((true, words)),
{
    lemma_option_words();
    lemma_option_and_rest("-p"@, value, rest);
    lemma_option_and_rest("--program"@, value, rest);
    lemma_option_and_rest("-a"@, value, rest);
    lemma_option_and_rest("--arg"@, value, rest);
    lemma_option_and_rest("-t"@, value, rest);
    lemma_option_and_rest("--theme"@, value, rest);
    assert(before.push("-r"@).drop_last() =~= before);
    assert(before.push("--reset"@).drop_last() =~= before);
}

/// A command that is accepted names a profile that can be one, and a program that
/// is not blank; where help is asked for, nothing is done.
pub proof fn law_accepted_commands_are_sound(arguments: Seq<Seq<char>>, path: Option<Seq<char>>)
    ensures
        profile_args(arguments, path) matches Ok(ParsedProfileView::Command {
            config_path,
            command,
        }) ==> match command {
            ProfileCommandView::List | ProfileCommandView::Themes => true,
            ProfileCommandView::Disable { profile } => is_profile_name(profile),
            ProfileCommandView::Enable { profile } => is_profile_name(profile),
            ProfileCommandView::Default { profile } => is_profile_name(profile),
            ProfileCommandView::Remove { profile } => is_profile_name(profile),
            ProfileCommandView::Theme { profile, theme } => is_profile_name(profile) && (
            theme matches Some(theme) ==> theme.len() > 0),
            ProfileCommandView::Add { name, program, args, theme } => is_profile_name(name)
                && trimmed(program).len() > 0,
        },
        (forall|i: int| 0 <= i < arguments.len() ==> !names_config(#[trigger] arguments[i]))
            && arguments.contains("--help"@) ==> (profile_args(arguments, path) matches Ok(
            ParsedProfileView::Help { operation },
        ) && (!is_option(arguments[0]) ==> operation == Some(arguments[0]))),
{
    if (forall|i: int| 0 <= i < arguments.len() ==> !names_config(#[trigger] arguments[i]))
        && arguments.contains("--help"@) {
        lemma_no_config(arguments, path);
        let i = choose|i: int| 0 <= i < arguments.len() && arguments[i] == "--help"@;
        assert(asks_help(arguments[i]));
        assert(arguments.first() == arguments[0]);
    }
}

} // verus!
