//! The help of `zetta profile`.

use vstd::prelude::*;

use crate::local_sessions::paths::str_view;
use crate::text::same_text;

verus! {

pub const LIST_HELP: &'static str = "List all resolved profiles\n\nUsage: zetta profile list [OPTIONS]\n\nPrints one resolved profile name per line, including hidden profiles.\n\nOptions:\n  -c, --config PATH  Use a configuration file\n  -h, --help         Print help";

pub const THEMES_HELP: &'static str = "List available profile themes\n\nUsage: zetta profile themes [OPTIONS]\n\nPrints sorted, deduplicated bundled and installed theme names, one per line.\n\nOptions:\n  -c, --config PATH  Use a configuration file\n  -h, --help         Print help";

pub const DISABLE_HELP: &'static str = "Hide a profile\n\nUsage: zetta profile disable PROFILE [OPTIONS]\n\nDisabling an already hidden profile succeeds without changing the file.\n\nOptions:\n  -c, --config PATH  Use a configuration file\n  -h, --help         Print help";

pub const ENABLE_HELP: &'static str = "Show a profile\n\nUsage: zetta profile enable PROFILE [OPTIONS]\n\nEnabling an already visible profile succeeds without changing the file.\n\nOptions:\n  -c, --config PATH  Use a configuration file\n  -h, --help         Print help";

pub const THEME_HELP: &'static str = "Set or reset a profile theme\n\nUsage: zetta profile theme PROFILE THEME [OPTIONS]\n       zetta profile theme PROFILE --reset [OPTIONS]\n\nTHEME must be listed by `zetta profile themes`.\n\nOptions:\n  -r, --reset        Remove the profile theme override\n  -c, --config PATH  Use a configuration file\n  -h, --help         Print help";

pub const DEFAULT_HELP: &'static str = "Set the default profile\n\nUsage: zetta profile default PROFILE [OPTIONS]\n\nOptions:\n  -c, --config PATH  Use a configuration file\n  -h, --help         Print help";

pub const ADD_HELP: &'static str = "Add a custom profile\n\nUsage: zetta profile add NAME --program PROGRAM [OPTIONS]\n\nOptions:\n  -p, --program PROGRAM  Program to launch\n  -a, --arg ARG          Add a repeatable program argument\n  -t, --theme THEME      Set a profile theme\n  -c, --config PATH      Use a configuration file\n  -h, --help             Print help";

pub const REMOVE_HELP: &'static str = "Remove a custom profile\n\nUsage: zetta profile remove PROFILE [OPTIONS]\n\nDetected profiles and the active default profile cannot be removed.\n\nOptions:\n  -c, --config PATH  Use a configuration file\n  -h, --help         Print help";

pub const PROFILE_HELP: &'static str = "Manage Zetta profiles\n\nUsage: zetta profile list [OPTIONS]\n       zetta profile themes [OPTIONS]\n       zetta profile disable PROFILE [OPTIONS]\n       zetta profile enable PROFILE [OPTIONS]\n       zetta profile theme PROFILE THEME [OPTIONS]\n       zetta profile theme PROFILE --reset [OPTIONS]\n       zetta profile default PROFILE [OPTIONS]\n       zetta profile add NAME --program PROGRAM [--arg ARG ...] [--theme THEME] [OPTIONS]\n       zetta profile remove PROFILE [OPTIONS]\n\nOperations:\n  list       List all resolved profiles, including hidden profiles\n  themes     List available bundled and installed themes\n  disable    Hide a profile\n  enable     Show a profile\n  theme      Set or reset a profile theme\n  default    Set the default profile\n  add        Add a custom profile\n  remove     Remove a custom profile\n\nThe -c/--config option may appear anywhere after `profile`. Mutations are validated before saving and request a best-effort live reload from a matching Zetta process.\n\nOptions:\n  -c, --config PATH  Use a configuration file\n  -h, --help         Print help";

/// The help on an operation, or on all of them.
pub open spec fn help_on(operation: Option<Seq<char>>) -> Seq<char> {
    match operation {
        None => PROFILE_HELP@,
        Some(name) => if name == "list"@ {
            LIST_HELP@
        } else if name == "themes"@ {
            THEMES_HELP@
        } else if name == "disable"@ {
            DISABLE_HELP@
        } else if name == "enable"@ {
            ENABLE_HELP@
        } else if name == "theme"@ {
            THEME_HELP@
        } else if name == "default"@ {
            DEFAULT_HELP@
        } else if name == "add"@ {
            ADD_HELP@
        } else if name == "remove"@ {
            REMOVE_HELP@
        } else {
            PROFILE_HELP@
        },
    }
}

/// The help on an operation, or on all of them.
pub fn profile_operation_help(operation: Option<&str>) -> (result: &'static str)
    ensures
        result@ == help_on(str_view(operation)),
{
    match operation {
        None => PROFILE_HELP,
        Some(name) => if same_text(name, "list") {
            LIST_HELP
        } else if same_text(name, "themes") {
            THEMES_HELP
        } else if same_text(name, "disable") {
            DISABLE_HELP
        } else if same_text(name, "enable") {
            ENABLE_HELP
        } else if same_text(name, "theme") {
            THEME_HELP
        } else if same_text(name, "default") {
            DEFAULT_HELP
        } else if same_text(name, "add") {
            ADD_HELP
        } else if same_text(name, "remove") {
            REMOVE_HELP
        } else {
            PROFILE_HELP
        },
    }
}

/// What is said of a change that was saved, by whether a running process took
/// it up. Nothing is said where one did.
pub fn reload_notice(taken_up: Result<bool, String>) -> (result: Option<String>)
    ensures
        match taken_up {
            Ok(true) => result is None,
            Ok(false) => result matches Some(notice) && notice@
                == "Notice: the profile change was saved, but no matching Zetta process was running; live state was not refreshed."@,
            Err(error) => result matches Some(notice) && notice@
                == "Notice: the profile change was saved, but live state was not refreshed ("@
                + error@ + ")."@,
        },
{
    match taken_up {
        Ok(true) => None,
        Ok(false) => Some(
            "Notice: the profile change was saved, but no matching Zetta process was running; live state was not refreshed.".to_owned(),
        ),
        Err(error) => {
            let mut notice = crate::text::joined(
                "Notice: the profile change was saved, but live state was not refreshed (",
                error.as_str(),
            );
            notice.push_str(").");
            Some(notice)
        },
    }
}

/// The help on an operation is that of the operation, and the help on anything else is
/// the common one.
pub proof fn law_help_is_on_the_operation(name: Seq<char>)
    ensures
        help_on(None) == PROFILE_HELP@,
        help_on(Some("list"@)) == LIST_HELP@,
        help_on(Some("themes"@)) == THEMES_HELP@,
        help_on(Some("disable"@)) == DISABLE_HELP@,
        help_on(Some("enable"@)) == ENABLE_HELP@,
        help_on(Some("theme"@)) == THEME_HELP@,
        help_on(Some("default"@)) == DEFAULT_HELP@,
        help_on(Some("add"@)) == ADD_HELP@,
        help_on(Some("remove"@)) == REMOVE_HELP@,
        name != "list"@ && name != "themes"@ && name != "disable"@ && name != "enable"@ && name
            != "theme"@ && name != "default"@ && name != "add"@ && name != "remove"@ ==> help_on(
            Some(name),
        ) == PROFILE_HELP@,
{
    reveal_strlit("list");
    reveal_strlit("themes");
    reveal_strlit("disable");
    reveal_strlit("enable");
    reveal_strlit("theme");
    reveal_strlit("default");
    reveal_strlit("add");
    reveal_strlit("remove");
    assert("list"@.len() == 4 && "themes"@.len() == 6 && "disable"@.len() == 7 && "enable"@.len()
        == 6);
    assert("theme"@.len() == 5 && "default"@.len() == 7 && "add"@.len() == 3 && "remove"@.len()
        == 6);
    assert("themes"@[0] == 't' && "enable"@[0] == 'e' && "remove"@[0] == 'r');
    assert("disable"@[1] == 'i' && "default"@[1] == 'e');
}

} // verus!
