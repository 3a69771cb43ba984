//! Where a process keeps its configuration and its session catalogs.

use vstd::prelude::*;

use crate::path::{below, join};

verus! {

/// The variables that say where a configuration is kept.
#[derive(Clone, Copy, Debug)]
pub struct ConfigVariables<'a> {
    /// `APPDATA`, which counts on Windows alone.
    pub app_data: Option<&'a str>,
    /// `XDG_CONFIG_HOME`, which counts elsewhere.
    pub xdg_config_home: Option<&'a str>,
    /// `HOME`, which counts elsewhere.
    pub home: Option<&'a str>,
}

/// The configuration directory, given the variables and the directory for
/// temporary files. Off Windows an empty variable counts as absent.
pub open spec fn config_dir(
    variables: ConfigVariables<'_>,
    temporary: Seq<char>,
    windows: bool,
) -> Seq<char> {
    if windows {
        match variables.app_data {
            Some(path) => below(path@, "Zetta"@, true),
            None => below(temporary, "zetta"@, true),
        }
    } else {
        match variables.xdg_config_home {
            Some(path) if path@.len() > 0 => below(path@, "zetta"@, false),
            _ => match variables.home {
                Some(path) if path@.len() > 0 => below(path@, ".config/zetta"@, false),
                _ => below(temporary, "zetta"@, false),
            },
        }
    }
}

pub open spec fn str_view(text: Option<&str>) -> Option<Seq<char>> {
    match text {
        Some(text) => Some(text@),
        None => None,
    }
}

/// The configuration directory. See [`config_dir`].
pub fn platform_config_dir(variables: ConfigVariables<'_>, temporary: &str, windows: bool) -> (result:
    String)
    ensures
        result@ == config_dir(variables, temporary@, windows),
{
    if windows {
        return match variables.app_data {
            Some(path) => join(path, "Zetta", true),
            None => join(temporary, "zetta", true),
        };
    }
    if let Some(path) = variables.xdg_config_home {
        if !path.is_empty() {
            return join(path, "zetta", false);
        }
    }
    if let Some(path) = variables.home {
        if !path.is_empty() {
            return join(path, ".config/zetta", false);
        }
    }
    join(temporary, "zetta", false)
}

/// Where session catalogs are published, below the configuration directory.
pub fn session_catalog_dir(config_dir: &str, windows: bool) -> (result: String)
    ensures
        result@ == below(config_dir@, "sessions"@, windows),
{
    join(config_dir, "sessions", windows)
}

} // verus!
