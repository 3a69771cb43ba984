//! Which actions a build offers.

use vstd::prelude::*;

use crate::text::same_text;

verus! {

/// What a build was made with.
#[derive(Clone, Copy, Debug, PartialEq, Eq, Structural)]
pub struct BuildFeatures {
    pub serial_console: bool,
    pub http_server: bool,
    pub tftp_server: bool,
    pub macos: bool,
}

/// Whether a build offers an action.
pub open spec fn is_enabled(name: Seq<char>, features: BuildFeatures) -> bool {
    &&& name == "zetta::ToggleSerialConsole"@ ==> features.serial_console
    &&& name == "zetta::StartHttpServer"@ ==> features.http_server
    &&& name == "zetta::StartTftpServer"@ ==> features.tftp_server
    &&& name == "zetta::RequestFocusStatusAccess"@ ==> features.macos
}

/// Whether a build offers an action: those that need what it was made without
/// are left out.
pub fn action_is_enabled_in_build(name: &str, features: BuildFeatures) -> (result: bool)
    ensures
        result == is_enabled(name@, features),
{
    if same_text(name, "zetta::ToggleSerialConsole") && !features.serial_console {
        return false;
    }
    if same_text(name, "zetta::StartHttpServer") && !features.http_server {
        return false;
    }
    if same_text(name, "zetta::StartTftpServer") && !features.tftp_server {
        return false;
    }
    if same_text(name, "zetta::RequestFocusStatusAccess") && !features.macos {
        return false;
    }
    true
}

/// What is not built in is not offered, and every other action is.
pub proof fn law_actions_follow_the_build(name: Seq<char>, features: BuildFeatures)
    ensures
        is_enabled("zetta::ToggleSerialConsole"@, features) == features.serial_console,
        is_enabled("zetta::StartHttpServer"@, features) == features.http_server,
        is_enabled("zetta::StartTftpServer"@, features) == features.tftp_server,
        is_enabled("zetta::RequestFocusStatusAccess"@, features) == features.macos,
        name != "zetta::ToggleSerialConsole"@ && name != "zetta::StartHttpServer"@ && name
            != "zetta::StartTftpServer"@ && name != "zetta::RequestFocusStatusAccess"@
            ==> is_enabled(name, features),
{
    reveal_strlit("zetta::ToggleSerialConsole");
    reveal_strlit("zetta::StartHttpServer");
    reveal_strlit("zetta::StartTftpServer");
    reveal_strlit("zetta::RequestFocusStatusAccess");
    assert("zetta::ToggleSerialConsole"@.len() == 26 && "zetta::StartHttpServer"@.len() == 22);
    assert("zetta::StartTftpServer"@.len() == 22 && "zetta::RequestFocusStatusAccess"@.len() == 31);
    assert("zetta::StartHttpServer"@[12] == 'H' && "zetta::StartTftpServer"@[12] == 'T');
}

} // verus!
