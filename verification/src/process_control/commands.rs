//! The names of the commands that a request can ask for.

use vstd::prelude::*;

use crate::text::same_text;

verus! {

/// A command that a request can ask for.
#[derive(Clone, Copy, Debug, PartialEq, Eq, Structural)]
pub enum CommandName {
    ReloadConfiguration,
    OpenWindow,
    NewWindow,
    OpenProject,
    ReloadProjects,
    GetSilentMode,
    ReplacePane,
    RunWait,
    RunComplete,
    RunPane,
    RunShellCommand,
    OpenCommand,
    ListPanes,
    OpenRemoteSession,
    ReconnectSession,
    ResumeDiskSession,
    SetTabIcon,
    SetTheme,
    ListThemes,
    GetPaneTheme,
    SetOverlay,
    SetTabAttention,
    FocusTab,
    SetTabName,
    SetWorktreeName,
}

impl CommandName {
    /// The command's name on the wire.
    pub open spec fn word(self) -> Seq<char> {
        match self {
            CommandName::ReloadConfiguration => "reload_configuration"@,
            CommandName::OpenWindow => "open_window"@,
            CommandName::NewWindow => "new_window"@,
            CommandName::OpenProject => "open_project"@,
            CommandName::ReloadProjects => "reload_projects"@,
            CommandName::GetSilentMode => "get_silent_mode"@,
            CommandName::ReplacePane => "replace_pane"@,
            CommandName::RunWait => "run_wait"@,
            CommandName::RunComplete => "run_complete"@,
            CommandName::RunPane => "run_pane"@,
            CommandName::RunShellCommand => "run_shell_command"@,
            CommandName::OpenCommand => "open_command"@,
            CommandName::ListPanes => "list_panes"@,
            CommandName::OpenRemoteSession => "open_remote_session"@,
            CommandName::ReconnectSession => "reconnect_session"@,
            CommandName::ResumeDiskSession => "resume_disk_session"@,
            CommandName::SetTabIcon => "set_tab_icon"@,
            CommandName::SetTheme => "set_theme"@,
            CommandName::ListThemes => "list_themes"@,
            CommandName::GetPaneTheme => "get_pane_theme"@,
            CommandName::SetOverlay => "set_overlay"@,
            CommandName::SetTabAttention => "set_tab_attention"@,
            CommandName::FocusTab => "focus_tab"@,
            CommandName::SetTabName => "set_tab_name"@,
            CommandName::SetWorktreeName => "set_worktree_name"@,
        }
    }

    /// The command's name on the wire.
    pub fn name(self) -> (result: &'static str)
        ensures
            result@ == self.word(),
    {
        match self {
            CommandName::ReloadConfiguration => "reload_configuration",
            CommandName::OpenWindow => "open_window",
            CommandName::NewWindow => "new_window",
            CommandName::OpenProject => "open_project",
            CommandName::ReloadProjects => "reload_projects",
            CommandName::GetSilentMode => "get_silent_mode",
            CommandName::ReplacePane => "replace_pane",
            CommandName::RunWait => "run_wait",
            CommandName::RunComplete => "run_complete",
            CommandName::RunPane => "run_pane",
            CommandName::RunShellCommand => "run_shell_command",
            CommandName::OpenCommand => "open_command",
            CommandName::ListPanes => "list_panes",
            CommandName::OpenRemoteSession => "open_remote_session",
            CommandName::ReconnectSession => "reconnect_session",
            CommandName::ResumeDiskSession => "resume_disk_session",
            CommandName::SetTabIcon => "set_tab_icon",
            CommandName::SetTheme => "set_theme",
            CommandName::ListThemes => "list_themes",
            CommandName::GetPaneTheme => "get_pane_theme",
            CommandName::SetOverlay => "set_overlay",
            CommandName::SetTabAttention => "set_tab_attention",
            CommandName::FocusTab => "focus_tab",
            CommandName::SetTabName => "set_tab_name",
            CommandName::SetWorktreeName => "set_worktree_name",
        }
    }

    /// The command with a name, if it is one.
    pub fn parse(word: &str) -> (result: Option<CommandName>)
        ensures
            result == command_named(word@),
    {
        let result = CommandName::find(word);
        proof {
            if let Some(name) = result {
                let chosen = choose|name: CommandName| #[trigger] name.word() == word@;
                law_command_names_are_distinct(name, chosen);
            }
        }
        result
    }

    fn find(word: &str) -> (result: Option<CommandName>)
        ensures
            result matches Some(name) ==> name.word() == word@,
            result is None ==> forall|name: CommandName| #[trigger] name.word() != word@,
    {
        if same_text(word, "reload_configuration") {
            Some(CommandName::ReloadConfiguration)
        } else if same_text(word, "open_window") {
            Some(CommandName::OpenWindow)
        } else if same_text(word, "new_window") {
            Some(CommandName::NewWindow)
        } else if same_text(word, "open_project") {
            Some(CommandName::OpenProject)
        } else if same_text(word, "reload_projects") {
            Some(CommandName::ReloadProjects)
        } else if same_text(word, "get_silent_mode") {
            Some(CommandName::GetSilentMode)
        } else if same_text(word, "replace_pane") {
            Some(CommandName::ReplacePane)
        } else if same_text(word, "run_wait") {
            Some(CommandName::RunWait)
        } else if same_text(word, "run_complete") {
            Some(CommandName::RunComplete)
        } else if same_text(word, "run_pane") {
            Some(CommandName::RunPane)
        } else if same_text(word, "run_shell_command") {
            Some(CommandName::RunShellCommand)
        } else if same_text(word, "open_command") {
            Some(CommandName::OpenCommand)
        } else if same_text(word, "list_panes") {
            Some(CommandName::ListPanes)
        } else if same_text(word, "open_remote_session") {
            Some(CommandName::OpenRemoteSession)
        } else if same_text(word, "reconnect_session") {
            Some(CommandName::ReconnectSession)
        } else if same_text(word, "resume_disk_session") {
            Some(CommandName::ResumeDiskSession)
        } else if same_text(word, "set_tab_icon") {
            Some(CommandName::SetTabIcon)
        } else if same_text(word, "set_theme") {
            Some(CommandName::SetTheme)
        } else if same_text(word, "list_themes") {
            Some(CommandName::ListThemes)
        } else if same_text(word, "get_pane_theme") {
            Some(CommandName::GetPaneTheme)
        } else if same_text(word, "set_overlay") {
            Some(CommandName::SetOverlay)
        } else if same_text(word, "set_tab_attention") {
            Some(CommandName::SetTabAttention)
        } else if same_text(word, "focus_tab") {
            Some(CommandName::FocusTab)
        } else if same_text(word, "set_tab_name") {
            Some(CommandName::SetTabName)
        } else if same_text(word, "set_worktree_name") {
            Some(CommandName::SetWorktreeName)
        } else {
            None
        }
    }
}

/// The command with a name, if it is one.
pub open spec fn command_named(word: Seq<char>) -> Option<CommandName> {
    if exists|name: CommandName| #[trigger] name.word() == word {
        Some(choose|name: CommandName| #[trigger] name.word() == word)
    } else {
        None
    }
}

/// No two commands have the same name.
pub proof fn law_command_names_are_distinct(left: CommandName, right: CommandName)
    ensures
        left.word() == right.word() ==> left == right,
{
    reveal_strlit("reload_configuration");
    reveal_strlit("open_window");
    reveal_strlit("new_window");
    reveal_strlit("open_project");
    reveal_strlit("reload_projects");
    reveal_strlit("get_silent_mode");
    reveal_strlit("replace_pane");
    reveal_strlit("run_wait");
    reveal_strlit("run_complete");
    reveal_strlit("run_pane");
    reveal_strlit("run_shell_command");
    reveal_strlit("open_command");
    reveal_strlit("list_panes");
    reveal_strlit("open_remote_session");
    reveal_strlit("reconnect_session");
    reveal_strlit("resume_disk_session");
    reveal_strlit("set_tab_icon");
    reveal_strlit("set_theme");
    reveal_strlit("list_themes");
    reveal_strlit("get_pane_theme");
    reveal_strlit("set_overlay");
    reveal_strlit("set_tab_attention");
    reveal_strlit("focus_tab");
    reveal_strlit("set_tab_name");
    reveal_strlit("set_worktree_name");
    if left.word() == right.word() {
        assert(left.word().len() == right.word().len());
        assert(left.word()[0] == right.word()[0]);
        assert(left.word()[1] == right.word()[1]);
        assert(left.word()[4] == right.word()[4]);
        assert(left.word()[5] == right.word()[5]);
        assert(left.word()[8] == right.word()[8]);
    }
}

/// A command's name names the command.
pub proof fn law_command_names_read_back(name: CommandName)
    ensures
        command_named(name.word()) == Some(name),
{
    let chosen = choose|other: CommandName| #[trigger] other.word() == name.word();
    law_command_names_are_distinct(name, chosen);
}

} // verus!
