//! What a process publishes about its detached sessions.

use vstd::prelude::*;
use vstd::string::StringSliceAdditionalSpecFns;

use crate::pane::layout::{PaneLayout, SplitAxis};
use crate::text::{
    characters, decimal, decimal_text, quoted, quoted_text, signed_decimal, signed_text,
};

verus! {

/// The ratio of a split whose record has none.
pub const DEFAULT_BACKGROUND_PANE_SPLIT_RATIO: u16 = 500;

/// The ratio of a split whose record has none.
pub fn default_background_pane_split_ratio() -> (result: u16)
    ensures
        result == DEFAULT_BACKGROUND_PANE_SPLIT_RATIO,
{
    DEFAULT_BACKGROUND_PANE_SPLIT_RATIO
}

/// The version of the catalog's format.
pub const CATALOG_VERSION: u32 = 1;

/// The detached sessions of one runner.
#[derive(Debug, PartialEq, Eq)]
pub struct BackgroundSessionCatalog {
    pub version: u32,
    pub process_id: u32,
    pub runner_id: u64,
    pub sessions: Vec<BackgroundSessionSummary>,
}

/// A pane layout as it is published.
#[derive(Debug, PartialEq, Eq)]
pub enum BackgroundPaneLayout {
    Pane { pane_id: u64 },
    Split {
        axis: String,
        first_ratio: u16,
        first: Box<BackgroundPaneLayout>,
        second: Box<BackgroundPaneLayout>,
    },
}

/// The published name of an axis.
pub open spec fn axis_name(axis: SplitAxis) -> Seq<char> {
    match axis {
        SplitAxis::Horizontal => "horizontal"@,
        SplitAxis::Vertical => "vertical"@,
    }
}

/// Whether a published layout is that of a pane tree: the same splits with
/// the same axes and ratios, and the same panes.
pub open spec fn publishes(published: BackgroundPaneLayout, layout: PaneLayout) -> bool
    decreases layout,
{
    match (published, layout) {
        (BackgroundPaneLayout::Pane { pane_id }, PaneLayout::Pane(id)) => pane_id == id,
        (
            BackgroundPaneLayout::Split {
                axis: published_axis,
                first_ratio: published_ratio,
                first: published_first,
                second: published_second,
            },
            PaneLayout::Split { axis, first_ratio, first, second },
        ) => {
            &&& published_axis@ == axis_name(axis)
            &&& published_ratio == first_ratio
            &&& publishes(*published_first, *first)
            &&& publishes(*published_second, *second)
        },
        _ => false,
    }
}

/// A pane layout as it is published.
pub fn background_pane_layout(layout: &PaneLayout) -> (result: BackgroundPaneLayout)
    ensures
        publishes(result, *layout),
    decreases layout,
{
    match layout {
        PaneLayout::Pane(pane_id) => BackgroundPaneLayout::Pane { pane_id: *pane_id },
        PaneLayout::Split { axis, first_ratio, first, second } => BackgroundPaneLayout::Split {
            axis: (match axis {
                SplitAxis::Horizontal => "horizontal",
                SplitAxis::Vertical => "vertical",
            }).to_owned(),
            first_ratio: *first_ratio,
            first: Box::new(background_pane_layout(&**first)),
            second: Box::new(background_pane_layout(&**second)),
        },
    }
}

/// Different pane trees are published differently.
pub proof fn law_published_layout_is_faithful(
    published: BackgroundPaneLayout,
    left: PaneLayout,
    right: PaneLayout,
)
    requires
        publishes(published, left),
        publishes(published, right),
    ensures
        left == right,
    decreases left,
{
    reveal_strlit("horizontal");
    reveal_strlit("vertical");
    match (published, left, right) {
        (
            BackgroundPaneLayout::Split { first, second, .. },
            PaneLayout::Split { first: left_first, second: left_second, axis: left_axis, .. },
            PaneLayout::Split { first: right_first, second: right_second, axis: right_axis, .. },
        ) => {
            law_published_layout_is_faithful(*first, *left_first, *right_first);
            law_published_layout_is_faithful(*second, *left_second, *right_second);
            assert(axis_name(left_axis).len() == axis_name(right_axis).len());
        },
        _ => {},
    }
}

/// What is published of one detached session.
#[derive(Debug, PartialEq, Eq)]
pub struct BackgroundSessionSummary {
    pub id: u64,
    pub title: String,
    pub authentication_required: bool,
    pub active_pane: u64,
    pub layout: BackgroundPaneLayout,
    pub panes: Vec<BackgroundPaneSummary>,
    pub held: bool,
    pub scoped_to: Option<u32>,
    pub key_envelope: Option<String>,
}

/// Whether `published` is what the public catalog shows of `session`. A
/// protected session shows neither its title nor its panes.
pub open spec fn shown_in_public(
    session: BackgroundSessionSummary,
    published: BackgroundSessionSummary,
) -> bool {
    if session.authentication_required {
        &&& published.title@ == "Protected session"@
        &&& published.active_pane == 0
        &&& published.layout == (BackgroundPaneLayout::Pane { pane_id: 0 })
        &&& published.panes@.len() == 0
        &&& published.authentication_required
        &&& published.id == session.id
        &&& published.held == session.held
        &&& published.scoped_to == session.scoped_to
        &&& published.key_envelope == session.key_envelope
    } else {
        published == session
    }
}

impl BackgroundSessionSummary {
    /// What the public catalog shows of the session.
    pub fn for_public_catalog(self) -> (result: BackgroundSessionSummary)
        ensures
            shown_in_public(self, result),
    {
        let mut result = self;
        if result.authentication_required {
            result.title = "Protected session".to_owned();
            result.active_pane = 0;
            result.layout = BackgroundPaneLayout::Pane { pane_id: 0 };
            result.panes = Vec::new();
        }
        result
    }
}

/// What the public catalog shows of a protected session does not depend on
/// its title, its panes or its layout.
pub proof fn law_public_catalog_hides_protected_sessions(
    session: BackgroundSessionSummary,
    other: BackgroundSessionSummary,
    published: BackgroundSessionSummary,
)
    requires
        session.authentication_required,
        shown_in_public(session, published),
        other == (BackgroundSessionSummary {
            title: other.title,
            active_pane: other.active_pane,
            layout: other.layout,
            panes: other.panes,
            ..session
        }),
    ensures
        shown_in_public(other, published),
{
}

/// What is published of one pane.
#[derive(Debug, PartialEq, Eq)]
pub struct BackgroundPaneSummary {
    pub id: u64,
    pub label: String,
    pub profile: String,
    pub configured_command: String,
    pub application: String,
    pub foreground_command: Option<Vec<String>>,
    pub terminal_title: Option<String>,
    pub working_directory: Option<String>,
    pub state: BackgroundPaneState,
    pub exit: Option<BackgroundPaneExit>,
}

#[derive(Clone, Copy, Debug, PartialEq, Eq, Structural)]
pub enum BackgroundPaneState {
    Starting,
    Running,
    Exited,
    Failed,
}

impl BackgroundPaneState {
    /// The state's name.
    pub fn name(self) -> (result: &'static str)
        ensures
            result@ == match self {
                BackgroundPaneState::Starting => "starting"@,
                BackgroundPaneState::Running => "running"@,
                BackgroundPaneState::Exited => "exited"@,
                BackgroundPaneState::Failed => "failed"@,
            },
    {
        match self {
            BackgroundPaneState::Starting => "starting",
            BackgroundPaneState::Running => "running",
            BackgroundPaneState::Exited => "exited",
            BackgroundPaneState::Failed => "failed",
        }
    }
}

#[derive(Clone, Copy, Debug, PartialEq, Eq, Structural)]
pub enum BackgroundPaneExitSource {
    Child,
    StatusUnavailable,
    WatcherDisconnected,
    BackendShutdown,
}

#[derive(Clone, Copy, Debug, PartialEq, Eq, Structural)]
pub enum BackgroundPaneExitReason {
    StatusUnavailable,
    WatcherDisconnected,
    BackendShutdown,
    ExitedBeforeInput,
    ForegroundCommand,
}

/// How an interactive terminal ended when nobody expected it to.
#[derive(Debug, PartialEq, Eq)]
pub struct BackgroundPaneExit {
    pub source: BackgroundPaneExitSource,
    pub reason: BackgroundPaneExitReason,
    pub exit_code: Option<i32>,
    pub child_pid: Option<u32>,
    pub input_sent: bool,
    pub foreground_is_shell: Option<bool>,
    pub foreground_command: Option<String>,
}

/// A character that a published command may have.
pub open spec fn is_publishable_character(character: char) -> bool {
    ||| 'a' <= character <= 'z'
    ||| 'A' <= character <= 'Z'
    ||| '0' <= character <= '9'
    ||| character == '-'
    ||| character == '_'
    ||| character == '.'
}

/// A command that may be published: a bare name of at most 64 characters.
pub open spec fn is_publishable_command(command: Seq<char>) -> bool {
    &&& 0 < command.len() <= 64
    &&& forall|i: int| 0 <= i < command.len() ==> is_publishable_character(#[trigger] command[i])
}

/// The longest command that is published, in bytes.
pub const MAX_PUBLISHED_COMMAND_BYTES: usize = 64;

impl BackgroundPaneExit {
    /// Whether a command may be published.
    pub fn foreground_command_is_publishable(command: &str) -> (result: bool)
        ensures
            result == is_publishable_command(command@),
    {
        let content = characters(command);
        let mut index: usize = 0;
        while index < content.len()
            invariant
                content@ == command@,
                index <= content@.len(),
                forall|i: int| 0 <= i < index ==> is_publishable_character(#[trigger] command@[i]),
            decreases content@.len() - index,
        {
            let character = content[index];
            let publishable = ('a' <= character && character <= 'z') || ('A' <= character
                && character <= 'Z') || ('0' <= character && character <= '9') || character == '-'
                || character == '_' || character == '.';
            if !publishable {
                proof {
                    assert(!is_publishable_character(command@[index as int]));
                }
                return false;
            }
            index = index + 1;
        }
        proof {
            assert(vstd::utf8::is_ascii_chars(command@)) by {
                assert forall|i: int| 0 <= i < command@.len() implies '\0' <= #[trigger] command@[i]
                    <= '\u{7f}' by {
                    assert(is_publishable_character(command@[i]));
                }
            }
            vstd::utf8::is_ascii_chars_encode_utf8(command@);
        }
        !command.is_empty() && command.len() <= MAX_PUBLISHED_COMMAND_BYTES
    }

    /// The heading above the explanation of the exit.
    pub fn heading(&self) -> (result: &'static str)
        ensures
            result@ == match self.reason {
                BackgroundPaneExitReason::WatcherDisconnected =>
                "Lost contact with the session multiplexer"@,
                _ => "Terminal exited unexpectedly"@,
            },
    {
        match self.reason {
            BackgroundPaneExitReason::WatcherDisconnected =>
            "Lost contact with the session multiplexer",
            _ => "Terminal exited unexpectedly",
        }
    }

    /// Why the terminal ended, without the numbers.
    pub open spec fn cause(self) -> Seq<char> {
        match self.reason {
            BackgroundPaneExitReason::StatusUnavailable =>
            "the child exited but its exit status was unavailable"@,
            BackgroundPaneExitReason::WatcherDisconnected =>
            "the session owner stopped reporting this terminal's process, so its exit status cannot be observed here"@,
            BackgroundPaneExitReason::BackendShutdown =>
            "the terminal backend shut down unexpectedly"@,
            BackgroundPaneExitReason::ExitedBeforeInput =>
            "the shell exited before receiving user input"@,
            BackgroundPaneExitReason::ForegroundCommand => match self.foreground_command {
                Some(command) => "the shell exited while "@ + quoted_text(command@)
                    + " was foreground"@,
                None => "the shell exited while a command was foreground"@,
            },
        }
    }

    /// Why the terminal ended, with its exit code and process where known.
    pub open spec fn explanation(self) -> Seq<char> {
        let code = match self.exit_code {
            Some(code) => " (exit code "@ + signed_text(code as int) + ")"@,
            None => Seq::empty(),
        };
        let pid = match self.child_pid {
            Some(pid) => " [child PID "@ + decimal_text(pid as nat) + "]"@,
            None => Seq::empty(),
        };
        self.cause() + code + pid
    }

    /// Why the terminal ended, with its exit code and process where known.
    pub fn reason_text(&self) -> (result: String)
        ensures
            result@ == self.explanation(),
    {
        let mut text = match self.reason {
            BackgroundPaneExitReason::StatusUnavailable =>
            "the child exited but its exit status was unavailable".to_owned(),
            BackgroundPaneExitReason::WatcherDisconnected =>
            "the session owner stopped reporting this terminal's process, so its exit status cannot be observed here".to_owned(),
            BackgroundPaneExitReason::BackendShutdown =>
            "the terminal backend shut down unexpectedly".to_owned(),
            BackgroundPaneExitReason::ExitedBeforeInput =>
            "the shell exited before receiving user input".to_owned(),
            BackgroundPaneExitReason::ForegroundCommand => match &self.foreground_command {
                Some(command) => {
                    let mut text = "the shell exited while ".to_owned();
                    text.push_str(quoted(command.as_str()).as_str());
                    text.push_str(" was foreground");
                    text
                },
                None => "the shell exited while a command was foreground".to_owned(),
            },
        };
        proof {
            assert(text@ == self.cause());
            assert(self.cause() + Seq::<char>::empty() == self.cause());
        }
        if let Some(code) = self.exit_code {
            text.push_str(" (exit code ");
            text.push_str(signed_decimal(code).as_str());
            text.push_str(")");
            proof {
                assert(text@ == self.cause() + (" (exit code "@ + signed_text(code as int)
                    + ")"@));
            }
        }
        let ghost before = text@;
        proof {
            assert(before + Seq::<char>::empty() == before);
        }
        if let Some(pid) = self.child_pid {
            text.push_str(" [child PID ");
            text.push_str(decimal(pid as u64).as_str());
            text.push_str("]");
            proof {
                assert(text@ == before + (" [child PID "@ + decimal_text(pid as nat) + "]"@));
            }
        }
        text
    }
}

} // verus!
