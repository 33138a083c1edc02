//! The values that a multiplexer backend takes and gives.

use crate::plan::Command;
use vstd::prelude::*;

verus! {

/// Set inside a Zellij session.
pub const SESSION_VAR: &'static str = "ZELLIJ";

/// Holds the name of the session.
pub const SESSION_NAME_VAR: &'static str = "ZELLIJ_SESSION_NAME";

/// Holds the number of the pane.
pub const PANE_ID_VAR: &'static str = "ZELLIJ_PANE_ID";

/// Holds the name of the tab.
pub const TAB_NAME_VAR: &'static str = "ZELLIJ_TAB_NAME";

/// Holds the path of the user's shell.
pub const SHELL_VAR: &'static str = "SHELL";

/// The environment variables that the backend looks at. A variable that is not set, or
/// whose value is not valid Unicode, counts as absent.
#[derive(Debug)]
pub struct Environment {
    pub session: Option<String>,
    pub session_name: Option<String>,
    pub pane_id: Option<String>,
    pub tab_name: Option<String>,
    pub shell: Option<String>,
}

/// How a pane is split.
#[derive(Debug, Clone, Copy, PartialEq, Eq, Structural)]
pub enum SplitDirection {
    /// Panes side by side.
    Horizontal,
    /// Panes on top of each other.
    Vertical,
}

/// A client of the session and what its focused pane runs.
#[derive(Debug)]
pub struct ClientInfo {
    /// Such as `terminal_1` or `plugin_2`.
    pub pane_id: String,
    /// Such as `vim /tmp/file.txt` or `zsh`.
    pub running_command: String,
}

/// The model of `ClientInfo`.
#[verifier::ext_equal]
pub struct ClientView {
    pub pane_id: Seq<char>,
    pub running_command: Seq<char>,
}

impl View for ClientInfo {
    type V = ClientView;

    open spec fn view(&self) -> ClientView {
        ClientView { pane_id: self.pane_id@, running_command: self.running_command@ }
    }
}

/// What is known of a pane that is alive.
#[derive(Debug)]
pub struct LivePaneInfo {
    pub pid: u32,
    pub current_command: String,
    pub working_dir: String,
    pub title: Option<String>,
    pub session: Option<String>,
    pub window: Option<String>,
}

/// The model of `LivePaneInfo`.
#[verifier::ext_equal]
pub struct LivePaneView {
    pub pid: u32,
    pub current_command: Seq<char>,
    pub working_dir: Seq<char>,
    pub title: Option<Seq<char>>,
    pub session: Option<Seq<char>>,
    pub window: Option<Seq<char>>,
}

impl View for LivePaneInfo {
    type V = LivePaneView;

    open spec fn view(&self) -> LivePaneView {
        LivePaneView {
            pid: self.pid,
            current_command: self.current_command@,
            working_dir: self.working_dir@,
            title: self.title.deep_view(),
            session: self.session.deep_view(),
            window: self.window.deep_view(),
        }
    }
}

/// Why the backend refuses a request or gives it up.
#[derive(Debug, Clone, Copy, PartialEq, Eq, Structural)]
pub enum BackendError {
    /// A path cannot be put into a command because it is not valid Unicode.
    NonUtf8Path,
    /// A command failed whose error stands alone.
    CommandFailed,
}

impl BackendError {
    /// The message for the user; a failed command has its own.
    pub fn message(&self) -> (r: Option<&'static str>)
        ensures
            match self {
                BackendError::NonUtf8Path => r matches Some(m) && m@
                    == "Path contains non-UTF8 characters"@,
                BackendError::CommandFailed => r is None,
            },
    {
        match self {
            BackendError::NonUtf8Path => Some("Path contains non-UTF8 characters"),
            BackendError::CommandFailed => None,
        }
    }
}

/// What became of a command that was asked for.
#[derive(Debug)]
pub enum Reply<T> {
    /// It failed.
    Failed,
    /// It ended well and this is what it gave.
    Output(T),
}

/// The state of a question that may take a command to answer.
#[derive(Debug)]
pub enum Inquiry<T> {
    /// Run this command and ask again with the reply to it.
    Ask(Command),
    /// The answer.
    Done(Result<T, BackendError>),
}

/// The state of a wait.
#[derive(Debug)]
pub enum Wait {
    /// Run this command and ask again with the reply to it.
    Ask(Command),
    /// Wait this long, then start over without a reply.
    Sleep { millis: u64 },
    /// The wait is over.
    Done(Result<(), BackendError>),
}

/// What happened last in the capture of a pane.
#[derive(Debug)]
pub enum CaptureEvent {
    /// Nothing yet.
    Start,
    /// The screen was dumped, or could not be.
    Dumped(bool),
    /// The dump was read, or could not be.
    Read(Option<String>),
}

/// What to do next in the capture of a pane.
#[derive(Debug)]
pub enum CaptureAction {
    /// Run this command.
    Dump(Command),
    /// Read the dump.
    ReadDump,
    /// Remove the dump, whether or not that works, and yield this.
    RemoveDump(Option<String>),
    /// Yield nothing.
    GiveUp,
}

} // verus!
