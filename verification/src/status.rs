//! Operator-facing state carried between ticks: status messages, the
//! session display toggle, blocking-operation progress, and the outcome of
//! one key press.

use vstd::prelude::*;

verus! {

/// Which detail column the session rows show.
#[derive(Debug, Clone, Copy, PartialEq, Eq, Structural)]
pub enum SessionDisplayMode {
    ShowPaths,
    ShowLastRefresh,
}

impl SessionDisplayMode {
    /// The other display mode.
    pub fn toggled(self) -> (r: Self)
        ensures
            self is ShowPaths ==> r is ShowLastRefresh,
            self is ShowLastRefresh ==> r is ShowPaths,
    {
        match self {
            SessionDisplayMode::ShowPaths => SessionDisplayMode::ShowLastRefresh,
            SessionDisplayMode::ShowLastRefresh => SessionDisplayMode::ShowPaths,
        }
    }
}

/// Result of handling a key event.
#[derive(Debug, Clone, Copy, PartialEq, Eq, Structural)]
pub enum KeyAction {
    /// Continue running the event loop.
    Continue,
    /// Quit the application.
    Quit,
    /// Refresh sessions after the action.
    Refresh,
}

/// A one-line message for the status bar, by severity.
#[derive(Debug)]
pub enum StatusMessage {
    Info(String),
    Warning(String),
    Error(String),
}

/// Mathematical model of a `StatusMessage`.
pub enum StatusMessageView {
    Info(Seq<char>),
    Warning(Seq<char>),
    Error(Seq<char>),
}

impl View for StatusMessage {
    type V = StatusMessageView;

    open spec fn view(&self) -> StatusMessageView {
        match self {
            StatusMessage::Info(s) => StatusMessageView::Info(s@),
            StatusMessage::Warning(s) => StatusMessageView::Warning(s@),
            StatusMessage::Error(s) => StatusMessageView::Error(s@),
        }
    }
}

/// The text a status message carries, whatever its severity.
pub open spec fn message_text_rep(m: StatusMessageView) -> Seq<char> {
    match m {
        StatusMessageView::Info(s) => s,
        StatusMessageView::Warning(s) => s,
        StatusMessageView::Error(s) => s,
    }
}

impl StatusMessage {
    /// An informational message.
    pub fn info(msg: String) -> (r: Self)
        ensures
            r@ == StatusMessageView::Info(msg@),
    {
        StatusMessage::Info(msg)
    }

    /// A warning.
    pub fn warning(msg: String) -> (r: Self)
        ensures
            r@ == StatusMessageView::Warning(msg@),
    {
        StatusMessage::Warning(msg)
    }

    /// An error report.
    pub fn error(msg: String) -> (r: Self)
        ensures
            r@ == StatusMessageView::Error(msg@),
    {
        StatusMessage::Error(msg)
    }

    /// The message text, whatever the severity.
    pub fn text(&self) -> (r: &str)
        ensures
            r@ == message_text_rep(self@),
    {
        match self {
            StatusMessage::Info(s) => s.as_str(),
            StatusMessage::Warning(s) => s.as_str(),
            StatusMessage::Error(s) => s.as_str(),
        }
    }
}

/// Progress of a long-running batch shown in a modal while it runs.
#[derive(Debug)]
pub struct BlockingOperation {
    pub message: String,
    pub current: Option<usize>,
    pub total: Option<usize>,
}

} // verus!
