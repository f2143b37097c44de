//! The errors of the supervisor and their messages.

use crate::text::{decimal, decimal_text};
use vstd::prelude::*;
use vstd::string::*;

verus! {

/// One process that could not be terminated.
#[derive(Debug, Clone, PartialEq, Eq)]
pub struct StopFailure {
    /// The entry whose process it was.
    pub path: String,
    /// What the operating system answered.
    pub reason: String,
}

/// What a `StopFailure` holds, as mathematical values.
pub struct StopFailureView {
    pub path: Seq<char>,
    pub reason: Seq<char>,
}

impl View for StopFailure {
    type V = StopFailureView;

    open spec fn view(&self) -> StopFailureView {
        StopFailureView { path: self.path@, reason: self.reason@ }
    }
}

impl DeepView for StopFailure {
    type V = StopFailureView;

    open spec fn deep_view(&self) -> StopFailureView {
        self@
    }
}

/// Every way in which an operation of the supervisor can fail.
#[derive(Debug, Clone, PartialEq, Eq)]
pub enum NexusError {
    /// The path to add is empty or whitespace only.
    InvalidInput,
    /// There is no entry at `index`; the list holds `len` entries.
    IndexOutOfRange { index: usize, len: usize },
    /// A process for this path is already tracked.
    AlreadyRunning(String),
    /// No process for this path is tracked.
    NotRunning(String),
    /// The operating system refused to start the process.
    SpawnError { path: String, reason: String },
    /// The operating system refused to terminate the process.
    KillError { path: String, reason: String },
    /// Some of the processes could not be terminated while stopping all.
    PartialStopFailure(Vec<StopFailure>),
    /// The backing file could not be read, decoded, encoded or written.
    PersistenceError(String),
}

/// What a `NexusError` holds, as mathematical values.
pub enum ErrorView {
    InvalidInput,
    IndexOutOfRange { index: nat, len: nat },
    AlreadyRunning(Seq<char>),
    NotRunning(Seq<char>),
    SpawnError { path: Seq<char>, reason: Seq<char> },
    KillError { path: Seq<char>, reason: Seq<char> },
    PartialStopFailure(Seq<StopFailureView>),
    PersistenceError(Seq<char>),
}

impl DeepView for NexusError {
    type V = ErrorView;

    open spec fn deep_view(&self) -> ErrorView {
        self@
    }
}

impl View for NexusError {
    type V = ErrorView;

    open spec fn view(&self) -> ErrorView {
        match *self {
            NexusError::InvalidInput => ErrorView::InvalidInput,
            NexusError::IndexOutOfRange { index, len } => ErrorView::IndexOutOfRange {
                index: index as nat,
                len: len as nat,
            },
            NexusError::AlreadyRunning(path) => ErrorView::AlreadyRunning(path@),
            NexusError::NotRunning(path) => ErrorView::NotRunning(path@),
            NexusError::SpawnError { path, reason } => ErrorView::SpawnError {
                path: path@,
                reason: reason@,
            },
            NexusError::KillError { path, reason } => ErrorView::KillError {
                path: path@,
                reason: reason@,
            },
            NexusError::PartialStopFailure(failures) => ErrorView::PartialStopFailure(
                failures.deep_view(),
            ),
            NexusError::PersistenceError(reason) => ErrorView::PersistenceError(reason@),
        }
    }
}

/// What an answer of the operating system holds: nothing, or the reason of its
/// refusal.
pub open spec fn outcome_view(outcome: Result<(), String>) -> Result<(), Seq<char>> {
    match outcome {
        Ok(_) => Ok(()),
        Err(reason) => Err(reason@),
    }
}

/// What the result of an operation holds: nothing, or the view of its error.
pub open spec fn result_view(result: Result<(), NexusError>) -> Result<(), ErrorView> {
    match result {
        Ok(_) => Ok(()),
        Err(error) => Err(error@),
    }
}

/// The line that reports one process that could not be terminated.
pub open spec fn failure_line(failure: StopFailureView) -> Seq<char> {
    "Failed to stop "@ + failure.path + ": "@ + failure.reason
}

/// The lines of all `failures`, in order, separated by a comma and a space.
pub open spec fn failure_lines(failures: Seq<StopFailureView>) -> Seq<char>
    decreases failures.len(),
{
    if failures.len() == 0 {
        Seq::empty()
    } else if failures.len() == 1 {
        failure_line(failures[0])
    } else {
        failure_lines(failures.drop_last()) + ", "@ + failure_line(failures.last())
    }
}

/// The message of an error: the area it belongs to, then what went wrong.
pub open spec fn message_text(error: ErrorView) -> Seq<char> {
    match error {
        ErrorView::InvalidInput => "File operation error: Cannot add empty executable path"@,
        ErrorView::IndexOutOfRange { index, len } => "File operation error: Invalid index "@
            + decimal_text(index) + " for exe list of length "@ + decimal_text(len),
        ErrorView::AlreadyRunning(path) => "Process launch error: Process is already running: "@
            + path,
        ErrorView::NotRunning(path) => "Process stop error: Process is not running: "@ + path,
        ErrorView::SpawnError { path, reason } => "Process launch error: Failed to launch "@ + path
            + ": "@ + reason,
        ErrorView::KillError { path, reason } => "Process stop error: "@ + failure_line(
            StopFailureView { path, reason },
        ),
        ErrorView::PartialStopFailure(failures) =>
            "Process stop error: Failed to stop some processes: "@ + failure_lines(failures),
        ErrorView::PersistenceError(reason) => "File operation error: "@ + reason,
    }
}

impl StopFailure {
    /// The line that reports this failure.
    pub fn line(&self) -> (r: String)
        ensures
            r@ == failure_line(self@),
    {
        String::from_str("Failed to stop ").concat(self.path.as_str()).concat(": ").concat(
            self.reason.as_str(),
        )
    }
}

/// Joins the lines of all `failures` with a comma and a space.
fn join_failures(failures: &Vec<StopFailure>) -> (r: String)
    ensures
        r@ == failure_lines(failures.deep_view()),
{
    let mut text = String::new();
    let mut i: usize = 0;
    while i < failures.len()
        invariant
            i <= failures.len(),
            text@ == failure_lines(failures.deep_view().take(i as int)),
        decreases failures.len() - i,
    {
        let line = failures[i].line();
        proof {
            let all = failures.deep_view();
            let next = all.take(i + 1);
            assert(next.drop_last() =~= all.take(i as int));
            assert(next.last() == failures[i as int]@);
            if i > 0 {
                assert(all.take(i as int).len() > 0);
            }
        }
        if i > 0 {
            text.append(", ");
        }
        text.append(line.as_str());
        assert(text@ =~= failure_lines(failures.deep_view().take(i + 1)));
        i = i + 1;
    }
    assert(failures.deep_view().take(i as int) =~= failures.deep_view());
    text
}

impl NexusError {
    /// The message of this error, as it is shown to the user.
    pub fn message(&self) -> (r: String)
        ensures
            r@ == message_text(self@),
    {
        match self {
            NexusError::InvalidInput => String::from_str(
                "File operation error: Cannot add empty executable path",
            ),
            NexusError::IndexOutOfRange { index, len } => {
                let at = decimal(*index);
                let of = decimal(*len);
                String::from_str("File operation error: Invalid index ").concat(
                    at.as_str(),
                ).concat(" for exe list of length ").concat(of.as_str())
            },
            NexusError::AlreadyRunning(path) => String::from_str(
                "Process launch error: Process is already running: ",
            ).concat(path.as_str()),
            NexusError::NotRunning(path) => String::from_str(
                "Process stop error: Process is not running: ",
            ).concat(path.as_str()),
            NexusError::SpawnError { path, reason } => String::from_str(
                "Process launch error: Failed to launch ",
            ).concat(path.as_str()).concat(": ").concat(reason.as_str()),
            NexusError::KillError { path, reason } => {
                let r = String::from_str("Process stop error: Failed to stop ").concat(
                    path.as_str(),
                ).concat(": ").concat(reason.as_str());
                proof {
                    reveal_strlit("Process stop error: Failed to stop ");
                    reveal_strlit("Process stop error: ");
                    reveal_strlit("Failed to stop ");
                    assert("Process stop error: Failed to stop "@ =~= "Process stop error: "@
                        + "Failed to stop "@);
                    assert(r@ =~= message_text(self@));
                }
                r
            },
            NexusError::PartialStopFailure(failures) => {
                let lines = join_failures(failures);
                String::from_str("Process stop error: Failed to stop some processes: ").concat(
                    lines.as_str(),
                )
            },
            NexusError::PersistenceError(reason) => String::from_str(
                "File operation error: ",
            ).concat(reason.as_str()),
        }
    }
}

} // verus!
