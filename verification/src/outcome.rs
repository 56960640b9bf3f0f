//! What an invocation ends in: a result or one of a closed set of errors.

use crate::decode::{decode_text, decode_text_lossy, lenient_text, strict_text};
use vstd::prelude::*;
use vstd::string::StringExecFns;

verus! {

/// How a child process ended: with an exit code, or without one when it was
/// ended from outside.
#[derive(Clone, Copy, Debug, PartialEq, Eq)]
pub struct ExitStatus {
    pub code: Option<i32>,
}

impl ExitStatus {
    /// Success is exit code zero and nothing else.
    pub open spec fn succeeded(self) -> bool {
        self.code == Some(0i32)
    }

    /// Decides `succeeded`.
    pub fn success(&self) -> (r: bool)
        ensures
            r == self.succeeded(),
    {
        match self.code {
            Some(code) => code == 0,
            None => false,
        }
    }
}

/// One of the two streams captured from a child.
#[derive(Clone, Copy, Debug, PartialEq, Eq)]
pub enum Stream {
    Stdout,
    Stderr,
}

/// The successful outcome of an invocation.
#[derive(Clone, Debug, PartialEq, Eq)]
pub struct ProcessResult {
    /// The child's exit status.
    pub status: ExitStatus,
    /// What the child wrote to standard output, as text.
    pub stdout: String,
    /// What the child wrote to standard error.
    pub stderr: Vec<u8>,
}

/// `ProcessResult` as a mathematical value.
pub struct ProcessResultView {
    pub status: ExitStatus,
    pub stdout: Seq<char>,
    pub stderr: Seq<u8>,
}

impl View for ProcessResult {
    type V = ProcessResultView;

    open spec fn view(&self) -> ProcessResultView {
        ProcessResultView { status: self.status, stdout: self.stdout@, stderr: self.stderr@ }
    }
}

/// The ways in which an invocation fails.
#[derive(Clone, Debug, PartialEq, Eq)]
pub enum GatewayError {
    /// No candidate could be started; `candidate` is the last one tried.
    SpawnFailed { candidate: String, cause: String },
    /// The input could not be written to the child.
    StdinWriteFailed { cause: String },
    /// Waiting for the child failed.
    WaitFailed { cause: String },
    /// What the child wrote to `stream` is not UTF-8.
    NonUtf8Output { stream: Stream, cause: String },
    /// The child did not exit with code zero.
    NonZeroExit { stderr_text: String },
}

/// `GatewayError` as a mathematical value.
pub enum GatewayErrorView {
    SpawnFailed { candidate: Seq<char>, cause: Seq<char> },
    StdinWriteFailed { cause: Seq<char> },
    WaitFailed { cause: Seq<char> },
    NonUtf8Output { stream: Stream, cause: Seq<char> },
    NonZeroExit { stderr_text: Seq<char> },
}

impl View for GatewayError {
    type V = GatewayErrorView;

    open spec fn view(&self) -> GatewayErrorView {
        match *self {
            GatewayError::SpawnFailed { candidate, cause } => GatewayErrorView::SpawnFailed {
                candidate: candidate@,
                cause: cause@,
            },
            GatewayError::StdinWriteFailed { cause } => GatewayErrorView::StdinWriteFailed {
                cause: cause@,
            },
            GatewayError::WaitFailed { cause } => GatewayErrorView::WaitFailed { cause: cause@ },
            GatewayError::NonUtf8Output { stream, cause } => GatewayErrorView::NonUtf8Output {
                stream,
                cause: cause@,
            },
            GatewayError::NonZeroExit { stderr_text } => GatewayErrorView::NonZeroExit {
                stderr_text: stderr_text@,
            },
        }
    }
}

/// The outcome of an invocation as a mathematical value.
pub type OutcomeView = Result<ProcessResultView, GatewayErrorView>;

/// The mathematical value of an outcome.
pub open spec fn outcome_view(outcome: Result<ProcessResult, GatewayError>) -> OutcomeView {
    match outcome {
        Ok(result) => Ok(result@),
        Err(error) => Err(error@),
    }
}

/// The outcome of a finished child, given its output already decoded:
/// `decoded` is its standard output as text, or the reason why it is not
/// text; `stderr_text` is its standard error as text.
pub open spec fn settlement(
    status: ExitStatus,
    decoded: Result<Seq<char>, Seq<char>>,
    stderr: Seq<u8>,
    stderr_text: Seq<char>,
) -> OutcomeView {
    match decoded {
        Err(cause) => Err(GatewayErrorView::NonUtf8Output { stream: Stream::Stdout, cause }),
        Ok(stdout) => if status.succeeded() {
            Ok(ProcessResultView { status, stdout, stderr })
        } else {
            Err(GatewayErrorView::NonZeroExit { stderr_text })
        },
    }
}

/// The outcome of a child that ended with `status`, having written `stdout`
/// and `stderr`. Standard output that is not UTF-8 is an error whatever the
/// status; otherwise exit code zero is success, and anything else fails with
/// standard error as text, decoded leniently.
pub open spec fn conclusion(status: ExitStatus, stdout: Seq<u8>, stderr: Seq<u8>) -> OutcomeView {
    settlement(status, strict_text(stdout), stderr, lenient_text(stderr))
}

/// What each side of a decoding result holds.
pub open spec fn decoded_view(decoded: Result<String, String>) -> Result<Seq<char>, Seq<char>> {
    match decoded {
        Ok(text) => Ok(text@),
        Err(cause) => Err(cause@),
    }
}

/// Decides the outcome of a finished child from its output already decoded.
pub fn settle(
    status: ExitStatus,
    decoded: Result<String, String>,
    stderr: Vec<u8>,
    stderr_text: String,
) -> (outcome: Result<ProcessResult, GatewayError>)
    ensures
        outcome_view(outcome) == settlement(status, decoded_view(decoded), stderr@, stderr_text@),
{
    match decoded {
        Err(cause) => Err(GatewayError::NonUtf8Output { stream: Stream::Stdout, cause }),
        Ok(stdout) => {
            if status.success() {
                Ok(ProcessResult { status, stdout, stderr })
            } else {
                Err(GatewayError::NonZeroExit { stderr_text })
            }
        },
    }
}

/// Decides the outcome of a child that ended with `status`, having written
/// `stdout` and `stderr`.
pub fn conclude(status: ExitStatus, stdout: Vec<u8>, stderr: Vec<u8>) -> (outcome: Result<
    ProcessResult,
    GatewayError,
>)
    ensures
        outcome_view(outcome) == conclusion(status, stdout@, stderr@),
{
    let decoded = decode_text(stdout);
    let stderr_text = if status.success() {
        String::new()
    } else {
        decode_text_lossy(stderr.as_slice())
    };
    settle(status, decoded, stderr, stderr_text)
}

impl Stream {
    /// The stream's name in messages.
    pub open spec fn label(self) -> Seq<char> {
        match self {
            Stream::Stdout => "standard output"@,
            Stream::Stderr => "standard error"@,
        }
    }
}

impl GatewayErrorView {
    /// The error in words: what failed, and the cause or text that came with
    /// it.
    pub open spec fn message(self) -> Seq<char> {
        match self {
            GatewayErrorView::SpawnFailed { candidate, cause } => "failed to start "@ + candidate
                + ": "@ + cause,
            GatewayErrorView::StdinWriteFailed { cause } => "failed to write to standard input: "@
                + cause,
            GatewayErrorView::WaitFailed { cause } => "failed to wait for the process: "@ + cause,
            GatewayErrorView::NonUtf8Output { stream, cause } => stream.label()
                + " is not valid UTF-8: "@ + cause,
            GatewayErrorView::NonZeroExit { stderr_text } => "process failed: "@ + stderr_text,
        }
    }
}

/// A message always says why: it ends with the cause, or with the child's
/// standard error, that the error carries; and where a stream could not be
/// read as text, it begins with the name of that stream.
pub proof fn law_message_carries_the_cause(error: GatewayErrorView)
    ensures
        match error {
            GatewayErrorView::SpawnFailed { candidate, cause } => cause.is_suffix_of(
                error.message(),
            ),
            GatewayErrorView::StdinWriteFailed { cause } => cause.is_suffix_of(error.message()),
            GatewayErrorView::WaitFailed { cause } => cause.is_suffix_of(error.message()),
            GatewayErrorView::NonUtf8Output { stream, cause } => cause.is_suffix_of(
                error.message(),
            ) && stream.label().is_prefix_of(error.message()),
            GatewayErrorView::NonZeroExit { stderr_text } => stderr_text.is_suffix_of(
                error.message(),
            ),
        },
{
}

impl GatewayError {
    /// The error in words, for display.
    pub fn message(&self) -> (text: String)
        ensures
            text@ == self@.message(),
    {
        match self {
            GatewayError::SpawnFailed { candidate, cause } => {
                let mut text = "failed to start ".to_owned();
                text.append(candidate.as_str());
                text.append(": ");
                text.append(cause.as_str());
                text
            },
            GatewayError::StdinWriteFailed { cause } => {
                let mut text = "failed to write to standard input: ".to_owned();
                text.append(cause.as_str());
                text
            },
            GatewayError::WaitFailed { cause } => {
                let mut text = "failed to wait for the process: ".to_owned();
                text.append(cause.as_str());
                text
            },
            GatewayError::NonUtf8Output { stream, cause } => {
                let mut text = match stream {
                    Stream::Stdout => "standard output".to_owned(),
                    Stream::Stderr => "standard error".to_owned(),
                };
                text.append(" is not valid UTF-8: ");
                text.append(cause.as_str());
                text
            },
            GatewayError::NonZeroExit { stderr_text } => {
                let mut text = "process failed: ".to_owned();
                text.append(stderr_text.as_str());
                text
            },
        }
    }
}

} // verus!
