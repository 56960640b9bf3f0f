//! The decisions of an invocation, as a state machine. The caller does the
//! work on the operating system: it performs the action that the machine asks
//! for and reports what happened as an event.

use crate::command::{CommandSpec, CommandSpecView};
use crate::outcome::{
    conclude, conclusion, outcome_view, ExitStatus, GatewayError, GatewayErrorView, OutcomeView,
    ProcessResult,
};
use vstd::prelude::*;

verus! {

/// What the machine is waiting to hear about.
#[derive(Clone, Debug, PartialEq, Eq)]
pub enum Phase {
    /// Whether the candidate at `attempt` started.
    Launching { attempt: usize },
    /// Whether the input was written.
    Feeding,
    /// How the child ended. `write_failure` is why the input could not be
    /// written, if it could not.
    Reaping { write_failure: Option<String> },
    /// Nothing: the invocation is over.
    Finished,
}

/// `Phase` as a mathematical value.
pub enum PhaseView {
    Launching { attempt: int },
    Feeding,
    Reaping { write_failure: Option<Seq<char>> },
    Finished,
}

impl View for Phase {
    type V = PhaseView;

    open spec fn view(&self) -> PhaseView {
        match *self {
            Phase::Launching { attempt } => PhaseView::Launching { attempt: attempt as int },
            Phase::Feeding => PhaseView::Feeding,
            Phase::Reaping { write_failure } => PhaseView::Reaping {
                write_failure: match write_failure {
                    Some(cause) => Some(cause@),
                    None => None,
                },
            },
            Phase::Finished => PhaseView::Finished,
        }
    }
}

/// What the caller reports to the machine.
#[derive(Clone, Debug, PartialEq, Eq)]
pub enum Event {
    /// The candidate started, with its three standard streams piped.
    Spawned,
    /// The candidate could not be started.
    SpawnRefused { cause: String },
    /// The input was written in full and the child's standard input closed.
    InputWritten,
    /// Writing the input failed.
    InputFailed { cause: String },
    /// The child ended; `stdout` and `stderr` are all that it wrote.
    Exited { status: ExitStatus, stdout: Vec<u8>, stderr: Vec<u8> },
    /// Waiting for the child failed.
    WaitFailed { cause: String },
}

/// `Event` as a mathematical value.
pub enum EventView {
    Spawned,
    SpawnRefused { cause: Seq<char> },
    InputWritten,
    InputFailed { cause: Seq<char> },
    Exited { status: ExitStatus, stdout: Seq<u8>, stderr: Seq<u8> },
    WaitFailed { cause: Seq<char> },
}

impl View for Event {
    type V = EventView;

    open spec fn view(&self) -> EventView {
        match *self {
            Event::Spawned => EventView::Spawned,
            Event::SpawnRefused { cause } => EventView::SpawnRefused { cause: cause@ },
            Event::InputWritten => EventView::InputWritten,
            Event::InputFailed { cause } => EventView::InputFailed { cause: cause@ },
            Event::Exited { status, stdout, stderr } => EventView::Exited {
                status,
                stdout: stdout@,
                stderr: stderr@,
            },
            Event::WaitFailed { cause } => EventView::WaitFailed { cause: cause@ },
        }
    }
}

/// What the machine asks the caller to do next.
#[derive(Debug, PartialEq, Eq)]
pub enum Action {
    /// Start the candidate at `attempt` with the command's arguments and
    /// environment, its three standard streams piped.
    Spawn { attempt: usize },
    /// Write the command's input to the child's standard input and close it.
    WriteInput,
    /// Close the child's standard input if it is open, wait for the child to
    /// end and collect all of its standard output and standard error.
    Wait,
    /// Hand `outcome` to whoever asked for the invocation.
    Finish { outcome: Result<ProcessResult, GatewayError> },
}

/// `Action` as a mathematical value.
pub enum ActionView {
    Spawn { attempt: int },
    WriteInput,
    Wait,
    Finish { outcome: OutcomeView },
}

impl View for Action {
    type V = ActionView;

    open spec fn view(&self) -> ActionView {
        match *self {
            Action::Spawn { attempt } => ActionView::Spawn { attempt: attempt as int },
            Action::WriteInput => ActionView::WriteInput,
            Action::Wait => ActionView::Wait,
            Action::Finish { outcome } => ActionView::Finish { outcome: outcome_view(outcome) },
        }
    }
}

/// Where every invocation starts: asking for the first candidate.
pub open spec fn opening() -> (PhaseView, ActionView) {
    trying(0)
}

/// Asking for the candidate at `attempt`.
pub open spec fn trying(attempt: int) -> (PhaseView, ActionView) {
    (PhaseView::Launching { attempt }, ActionView::Spawn { attempt })
}

/// Asking for the wait, with what is known of the write.
pub open spec fn waiting(write_failure: Option<Seq<char>>) -> (PhaseView, ActionView) {
    (PhaseView::Reaping { write_failure }, ActionView::Wait)
}

/// The end of an invocation, with `outcome`.
pub open spec fn ending(outcome: OutcomeView) -> (PhaseView, ActionView) {
    (PhaseView::Finished, ActionView::Finish { outcome })
}

/// What follows a successful start: the input is written if there is any,
/// and the child is waited for otherwise.
pub open spec fn after_spawn(spec: CommandSpecView) -> (PhaseView, ActionView) {
    if spec.input.is_some() {
        (PhaseView::Feeding, ActionView::WriteInput)
    } else {
        waiting(None)
    }
}

/// What follows the refusal of the candidate at `attempt`: the next
/// candidate, or after the last one the failure of the invocation, naming
/// that candidate.
pub open spec fn after_refusal(spec: CommandSpecView, attempt: int, cause: Seq<char>) -> (
    PhaseView,
    ActionView,
) {
    if attempt + 1 < spec.candidates.len() {
        trying(attempt + 1)
    } else {
        ending(Err(GatewayErrorView::SpawnFailed { candidate: spec.candidates[attempt], cause }))
    }
}

/// What follows the end of the wait. A child whose input could not be
/// written has failed for that reason, whatever the wait brought. Otherwise
/// a failed wait is the outcome, or else what `conclusion` makes of the
/// child's status and output.
pub open spec fn after_wait(write_failure: Option<Seq<char>>, event: EventView) -> Option<
    (PhaseView, ActionView),
> {
    match (write_failure, event) {
        (Some(cause), EventView::Exited { .. }) | (Some(cause), EventView::WaitFailed { .. }) => {
            Some(ending(Err(GatewayErrorView::StdinWriteFailed { cause })))
        },
        (None, EventView::WaitFailed { cause }) => Some(
            ending(Err(GatewayErrorView::WaitFailed { cause })),
        ),
        (None, EventView::Exited { status, stdout, stderr }) => Some(
            ending(conclusion(status, stdout, stderr)),
        ),
        _ => None,
    }
}

/// The machine's one rule: the phase and action that follow `event` in
/// `phase`, or nothing when `event` does not answer what `phase` waits for.
///
/// Candidates are tried in order until one starts. A child that started is
/// always waited for, also when writing its input failed. The invocation
/// ends when no candidate is left or when the wait is over.
pub open spec fn transition(spec: CommandSpecView, phase: PhaseView, event: EventView) -> Option<
    (PhaseView, ActionView),
> {
    match phase {
        PhaseView::Launching { attempt } => {
            if 0 <= attempt < spec.candidates.len() {
                match event {
                    EventView::Spawned => Some(after_spawn(spec)),
                    EventView::SpawnRefused { cause } => Some(after_refusal(spec, attempt, cause)),
                    _ => None,
                }
            } else {
                None
            }
        },
        PhaseView::Feeding => match event {
            EventView::InputWritten => Some(waiting(None)),
            EventView::InputFailed { cause } => Some(waiting(Some(cause))),
            _ => None,
        },
        PhaseView::Reaping { write_failure } => after_wait(write_failure, event),
        PhaseView::Finished => None,
    }
}

/// Starts an invocation.
pub fn begin() -> (first: (Phase, Action))
    ensures
        (first.0@, first.1@) == opening(),
{
    (Phase::Launching { attempt: 0 }, Action::Spawn { attempt: 0 })
}

/// The end of an invocation, with `outcome`.
fn finish(outcome: Result<ProcessResult, GatewayError>) -> (last: (Phase, Action))
    ensures
        (last.0@, last.1@) == ending(outcome_view(outcome)),
{
    (Phase::Finished, Action::Finish { outcome })
}

/// Takes the machine one step: the phase and action that follow `event` in
/// `phase`, or `None` when `event` does not answer what `phase` waits for.
pub fn step(spec: &CommandSpec, phase: Phase, event: Event) -> (next: Option<(Phase, Action)>)
    ensures
        match next {
            Some((phase_after, action)) => transition(spec@, phase@, event@) == Some(
                (phase_after@, action@),
            ),
            None => transition(spec@, phase@, event@).is_none(),
        },
{
    match (phase, event) {
        (Phase::Launching { attempt }, Event::Spawned) => {
            if attempt > spec.fallback_count() {
                None
            } else if spec.input_bytes().is_some() {
                Some((Phase::Feeding, Action::WriteInput))
            } else {
                Some((Phase::Reaping { write_failure: None }, Action::Wait))
            }
        },
        (Phase::Launching { attempt }, Event::SpawnRefused { cause }) => {
            if attempt < spec.fallback_count() {
                let next: usize = attempt + 1;
                Some((Phase::Launching { attempt: next }, Action::Spawn { attempt: next }))
            } else {
                match spec.candidate(attempt) {
                    Some(name) => Some(
                        finish(Err(GatewayError::SpawnFailed { candidate: name.clone(), cause })),
                    ),
                    None => None,
                }
            }
        },
        (Phase::Feeding, Event::InputWritten) => Some(
            (Phase::Reaping { write_failure: None }, Action::Wait),
        ),
        (Phase::Feeding, Event::InputFailed { cause }) => Some(
            (Phase::Reaping { write_failure: Some(cause) }, Action::Wait),
        ),
        (Phase::Reaping { write_failure: Some(cause) }, Event::Exited { .. })
        | (Phase::Reaping { write_failure: Some(cause) }, Event::WaitFailed { .. }) => Some(
            finish(Err(GatewayError::StdinWriteFailed { cause })),
        ),
        (Phase::Reaping { write_failure: None }, Event::WaitFailed { cause }) => Some(
            finish(Err(GatewayError::WaitFailed { cause })),
        ),
        (Phase::Reaping { write_failure: None }, Event::Exited { status, stdout, stderr }) => Some(
            finish(conclude(status, stdout, stderr)),
        ),
        _ => None,
    }
}

} // verus!
