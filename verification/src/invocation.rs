//! Whole invocations: what the gateway's machine makes of everything that the
//! operating system answers in the course of one call, and the laws that
//! follow.

use crate::command::CommandSpecView;
use crate::decode::lenient_text;
use crate::gateway::{opening, transition, ActionView, EventView, PhaseView};
use crate::outcome::{
    conclusion, ExitStatus, GatewayErrorView, OutcomeView, ProcessResultView,
};
use vstd::prelude::*;
use vstd::utf8::{decode_utf8, encode_utf8, valid_utf8};

verus! {

/// How far an invocation has come.
pub enum Progress {
    /// The machine waits in this phase.
    Running(PhaseView),
    /// The invocation is over, with this outcome.
    Done(OutcomeView),
    /// The machine was told something that did not answer what it waited for.
    Stuck,
}

/// The progress after one more event.
pub open spec fn advance(spec: CommandSpecView, progress: Progress, event: EventView) -> Progress {
    match progress {
        Progress::Running(phase) => match transition(spec, phase, event) {
            Some((_, ActionView::Finish { outcome })) => Progress::Done(outcome),
            Some((next, _)) => Progress::Running(next),
            None => Progress::Stuck,
        },
        _ => Progress::Stuck,
    }
}

/// The progress after `events`, in order.
pub open spec fn replay(spec: CommandSpecView, progress: Progress, events: Seq<EventView>)
    -> Progress
    decreases events.len(),
{
    if events.len() == 0 {
        progress
    } else {
        replay(spec, advance(spec, progress, events[0]), events.drop_first())
    }
}

/// The progress of an invocation that has just begun.
pub open spec fn fresh() -> Progress {
    Progress::Running(opening().0)
}

/// How waiting for a child ended.
pub enum Ending {
    Exited { status: ExitStatus, stdout: Seq<u8>, stderr: Seq<u8> },
    WaitFailed { cause: Seq<char> },
}

/// Everything that the operating system answers in one invocation.
pub struct Replies {
    /// Why each of the candidates tried in vain was refused, in order. The
    /// candidate after them starts, if there is one.
    pub refusals: Seq<Seq<char>>,
    /// Why the input could not be written, if it could not.
    pub write_failure: Option<Seq<char>>,
    /// How waiting for the child ended.
    pub ending: Ending,
}

/// The events that report `refusals`.
pub open spec fn refusal_events(refusals: Seq<Seq<char>>) -> Seq<EventView> {
    Seq::new(refusals.len(), |i: int| EventView::SpawnRefused { cause: refusals[i] })
}

/// The events that follow a successful start.
pub open spec fn child_events(spec: CommandSpecView, replies: Replies) -> Seq<EventView> {
    let fed = if spec.input.is_none() {
        seq![]
    } else {
        match replies.write_failure {
            Some(cause) => seq![EventView::InputFailed { cause }],
            None => seq![EventView::InputWritten],
        }
    };
    let ended = match replies.ending {
        Ending::Exited { status, stdout, stderr } => EventView::Exited { status, stdout, stderr },
        Ending::WaitFailed { cause } => EventView::WaitFailed { cause },
    };
    seq![EventView::Spawned] + fed + seq![ended]
}

/// The events of the invocation of `spec` that the operating system answers
/// with `replies`.
pub open spec fn events_of(spec: CommandSpecView, replies: Replies) -> Seq<EventView> {
    if replies.refusals.len() >= spec.candidates.len() {
        refusal_events(replies.refusals)
    } else {
        refusal_events(replies.refusals) + child_events(spec, replies)
    }
}

/// What invoking `spec` returns when the operating system answers with
/// `replies`.
pub open spec fn invoke_outcome(spec: CommandSpecView, replies: Replies) -> OutcomeView {
    let tried = spec.candidates.len() as int;
    if replies.refusals.len() >= tried {
        Err(
            GatewayErrorView::SpawnFailed {
                candidate: spec.candidates[tried - 1],
                cause: replies.refusals[tried - 1],
            },
        )
    } else if spec.input.is_some() && replies.write_failure.is_some() {
        Err(GatewayErrorView::StdinWriteFailed { cause: replies.write_failure.unwrap() })
    } else {
        match replies.ending {
            Ending::WaitFailed { cause } => Err(GatewayErrorView::WaitFailed { cause }),
            Ending::Exited { status, stdout, stderr } => conclusion(status, stdout, stderr),
        }
    }
}

/// Replaying two runs of events one after the other is replaying them joined.
pub proof fn lemma_replay_joined(
    spec: CommandSpecView,
    progress: Progress,
    first: Seq<EventView>,
    second: Seq<EventView>,
)
    ensures
        replay(spec, progress, first + second) == replay(
            spec,
            replay(spec, progress, first),
            second,
        ),
    decreases first.len(),
{
    if first.len() > 0 {
        assert((first + second).drop_first() =~= first.drop_first() + second);
        lemma_replay_joined(
            spec,
            advance(spec, progress, first[0]),
            first.drop_first(),
            second,
        );
    }
}

/// After `refusals` the machine tries the candidate that follows them; when
/// there is none, the invocation has failed with the last candidate's
/// refusal.
pub proof fn lemma_replay_refusals(spec: CommandSpecView, from: int, refusals: Seq<Seq<char>>)
    requires
        0 <= from < spec.candidates.len(),
        from + refusals.len() <= spec.candidates.len(),
    ensures
        replay(
            spec,
            Progress::Running(PhaseView::Launching { attempt: from }),
            refusal_events(refusals),
        ) == if from + refusals.len() < spec.candidates.len() {
            Progress::Running(PhaseView::Launching { attempt: from + refusals.len() })
        } else {
            Progress::Done(
                Err(
                    GatewayErrorView::SpawnFailed {
                        candidate: spec.candidates.last(),
                        cause: refusals.last(),
                    },
                ),
            )
        },
    decreases refusals.len(),
{
    let events = refusal_events(refusals);
    let start = Progress::Running(PhaseView::Launching { attempt: from });
    if refusals.len() > 0 {
        let rest = refusals.drop_first();
        let after = advance(spec, start, events[0]);
        assert(events.drop_first() =~= refusal_events(rest));
        if from + 1 < spec.candidates.len() {
            assert(after == Progress::Running(PhaseView::Launching { attempt: from + 1 }));
            lemma_replay_refusals(spec, from + 1, rest);
        }
    }
}

/// Replaying what follows a successful start ends the invocation.
pub proof fn lemma_replay_child(spec: CommandSpecView, attempt: int, replies: Replies)
    requires
        0 <= attempt < spec.candidates.len(),
    ensures
        replay(
            spec,
            Progress::Running(PhaseView::Launching { attempt }),
            child_events(spec, replies),
        ) == Progress::Done(
            if spec.input.is_some() && replies.write_failure.is_some() {
                Err(GatewayErrorView::StdinWriteFailed { cause: replies.write_failure.unwrap() })
            } else {
                match replies.ending {
                    Ending::WaitFailed { cause } => Err(GatewayErrorView::WaitFailed { cause }),
                    Ending::Exited { status, stdout, stderr } => conclusion(status, stdout, stderr),
                }
            },
        ),
{
    reveal_with_fuel(replay, 4);
}

/// Every invocation ends, and in exactly one outcome: whatever the operating
/// system answers, the machine, fed the events of the invocation, finishes
/// with `invoke_outcome`.
pub proof fn law_invocation_has_one_outcome(spec: CommandSpecView, replies: Replies)
    requires
        spec.well_formed(),
        replies.refusals.len() <= spec.candidates.len(),
    ensures
        replay(spec, fresh(), events_of(spec, replies)) == Progress::Done(
            invoke_outcome(spec, replies),
        ),
{
    lemma_replay_refusals(spec, 0, replies.refusals);
    if replies.refusals.len() < spec.candidates.len() {
        lemma_replay_joined(
            spec,
            fresh(),
            refusal_events(replies.refusals),
            child_events(spec, replies),
        );
        lemma_replay_child(spec, replies.refusals.len() as int, replies);
    }
}

/// Whether the input of `spec`, if it has any, was written in `replies`.
pub open spec fn input_delivered(spec: CommandSpecView, replies: Replies) -> bool {
    spec.input.is_some() ==> replies.write_failure.is_none()
}

/// When the first candidate starts, takes its input and exits with code zero,
/// the invocation returns what the child wrote to standard output, all of it
/// and nothing else: the text returned encodes to exactly the bytes written.
/// (Bytes that are not UTF-8 are no text, and reading them is an error.)
pub proof fn law_first_candidate_output_is_returned(
    spec: CommandSpecView,
    replies: Replies,
    status: ExitStatus,
    stdout: Seq<u8>,
    stderr: Seq<u8>,
)
    requires
        spec.well_formed(),
        replies.refusals.len() == 0,
        input_delivered(spec, replies),
        replies.ending == (Ending::Exited { status, stdout, stderr }),
        status.succeeded(),
        valid_utf8(stdout),
    ensures
        replay(spec, fresh(), events_of(spec, replies)) == Progress::Done(
            Ok(ProcessResultView { status, stdout: decode_utf8(stdout), stderr }),
        ),
        encode_utf8(decode_utf8(stdout)) == stdout,
{
    law_invocation_has_one_outcome(spec, replies);
    vstd::utf8::decode_utf8_encode_utf8(stdout);
}

/// A refused candidate leaves nothing behind to wait for: the machine answers
/// a refusal with the next start or with the end of the invocation, never
/// with a write or a wait.
pub proof fn law_refusal_leaves_nothing_to_wait_for(
    spec: CommandSpecView,
    phase: PhaseView,
    cause: Seq<char>,
)
    ensures
        match transition(spec, phase, EventView::SpawnRefused { cause }) {
            Some((next, action)) => (next is Launching && action is Spawn) || (next is Finished
                && action is Finish),
            None => true,
        },
{
}

/// When the first candidates are refused and a later one starts, the machine
/// has moved on to that one, and from there the invocation goes, and ends, as
/// it would have if the first candidate had started.
pub proof fn law_fallback_is_used(spec: CommandSpecView, replies: Replies)
    requires
        spec.well_formed(),
        1 <= replies.refusals.len() < spec.candidates.len(),
    ensures
        replay(spec, fresh(), refusal_events(replies.refusals)) == Progress::Running(
            PhaseView::Launching { attempt: replies.refusals.len() as int },
        ),
        replay(spec, fresh(), events_of(spec, replies)) == replay(
            spec,
            fresh(),
            events_of(spec, Replies { refusals: seq![], ..replies }),
        ),
{
    lemma_replay_refusals(spec, 0, replies.refusals);
    law_invocation_has_one_outcome(spec, replies);
    law_invocation_has_one_outcome(spec, Replies { refusals: seq![], ..replies });
}

/// When every candidate is refused, the invocation fails with `SpawnFailed`,
/// naming the last candidate and the reason for its refusal. It ends with the
/// last refusal: nothing was started, so there is nothing to wait for.
pub proof fn law_all_candidates_refused(spec: CommandSpecView, replies: Replies)
    requires
        spec.well_formed(),
        replies.refusals.len() == spec.candidates.len(),
    ensures
        events_of(spec, replies) == refusal_events(replies.refusals),
        replay(spec, fresh(), refusal_events(replies.refusals)) == Progress::Done(
            Err(
                GatewayErrorView::SpawnFailed {
                    candidate: spec.candidates.last(),
                    cause: replies.refusals.last(),
                },
            ),
        ),
{
    lemma_replay_refusals(spec, 0, replies.refusals);
}

/// When a child takes its input, writes text to standard output and ends
/// otherwise than with exit code zero, the invocation fails with
/// `NonZeroExit`, carrying the child's standard error as text: exactly the
/// text written where it is well-formed, and a lenient decoding of the bytes
/// where it is not.
pub proof fn law_failed_child_reports_stderr(
    spec: CommandSpecView,
    replies: Replies,
    status: ExitStatus,
    stdout: Seq<u8>,
    stderr: Seq<u8>,
)
    requires
        spec.well_formed(),
        replies.refusals.len() < spec.candidates.len(),
        input_delivered(spec, replies),
        replies.ending == (Ending::Exited { status, stdout, stderr }),
        !status.succeeded(),
        valid_utf8(stdout),
    ensures
        replay(spec, fresh(), events_of(spec, replies)) == Progress::Done(
            Err(GatewayErrorView::NonZeroExit { stderr_text: lenient_text(stderr) }),
        ),
        valid_utf8(stderr) ==> lenient_text(stderr) == decode_utf8(stderr) && encode_utf8(
            lenient_text(stderr),
        ) == stderr,
{
    law_invocation_has_one_outcome(spec, replies);
    if valid_utf8(stderr) {
        vstd::utf8::decode_utf8_encode_utf8(stderr);
    }
}

/// A child that started is waited for on every path: after the start the
/// machine writes the input or waits; after the write, failed or not, it
/// waits; and an invocation whose child started ends only on what the wait
/// brought.
pub proof fn law_started_child_is_waited_for(
    spec: CommandSpecView,
    phase: PhaseView,
    event: EventView,
)
    ensures
        match transition(spec, phase, event) {
            Some((next, action)) => {
                &&& event is Spawned ==> (next is Feeding && action is WriteInput)
                    || (next is Reaping && action is Wait)
                &&& phase is Feeding ==> next is Reaping && action is Wait
                &&& action is Finish ==> next is Finished
                    && (phase is Reaping || (phase is Launching && event is SpawnRefused))
            },
            None => true,
        },
{
}

/// One of two invocations that go on side by side.
pub enum Side {
    Left,
    Right,
}

/// The progress of two invocations after `events`, each event reported to the
/// invocation on its side.
pub open spec fn replay_pair(
    left: CommandSpecView,
    right: CommandSpecView,
    progress: (Progress, Progress),
    events: Seq<(Side, EventView)>,
) -> (Progress, Progress)
    decreases events.len(),
{
    if events.len() == 0 {
        progress
    } else {
        let next = match events[0].0 {
            Side::Left => (advance(left, progress.0, events[0].1), progress.1),
            Side::Right => (progress.0, advance(right, progress.1, events[0].1)),
        };
        replay_pair(left, right, next, events.drop_first())
    }
}

/// The events of `events` that were reported on `side`, in order.
pub open spec fn events_on(side: Side, events: Seq<(Side, EventView)>) -> Seq<EventView>
    decreases events.len(),
{
    if events.len() == 0 {
        seq![]
    } else {
        let rest = events_on(side, events.drop_first());
        if events[0].0 == side {
            seq![events[0].1] + rest
        } else {
            rest
        }
    }
}

/// Invocations do not interfere: however the events of two invocations are
/// interleaved, each comes as far, and ends as, it would have alone.
pub proof fn law_invocations_do_not_interfere(
    left: CommandSpecView,
    right: CommandSpecView,
    progress: (Progress, Progress),
    events: Seq<(Side, EventView)>,
)
    ensures
        replay_pair(left, right, progress, events) == (
            replay(left, progress.0, events_on(Side::Left, events)),
            replay(right, progress.1, events_on(Side::Right, events)),
        ),
    decreases events.len(),
{
    if events.len() > 0 {
        let next = match events[0].0 {
            Side::Left => (advance(left, progress.0, events[0].1), progress.1),
            Side::Right => (progress.0, advance(right, progress.1, events[0].1)),
        };
        law_invocations_do_not_interfere(left, right, next, events.drop_first());
        let rest_left = events_on(Side::Left, events.drop_first());
        let rest_right = events_on(Side::Right, events.drop_first());
        match events[0].0 {
            Side::Left => {
                assert((seq![events[0].1] + rest_left).drop_first() =~= rest_left);
            },
            Side::Right => {
                assert((seq![events[0].1] + rest_right).drop_first() =~= rest_right);
            },
        }
    }
}

} // verus!
