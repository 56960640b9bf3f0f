use process_gateway::command::CommandSpec;
use process_gateway::gateway::{begin, step, Action, Event, Phase};
use process_gateway::outcome::{ExitStatus, GatewayError, ProcessResult, Stream};

fn ok() -> ExitStatus {
    ExitStatus { code: Some(0) }
}

fn exited(code: Option<i32>, stdout: &[u8], stderr: &[u8]) -> Event {
    Event::Exited { status: ExitStatus { code }, stdout: stdout.to_vec(), stderr: stderr.to_vec() }
}

fn refused(cause: &str) -> Event {
    Event::SpawnRefused { cause: cause.to_string() }
}

/// Feeds `events` to a machine that has just begun and returns the actions
/// that it asked for, the first one included.
fn drive(spec: &CommandSpec, events: Vec<Event>) -> Vec<Action> {
    let (mut phase, first) = begin();
    let mut actions = vec![first];
    for event in events {
        let (next, action) = step(spec, phase, event).expect("the event answers the action");
        phase = next;
        actions.push(action);
    }
    actions
}

fn finish(outcome: Result<ProcessResult, GatewayError>) -> Action {
    Action::Finish { outcome }
}

fn succeeded(stdout: &str, stderr: &[u8]) -> Action {
    finish(Ok(ProcessResult { status: ok(), stdout: stdout.to_string(), stderr: stderr.to_vec() }))
}

fn spawn_failed(candidate: &str, cause: &str) -> Action {
    finish(Err(GatewayError::SpawnFailed {
        candidate: candidate.to_string(),
        cause: cause.to_string(),
    }))
}

fn non_zero_exit(stderr_text: &str) -> Action {
    finish(Err(GatewayError::NonZeroExit { stderr_text: stderr_text.to_string() }))
}

fn not_utf8(stdout: &[u8]) -> Action {
    let cause = String::from_utf8(stdout.to_vec()).unwrap_err().to_string();
    assert!(!cause.is_empty());
    finish(Err(GatewayError::NonUtf8Output { stream: Stream::Stdout, cause }))
}

fn write_failed(cause: &str) -> Action {
    finish(Err(GatewayError::StdinWriteFailed { cause: cause.to_string() }))
}

fn input_failed(cause: &str) -> Event {
    Event::InputFailed { cause: cause.to_string() }
}

fn wait_failed(cause: &str) -> Event {
    Event::WaitFailed { cause: cause.to_string() }
}

#[test]
fn an_invocation_begins_with_the_first_candidate() {
    assert_eq!(begin(), (Phase::Launching { attempt: 0 }, Action::Spawn { attempt: 0 }));
}

#[test]
fn first_candidate_that_exits_zero_returns_its_output() {
    let spec = CommandSpec::new("tool").arg("list");
    let actions = drive(&spec, vec![Event::Spawned, exited(Some(0), b"NAME\nfoo\n", b"note")]);
    assert_eq!(
        actions,
        vec![
            Action::Spawn { attempt: 0 },
            Action::Wait,
            succeeded("NAME\nfoo\n", b"note"),
        ]
    );
}

#[test]
fn output_is_returned_whole() {
    let spec = CommandSpec::new("tool");
    let mut big = Vec::new();
    for i in 0..200_000u32 {
        big.extend_from_slice("zeile ä ".as_bytes());
        big.push(b'0' + (i % 10) as u8);
        big.push(b'\n');
    }
    let actions = drive(&spec, vec![Event::Spawned, exited(Some(0), &big, b"")]);
    match &actions[2] {
        Action::Finish { outcome: Ok(result) } => assert_eq!(result.stdout.as_bytes(), &big[..]),
        other => panic!("unexpected {:?}", other),
    }
}

#[test]
fn input_is_written_before_the_wait() {
    let spec = CommandSpec::new("python3").input(b"prompt".to_vec());
    let actions =
        drive(&spec, vec![Event::Spawned, Event::InputWritten, exited(Some(0), b"done", b"")]);
    assert_eq!(
        actions,
        vec![
            Action::Spawn { attempt: 0 },
            Action::WriteInput,
            Action::Wait,
            succeeded("done", b""),
        ]
    );
}

#[test]
fn empty_input_is_still_written() {
    let spec = CommandSpec::new("python3").input(Vec::new());
    let actions = drive(&spec, vec![Event::Spawned]);
    assert_eq!(actions, vec![Action::Spawn { attempt: 0 }, Action::WriteInput]);
}

#[test]
fn fallback_is_tried_when_the_primary_is_refused() {
    let spec = CommandSpec::new("python3").fallback("python").input(b"x".to_vec());
    let actions = drive(
        &spec,
        vec![
            refused("No such file or directory"),
            Event::Spawned,
            Event::InputWritten,
            exited(Some(0), b"out", b""),
        ],
    );
    assert_eq!(
        actions,
        vec![
            Action::Spawn { attempt: 0 },
            Action::Spawn { attempt: 1 },
            Action::WriteInput,
            Action::Wait,
            succeeded("out", b""),
        ]
    );
}

#[test]
fn all_candidates_refused_is_spawn_failed_with_the_last_one() {
    let spec = CommandSpec::new("python3").fallback("python");
    let actions = drive(&spec, vec![refused("first cause"), refused("second cause")]);
    assert_eq!(
        actions,
        vec![
            Action::Spawn { attempt: 0 },
            Action::Spawn { attempt: 1 },
            spawn_failed("python", "second cause"),
        ]
    );
}

#[test]
fn single_candidate_refused_is_spawn_failed() {
    let spec = CommandSpec::new("ollama").arg("list");
    let actions = drive(&spec, vec![refused("not found")]);
    assert_eq!(
        actions,
        vec![
            Action::Spawn { attempt: 0 },
            spawn_failed("ollama", "not found"),
        ]
    );
}

#[test]
fn three_candidates_are_tried_in_order() {
    let spec = CommandSpec::new("a").fallback("b").fallback("c");
    let actions = drive(&spec, vec![refused("1"), refused("2"), refused("3")]);
    assert_eq!(
        actions,
        vec![
            Action::Spawn { attempt: 0 },
            Action::Spawn { attempt: 1 },
            Action::Spawn { attempt: 2 },
            spawn_failed("c", "3"),
        ]
    );
}

#[test]
fn non_zero_exit_carries_standard_error() {
    let spec = CommandSpec::new("tool");
    let actions =
        drive(&spec, vec![Event::Spawned, exited(Some(2), b"partial", b"boom: bad model\n")]);
    assert_eq!(actions[2], non_zero_exit("boom: bad model\n"));
}

#[test]
fn non_zero_exit_decodes_standard_error_leniently() {
    let spec = CommandSpec::new("tool");
    let actions = drive(&spec, vec![Event::Spawned, exited(Some(1), b"", b"bad \xff byte")]);
    assert_eq!(actions[2], non_zero_exit("bad \u{fffd} byte"));
}

#[test]
fn a_child_without_exit_code_has_failed() {
    let spec = CommandSpec::new("tool");
    let actions = drive(&spec, vec![Event::Spawned, exited(None, b"", b"killed")]);
    assert_eq!(actions[2], non_zero_exit("killed"));
}

#[test]
fn output_that_is_not_utf8_is_an_error() {
    let spec = CommandSpec::new("tool");
    let actions = drive(&spec, vec![Event::Spawned, exited(Some(0), b"ok \xc3\x28", b"")]);
    assert_eq!(actions[2], not_utf8(b"ok \xc3\x28"));
}

#[test]
fn output_that_is_not_utf8_is_an_error_whatever_the_status() {
    let spec = CommandSpec::new("tool");
    let actions = drive(&spec, vec![Event::Spawned, exited(Some(1), b"\xff", b"stderr text")]);
    assert_eq!(actions[2], not_utf8(b"\xff"));
}

#[test]
fn failed_write_is_reported_after_the_child_was_waited_for() {
    let spec = CommandSpec::new("python3").input(b"prompt".to_vec());
    let actions = drive(
        &spec,
        vec![Event::Spawned, input_failed("Broken pipe"), exited(Some(0), b"fine", b"")],
    );
    assert_eq!(
        actions,
        vec![
            Action::Spawn { attempt: 0 },
            Action::WriteInput,
            Action::Wait,
            write_failed("Broken pipe"),
        ]
    );
}

#[test]
fn failed_write_wins_over_a_failed_wait() {
    let spec = CommandSpec::new("python3").input(b"prompt".to_vec());
    let actions = drive(
        &spec,
        vec![Event::Spawned, input_failed("Broken pipe"), wait_failed("interrupted")],
    );
    assert_eq!(actions[3], write_failed("Broken pipe"));
}

#[test]
fn failed_wait_is_reported() {
    let spec = CommandSpec::new("tool");
    let actions = drive(&spec, vec![Event::Spawned, wait_failed("interrupted")]);
    assert_eq!(
        actions[2],
        finish(Err(GatewayError::WaitFailed { cause: "interrupted".to_string() }))
    );
}

#[test]
fn events_that_do_not_answer_the_phase_are_rejected() {
    let plain = CommandSpec::new("tool");
    let fed = CommandSpec::new("tool").input(b"x".to_vec());
    let launching = || Phase::Launching { attempt: 0 };
    let reaping = || Phase::Reaping { write_failure: None };
    assert_eq!(step(&plain, launching(), Event::InputWritten), None);
    assert_eq!(step(&plain, launching(), input_failed("c")), None);
    assert_eq!(step(&plain, launching(), exited(Some(0), b"", b"")), None);
    assert_eq!(step(&plain, launching(), wait_failed("c")), None);
    assert_eq!(step(&fed, Phase::Feeding, Event::Spawned), None);
    assert_eq!(step(&fed, Phase::Feeding, refused("c")), None);
    assert_eq!(step(&fed, Phase::Feeding, exited(Some(0), b"", b"")), None);
    assert_eq!(step(&fed, Phase::Feeding, wait_failed("c")), None);
    assert_eq!(step(&plain, reaping(), Event::Spawned), None);
    assert_eq!(step(&plain, reaping(), refused("c")), None);
    assert_eq!(step(&plain, reaping(), Event::InputWritten), None);
    assert_eq!(step(&plain, reaping(), input_failed("c")), None);
}

#[test]
fn a_finished_invocation_takes_no_more_events() {
    let spec = CommandSpec::new("tool");
    assert_eq!(step(&spec, Phase::Finished, Event::Spawned), None);
    assert_eq!(step(&spec, Phase::Finished, refused("c")), None);
    assert_eq!(step(&spec, Phase::Finished, Event::InputWritten), None);
    assert_eq!(step(&spec, Phase::Finished, exited(Some(0), b"", b"")), None);
    assert_eq!(step(&spec, Phase::Finished, wait_failed("c")), None);
}

#[test]
fn an_attempt_beyond_the_candidates_is_rejected() {
    let spec = CommandSpec::new("a").fallback("b");
    assert_eq!(step(&spec, Phase::Launching { attempt: 2 }, Event::Spawned), None);
    assert_eq!(step(&spec, Phase::Launching { attempt: 2 }, refused("c")), None);
    assert_eq!(step(&spec, Phase::Launching { attempt: usize::MAX }, refused("c")), None);
    assert_eq!(
        step(&spec, Phase::Launching { attempt: 1 }, Event::Spawned),
        Some((Phase::Reaping { write_failure: None }, Action::Wait))
    );
}

#[test]
fn interleaved_invocations_end_as_they_would_alone() {
    let left = CommandSpec::new("python3").fallback("python").input(b"in".to_vec());
    let right = CommandSpec::new("ollama").arg("list");
    let left_events = || {
        vec![
            refused("missing"),
            Event::Spawned,
            Event::InputWritten,
            exited(Some(3), b"l-out", b"l-err"),
        ]
    };
    let right_events = || vec![Event::Spawned, exited(Some(0), b"r-out", b"r-err")];
    let left_alone = drive(&left, left_events());
    let right_alone = drive(&right, right_events());

    let (mut left_phase, left_first) = begin();
    let (mut right_phase, right_first) = begin();
    let mut left_actions = vec![left_first];
    let mut right_actions = vec![right_first];
    let mut left_iter = left_events().into_iter();
    let mut right_iter = right_events().into_iter();
    for turn in [true, false, true, true, false, true] {
        if turn {
            let (next, action) = step(&left, left_phase, left_iter.next().unwrap()).unwrap();
            left_phase = next;
            left_actions.push(action);
        } else {
            let (next, action) = step(&right, right_phase, right_iter.next().unwrap()).unwrap();
            right_phase = next;
            right_actions.push(action);
        }
    }
    assert_eq!(left_actions, left_alone);
    assert_eq!(right_actions, right_alone);
    assert_eq!(left_alone[4], non_zero_exit("l-err"));
    assert_eq!(right_alone[2], succeeded("r-out", b"r-err"));
}
