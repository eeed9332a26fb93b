use ram_debugger::code_runner::{CodeRunner, DebugAction, Effect};
use ram_debugger::mini_ram::MiniRam;
use ram_debugger::store::OutputComponentErrors;

/// Dispatches `action` and keeps feeding every returned continuation back
/// until the controller settles (a scheduled continuation is fed back
/// immediately: tests need no pacing delay).
fn drive(runner: &mut CodeRunner<MiniRam>, action: DebugAction) {
    let mut pending = vec![action];
    while let Some(a) = pending.pop() {
        match runner.update(a) {
            Effect::Nothing => {}
            Effect::Dispatch(next) => pending.push(next),
            Effect::Schedule(next) => pending.push(next),
        }
    }
}

#[test]
fn stop_when_idle_is_a_true_no_op() {
    let mut runner: CodeRunner<MiniRam> = CodeRunner::new();
    let effect = runner.update(DebugAction::Stop);
    assert!(matches!(effect, Effect::Nothing));
    assert!(runner.is_idle());
    assert!(runner.store().error.is_none());
    assert!(runner.store().get_registers().is_empty());
    assert_eq!(runner.store().current_debug_line, 0);
    assert!(!runner.store().read_only);
    assert_eq!(runner.stdout_text(), "");
}

#[test]
fn start_reads_input_writes_output_and_returns_to_idle() {
    let mut runner: CodeRunner<MiniRam> = CodeRunner::new();
    runner.set_stdin(String::from("3"));
    drive(&mut runner, DebugAction::Start(String::from("read 1\nwrite 1\nhalt")));
    assert!(runner.is_idle());
    assert_eq!(runner.store().get_registers().as_slice(), &[0i64, 3][..]);
    assert_eq!(runner.stdout_text(), "3\n");
    assert!(runner.store().error.is_none());
    assert!(!runner.store().read_only);
    assert_eq!(runner.store().current_debug_line, 0);
}

#[test]
fn single_stepping_emits_one_snapshot_per_instruction() {
    let mut runner: CodeRunner<MiniRam> = CodeRunner::new();
    let src = "write 1\nwrite 1\nwrite 1";
    // The first `Step` creates the session and dispatches the inner step.
    let effect = runner.update(DebugAction::Step(String::from(src)));
    let inner = match effect {
        Effect::Dispatch(a) => a,
        other => panic!("expected a dispatched continuation, got {other:?}"),
    };
    let mut snapshots = 0;
    match runner.update(inner) {
        Effect::Nothing => snapshots += 1,
        other => panic!("expected a snapshot, got {other:?}"),
    }
    assert!(runner.is_paused());
    // Two more explicit steps reach the end of the three instructions.
    for _ in 0..2 {
        match runner.update(DebugAction::Step(String::from(src))) {
            Effect::Nothing => snapshots += 1,
            other => panic!("expected a snapshot, got {other:?}"),
        }
        assert!(runner.is_paused());
    }
    assert_eq!(snapshots, 3);
    // The fourth step reports termination instead of a snapshot.
    let effect = runner.update(DebugAction::Step(String::from(src)));
    let stop = match effect {
        Effect::Dispatch(a) => a,
        other => panic!("expected a dispatched stop, got {other:?}"),
    };
    assert!(matches!(stop, DebugAction::Stop));
    runner.update(stop);
    assert!(runner.is_idle());
    assert!(runner.store().error.is_none());
}

#[test]
fn continuous_run_pauses_exactly_at_the_breakpoint_and_resumes() {
    let mut runner: CodeRunner<MiniRam> = CodeRunner::new();
    runner.set_breakpoints(vec![3]);
    let src = "write 1\nwrite 1\nwrite 1\nhalt";
    let mut pending = vec![DebugAction::Start(String::from(src))];
    while let Some(a) = pending.pop() {
        match runner.update(a) {
            Effect::Nothing => {}
            Effect::Dispatch(next) | Effect::Schedule(next) => pending.push(next),
        }
    }
    // The run settled without reaching idle: it paused at the breakpoint.
    assert!(runner.is_paused());
    assert_eq!(runner.store().current_debug_line, 3);
    assert!(runner.store().read_only);
    assert_eq!(runner.stdout_text(), "0\n0\n");
    // A live session resumes on `Start` and ignores the new source.
    drive(&mut runner, DebugAction::Start(String::from("read 9")));
    assert!(runner.is_idle());
    assert_eq!(runner.stdout_text(), "0\n0\n0\n");
    assert!(runner.store().error.is_none());
}

#[test]
fn stale_continuation_after_stop_is_ignored() {
    let mut runner: CodeRunner<MiniRam> = CodeRunner::new();
    let src = "write 1\nwrite 1\nwrite 1\nwrite 1";
    let first = match runner.update(DebugAction::Start(String::from(src))) {
        Effect::Dispatch(a) => a,
        other => panic!("expected a dispatched continuation, got {other:?}"),
    };
    // One continuous step: the next continuation is now scheduled.
    let stale = match runner.update(first) {
        Effect::Schedule(a) => a,
        other => panic!("expected a scheduled continuation, got {other:?}"),
    };
    assert!(runner.is_waiting());
    // The user stops before the scheduled continuation fires.
    runner.update(DebugAction::Stop);
    assert!(runner.is_idle());
    let registers = runner.store().get_registers().clone();
    let line = runner.store().current_debug_line;
    let stdout = runner.stdout_text().clone();
    // The stale continuation arrives anyway: a no-op, not a panic.
    let effect = runner.update(stale);
    assert!(matches!(effect, Effect::Nothing));
    assert!(runner.is_idle());
    assert_eq!(runner.store().get_registers(), &registers);
    assert_eq!(runner.store().current_debug_line, line);
    assert_eq!(runner.stdout_text(), &stdout);
}

#[test]
fn stop_twice_equals_stop_once() {
    let mut runner: CodeRunner<MiniRam> = CodeRunner::new();
    let effect = runner.update(DebugAction::Step(String::from("write 2")));
    let inner = match effect {
        Effect::Dispatch(a) => a,
        other => panic!("expected a dispatched continuation, got {other:?}"),
    };
    runner.update(inner);
    assert!(runner.is_paused());
    runner.update(DebugAction::Stop);
    assert!(runner.is_idle());
    let registers = runner.store().get_registers().clone();
    let error = runner.store().error.clone();
    let stdout = runner.stdout_text().clone();
    let effect = runner.update(DebugAction::Stop);
    assert!(matches!(effect, Effect::Nothing));
    assert!(runner.is_idle());
    assert_eq!(runner.store().get_registers(), &registers);
    assert_eq!(runner.store().error, error);
    assert_eq!(runner.stdout_text(), &stdout);
    assert_eq!(runner.store().current_debug_line, 0);
    assert!(!runner.store().read_only);
}

#[test]
fn parse_failure_reports_error_and_stays_idle() {
    let mut runner: CodeRunner<MiniRam> = CodeRunner::new();
    let effect = runner.update(DebugAction::Start(String::from("florp 1")));
    assert!(matches!(effect, Effect::Nothing));
    assert!(runner.is_idle());
    assert!(matches!(
        runner.store().error,
        Some(OutputComponentErrors::ParseError(_))
    ));
    assert!(!runner.store().read_only);
    // The controller is re-startable after the failure.
    drive(&mut runner, DebugAction::Start(String::from("write 1")));
    assert!(runner.is_idle());
    assert_eq!(runner.stdout_text(), "0\n");
}

#[test]
fn exhausted_input_ends_the_session_with_a_runtime_error() {
    let mut runner: CodeRunner<MiniRam> = CodeRunner::new();
    drive(&mut runner, DebugAction::Start(String::from("read 1")));
    assert!(runner.is_idle());
    assert!(matches!(
        runner.store().error,
        Some(OutputComponentErrors::InterpretError(_))
    ));
    assert!(!runner.store().read_only);
}

#[test]
fn malformed_input_ends_the_session_with_a_runtime_error() {
    let mut runner: CodeRunner<MiniRam> = CodeRunner::new();
    runner.set_stdin(String::from("abc"));
    drive(&mut runner, DebugAction::Start(String::from("read 1")));
    assert!(runner.is_idle());
    assert!(matches!(
        runner.store().error,
        Some(OutputComponentErrors::InterpretError(_))
    ));
}

#[test]
fn starting_clears_console_and_previous_run_state() {
    let mut runner: CodeRunner<MiniRam> = CodeRunner::new();
    drive(&mut runner, DebugAction::Start(String::from("write 1")));
    assert_eq!(runner.stdout_text(), "0\n");
    runner.set_stdin(String::from("7"));
    drive(&mut runner, DebugAction::Start(String::from("read 2\nwrite 2")));
    assert_eq!(runner.stdout_text(), "7\n");
    assert_eq!(runner.store().get_registers().as_slice(), &[0i64, 0, 7][..]);
}
