use codex_sdk::driver::exit_outcome;
use codex_sdk::{CodexError, DriverAction, DriverEvent, DriverState, ProcessExit};

const CLEAN: ProcessExit = ProcessExit {
    success: true,
    code: Some(0),
};

#[test]
fn cancelling_before_spawn_is_aborted_without_a_process() {
    let state = DriverState::new();
    assert_eq!(state, DriverState::Idle);
    let step = state.on_event(DriverEvent::Begin { cancelled: true });
    assert_eq!(step.state, DriverState::Finished);
    assert_eq!(step.state.is_finished(), true);
    assert_eq!(step.line, None);
    assert!(matches!(
        step.action,
        DriverAction::Finish(Err(CodexError::Aborted))
    ));
    let later = step.state.on_event(DriverEvent::Spawned);
    assert_eq!(later.state, DriverState::Finished);
    assert!(matches!(later.action, DriverAction::Ignore));
}

#[test]
fn clean_run_yields_lines_and_ends_without_error() {
    let step = DriverState::new().on_event(DriverEvent::Begin { cancelled: false });
    assert_eq!(step.state, DriverState::Starting);
    assert!(matches!(step.action, DriverAction::Spawn));

    let step = step.state.on_event(DriverEvent::Spawned);
    assert_eq!(step.state, DriverState::Racing);
    assert!(matches!(step.action, DriverAction::Race));

    let step = step.state.on_event(DriverEvent::Line("one".to_string()));
    assert_eq!(step.state, DriverState::Racing);
    assert_eq!(step.line, Some("one".to_string()));
    assert!(matches!(step.action, DriverAction::Race));

    let step = step.state.on_event(DriverEvent::Tick);
    assert_eq!(step.state, DriverState::Racing);
    assert_eq!(step.line, None);
    assert!(matches!(step.action, DriverAction::PollExit));

    let step = step.state.on_event(DriverEvent::ExitPolled(None));
    assert_eq!(step.state, DriverState::Racing);
    assert!(matches!(step.action, DriverAction::Race));

    let step = step.state.on_event(DriverEvent::EndOfOutput);
    assert_eq!(step.state, DriverState::Closing { exit: None });
    assert!(matches!(step.action, DriverAction::WaitExit));

    let step = step.state.on_event(DriverEvent::Exited(CLEAN));
    assert_eq!(step.state, DriverState::Closing { exit: Some(CLEAN) });
    assert!(matches!(step.action, DriverAction::JoinDiagnostics));

    let step = step
        .state
        .on_event(DriverEvent::Diagnostics(b"noise".to_vec()));
    assert_eq!(step.state, DriverState::Finished);
    assert!(matches!(step.action, DriverAction::Finish(Ok(()))));
}

#[test]
fn exit_seen_by_the_poll_drains_what_is_left() {
    let failed = ProcessExit {
        success: false,
        code: Some(2),
    };
    let step = DriverState::Racing.on_event(DriverEvent::ExitPolled(Some(failed)));
    assert_eq!(step.state, DriverState::Draining { exit: failed });
    assert!(matches!(step.action, DriverAction::ReadLine));

    let step = step.state.on_event(DriverEvent::Line("late".to_string()));
    assert_eq!(step.state, DriverState::Draining { exit: failed });
    assert_eq!(step.line, Some("late".to_string()));
    assert!(matches!(step.action, DriverAction::ReadLine));

    let step = step.state.on_event(DriverEvent::Cancelled);
    assert_eq!(step.state, DriverState::Draining { exit: failed });
    assert!(matches!(step.action, DriverAction::Ignore));

    let step = step.state.on_event(DriverEvent::EndOfOutput);
    assert_eq!(step.state, DriverState::Closing { exit: Some(failed) });
    assert!(matches!(step.action, DriverAction::JoinDiagnostics));

    let step = step
        .state
        .on_event(DriverEvent::Diagnostics(b"it broke\n".to_vec()));
    assert_eq!(step.state, DriverState::Finished);
    match step.action {
        DriverAction::Finish(Err(CodexError::ExecFailed(detail, diagnostics))) => {
            assert_eq!(detail, "code 2");
            assert_eq!(diagnostics, "it broke\n");
        }
        other => panic!("unexpected action: {:?}", other),
    }
}

#[test]
fn cancelling_while_racing_kills_and_aborts() {
    let step = DriverState::Racing.on_event(DriverEvent::Cancelled);
    assert_eq!(step.state, DriverState::Finished);
    assert_eq!(step.line, None);
    assert!(matches!(
        step.action,
        DriverAction::Kill(CodexError::Aborted)
    ));
    let step = step.state.on_event(DriverEvent::Line("never".to_string()));
    assert_eq!(step.line, None);
    assert!(matches!(step.action, DriverAction::Ignore));
}

#[test]
fn cancelling_after_the_output_ended_is_passed_over() {
    let closing = DriverState::Closing { exit: None };
    let step = closing.on_event(DriverEvent::Cancelled);
    assert_eq!(step.state, closing);
    assert!(matches!(step.action, DriverAction::Ignore));
}

#[test]
fn events_that_do_not_fit_change_nothing() {
    for state in [
        DriverState::Idle,
        DriverState::Starting,
        DriverState::Closing { exit: Some(CLEAN) },
        DriverState::Finished,
    ] {
        let step = state.on_event(DriverEvent::Line("x".to_string()));
        assert_eq!(step.state, state);
        assert_eq!(step.line, None);
        assert!(matches!(step.action, DriverAction::Ignore));
    }
    let step = DriverState::Racing.on_event(DriverEvent::Begin { cancelled: false });
    assert_eq!(step.state, DriverState::Racing);
    assert!(matches!(step.action, DriverAction::Ignore));
}

#[test]
fn exit_outcome_words_the_failure() {
    assert!(matches!(exit_outcome(CLEAN, &b"ignored".to_vec()), Ok(())));
    match exit_outcome(
        ProcessExit {
            success: false,
            code: Some(-7),
        },
        &Vec::new(),
    ) {
        Err(CodexError::ExecFailed(detail, diagnostics)) => {
            assert_eq!(detail, "code -7");
            assert_eq!(diagnostics, "");
        }
        other => panic!("unexpected outcome: {:?}", other),
    }
    match exit_outcome(
        ProcessExit {
            success: false,
            code: None,
        },
        &b"killed".to_vec(),
    ) {
        Err(CodexError::ExecFailed(detail, diagnostics)) => {
            assert_eq!(detail, "signal");
            assert_eq!(diagnostics, "killed");
        }
        other => panic!("unexpected outcome: {:?}", other),
    }
}

#[test]
fn diagnostics_that_are_not_utf8_are_patched() {
    match exit_outcome(
        ProcessExit {
            success: false,
            code: Some(1),
        },
        &vec![b'a', 0xff, b'b'],
    ) {
        Err(CodexError::ExecFailed(_, diagnostics)) => assert_eq!(diagnostics, "a\u{fffd}b"),
        other => panic!("unexpected outcome: {:?}", other),
    }
}

#[test]
fn failure_of_an_action_ends_the_turn_with_it() {
    for state in [
        DriverState::Starting,
        DriverState::Racing,
        DriverState::Closing { exit: None },
    ] {
        let step = state.on_event(DriverEvent::Failed(CodexError::MissingChildStream("stdout")));
        assert_eq!(step.state, DriverState::Finished);
        assert_eq!(step.line, None);
        assert!(matches!(
            step.action,
            DriverAction::Kill(CodexError::MissingChildStream("stdout"))
        ));
    }
    for state in [
        DriverState::Draining { exit: CLEAN },
        DriverState::Closing { exit: Some(CLEAN) },
    ] {
        let step = state.on_event(DriverEvent::Failed(CodexError::MissingChildStream("stderr")));
        assert_eq!(step.state, DriverState::Finished);
        assert!(matches!(
            step.action,
            DriverAction::Finish(Err(CodexError::MissingChildStream("stderr")))
        ));
    }
    for state in [DriverState::Idle, DriverState::Finished] {
        let step = state.on_event(DriverEvent::Failed(CodexError::Aborted));
        assert_eq!(step.state, state);
        assert!(matches!(step.action, DriverAction::Ignore));
    }
}

#[test]
fn line_stream_of_a_turn_cancelled_before_spawn_is_aborted_alone() {
    let handed = DriverState::line_stream(vec![
        DriverEvent::Begin { cancelled: true },
        DriverEvent::Spawned,
        DriverEvent::Line("never".to_string()),
    ]);
    assert_eq!(handed.len(), 1);
    assert!(matches!(&handed[0], Err(CodexError::Aborted)));
}

#[test]
fn line_stream_of_a_clean_turn_is_its_lines() {
    let handed = DriverState::line_stream(vec![
        DriverEvent::Begin { cancelled: false },
        DriverEvent::Spawned,
        DriverEvent::Line("one".to_string()),
        DriverEvent::Tick,
        DriverEvent::ExitPolled(Some(CLEAN)),
        DriverEvent::Line("two".to_string()),
        DriverEvent::EndOfOutput,
        DriverEvent::Diagnostics(b"warnings".to_vec()),
        DriverEvent::Line("after the end".to_string()),
    ]);
    assert_eq!(handed.len(), 2);
    assert!(matches!(&handed[0], Ok(line) if line == "one"));
    assert!(matches!(&handed[1], Ok(line) if line == "two"));
}

#[test]
fn line_stream_stops_at_cancellation() {
    let handed = DriverState::line_stream(vec![
        DriverEvent::Begin { cancelled: false },
        DriverEvent::Spawned,
        DriverEvent::Line("one".to_string()),
        DriverEvent::Cancelled,
        DriverEvent::Line("two".to_string()),
        DriverEvent::EndOfOutput,
    ]);
    assert_eq!(handed.len(), 2);
    assert!(matches!(&handed[0], Ok(line) if line == "one"));
    assert!(matches!(&handed[1], Err(CodexError::Aborted)));
}

#[test]
fn line_stream_ends_with_the_failed_exit() {
    let handed = DriverState::line_stream(vec![
        DriverEvent::Begin { cancelled: false },
        DriverEvent::Spawned,
        DriverEvent::Line("partial".to_string()),
        DriverEvent::EndOfOutput,
        DriverEvent::Exited(ProcessExit {
            success: false,
            code: Some(9),
        }),
        DriverEvent::Diagnostics(b"fatal".to_vec()),
    ]);
    assert_eq!(handed.len(), 2);
    assert!(matches!(&handed[0], Ok(line) if line == "partial"));
    match &handed[1] {
        Err(CodexError::ExecFailed(detail, diagnostics)) => {
            assert_eq!(detail, "code 9");
            assert_eq!(diagnostics, "fatal");
        }
        other => panic!("unexpected outcome: {:?}", other),
    }
    assert_eq!(DriverState::line_stream(vec![]).len(), 0);
}
