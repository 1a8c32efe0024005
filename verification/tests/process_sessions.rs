use zeroclaw_tools::host::time::Timestamp;
use zeroclaw_tools::process_sessions::cleanup::{CleanupRun, SessionRequest};
use zeroclaw_tools::process_sessions::errors::ProcessSessionError;
use zeroclaw_tools::process_sessions::output::BoundedOutputBuffer;
use zeroclaw_tools::process_sessions::registry::{
    ProcessSessionCleanupReport, ProcessSessionRegistry, ProcessSessionRegistryLimits,
    DEFAULT_STDERR_CAPACITY_BYTES, DEFAULT_STDOUT_CAPACITY_BYTES,
};
use zeroclaw_tools::process_sessions::session::{
    ProcessCare, ExitStatus, KillProgress, KillReply, KillStep, ProcessExitState, ProcessProbe,
    ProcessSession, StdinWrite, StreamKind, StreamRead,
};

const MILLI: u128 = 1_000_000;

fn at(millis: i64) -> Timestamp {
    Timestamp::at(millis / 1000, (millis % 1000) as u32 * 1_000_000).unwrap()
}

fn exited(code: i32) -> ProcessProbe {
    ProcessProbe::Exited(ExitStatus {
        success: code == 0,
        code: Some(code),
    })
}

fn killed() -> ExitStatus {
    ExitStatus {
        success: false,
        code: None,
    }
}

fn data(text: &str) -> StreamRead {
    StreamRead::Data(text.as_bytes().to_vec())
}

fn limits(max: usize, completed: u128, idle: u128) -> ProcessSessionRegistryLimits {
    ProcessSessionRegistryLimits {
        max_running_sessions: max,
        completed_retention: completed,
        idle_retention: idle,
    }
}

fn with_limits(limits: ProcessSessionRegistryLimits) -> ProcessSessionRegistry {
    ProcessSessionRegistry::with_limits(
        DEFAULT_STDOUT_CAPACITY_BYTES,
        DEFAULT_STDERR_CAPACITY_BYTES,
        limits,
    )
}

fn session(has_stdin: bool) -> ProcessSession {
    ProcessSession::new(
        "proc-000001".into(),
        "conversation-a".into(),
        "sleep".into(),
        has_stdin,
        16,
        16,
        at(0),
    )
}

/// Kills a process that runs, and is gone after it was killed.
fn kill(session: &mut ProcessSession, now: Timestamp) -> Result<ProcessExitState, ProcessSessionError> {
    let mut progress = session.kill(now);
    loop {
        match progress {
            KillProgress::Done(outcome) => return outcome,
            KillProgress::Ask(step) => {
                let reply = match step {
                    KillStep::Queue | KillStep::Probe => KillReply::Probed(ProcessProbe::Running),
                    KillStep::Kill => KillReply::Killed(Ok(())),
                    KillStep::Wait => KillReply::Waited(Ok(killed())),
                };
                progress = session.continue_kill(step, &reply, now);
            }
        }
    }
}

/// Answers for processes that all run until they are killed.
fn reply(request: &SessionRequest) -> KillReply {
    match request {
        SessionRequest::Probe { .. } => KillReply::Probed(ProcessProbe::Running),
        SessionRequest::Kill { .. } => KillReply::Killed(Ok(())),
        SessionRequest::Wait { .. } => KillReply::Waited(Ok(killed())),
    }
}

/// Kills the process of a session in a registry.
fn kill_in(
    registry: &mut ProcessSessionRegistry,
    id: &str,
    now: Timestamp,
) -> Result<ProcessExitState, ProcessSessionError> {
    let mut progress = registry.begin_kill(id, now).unwrap();
    loop {
        match progress {
            KillProgress::Done(outcome) => return outcome,
            KillProgress::Ask(step) => {
                let reply = match step {
                    KillStep::Queue | KillStep::Probe => KillReply::Probed(ProcessProbe::Running),
                    KillStep::Kill => KillReply::Killed(Ok(())),
                    KillStep::Wait => KillReply::Waited(Ok(killed())),
                };
                progress = registry.continue_kill(id, step, &reply, now).unwrap();
            }
        }
    }
}

fn clean_up(registry: &mut ProcessSessionRegistry, now: Timestamp) -> ProcessSessionCleanupReport {
    let mut run: CleanupRun = registry.cleanup_expired(now);
    while let Some(request) = run.request() {
        assert!(run.report().is_none());
        run.advance(registry, &reply(&request), now);
    }
    run.report().unwrap()
}

#[test]
fn registry_assigns_stable_ids_and_owner_scoping() {
    let mut registry = ProcessSessionRegistry::default();
    let first =
        registry.register_child("conversation-a".into(), "printf first".into(), false, at(0));
    let second =
        registry.register_child("conversation-b".into(), "printf second".into(), false, at(0));

    assert_eq!(first, "proc-000001");
    assert_eq!(second, "proc-000002");
    assert_eq!(registry.list_owned("conversation-a").len(), 1);
    assert!(registry.get_owned("conversation-a", &second).is_err());
    assert_eq!(
        registry.get_owned("conversation-b", &second).unwrap().command_summary(),
        "printf second"
    );
    assert_eq!(registry.get_owned("conversation-a", &first).unwrap().session_id(), first);
    assert_eq!(registry.get(&first).unwrap().owner_key(), "conversation-a");
    assert!(registry.get("proc-000003").is_none());
}

#[test]
fn registry_tracks_bounded_stdout_and_stderr_buffers() {
    let mut registry = ProcessSessionRegistry::new(12, 10);
    let id = registry.register_child(
        "conversation-a".into(),
        "python3 -c tail-test".into(),
        false,
        at(0),
    );
    assert!(registry.stream_read(&id, StreamKind::Stdout, &data("abcdefghijklmnop"), at(1)));
    assert!(registry.stream_read(&id, StreamKind::Stderr, &data("uvwxyz012345"), at(2)));
    registry.refresh(&id, &exited(0), at(3));

    let snapshot = registry.get(&id).unwrap().snapshot();
    assert_eq!(
        snapshot.exit_state,
        ProcessExitState::Exited {
            success: true,
            code: Some(0)
        }
    );
    assert_eq!(snapshot.stdout.content, "efghijklmnop");
    assert!(snapshot.stdout.truncated);
    assert_eq!(snapshot.stdout.total_bytes, 16);
    assert_eq!(snapshot.stderr.content, "wxyz012345");
    assert!(snapshot.stderr.truncated);
    assert_eq!(snapshot.stderr.total_bytes, 12);
    assert!(snapshot.completed_at.is_some());
    assert_eq!(snapshot.last_activity_at, at(3));
}

#[test]
fn registry_preserves_stdin_handle_until_closed() {
    let mut registry = ProcessSessionRegistry::default();
    let id = registry.register_child(
        "conversation-a".into(),
        "python3 uppercase".into(),
        true,
        at(0),
    );
    assert!(registry.get(&id).unwrap().has_stdin());
    assert!(registry.write_stdin(&id, &StdinWrite::Written, at(1)).unwrap().is_ok());
    registry.close_stdin(&id, at(2));
    assert!(!registry.get(&id).unwrap().has_stdin());
    let error = registry.write_stdin(&id, &StdinWrite::Closed, at(3)).unwrap().unwrap_err();
    assert_eq!(
        error.to_text(),
        "process session 'proc-000001' does not expose stdin"
    );
    assert_eq!(registry.get(&id).unwrap().last_activity_at(), at(2));
    assert!(registry.stream_read(&id, StreamKind::Stdout, &data("HELLO PROCESS"), at(4)));
    registry.refresh(&id, &exited(0), at(5));
    let snapshot = registry.get(&id).unwrap().snapshot();
    assert_eq!(
        snapshot.exit_state,
        ProcessExitState::Exited {
            success: true,
            code: Some(0)
        }
    );
    assert_eq!(snapshot.stdout.content, "HELLO PROCESS");
}

#[test]
fn poll_output_returns_incremental_chunks_and_offsets() {
    let mut registry = ProcessSessionRegistry::default();
    let id = registry.register_child(
        "conversation-a".into(),
        "python3 incremental".into(),
        false,
        at(0),
    );
    registry.stream_read(&id, StreamKind::Stdout, &data("one\n"), at(1));
    let first_poll = registry
        .poll(&id, 0, 0, &ProcessProbe::Running, at(2))
        .unwrap()
        .unwrap();
    assert_eq!(first_poll.stdout.content, "one\n");
    assert_eq!(first_poll.stdout.next_offset, 4);

    registry.stream_read(&id, StreamKind::Stdout, &data("two\n"), at(3));
    let second_poll = registry
        .poll(&id, first_poll.stdout.next_offset, 0, &ProcessProbe::Running, at(4))
        .unwrap()
        .unwrap();
    assert_eq!(second_poll.stdout.content, "two\n");
    assert_eq!(second_poll.stdout.next_offset, 8);
    assert!(!second_poll.stdout.missed_output);
    assert_eq!(second_poll.exit_state, ProcessExitState::Running);
    assert_eq!(second_poll.stderr.content, "");
}

#[test]
fn cleanup_reaps_completed_and_idle_sessions() {
    let mut registry = with_limits(limits(4, 30 * MILLI, 80 * MILLI));
    let completed_id =
        registry.register_child("conversation-a".into(), "printf done".into(), false, at(0));
    registry.refresh(&completed_id, &exited(0), at(10));
    let idle_id =
        registry.register_child("conversation-a".into(), "python3 idle".into(), false, at(50));
    registry.stream_read(&idle_id, StreamKind::Stdout, &data("hi\n"), at(55));

    let report = clean_up(&mut registry, at(170));
    assert_eq!(report.removed_completed_sessions, 1);
    assert_eq!(report.killed_idle_sessions, 1);
    assert_eq!(report.remaining_running_sessions, 0);
    assert!(registry.get(&completed_id).is_none());
    assert!(registry.get(&idle_id).is_none());
}

#[test]
fn cleanup_enforces_running_session_limit_after_reaping_completed_sessions() {
    let mut registry = with_limits(limits(1, 0, 60_000 * MILLI));
    let id = registry.register_child("conversation-a".into(), "python3 live".into(), false, at(0));

    let report = clean_up(&mut registry, at(10));
    let error = registry.prepare_for_new_session(report).unwrap_err();
    assert!(matches!(
        error,
        ProcessSessionError::SessionLimitExceeded {
            running_sessions: 1,
            max_running_sessions: 1
        }
    ));
    assert_eq!(
        error.to_text(),
        "process session capacity exceeded: 1 running sessions already active (limit 1)"
    );

    kill_in(&mut registry, &id, at(20)).unwrap();
    let report = clean_up(&mut registry, at(20));
    let report = registry.prepare_for_new_session(report).unwrap();
    assert_eq!(report.removed_completed_sessions, 1);
    assert_eq!(report.remaining_running_sessions, 0);
}

#[test]
fn shutdown_all_terminates_sessions_and_clears_registry() {
    let mut registry = ProcessSessionRegistry::default();
    registry.register_child("conversation-a".into(), "python3 sleep first".into(), true, at(0));
    registry.register_child("conversation-b".into(), "python3 sleep second".into(), true, at(0));

    let mut run = registry.shutdown_all();
    let mut requests = Vec::new();
    while let Some(request) = run.request() {
        run.advance(&mut registry, &reply(&request), at(1));
        requests.push(request);
    }
    assert_eq!(run.count(), 2);
    assert!(registry.session_ids().is_empty());
    assert_eq!(requests.len(), 6);
    assert_eq!(
        requests[3],
        SessionRequest::Probe {
            session_id: "proc-000002".into()
        }
    );
    let run = registry.shutdown_all();
    assert_eq!(run.count(), 0);
    assert!(run.request().is_none());
}

#[test]
fn a_failed_kill_does_not_end_a_shutdown() {
    let mut registry = ProcessSessionRegistry::default();
    let mut ids = Vec::new();
    for command in ["stubborn", "zombie", "hidden", "over"] {
        ids.push(registry.register_child("a".into(), command.into(), true, at(0)));
    }
    registry.refresh(&ids[3], &exited(0), at(1));

    let mut run = registry.shutdown_all();
    let mut kills = Vec::new();
    let mut looks = Vec::new();
    while let Some(request) = run.request() {
        assert_eq!(registry.session_ids(), ids);
        let answer = match &request {
            SessionRequest::Probe { session_id } => {
                looks.push(session_id.clone());
                if *session_id == ids[2] {
                    KillReply::Probed(ProcessProbe::Unknown {
                        reason: "denied".into(),
                    })
                } else {
                    KillReply::Probed(ProcessProbe::Running)
                }
            }
            SessionRequest::Kill { session_id } => {
                kills.push(session_id.clone());
                if *session_id == ids[0] {
                    KillReply::Killed(Err("denied".into()))
                } else {
                    KillReply::Killed(Ok(()))
                }
            }
            SessionRequest::Wait { .. } => KillReply::Waited(Err("denied".into())),
        };
        run.advance(&mut registry, &answer, at(2));
    }
    assert_eq!(run.count(), 4);
    assert_eq!(looks, ids);
    assert_eq!(kills, ids[..2].to_vec());
    assert!(registry.session_ids().is_empty());
}

#[test]
fn kill_marks_process_as_exited() {
    let mut session = session(true);
    let state = kill(&mut session, at(5)).unwrap();
    assert!(matches!(
        state,
        ProcessExitState::Exited {
            success: false,
            code: _
        }
    ));
    let snapshot = session.snapshot();
    assert!(snapshot.completed_at.is_some());
    assert!(!snapshot.has_stdin);
    // What has ended is told again, and nothing else changes.
    assert_eq!(kill(&mut session, at(9)).unwrap(), state);
    assert_eq!(session.completed_at(), Some(at(5)));
}

#[test]
fn refresh_exit_state_reports_failed_wait_attempts() {
    let mut session = session(false);
    assert_eq!(
        session.refresh_exit_state(&ProcessProbe::Running, at(1)).unwrap().unwrap(),
        ProcessExitState::Running
    );
    let state = session.refresh_exit_state(&exited(7), at(2)).unwrap().unwrap();
    assert_eq!(
        state,
        ProcessExitState::Exited {
            success: false,
            code: Some(7)
        }
    );
    // Once the process has ended, later looks change nothing.
    assert_eq!(session.refresh_exit_state(&exited(0), at(3)).unwrap().unwrap(), state);
    assert_eq!(session.completed_at(), Some(at(2)));
}

#[test]
fn a_process_that_cannot_be_inspected_has_failed() {
    let mut session = session(false);
    let probe = ProcessProbe::Unknown {
        reason: "no such process".into(),
    };
    let error = session.refresh_exit_state(&probe, at(2)).unwrap().unwrap_err();
    assert_eq!(
        error.to_text(),
        "failed to inspect process session 'proc-000001': no such process"
    );
    assert!(!session.is_running());
    assert_eq!(session.care(), ProcessCare::Nobody);
    assert_eq!(
        session.refresh_exit_state(&probe, at(3)).unwrap().unwrap(),
        ProcessExitState::Failed {
            reason: "no such process".into()
        }
    );
}

#[test]
fn killing_may_fail_at_every_step() {
    let failure = "failed to kill process session 'proc-000001': denied";
    let mut one = session(false);
    assert!(matches!(one.kill(at(1)), KillProgress::Ask(KillStep::Probe)));
    let reply = KillReply::Probed(ProcessProbe::Unknown {
        reason: "denied".into(),
    });
    match one.continue_kill(KillStep::Probe, &reply, at(2)) {
        KillProgress::Done(Err(error)) => assert_eq!(error.to_text(), failure),
        _ => panic!("expected an error"),
    }
    assert!(!one.is_running());

    let mut two = session(false);
    let _ = two.kill(at(1));
    match two.continue_kill(KillStep::Kill, &KillReply::Killed(Err("denied".into())), at(2)) {
        KillProgress::Done(Err(error)) => assert_eq!(error.to_text(), failure),
        _ => panic!("expected an error"),
    }
    assert!(two.is_running());
    match two.continue_kill(KillStep::Wait, &KillReply::Waited(Err("denied".into())), at(3)) {
        KillProgress::Done(Err(error)) => assert_eq!(error.to_text(), failure),
        _ => panic!("expected an error"),
    }
    assert!(matches!(
        two.continue_kill(KillStep::Wait, &KillReply::Killed(Ok(())), at(3)),
        KillProgress::Ask(KillStep::Wait)
    ));
    match two.continue_kill(KillStep::Probe, &KillReply::Probed(exited(3)), at(4)) {
        KillProgress::Done(Ok(state)) => assert_eq!(
            state,
            ProcessExitState::Exited {
                success: false,
                code: Some(3)
            }
        ),
        _ => panic!("expected the end"),
    }
}

#[test]
fn buffers_keep_the_end_of_the_output() {
    let mut buffer = BoundedOutputBuffer::new(4);
    buffer.append(b"abc");
    assert_eq!(buffer.snapshot().content, "abc");
    assert!(!buffer.snapshot().truncated);
    buffer.append(b"");
    buffer.append(b"defgh");
    let snapshot = buffer.snapshot();
    assert_eq!(snapshot.content, "efgh");
    assert!(snapshot.truncated);
    assert_eq!(snapshot.total_bytes, 8);

    let behind = buffer.delta_since(2);
    assert!(behind.missed_output);
    assert_eq!(behind.content, "efgh");
    let edge = buffer.delta_since(4);
    assert!(!edge.missed_output);
    assert_eq!(edge.content, "efgh");
    assert_eq!(buffer.delta_since(6).content, "gh");
    assert_eq!(buffer.delta_since(8).content, "");
    let ahead = buffer.delta_since(100);
    assert_eq!(ahead.content, "");
    assert_eq!(ahead.next_offset, 8);
    assert_eq!(ahead.total_bytes, 8);
    assert!(ahead.truncated);
    assert!(buffer.has_room_for(1000));
    assert!(!buffer.has_room_for(usize::MAX));

    let mut nothing = BoundedOutputBuffer::new(0);
    nothing.append(b"x");
    assert_eq!(nothing.snapshot().content, "");
    assert!(nothing.snapshot().truncated);
}

#[test]
fn bytes_that_are_no_text_are_replaced() {
    let mut buffer = BoundedOutputBuffer::new(16);
    buffer.append(&[b'a', 0xff, b'b']);
    assert_eq!(buffer.snapshot().content, "a\u{fffd}b");
    buffer.append("ä€".as_bytes());
    assert_eq!(buffer.delta_since(3).content, "ä€");
    assert_eq!(buffer.delta_since(4).content, "\u{fffd}€");
}

#[test]
fn two_polls_tell_all_that_was_written() {
    let mut session = session(false);
    let mut told = String::new();
    let mut cursor = 0;
    for chunk in ["first ", "", "second ", "third"] {
        session.append_stdout(chunk.as_bytes(), at(1));
        let poll = session.poll_output(cursor, 0, &ProcessProbe::Running, at(1)).unwrap().unwrap();
        assert!(!poll.stdout.missed_output);
        told.push_str(&poll.stdout.content);
        cursor = poll.stdout.next_offset;
    }
    assert_eq!(told, "first second third");
    session.append_stderr(b"oops", at(2));
    assert_eq!(session.poll_output(0, 1, &exited(1), at(2)).unwrap().unwrap().stderr.content, "ops");
}

#[test]
fn a_poll_fails_where_the_look_fails() {
    let mut session = session(false);
    let probe = ProcessProbe::Unknown { reason: "gone".into() };
    assert_eq!(
        session.poll_output(0, 0, &probe, at(1)).unwrap().unwrap_err(),
        ProcessSessionError::InspectFailed {
            session_id: "proc-000001".into(),
            reason: "gone".into()
        }
    );
}

#[test]
fn streams_end_with_nothing_or_an_error() {
    let mut registry = ProcessSessionRegistry::default();
    let id = registry.register_child("a".into(), "x".into(), false, at(0));
    assert!(registry.stream_read(&id, StreamKind::Stderr, &data("x"), at(1)));
    assert!(!registry.stream_read(&id, StreamKind::Stderr, &data(""), at(2)));
    assert!(!registry.stream_read(&id, StreamKind::Stderr, &StreamRead::End, at(3)));
    assert_eq!(registry.get(&id).unwrap().last_activity_at(), at(1));
    let failed = StreamRead::Failed { reason: "broken pipe".into() };
    assert!(registry.has_room_for(&id, StreamKind::Stderr, &failed));
    assert!(!registry.stream_read(&id, StreamKind::Stderr, &failed, at(4)));
    assert_eq!(
        registry.get(&id).unwrap().snapshot().stderr.content,
        "x\n[process stream read error: broken pipe]\n"
    );
    assert!(registry.stream_read("nobody", StreamKind::Stdout, &data("y"), at(5)));
    assert!(registry.has_room_for("nobody", StreamKind::Stdout, &data("y")));
}

#[test]
fn failed_writes_are_reported() {
    let mut session = session(true);
    let error = session
        .write_stdin(&StdinWrite::Failed { reason: "broken pipe".into() }, at(1))
        .unwrap_err();
    assert_eq!(
        error.to_text(),
        "failed to write to process session 'proc-000001': broken pipe"
    );
    assert_eq!(session.last_activity_at(), at(0));
    session.write_stdin(&StdinWrite::Written, at(2)).unwrap();
    assert_eq!(session.last_activity_at(), at(2));
    session.close_stdin(at(3));
    assert!(!session.has_stdin());
    assert_eq!(
        ProcessSessionError::SessionNotFound { session_id: "p".into() }.to_text(),
        "process session 'p' not found"
    );
}

#[test]
fn cleanup_keeps_what_is_recent() {
    let mut registry = with_limits(limits(4, 100 * MILLI, 100 * MILLI));
    let done = registry.register_child("a".into(), "done".into(), false, at(0));
    registry.refresh(&done, &exited(0), at(50));
    let live = registry.register_child("b".into(), "live".into(), false, at(60));
    let report = clean_up(&mut registry, at(140));
    assert_eq!(
        report,
        ProcessSessionCleanupReport {
            removed_completed_sessions: 0,
            killed_idle_sessions: 0,
            remaining_running_sessions: 1
        }
    );
    assert_eq!(registry.session_ids(), vec![done.clone(), live.clone()]);
    let report = clean_up(&mut registry, at(150));
    assert_eq!(report.removed_completed_sessions, 1);
    assert_eq!(registry.session_ids(), vec![live]);
    assert_eq!(registry.limits().max_running_sessions, 4);
}

#[test]
fn sessions_can_be_forgotten() {
    let mut registry = ProcessSessionRegistry::default();
    let one = registry.register_child("a".into(), "one".into(), false, at(0));
    let two = registry.register_child("a".into(), "two".into(), false, at(0));
    registry.remove(&one);
    registry.remove("nobody");
    assert_eq!(registry.session_ids(), vec![two]);
    registry.clear();
    assert!(registry.session_ids().is_empty());
    assert_eq!(registry.register_child("a".into(), "three".into(), false, at(0)), "proc-000003");
}

#[test]
fn default_limits_are_modest() {
    let limits = ProcessSessionRegistryLimits::default();
    assert_eq!(limits.max_running_sessions, 8);
    assert_eq!(limits.completed_retention, 15 * 60 * 1000 * MILLI);
    assert_eq!(limits.idle_retention, 30 * 60 * 1000 * MILLI);
    assert_eq!(DEFAULT_STDOUT_CAPACITY_BYTES, 64 * 1024);
    assert_eq!(DEFAULT_STDERR_CAPACITY_BYTES, 32 * 1024);
}

#[test]
fn registries_kill_step_by_step() {
    let mut registry = ProcessSessionRegistry::default();
    let id = registry.register_child("a".into(), "x".into(), true, at(0));
    assert!(registry.begin_kill("nobody", at(1)).is_none());
    assert!(matches!(
        registry.begin_kill(&id, at(1)),
        Some(KillProgress::Ask(KillStep::Probe))
    ));
    assert!(!registry.get(&id).unwrap().has_stdin());
    assert!(matches!(
        registry.continue_kill(
            &id,
            KillStep::Probe,
            &KillReply::Probed(ProcessProbe::Running),
            at(2)
        ),
        Some(KillProgress::Ask(KillStep::Kill))
    ));
    assert!(registry
        .continue_kill("nobody", KillStep::Kill, &KillReply::Killed(Ok(())), at(2))
        .is_none());
    assert!(registry.poll("nobody", 0, 0, &ProcessProbe::Running, at(3)).is_none());
    assert!(registry.write_stdin("nobody", &StdinWrite::Written, at(3)).is_none());
}

#[test]
fn who_kills_a_process_keeps_the_others_off() {
    let mut registry = ProcessSessionRegistry::default();
    let id = registry.register_child("a".into(), "x".into(), true, at(0));
    assert!(matches!(
        registry.begin_kill(&id, at(1)),
        Some(KillProgress::Ask(KillStep::Probe))
    ));
    assert!(registry.is_busy(&id));
    // A second kill waits, and so do looks, whatever they show.
    assert!(matches!(
        registry.begin_kill(&id, at(2)),
        Some(KillProgress::Ask(KillStep::Queue))
    ));
    let look = KillReply::Probed(exited(0));
    assert!(matches!(
        registry.continue_kill(&id, KillStep::Queue, &look, at(3)),
        Some(KillProgress::Ask(KillStep::Queue))
    ));
    registry.refresh(&id, &exited(0), at(3));
    assert!(registry.poll(&id, 0, 0, &exited(0), at(3)).is_none());
    assert!(registry.get(&id).unwrap().is_running());

    // Once the first is done, the second is told the same end.
    let end = ProcessExitState::Exited {
        success: false,
        code: None,
    };
    let waited = KillReply::Waited(Ok(killed()));
    match registry.continue_kill(&id, KillStep::Wait, &waited, at(4)) {
        Some(KillProgress::Done(Ok(state))) => assert_eq!(state, end),
        _ => panic!("expected the end"),
    }
    assert!(!registry.is_busy(&id));
    match registry.continue_kill(&id, KillStep::Queue, &look, at(5)) {
        Some(KillProgress::Done(Ok(state))) => assert_eq!(state, end),
        _ => panic!("expected the end"),
    }
    assert_eq!(registry.get(&id).unwrap().completed_at(), Some(at(4)));
    let poll = registry.poll(&id, 0, 0, &ProcessProbe::Running, at(6)).unwrap().unwrap();
    assert_eq!(poll.exit_state, end);
}

#[test]
fn a_kill_can_be_given_up() {
    let mut registry = ProcessSessionRegistry::default();
    let id = registry.register_child("a".into(), "x".into(), true, at(0));
    registry.give_up_kill(&id);
    registry.give_up_kill("nobody");
    assert_eq!(registry.get(&id).unwrap().care(), ProcessCare::Anyone);
    let _ = registry.begin_kill(&id, at(1));
    assert_eq!(registry.get(&id).unwrap().care(), ProcessCare::Killer);
    registry.give_up_kill(&id);
    assert_eq!(registry.get(&id).unwrap().care(), ProcessCare::Nobody);
    assert_eq!(kill_in(&mut registry, &id, at(2)).unwrap(), ProcessExitState::Running);
}

#[test]
fn cleanup_waits_for_whoever_kills_a_process() {
    let mut registry = with_limits(limits(4, 30 * MILLI, 80 * MILLI));
    let id = registry.register_child("a".into(), "x".into(), true, at(0));
    let _ = registry.begin_kill(&id, at(1));
    let mut run = registry.cleanup_expired(at(200));
    let probe = SessionRequest::Probe { session_id: id.clone() };
    assert_eq!(run.request().as_ref(), Some(&probe));
    run.advance(&mut registry, &KillReply::Probed(ProcessProbe::Running), at(200));
    assert_eq!(run.request().as_ref(), Some(&probe));
    assert_eq!(run.killing(), None);
    let waited = KillReply::Waited(Ok(killed()));
    let _ = registry.continue_kill(&id, KillStep::Wait, &waited, at(190));
    run.advance(&mut registry, &KillReply::Probed(ProcessProbe::Running), at(200));
    assert_eq!(run.report().unwrap().removed_completed_sessions, 0);
    assert!(registry.get(&id).is_some());
}

#[test]
fn cleanups_name_what_they_kill() {
    let mut registry = with_limits(limits(4, 30 * MILLI, 80 * MILLI));
    let id = registry.register_child("a".into(), "x".into(), true, at(0));
    let mut run = registry.cleanup_expired(at(200));
    assert_eq!(run.killing(), None);
    run.advance(&mut registry, &KillReply::Probed(ProcessProbe::Running), at(200));
    assert_eq!(run.killing(), Some(id.clone()));
    let mut other = registry.shutdown_all();
    other.advance(&mut registry, &KillReply::Probed(ProcessProbe::Running), at(200));
    assert_eq!(other.killing(), None);
    run.advance(&mut registry, &KillReply::Probed(exited(0)), at(201));
    assert_eq!(run.report().unwrap().killed_idle_sessions, 1);
    assert!(registry.get(&id).is_none());
    // The shutdown still knows the session, and goes on to its end.
    other.advance(&mut registry, &KillReply::Probed(ProcessProbe::Running), at(202));
    assert!(other.request().is_none());
    assert_eq!(other.count(), 1);
}

#[test]
fn cleanups_count_each_reason_by_itself() {
    let mut registry = with_limits(limits(8, 30 * MILLI, 80 * MILLI));
    for _ in 0..3 {
        let over = registry.register_child("a".into(), "over".into(), false, at(0));
        registry.refresh(&over, &exited(0), at(10));
    }
    for _ in 0..2 {
        registry.register_child("a".into(), "idle".into(), false, at(0));
    }
    let recent = registry.register_child("a".into(), "recent".into(), false, at(150));

    let report = clean_up(&mut registry, at(170));
    assert_eq!(report.removed_completed_sessions, 3);
    assert_eq!(report.killed_idle_sessions, 2);
    assert_eq!(report.remaining_running_sessions, 1);
    assert_eq!(registry.session_ids(), vec![recent]);
}

#[test]
fn two_cleanups_count_the_same_session() {
    let mut registry = with_limits(limits(4, 30 * MILLI, 80 * MILLI));
    let id = registry.register_child("a".into(), "x".into(), false, at(0));
    registry.refresh(&id, &exited(0), at(10));
    let mut first = registry.cleanup_expired(at(100));
    let mut second = registry.cleanup_expired(at(100));
    let look = KillReply::Probed(ProcessProbe::Running);
    first.advance(&mut registry, &look, at(100));
    assert!(registry.get(&id).is_none());
    second.advance(&mut registry, &look, at(101));
    assert_eq!(first.report().unwrap().removed_completed_sessions, 1);
    assert_eq!(second.report().unwrap().removed_completed_sessions, 1);
}

#[test]
fn a_forgotten_session_is_kept_until_it_is_swept_out() {
    let mut registry = ProcessSessionRegistry::default();
    let one = registry.register_child("a".into(), "one".into(), false, at(0));
    let two = registry.register_child("a".into(), "two".into(), false, at(0));
    registry.remove(&one);
    assert!(registry.get(&one).is_none());
    assert!(registry.get_owned("a", &one).is_err());
    assert_eq!(registry.list_owned("a").len(), 1);
    assert!(!registry.held(&one).unwrap().is_listed());
    assert!(registry.stream_read(&one, StreamKind::Stdout, &data("late"), at(1)));
    assert_eq!(registry.held(&one).unwrap().snapshot().stdout.content, "late");
    registry.sweep();
    assert!(registry.held(&one).is_none());
    assert_eq!(registry.session_ids(), vec![two.clone()]);
    assert!(registry.held(&two).unwrap().is_listed());
}
