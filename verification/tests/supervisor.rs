use devin_process::buffer::BoundedBuffer;
use devin_process::clock::{Duration, Timestamp};
use devin_process::monitor::{Monitor, MonitorAction, MonitorEvent, MonitorPhase, PollOutcome};
use devin_process::process::{
    exit_status_code, spill_record, ExitReport, ManagedProcess, PumpStep, ReadEvent,
};
use devin_process::supervisor::{
    new_process_id, process_id_from, spill_file_name, BashFound, ChangeEvent, ChangeStep,
    CleanupStep, KillStep, SpawnPlan, SpawnReport, TerminalStep, TerminalWait,
};
use devin_process::{ProcessStatus, ProcessSupervisor, ProcessSupervisorConfig};

const BASH: BashFound = BashFound {
    bin: true,
    usr_bin: true,
    usr_local_bin: true,
};

const SUCCESS: ExitReport = ExitReport {
    success: true,
    code: Some(0),
    signal: None,
};

const TERMINATED: ExitReport = ExitReport {
    success: false,
    code: None,
    signal: Some(15),
};

fn millis(n: u64) -> Duration {
    Duration::from_millis(n)
}

fn small(output_capacity: usize) -> ProcessSupervisor {
    ProcessSupervisor::with_config(
        "/workspace".to_string(),
        None,
        None,
        ProcessSupervisorConfig {
            output_capacity,
            poll_interval: millis(5),
            kill_grace: millis(100),
        },
    )
}

fn spawn(
    supervisor: &mut ProcessSupervisor,
    command: &str,
    timeout: Option<Duration>,
    pid: u32,
) -> String {
    let plan = supervisor
        .plan_spawn(command, None, timeout, true, BASH)
        .expect("plan");
    let process_id = new_process_id();
    let spill_path = format!("/tmp/{}", spill_file_name(&process_id));
    supervisor
        .spawn(
            plan,
            SpawnReport::Started {
                pid,
                process_id,
                spill_path,
            },
        )
        .expect("spawn")
}

fn print(supervisor: &mut ProcessSupervisor, id: &str, bytes: &[u8]) {
    assert_eq!(
        supervisor.pump_output(id, false, ReadEvent::Read(bytes.to_vec())),
        Ok(PumpStep::Continue)
    );
}

fn polled(outcome: PollOutcome, elapsed: Duration) -> MonitorEvent {
    MonitorEvent::Polled { outcome, elapsed }
}

fn end(supervisor: &mut ProcessSupervisor, id: &str, monitor: &mut Monitor, exit: ExitReport) {
    let step = supervisor.monitor_process(
        id,
        monitor,
        polled(PollOutcome::Exited(exit), millis(1)),
    );
    assert_eq!(step, Ok(MonitorAction::JoinPumps));
    let step = supervisor.monitor_process(id, monitor, MonitorEvent::PumpsJoined);
    assert_eq!(step, Ok(MonitorAction::Finish));
    supervisor.finish(id, monitor).expect("finish");
}

/// Let a child that does not end by itself be terminated and then end.
fn stop(
    supervisor: &mut ProcessSupervisor,
    id: &str,
    pid: u32,
    elapsed: Duration,
) {
    let mut monitor = Monitor::new();
    let step = supervisor.monitor_process(
        id,
        &mut monitor,
        polled(PollOutcome::StillRunning, elapsed),
    );
    assert_eq!(step, Ok(MonitorAction::Terminate(pid)));
    let step = supervisor.monitor_process(id, &mut monitor, MonitorEvent::GraceElapsed(millis(0)));
    assert_eq!(step, Ok(MonitorAction::Poll));
    end(supervisor, id, &mut monitor, TERMINATED);
}

#[test]
fn background_process_exposes_incremental_output() {
    let mut supervisor = small(4096);
    let id = spawn(&mut supervisor, "printf one; sleep 0.1; printf two", None, 1);
    print(&mut supervisor, &id, b"one");
    let first = supervisor.snapshot(&id, None, None).expect("snapshot");
    assert!(first.stdout.contains("one"));
    assert_eq!(first.status, ProcessStatus::Running);
    print(&mut supervisor, &id, b"two");
    end(&mut supervisor, &id, &mut Monitor::new(), SUCCESS);
    let second = supervisor.snapshot(&id, None, None).expect("snapshot");
    assert!(second.stdout.contains("onetwo"));
    assert_eq!(second.status, ProcessStatus::Succeeded);
}

#[test]
fn stdin_reaches_interactive_process_and_can_be_closed() {
    let mut supervisor = small(4096);
    let id = spawn(
        &mut supervisor,
        "IFS= read -r line; printf 'got:%s' \"$line\"",
        None,
        1,
    );
    assert_eq!(supervisor.stdin_ready(&id), Ok(()));
    supervisor
        .write_stdin(&id, true, Ok(()))
        .expect("write stdin");
    print(&mut supervisor, &id, b"got:hello");
    end(&mut supervisor, &id, &mut Monitor::new(), SUCCESS);
    let snapshot = supervisor.snapshot(&id, None, None).expect("snapshot");
    assert_eq!(snapshot.status, ProcessStatus::Succeeded);
    assert_eq!(snapshot.stdout, "got:hello");
    assert!(!snapshot.stdin_open);
}

#[test]
fn timeout_terminates_the_process_group() {
    let mut supervisor = small(4096);
    let id = spawn(&mut supervisor, "sleep 10", Some(millis(50)), 31);
    let mut monitor = Monitor::new();
    let step = supervisor.monitor_process(
        &id,
        &mut monitor,
        polled(PollOutcome::StillRunning, millis(49)),
    );
    assert_eq!(step, Ok(MonitorAction::Sleep(millis(5))));
    stop(&mut supervisor, &id, 31, millis(50));
    let snapshot = supervisor.snapshot(&id, None, None).expect("snapshot");
    assert_eq!(snapshot.status, ProcessStatus::TimedOut);
    assert_eq!(snapshot.exit_code, Some(-15));
}

#[test]
fn explicit_cancellation_marks_process_cancelled() {
    let mut supervisor = small(4096);
    let id = spawn(&mut supervisor, "sleep 10", None, 32);
    assert_eq!(
        supervisor.kill(&id, None),
        Ok(KillStep::Terminate {
            pid: 32,
            allowed: millis(100)
        })
    );
    stop(&mut supervisor, &id, 32, millis(1));
    let snapshot = supervisor.snapshot(&id, None, None).expect("snapshot");
    assert_eq!(snapshot.status, ProcessStatus::Cancelled);
}

#[test]
fn unknown_process_id_fails_clearly() {
    let supervisor = small(4096);
    let error = supervisor
        .snapshot("proc_missing", None, None)
        .expect_err("unknown process must fail");
    assert!(error.message().contains("unknown process id"));
    assert_eq!(error.message(), "unknown process id `proc_missing`");
}

#[test]
fn closed_stdin_fails_clearly() {
    let mut supervisor = small(4096);
    let id = spawn(&mut supervisor, "cat", None, 1);
    supervisor.close_stdin(&id).expect("close stdin");
    let error = supervisor
        .write_stdin(&id, false, Ok(()))
        .expect_err("closed stdin must fail");
    assert!(error.message().contains("stdin") && error.message().contains("closed"));
    assert_eq!(
        error.message(),
        format!("stdin for process `{}` is closed", id)
    );
    let error = supervisor.close_stdin(&id).expect_err("already closed");
    assert_eq!(
        error.message(),
        format!("stdin for process `{}` is already closed", id)
    );
}

#[test]
fn output_is_bounded_and_exposes_artifact_reference() {
    let mut supervisor = small(64);
    let id = spawn(
        &mut supervisor,
        "head -c 4096 /dev/zero | tr '\\0' x",
        None,
        1,
    );
    print(&mut supervisor, &id, &[b'x'; 4096]);
    end(&mut supervisor, &id, &mut Monitor::new(), SUCCESS);
    let snapshot = supervisor.snapshot(&id, None, None).expect("snapshot");
    assert!(snapshot.stdout_truncated);
    assert!(snapshot.stdout.len() <= 64);
    assert_eq!(snapshot.stdout_total_bytes, 4096);
    assert_eq!(snapshot.artifact_refs.len(), 1);
    assert_eq!(
        snapshot.artifact_refs[0],
        format!("file:///tmp/pi-{}.log", id)
    );
    assert!(!snapshot.stderr_truncated);
}

#[test]
fn registry_drop_cleans_up_session_owned_background_processes() {
    let mut supervisor = small(4096);
    let id = spawn(&mut supervisor, "sleep 10", None, 33);
    assert_eq!(supervisor.active_process_count(), 1);
    let cleanup = supervisor.cleanup_all();
    assert_eq!(cleanup.terminate, vec![33]);
    assert_eq!(cleanup.watched, 1);
    assert_eq!(
        supervisor.continue_cleanup(1, millis(99)),
        CleanupStep::Wait(millis(5))
    );
    assert_eq!(
        supervisor.continue_cleanup(1, millis(100)),
        CleanupStep::Kill(vec![33])
    );
    stop(&mut supervisor, &id, 33, millis(1));
    let snapshot = supervisor.snapshot(&id, None, None).expect("snapshot");
    assert_eq!(snapshot.status, ProcessStatus::Cancelled);
    assert_eq!(supervisor.active_process_count(), 0);
    assert_eq!(
        supervisor.continue_cleanup(1, millis(0)),
        CleanupStep::Kill(vec![])
    );
    let error = supervisor
        .plan_spawn("true", None, None, true, BASH)
        .expect_err("stopping");
    assert_eq!(error.message(), "process supervisor is stopping");
}

#[test]
fn cleanup_leaves_later_and_ended_processes_alone() {
    let mut supervisor = small(16);
    let ended = spawn(&mut supervisor, "a", None, 1);
    end(&mut supervisor, &ended, &mut Monitor::new(), SUCCESS);
    spawn(&mut supervisor, "b", None, 2);
    spawn(&mut supervisor, "c", None, 3);
    let plan = supervisor
        .plan_spawn("d", None, None, true, BASH)
        .expect("plan");
    let cleanup = supervisor.cleanup_all();
    assert_eq!(cleanup.terminate, vec![2, 3]);
    let report = SpawnReport::Started {
        pid: 4,
        process_id: "late".to_string(),
        spill_path: "/tmp/late".to_string(),
    };
    supervisor.spawn(plan, report).expect("spawn");
    assert_eq!(
        supervisor.continue_cleanup(cleanup.watched, millis(500)),
        CleanupStep::Kill(vec![2, 3])
    );
    assert_eq!(supervisor.active_process_count(), 3);
}

#[test]
fn settings_are_moved_within_their_bounds() {
    let supervisor = ProcessSupervisor::with_config(
        "/w".to_string(),
        None,
        None,
        ProcessSupervisorConfig {
            output_capacity: 0,
            poll_interval: Duration { nanos: 0 },
            kill_grace: Duration::from_secs(60),
        },
    );
    let config = supervisor.config();
    assert_eq!(config.output_capacity, 1);
    assert_eq!(config.poll_interval, millis(1));
    assert_eq!(config.kill_grace, Duration::from_secs(5));
    assert_eq!(supervisor.workspace(), "/w");
    let defaults = ProcessSupervisor::new("/w".to_string(), None, None).config();
    assert_eq!(defaults.output_capacity, 1_000_000);
    assert_eq!(defaults.poll_interval, millis(10));
    assert_eq!(defaults.kill_grace, millis(250));
}

#[test]
fn spawn_is_planned_or_refused() {
    let supervisor = ProcessSupervisor::new(
        "/w".to_string(),
        Some("/bin/zsh".to_string()),
        Some("set -e".to_string()),
    );
    assert_eq!(
        supervisor.plan_spawn("ls", Some("/d"), Some(millis(7)), true, BASH),
        Ok(SpawnPlan {
            shell: "/bin/zsh".to_string(),
            script: "trap 'code=$?; wait; exit $code' EXIT\nset -e\nls".to_string(),
            cwd: "/d".to_string(),
            timeout: Some(millis(7)),
        })
    );
    let error = supervisor
        .plan_spawn(" \n\u{2003}", None, None, true, BASH)
        .expect_err("blank");
    assert_eq!(error.message(), "command must not be empty");
    let error = supervisor
        .plan_spawn("ls", None, None, false, BASH)
        .expect_err("no directory");
    assert_eq!(error.message(), "working directory does not exist: /w");
    assert_eq!(supervisor.spawn_directory(None), "/w");
    assert_eq!(supervisor.spawn_directory(Some("/d")), "/d");
}

#[test]
fn shell_is_the_first_bash_found() {
    let supervisor = ProcessSupervisor::new("/w".to_string(), None, Some(" ".to_string()));
    let shell = |bin: bool, usr_bin: bool, usr_local_bin: bool| {
        let bash = BashFound {
            bin,
            usr_bin,
            usr_local_bin,
        };
        let plan = supervisor
            .plan_spawn("ls", None, None, true, bash)
            .expect("plan");
        assert_eq!(plan.script, "trap 'code=$?; wait; exit $code' EXIT\nls");
        plan.shell
    };
    assert_eq!(shell(true, true, true), "/bin/bash");
    assert_eq!(shell(false, true, true), "/usr/bin/bash");
    assert_eq!(shell(false, false, true), "/usr/local/bin/bash");
    assert_eq!(shell(false, false, false), "sh");
}

#[test]
fn failed_starts_are_reported() {
    let mut supervisor = small(16);
    let reports = [
        (
            SpawnReport::PrepareFailed("e".to_string()),
            "failed to prepare shell: e",
        ),
        (
            SpawnReport::SpawnFailed("e".to_string()),
            "failed to spawn shell: e",
        ),
        (SpawnReport::MissingStdin, "missing child stdin"),
        (SpawnReport::MissingStdout, "missing child stdout"),
        (SpawnReport::MissingStderr, "missing child stderr"),
        (
            SpawnReport::SpillFailed("e".to_string()),
            "failed to create output spill: e",
        ),
    ];
    for (report, message) in reports {
        let plan = supervisor
            .plan_spawn("ls", None, None, true, BASH)
            .expect("plan");
        let error = supervisor.spawn(plan, report).expect_err("failed");
        assert_eq!(error.message(), message);
    }
    assert_eq!(supervisor.active_process_count(), 0);
}

#[test]
fn process_ids_are_hexadecimal() {
    assert_eq!(
        process_id_from(&[0, 1, 0xab, 0xff, 4, 5, 6, 7, 8, 9, 10, 11, 12, 13, 14, 15]),
        "proc_0001abff0405060708090a0b0c0d0e0f"
    );
    let id = new_process_id();
    assert_eq!(id.len(), 37);
    assert_eq!(&id[5 + 12..5 + 13], "4");
    assert!("89ab".contains(&id[5 + 16..5 + 17]));
    assert_ne!(id, new_process_id());
    assert_eq!(spill_file_name("proc_1"), "pi-proc_1.log");
}

#[test]
fn started_process_is_described() {
    let mut supervisor = small(16);
    let id = spawn(&mut supervisor, "ls", None, 77);
    let snapshot = supervisor.snapshot(&id, None, None).expect("snapshot");
    assert_eq!(snapshot.process_id, id);
    assert_eq!(snapshot.cwd, "/workspace");
    assert_eq!(snapshot.process_group_id, Some(77));
    assert_eq!(snapshot.exit_code, None);
    assert_eq!(snapshot.ended_at, None);
    assert!(snapshot.stdin_open);
    assert!(snapshot.artifact_refs.is_empty());
    assert!(snapshot.started_at.rfc3339.ends_with('Z'));
}

#[test]
fn failed_write_closes_stdin() {
    let mut supervisor = small(16);
    let id = spawn(&mut supervisor, "cat", None, 1);
    assert_eq!(supervisor.write_stdin(&id, false, Ok(())), Ok(()));
    assert!(supervisor.snapshot(&id, None, None).unwrap().stdin_open);
    let error = supervisor
        .write_stdin(&id, false, Err("broken pipe".to_string()))
        .expect_err("failed");
    assert_eq!(
        error.message(),
        format!(
            "failed to write stdin for process `{}`: broken pipe",
            id
        )
    );
    assert!(!supervisor.snapshot(&id, None, None).unwrap().stdin_open);
}

#[test]
fn ended_process_takes_no_input_and_is_not_killed() {
    let mut supervisor = small(16);
    let id = spawn(&mut supervisor, "true", None, 1);
    end(&mut supervisor, &id, &mut Monitor::new(), SUCCESS);
    let error = supervisor.stdin_ready(&id).expect_err("ended");
    assert_eq!(
        error.message(),
        format!("process `{}` is no longer running", id)
    );
    match supervisor.kill(&id, None) {
        Ok(KillStep::Done(snapshot)) => assert_eq!(snapshot.status, ProcessStatus::Succeeded),
        other => panic!("{:?}", other),
    }
}

#[test]
fn kill_waits_and_then_forces() {
    let mut supervisor = small(16);
    let id = spawn(&mut supervisor, "sleep 10", None, 9);
    assert_eq!(
        supervisor.kill(&id, Some(Duration::from_secs(60))),
        Ok(KillStep::Terminate {
            pid: 9,
            allowed: Duration::from_secs(5)
        })
    );
    let allowed = millis(30);
    assert_eq!(
        supervisor.continue_kill(&id, allowed, millis(29)),
        Ok(KillStep::Wait(millis(5)))
    );
    assert_eq!(
        supervisor.continue_kill(&id, allowed, millis(30)),
        Ok(KillStep::ForceKill(9))
    );
    stop(&mut supervisor, &id, 9, millis(1));
    match supervisor.continue_kill(&id, allowed, millis(31)) {
        Ok(KillStep::Done(snapshot)) => assert_eq!(snapshot.status, ProcessStatus::Cancelled),
        other => panic!("{:?}", other),
    }
    assert!(supervisor.kill("none", None).is_err());
}

#[test]
fn wait_for_terminal_passes_output_on_once() {
    let mut supervisor = small(64);
    let id = spawn(&mut supervisor, "x", None, 5);
    let mut wait = TerminalWait {
        stdout_offset: 0,
        stderr_offset: 0,
    };
    let poll = supervisor.wait_for_terminal(&id, &mut wait).unwrap();
    assert!(poll.update.is_none() && poll.finished.is_none());
    print(&mut supervisor, &id, b"first");
    let poll = supervisor.wait_for_terminal(&id, &mut wait).unwrap();
    assert_eq!(poll.update.unwrap().stdout, "first");
    assert_eq!(wait.stdout_offset, 5);
    let poll = supervisor.wait_for_terminal(&id, &mut wait).unwrap();
    assert!(poll.update.is_none());
    print(&mut supervisor, &id, b"second");
    end(&mut supervisor, &id, &mut Monitor::new(), SUCCESS);
    let poll = supervisor.wait_for_terminal(&id, &mut wait).unwrap();
    assert_eq!(poll.update.unwrap().stdout, "second");
    assert_eq!(poll.finished.unwrap().stdout, "firstsecond");
}

#[test]
fn cancelled_caller_stops_the_process() {
    let mut supervisor = small(64);
    let id = spawn(&mut supervisor, "x", None, 5);
    assert_eq!(
        supervisor.after_checkpoint(&id, false),
        Ok(TerminalStep::Sleep(millis(5)))
    );
    assert_eq!(
        supervisor.after_checkpoint(&id, true),
        Ok(TerminalStep::Terminate(5))
    );
    stop(&mut supervisor, &id, 5, millis(1));
    assert_eq!(
        supervisor.snapshot(&id, None, None).unwrap().status,
        ProcessStatus::Cancelled
    );
}

#[test]
fn wait_for_change_ends_on_output_end_cancellation_or_time() {
    let mut supervisor = small(64);
    let id = spawn(&mut supervisor, "x", None, 5);
    let step = |supervisor: &ProcessSupervisor, event: ChangeEvent| {
        supervisor
            .wait_for_change(&id, Some(0), None, Duration::from_secs(40), event)
            .unwrap()
    };
    let checked = |cancelled: bool, elapsed: Duration| ChangeEvent::Checked { cancelled, elapsed };
    assert_eq!(step(&supervisor, ChangeEvent::Started), ChangeStep::Check);
    assert_eq!(
        step(&supervisor, checked(false, millis(29_999))),
        ChangeStep::Sleep(millis(5))
    );
    assert!(matches!(
        step(&supervisor, checked(false, millis(30_000))),
        ChangeStep::Done(_)
    ));
    assert!(matches!(
        step(&supervisor, checked(true, millis(0))),
        ChangeStep::Done(_)
    ));
    print(&mut supervisor, &id, b"out");
    match step(&supervisor, ChangeEvent::Slept) {
        ChangeStep::Done(snapshot) => assert_eq!(snapshot.stdout, "out"),
        other => panic!("{:?}", other),
    }
    end(&mut supervisor, &id, &mut Monitor::new(), SUCCESS);
    let ended = supervisor.wait_for_change(&id, Some(3), None, millis(0), ChangeEvent::Started);
    match ended {
        Ok(ChangeStep::Done(snapshot)) => {
            assert_eq!(snapshot.stdout, "");
            assert_eq!(snapshot.status, ProcessStatus::Succeeded);
        }
        other => panic!("{:?}", other),
    }
}

#[test]
fn readers_stop_at_the_end_and_on_errors() {
    let mut supervisor = small(64);
    let id = spawn(&mut supervisor, "x", None, 5);
    assert_eq!(
        supervisor.pump_output(&id, true, ReadEvent::Read(b"err".to_vec())),
        Ok(PumpStep::Continue)
    );
    assert_eq!(
        supervisor.pump_output(&id, true, ReadEvent::Read(vec![])),
        Ok(PumpStep::Stop)
    );
    assert_eq!(
        supervisor.pump_output(&id, false, ReadEvent::Failed("eio".to_string())),
        Ok(PumpStep::Stop)
    );
    let snapshot = supervisor.snapshot(&id, None, None).unwrap();
    assert_eq!(snapshot.stderr, "err");
    assert_eq!(snapshot.stdout, "");
    assert_eq!(snapshot.combined_output(), "[stderr]\nerr");
    assert_eq!(
        snapshot.redacted_error.as_deref(),
        Some("output reader failed: eio")
    );
    assert!(supervisor
        .pump_output("none", false, ReadEvent::Read(vec![]))
        .is_err());
    assert_eq!(spill_record(true, b"x"), b"[stderr] x".to_vec());
    assert_eq!(spill_record(false, b""), b"[stdout] ".to_vec());
}

#[test]
fn combined_output_names_stderr() {
    let mut supervisor = small(64);
    let id = spawn(&mut supervisor, "x", None, 5);
    assert_eq!(
        supervisor.snapshot(&id, None, None).unwrap().combined_output(),
        ""
    );
    print(&mut supervisor, &id, b"out");
    assert_eq!(
        supervisor.snapshot(&id, None, None).unwrap().combined_output(),
        "out"
    );
    supervisor
        .pump_output(&id, true, ReadEvent::Read(b"err".to_vec()))
        .unwrap();
    assert_eq!(
        supervisor.snapshot(&id, None, None).unwrap().combined_output(),
        "out\n[stderr]\nerr"
    );
}

#[test]
fn lost_output_is_flagged_by_offset() {
    let mut supervisor = small(4);
    let id = spawn(&mut supervisor, "x", None, 5);
    print(&mut supervisor, &id, b"abcdef");
    let snapshot = supervisor.snapshot(&id, Some(0), Some(9)).unwrap();
    assert_eq!(snapshot.stdout, "cdef");
    assert_eq!(snapshot.stdout_offset, 2);
    assert_eq!(snapshot.stderr_offset, 0);
    assert!(snapshot.stdout_truncated);
    assert!(!snapshot.stderr_truncated);
}

#[test]
fn exit_codes_fall_back_to_signals() {
    assert_eq!(exit_status_code(SUCCESS), 0);
    assert_eq!(exit_status_code(TERMINATED), -15);
    let nothing = ExitReport {
        success: false,
        code: None,
        signal: None,
    };
    assert_eq!(exit_status_code(nothing), -1);
}

#[test]
fn timed_out_wins_over_cancelled() {
    let mut supervisor = small(16);
    let id = spawn(&mut supervisor, "x", Some(millis(10)), 5);
    supervisor.kill(&id, None).unwrap();
    stop(&mut supervisor, &id, 5, millis(10));
    assert_eq!(
        supervisor.snapshot(&id, None, None).unwrap().status,
        ProcessStatus::TimedOut
    );
}

#[test]
fn stubborn_child_is_killed_after_its_grace() {
    let mut supervisor = small(16);
    let id = spawn(&mut supervisor, "x", None, 5);
    supervisor.kill(&id, None).unwrap();
    let mut monitor = Monitor::new();
    let mut step = |event: MonitorEvent| {
        supervisor
            .monitor_process(&id, &mut monitor, event)
            .unwrap()
    };
    assert_eq!(
        step(polled(PollOutcome::StillRunning, millis(1))),
        MonitorAction::Terminate(5)
    );
    assert_eq!(
        step(MonitorEvent::GraceElapsed(millis(99))),
        MonitorAction::Poll
    );
    assert_eq!(
        step(polled(PollOutcome::StillRunning, millis(2))),
        MonitorAction::Sleep(millis(5))
    );
    assert_eq!(
        step(MonitorEvent::GraceElapsed(millis(100))),
        MonitorAction::ForceKill(5)
    );
    assert_eq!(step(MonitorEvent::Reaped(None)), MonitorAction::JoinPumps);
    assert_eq!(step(MonitorEvent::PumpsJoined), MonitorAction::Reap);
    assert_eq!(
        step(MonitorEvent::Reaped(Some(TERMINATED))),
        MonitorAction::Finish
    );
    assert_eq!(monitor.phase, MonitorPhase::Done);
    supervisor.finish(&id, &monitor).unwrap();
    let snapshot = supervisor.snapshot(&id, None, None).unwrap();
    assert_eq!(snapshot.status, ProcessStatus::Cancelled);
    assert_eq!(snapshot.exit_code, Some(-15));
    assert!(snapshot.ended_at.is_some());
}

#[test]
fn child_that_cannot_be_polled_fails() {
    let mut supervisor = small(16);
    let id = spawn(&mut supervisor, "x", None, 5);
    let mut monitor = Monitor::new();
    let step = supervisor.monitor_process(
        &id,
        &mut monitor,
        polled(PollOutcome::Failed("echild".to_string()), millis(1)),
    );
    assert_eq!(step, Ok(MonitorAction::JoinPumps));
    let step = supervisor.monitor_process(&id, &mut monitor, MonitorEvent::PumpsJoined);
    assert_eq!(step, Ok(MonitorAction::Reap));
    let step = supervisor.monitor_process(&id, &mut monitor, MonitorEvent::Reaped(Some(SUCCESS)));
    assert_eq!(step, Ok(MonitorAction::Finish));
    supervisor.finish(&id, &monitor).unwrap();
    let snapshot = supervisor.snapshot(&id, None, None).unwrap();
    assert_eq!(snapshot.status, ProcessStatus::Failed);
    assert_eq!(snapshot.exit_code, Some(0));
    assert_eq!(
        snapshot.redacted_error.as_deref(),
        Some("failed to poll child: echild")
    );
}

#[test]
fn failing_exit_is_recorded() {
    let mut supervisor = small(16);
    let id = spawn(&mut supervisor, "false", None, 5);
    let exit = ExitReport {
        success: false,
        code: Some(3),
        signal: None,
    };
    end(&mut supervisor, &id, &mut Monitor::new(), exit);
    let snapshot = supervisor.snapshot(&id, None, None).unwrap();
    assert_eq!(snapshot.status, ProcessStatus::Failed);
    assert_eq!(snapshot.exit_code, Some(3));
}

#[test]
fn ended_process_stays_ended() {
    let mut process = ManagedProcess {
        id: "p".to_string(),
        command: "c".to_string(),
        cwd: "/".to_string(),
        started_at: Timestamp::now(),
        pid: 1,
        process_group_id: None,
        timeout: None,
        spill_path: "/tmp/s".to_string(),
        status: ProcessStatus::Running,
        exit_code: None,
        ended_at: None,
        stdin_open: true,
        stdout: BoundedBuffer::new(8),
        stderr: BoundedBuffer::new(8),
        redacted_error: None,
        stop_requested: false,
    };
    assert!(!process.is_terminal());
    process.finish_at(None, None, Timestamp::now());
    assert!(process.is_terminal());
    assert_eq!(process.status, ProcessStatus::Failed);
    process.request_stop();
    process.pump_output(false, ReadEvent::Read(b"late".to_vec()));
    let snapshot = process.snapshot(None, None);
    assert_eq!(snapshot.status, ProcessStatus::Failed);
    assert_eq!(snapshot.stdout, "late");
    assert!(!snapshot.stdin_open);
    assert!(snapshot.ready() && snapshot.has_output());
}

#[test]
fn operations_touch_one_process() {
    let mut supervisor = small(16);
    let one = spawn(&mut supervisor, "a", None, 1);
    let two = spawn(&mut supervisor, "b", None, 2);
    let before = supervisor.snapshot(&two, None, None).unwrap();
    print(&mut supervisor, &one, b"x");
    supervisor.close_stdin(&one).unwrap();
    assert_eq!(supervisor.snapshot(&two, None, None).unwrap(), before);
    assert_eq!(supervisor.active_process_count(), 2);
}

#[test]
fn grace_is_cut_to_five_seconds() {
    let mut supervisor = ProcessSupervisor::with_config(
        "/workspace".to_string(),
        None,
        None,
        ProcessSupervisorConfig {
            output_capacity: 16,
            poll_interval: millis(5),
            kill_grace: Duration::from_secs(60),
        },
    );
    let id = spawn(&mut supervisor, "sleep 100", Some(millis(50)), 8);
    let mut monitor = Monitor::new();
    assert_eq!(
        supervisor.monitor_process(
            &id,
            &mut monitor,
            polled(PollOutcome::StillRunning, millis(50)),
        ),
        Ok(MonitorAction::Terminate(8))
    );
    assert_eq!(
        supervisor.monitor_process(
            &id,
            &mut monitor,
            MonitorEvent::GraceElapsed(Duration::from_secs(5)),
        ),
        Ok(MonitorAction::ForceKill(8))
    );
}

#[test]
fn process_keeps_its_start() {
    let mut supervisor = small(16);
    let id = spawn(&mut supervisor, "cat", None, 21);
    let before = supervisor.snapshot(&id, None, None).unwrap();
    print(&mut supervisor, &id, b"a long line of output");
    supervisor.close_stdin(&id).unwrap();
    supervisor.kill(&id, None).unwrap();
    stop(&mut supervisor, &id, 21, millis(1));
    let after = supervisor.snapshot(&id, None, None).unwrap();
    assert_eq!(after.status, ProcessStatus::Cancelled);
    assert_eq!(after.process_id, before.process_id);
    assert_eq!(after.command, before.command);
    assert_eq!(after.cwd, before.cwd);
    assert_eq!(after.started_at, before.started_at);
    assert_eq!(after.process_group_id, Some(21));
    assert_eq!(
        after.artifact_refs,
        vec![format!("file:///tmp/pi-{id}.log")]
    );
}

#[test]
fn killed_process_that_has_ended_at_the_next_look_is_cancelled() {
    let mut supervisor = small(16);
    let id = spawn(&mut supervisor, "sleep 10", None, 9);
    supervisor.kill(&id, None).expect("kill");
    end(&mut supervisor, &id, &mut Monitor::new(), TERMINATED);
    let snapshot = supervisor.snapshot(&id, None, None).unwrap();
    assert_eq!(snapshot.status, ProcessStatus::Cancelled);
    assert_eq!(snapshot.exit_code, Some(-15));
}

#[test]
fn session_end_cancels_a_process_that_has_ended_at_the_next_look() {
    let mut supervisor = small(16);
    let id = spawn(&mut supervisor, "sleep 10", None, 9);
    assert_eq!(supervisor.cleanup_all().terminate, vec![9]);
    end(&mut supervisor, &id, &mut Monitor::new(), TERMINATED);
    let snapshot = supervisor.snapshot(&id, None, None).unwrap();
    assert_eq!(snapshot.status, ProcessStatus::Cancelled);
    assert_eq!(supervisor.active_process_count(), 0);
}

#[test]
fn ended_process_is_the_same_through_the_rest_of_the_session() {
    let mut supervisor = small(16);
    let id = spawn(&mut supervisor, "true", None, 3);
    print(&mut supervisor, &id, b"out");
    end(&mut supervisor, &id, &mut Monitor::new(), SUCCESS);
    let ended = supervisor.snapshot(&id, None, None).unwrap();
    let other = spawn(&mut supervisor, "sleep 10", None, 4);
    supervisor.kill(&id, None).unwrap();
    supervisor.kill(&other, None).unwrap();
    assert!(supervisor.close_stdin(&id).is_err());
    supervisor.after_checkpoint(&id, true).unwrap();
    supervisor.cleanup_all();
    let later = supervisor.snapshot(&id, None, None).unwrap();
    assert_eq!(later, ended);
    print(&mut supervisor, &id, b"late");
    let last = supervisor.snapshot(&id, None, None).unwrap();
    assert_eq!(last.stdout_total_bytes, 7);
    assert_eq!(
        (last.status, last.exit_code, last.ended_at),
        (ended.status, ended.exit_code, ended.ended_at)
    );
}

#[test]
fn child_that_succeeded_before_its_stop_has_succeeded() {
    let mut supervisor = small(16);
    let id = spawn(&mut supervisor, "true", None, 9);
    supervisor.kill(&id, None).expect("kill");
    end(&mut supervisor, &id, &mut Monitor::new(), SUCCESS);
    let snapshot = supervisor.snapshot(&id, None, None).unwrap();
    assert_eq!(snapshot.status, ProcessStatus::Succeeded);
    assert_eq!(snapshot.exit_code, Some(0));
}

#[test]
fn output_that_is_no_text_is_passed_on_as_some() {
    let mut supervisor = small(16);
    let id = spawn(&mut supervisor, "x", None, 9);
    print(&mut supervisor, &id, &[255]);
    let mut wait = TerminalWait {
        stdout_offset: 0,
        stderr_offset: 0,
    };
    let poll = supervisor.wait_for_terminal(&id, &mut wait).unwrap();
    assert_eq!(poll.update.unwrap().stdout, "\u{fffd}");
    let step = supervisor
        .wait_for_change(&id, Some(0), None, millis(1), ChangeEvent::Started)
        .unwrap();
    let ChangeStep::Done(snapshot) = step else {
        panic!("end of the wait expected");
    };
    assert_eq!(snapshot.stdout, "\u{fffd}");
}

#[test]
fn stopping_supervisor_starts_nothing_more() {
    let mut supervisor = small(16);
    let id = spawn(&mut supervisor, "sleep 10", None, 9);
    supervisor.cleanup_all();
    stop(&mut supervisor, &id, 9, millis(1));
    let refused = supervisor.plan_spawn("true", None, None, true, BASH);
    assert_eq!(
        refused.unwrap_err().message(),
        "process supervisor is stopping"
    );
}
