use devin_process::canonical::canonical_json;
use devin_process::clock::{Duration, Timestamp};
use devin_process::error::Error;
use devin_process::json::{Json, JsonObject};
use devin_process::monitor::{Monitor, MonitorAction, MonitorEvent, PollOutcome};
use devin_process::process::{ExitReport, ReadEvent};
use devin_process::supervisor::{BashFound, SpawnReport, TerminalWait};
use devin_process::tool::{
    process_tool, snapshot_details, snapshot_output, snapshot_update, written_output, CallAction,
    CallEvent, CallPhase, Completion, ContentBlock, GetOutputInput, KillShellInput,
    StartProcessInput, ToolInput, ToolKind, ToolOutput, WriteToProcessInput,
};
use devin_process::{
    process_tool_schema, process_tools, AuditLog, AuditRecord, AuditStatus, DevinProcessTool,
    PolicyAction, ProcessSnapshot, ProcessStatus, ProcessSupervisor, RiskClass, ToolEffect,
    ToolRequestOrigin,
};

fn text_content(content: &[ContentBlock]) -> String {
    let mut text = String::new();
    for block in content {
        let ContentBlock::Text(part) = block;
        text.push_str(&part.text);
    }
    text
}

fn snapshot(status: ProcessStatus) -> ProcessSnapshot {
    ProcessSnapshot {
        process_id: "proc_1".to_string(),
        command: "c".to_string(),
        cwd: "/w".to_string(),
        started_at: Timestamp {
            rfc3339: "2024-01-01T00:00:00Z".to_string(),
        },
        ended_at: None,
        status,
        exit_code: Some(-9),
        process_group_id: Some(12),
        stdout: "out".to_string(),
        stderr: String::new(),
        stdout_offset: 1,
        stderr_offset: 2,
        stdout_total_bytes: 4,
        stderr_total_bytes: 2,
        stdout_truncated: true,
        stderr_truncated: false,
        stdin_open: true,
        artifact_refs: vec!["file:///tmp/s".to_string()],
        redacted_error: Some("e".to_string()),
    }
}

fn start(background: bool) -> CallEvent {
    CallEvent::Parsed(Ok(ToolInput::Start(StartProcessInput {
        command: "ls".to_string(),
        cwd: Some("/d".to_string()),
        timeout: Some(3),
        background,
    })))
}

#[test]
fn foreground_process_streams_through_tool_updates() {
    let mut audit = AuditLog::new(64);
    audit.upsert(AuditRecord {
        call_id: "call-foreground".to_string(),
        session_id: "process-test".to_string(),
        parent_agent: None,
        tool_name: "exec".to_string(),
        argument_hash: String::new(),
        effects: vec![ToolEffect::Process],
        risk: RiskClass::Critical,
        policy_action: PolicyAction::Allow,
        approval_source: None,
        started_at: Timestamp::now(),
        ended_at: None,
        status: AuditStatus::Allowed,
        artifact_refs: Vec::new(),
        redacted_error: None,
    });
    let mut supervisor = ProcessSupervisor::new("/w".to_string(), None, None);
    let tool = DevinProcessTool::new("exec");
    let mut updates: Vec<String> = Vec::new();

    let (phase, action) = tool.execute(CallPhase::Authorizing, CallEvent::Authorized(Ok(())));
    assert!(matches!(action, CallAction::Parse(ToolKind::Start)));
    let input = ToolInput::Start(StartProcessInput {
        command: "printf first; sleep 0.05; printf second".to_string(),
        cwd: None,
        timeout: None,
        background: false,
    });
    let (phase, action) = tool.execute(phase, CallEvent::Parsed(Ok(input)));
    let CallAction::Spawn {
        command,
        cwd,
        timeout,
    } = action
    else {
        panic!("spawn expected");
    };
    let bash = BashFound {
        bin: true,
        usr_bin: false,
        usr_local_bin: false,
    };
    let plan = supervisor
        .plan_spawn(&command, cwd.as_deref(), timeout, true, bash)
        .expect("plan");
    let spawned = supervisor.spawn(
        plan,
        SpawnReport::Started {
            pid: 10,
            process_id: "proc_fg".to_string(),
            spill_path: "/tmp/pi-proc_fg.log".to_string(),
        },
    );
    let (phase, action) = tool.execute(phase, CallEvent::Spawned(spawned));
    let CallAction::AwaitTerminal { process_id } = action else {
        panic!("wait expected");
    };

    let mut wait = TerminalWait {
        stdout_offset: 0,
        stderr_offset: 0,
    };
    let mut monitor = Monitor::new();
    for chunk in ["first", "second"] {
        supervisor
            .pump_output(&process_id, false, ReadEvent::Read(chunk.as_bytes().to_vec()))
            .expect("pump");
        let poll = supervisor
            .wait_for_terminal(&process_id, &mut wait)
            .expect("poll");
        if let Some(update) = poll.update {
            updates.push(text_content(&snapshot_update(&update).content));
        }
        assert!(poll.finished.is_none());
    }
    let exited = PollOutcome::Exited(ExitReport {
        success: true,
        code: Some(0),
        signal: None,
    });
    let polled = MonitorEvent::Polled {
        outcome: exited,
        elapsed: Duration::from_millis(60),
    };
    supervisor
        .monitor_process(&process_id, &mut monitor, polled)
        .expect("poll");
    let action = supervisor.monitor_process(&process_id, &mut monitor, MonitorEvent::PumpsJoined);
    assert_eq!(action, Ok(MonitorAction::Finish));
    supervisor.finish(&process_id, &monitor).expect("finish");
    let poll = supervisor
        .wait_for_terminal(&process_id, &mut wait)
        .expect("poll");
    let finished = poll.finished.expect("finished");

    let (phase, action) = tool.execute(phase, CallEvent::Observed(Ok(finished)));
    assert_eq!(phase, CallPhase::Finished);
    let CallAction::Finish { completion, result } = action else {
        panic!("end expected");
    };
    assert!(audit.update(
        "call-foreground",
        completion.status,
        None,
        completion.artifact_refs,
        completion.error,
    ));

    let output = result.expect("foreground tool succeeds");
    assert!(!output.is_error);
    assert!(text_content(&output.content).contains("firstsecond"));
    assert!(updates.iter().any(|update| update.contains("first")));
    let record = audit
        .snapshot()
        .into_iter()
        .find(|record| record.call_id == "call-foreground")
        .expect("audit record");
    assert_eq!(record.status, AuditStatus::Succeeded);
}

#[test]
fn details_describe_the_snapshot() {
    assert_eq!(
        canonical_json(&snapshot_details(&snapshot(ProcessStatus::TimedOut))),
        "{\"artifactRefs\":[\"file:///tmp/s\"],\"cwd\":\"/w\",\"endedAt\":null,\"error\":\"e\",\
         \"exitCode\":-9,\"processGroupId\":12,\"processId\":\"proc_1\",\
         \"schema\":\"pi.devin.process_output.v1\",\"startedAt\":\"2024-01-01T00:00:00Z\",\
         \"status\":\"timed_out\",\"stderrOffset\":2,\"stderrTotalBytes\":2,\
         \"stderrTruncated\":false,\"stdinOpen\":true,\"stdoutOffset\":1,\
         \"stdoutTotalBytes\":4,\"stdoutTruncated\":true}"
    );
}

#[test]
fn audit_follows_process_status() {
    let tool = DevinProcessTool::new("exec");
    for (status, expected) in [
        (ProcessStatus::Running, AuditStatus::Succeeded),
        (ProcessStatus::Succeeded, AuditStatus::Succeeded),
        (ProcessStatus::Failed, AuditStatus::Failed),
        (ProcessStatus::Cancelled, AuditStatus::Cancelled),
        (ProcessStatus::TimedOut, AuditStatus::TimedOut),
    ] {
        assert_eq!(status.audit_status(), expected);
        let completion = tool.complete(&snapshot_output(&snapshot(status), true));
        assert_eq!(
            completion,
            Completion {
                status: expected,
                artifact_refs: vec!["file:///tmp/s".to_string()],
                error: Some("process tool execution failed".to_string()),
            }
        );
    }
}

#[test]
fn answers_without_status_go_by_their_error_flag() {
    let tool = DevinProcessTool::new("exec");
    let answer = |details: Option<Json>, is_error: bool| ToolOutput {
        content: vec![],
        details,
        is_error,
    };
    assert_eq!(
        tool.complete(&answer(None, true)).status,
        AuditStatus::Failed
    );
    assert_eq!(
        tool.complete(&answer(None, false)),
        Completion {
            status: AuditStatus::Succeeded,
            artifact_refs: vec![],
            error: None
        }
    );
    let odd = JsonObject::new()
        .with("status", Json::unsigned(1))
        .with(
            "artifactRefs",
            Json::Array(vec![Json::text("a"), Json::Null, Json::text("b")]),
        )
        .build();
    let completion = tool.complete(&answer(Some(odd), true));
    assert_eq!(completion.status, AuditStatus::Failed);
    assert_eq!(completion.artifact_refs, vec!["a", "b"]);
}

#[test]
fn denied_call_ends_at_once() {
    let tool = DevinProcessTool::new("exec");
    let (phase, action) = tool.execute(
        CallPhase::Authorizing,
        CallEvent::Authorized(Err("no".to_string())),
    );
    assert_eq!(phase, CallPhase::Finished);
    let CallAction::Finish { completion, result } = action else {
        panic!("end expected");
    };
    assert_eq!(
        completion,
        Completion {
            status: AuditStatus::Denied,
            artifact_refs: vec![],
            error: Some("process tool authorization denied".to_string()),
        }
    );
    assert_eq!(result, Err(Error::tool("exec", "no".to_string())));
}

#[test]
fn unsupported_tool_fails() {
    let tool = DevinProcessTool::new("other");
    let (_, action) = tool.execute(CallPhase::Authorizing, CallEvent::Authorized(Ok(())));
    let CallAction::Finish { completion, result } = action else {
        panic!("end expected");
    };
    assert_eq!(completion.status, AuditStatus::Failed);
    assert_eq!(
        result.unwrap_err().message(),
        "unsupported process tool"
    );
}

#[test]
fn call_that_errs_is_completed_as_failed() {
    let tool = DevinProcessTool::new("exec");
    let lost = || Error::tool("get_output", "unknown process id `p`".to_string());
    let cases = vec![
        (
            CallPhase::Parsing(ToolKind::Start),
            CallEvent::Parsed(Err("missing field".to_string())),
            Error::validation("missing field".to_string()),
        ),
        (
            CallPhase::Spawning { background: true },
            CallEvent::Spawned(Err(lost())),
            lost(),
        ),
        (
            CallPhase::Observing { waited: true },
            CallEvent::Observed(Err(lost())),
            lost(),
        ),
        (
            CallPhase::Writing {
                process_id: "p".to_string(),
                close_stdin: false,
            },
            CallEvent::Written(Err(lost())),
            lost(),
        ),
    ];
    for (phase, event, error) in cases {
        let (phase, action) = tool.execute(phase, event);
        assert_eq!(phase, CallPhase::Finished);
        let CallAction::Finish { completion, result } = action else {
            panic!("end expected");
        };
        assert_eq!(
            completion,
            Completion {
                status: AuditStatus::Failed,
                artifact_refs: Vec::new(),
                error: Some("process tool execution failed".to_string()),
            }
        );
        assert_eq!(result, Err(error));
    }
}

#[test]
fn start_runs_in_foreground_or_background() {
    let tool = DevinProcessTool::new("shell_command");
    let (phase, action) = tool.execute(CallPhase::Parsing(ToolKind::Start), start(true));
    match action {
        CallAction::Spawn {
            command,
            cwd,
            timeout,
        } => {
            assert_eq!(command, "ls");
            assert_eq!(cwd.as_deref(), Some("/d"));
            assert_eq!(timeout, Some(Duration::from_secs(3)));
        }
        other => panic!("{:?}", other),
    }
    let (phase, action) = tool.execute(phase, CallEvent::Spawned(Ok("p".to_string())));
    assert!(matches!(action, CallAction::TakeSnapshot { .. }));
    let failed = snapshot(ProcessStatus::Failed);
    let (_, action) = tool.execute(phase, CallEvent::Observed(Ok(failed)));
    match action {
        CallAction::Finish { result, .. } => assert!(!result.unwrap().is_error),
        other => panic!("{:?}", other),
    }
    let (phase, _) = tool.execute(CallPhase::Parsing(ToolKind::Start), start(false));
    let (phase, _) = tool.execute(phase, CallEvent::Spawned(Ok("p".to_string())));
    let failed = snapshot(ProcessStatus::Failed);
    let (_, action) = tool.execute(phase, CallEvent::Observed(Ok(failed)));
    match action {
        CallAction::Finish { completion, result } => {
            assert!(result.unwrap().is_error);
            assert_eq!(completion.status, AuditStatus::Failed);
        }
        other => panic!("{:?}", other),
    }
}

#[test]
fn other_tools_hand_their_input_on() {
    let tool = DevinProcessTool::new("get_output");
    let (_, action) = tool.execute(
        CallPhase::Parsing(ToolKind::GetOutput),
        CallEvent::Parsed(Ok(ToolInput::GetOutput(GetOutputInput {
            process_id: "p".to_string(),
            stdout_offset: Some(4),
            stderr_offset: None,
            wait_ms: Some(9),
        }))),
    );
    match action {
        CallAction::AwaitChange {
            process_id,
            stdout_offset,
            stderr_offset,
            wait,
        } => {
            assert_eq!(process_id, "p");
            assert_eq!((stdout_offset, stderr_offset), (Some(4), None));
            assert_eq!(wait, Duration::from_millis(9));
        }
        other => panic!("{:?}", other),
    }
    let (_, action) = tool.execute(
        CallPhase::Parsing(ToolKind::KillShell),
        CallEvent::Parsed(Ok(ToolInput::KillShell(KillShellInput {
            process_id: "p".to_string(),
            grace_period_ms: Some(7),
        }))),
    );
    match action {
        CallAction::Kill { grace, .. } => assert_eq!(grace, Some(Duration::from_millis(7))),
        other => panic!("{:?}", other),
    }
    let (phase, action) = tool.execute(
        CallPhase::Parsing(ToolKind::WriteToProcess),
        CallEvent::Parsed(Ok(ToolInput::WriteToProcess(WriteToProcessInput {
            process_id: "p".to_string(),
            input: "hi".to_string(),
            close_stdin: true,
        }))),
    );
    match action {
        CallAction::WriteStdin {
            input, close_stdin, ..
        } => {
            assert_eq!(input, "hi");
            assert!(close_stdin);
        }
        other => panic!("{:?}", other),
    }
    let (_, action) = tool.execute(phase, CallEvent::Written(Ok(())));
    match action {
        CallAction::Finish { completion, result } => {
            assert_eq!(result.unwrap(), written_output("p", true));
            assert_eq!(
                completion,
                Completion {
                    status: AuditStatus::Succeeded,
                    artifact_refs: vec![],
                    error: None
                }
            );
        }
        other => panic!("{:?}", other),
    }
}

#[test]
fn written_input_is_confirmed() {
    let output = written_output("p", false);
    assert_eq!(text_content(&output.content), "stdin written");
    assert_eq!(
        canonical_json(&output.details.unwrap()),
        "{\"processId\":\"p\",\"schema\":\"pi.devin.process_control.v1\",\
         \"status\":\"succeeded\",\"stdinClosed\":false}"
    );
}

#[test]
fn tools_are_named_labelled_and_described() {
    let tools = process_tools(&[
        "kill_shell",
        "read",
        "exec",
        "get_output",
        "write_to_process",
        "shell_command",
        "exec",
    ]);
    let names: Vec<&str> = tools.iter().map(|tool| tool.name()).collect();
    assert_eq!(
        names,
        vec![
            "kill_shell",
            "exec",
            "get_output",
            "write_to_process",
            "shell_command",
            "exec"
        ]
    );
    assert!(process_tool("read").is_none());
    let labels: Vec<&str> = tools.iter().map(|tool| tool.label()).collect();
    assert_eq!(
        labels,
        vec![
            "Kill Shell",
            "Exec",
            "Get Output",
            "Write to Process",
            "Shell Command",
            "Exec"
        ]
    );
    assert_eq!(
        tools[0].description(),
        "Terminate a managed process group gracefully, then forcefully."
    );
    assert_eq!(tools[2].effects(), ToolEffect::Read);
    assert_eq!(tools[1].effects(), ToolEffect::Process);
    let other = DevinProcessTool::new("other");
    assert_eq!(other.label(), "Process");
    assert_eq!(other.description(), "Managed process operation.");
    assert_eq!(other.kind(), None);
    let request = tools[1].authorization_request("c", Json::Null);
    assert_eq!(request.call_id, "c");
    assert_eq!(request.tool_name, "exec");
    assert_eq!(request.arguments, Json::Null);
    assert_eq!(request.origin, ToolRequestOrigin::Native);
}

#[test]
fn schemas_are_exact() {
    let start = "{\"additionalProperties\":false,\"properties\":{\
        \"background\":{\"default\":false,\"type\":\"boolean\"},\
        \"command\":{\"minLength\":1,\"type\":\"string\"},\
        \"cwd\":{\"type\":\"string\"},\
        \"timeout\":{\"minimum\":0,\"type\":\"integer\"}},\
        \"required\":[\"command\"],\"type\":\"object\"}";
    assert_eq!(canonical_json(&process_tool_schema("exec")), start);
    assert_eq!(canonical_json(&process_tool_schema("shell_command")), start);
    assert_eq!(
        canonical_json(&process_tool_schema("get_output")),
        "{\"additionalProperties\":false,\"properties\":{\
         \"process_id\":{\"minLength\":1,\"type\":\"string\"},\
         \"stderr_offset\":{\"minimum\":0,\"type\":\"integer\"},\
         \"stdout_offset\":{\"minimum\":0,\"type\":\"integer\"},\
         \"wait_ms\":{\"maximum\":30000,\"minimum\":0,\"type\":\"integer\"}},\
         \"required\":[\"process_id\"],\"type\":\"object\"}"
    );
    assert_eq!(
        canonical_json(&process_tool_schema("write_to_process")),
        "{\"additionalProperties\":false,\"properties\":{\
         \"close_stdin\":{\"default\":false,\"type\":\"boolean\"},\
         \"input\":{\"type\":\"string\"},\
         \"process_id\":{\"minLength\":1,\"type\":\"string\"}},\
         \"required\":[\"process_id\",\"input\"],\"type\":\"object\"}"
    );
    assert_eq!(
        canonical_json(&DevinProcessTool::new("kill_shell").parameters()),
        "{\"additionalProperties\":false,\"properties\":{\
         \"grace_period_ms\":{\"maximum\":5000,\"minimum\":0,\"type\":\"integer\"},\
         \"process_id\":{\"minLength\":1,\"type\":\"string\"}},\
         \"required\":[\"process_id\"],\"type\":\"object\"}"
    );
    assert_eq!(
        canonical_json(&process_tool_schema("")),
        "{\"additionalProperties\":false,\"type\":\"object\"}"
    );
}
