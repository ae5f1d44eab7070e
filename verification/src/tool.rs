//! The process tools: what they are called, what they answer, and the course of a
//! call.

use crate::audit::{AuditStatus, ToolEffect};
use crate::clock::Duration;
use crate::error::{Error, ErrorModel};
use crate::json::{self, Json, JsonModel, JsonObject};
use crate::policy::{ToolRequest, ToolRequestOrigin};
use crate::process::{self, ProcessSnapshot, ProcessStatus, SnapshotModel};
use crate::text::str_eq;
use crate::tool_schema::{self, process_tool_schema};
use vstd::prelude::*;
use vstd::string::*;

verus! {

/// A text in the answer of a tool.
#[derive(Debug, PartialEq, Eq)]
pub struct TextContent {
    pub text: String,
}

/// A piece of the answer of a tool.
#[derive(Debug, PartialEq, Eq)]
pub enum ContentBlock {
    Text(TextContent),
}

/// The answer of a tool.
#[derive(Debug, PartialEq, Eq)]
pub struct ToolOutput {
    pub content: Vec<ContentBlock>,
    pub details: Option<Json>,
    pub is_error: bool,
}

/// News of a call that is still going on.
#[derive(Debug, PartialEq, Eq)]
pub struct ToolUpdate {
    pub content: Vec<ContentBlock>,
    pub details: Option<Json>,
}

/// What an answer says: its texts, its details and whether it reports an error.
#[verifier::ext_equal]
pub struct OutputModel {
    pub content: Seq<Seq<char>>,
    pub details: Option<JsonModel>,
    pub is_error: bool,
}

/// What pieces of an answer say.
pub open spec fn texts(content: Seq<ContentBlock>) -> Seq<Seq<char>> {
    content.map_values(
        |block: ContentBlock|
            match block {
                ContentBlock::Text(content) => content.text@,
            },
    )
}

/// What details say.
pub open spec fn details_of(details: Option<Json>) -> Option<JsonModel> {
    match details {
        Some(details) => Some(details.model()),
        None => None,
    }
}

impl View for ToolOutput {
    type V = OutputModel;

    open spec fn view(&self) -> OutputModel {
        OutputModel {
            content: texts(self.content@),
            details: details_of(self.details),
            is_error: self.is_error,
        }
    }
}

impl ToolOutput {
    /// Whether the details are well formed.
    pub open spec fn well_formed(self) -> bool {
        self.details matches Some(details) ==> details.well_formed()
    }
}

/// A text, or nothing.
pub open spec fn text_or_null(text: Option<Seq<char>>) -> JsonModel {
    match text {
        Some(text) => JsonModel::String(text),
        None => JsonModel::Null,
    }
}

/// An integer, or nothing.
pub open spec fn number_or_null(n: Option<int>) -> JsonModel {
    match n {
        Some(n) => tool_schema::number(n),
        None => JsonModel::Null,
    }
}

/// The details of an answer about a process.
pub open spec fn details_model(s: SnapshotModel) -> JsonModel {
    JsonModel::Object(
        Map::<Seq<char>, JsonModel>::empty().insert(
            "schema"@,
            JsonModel::String("pi.devin.process_output.v1"@),
        ).insert("processId"@, JsonModel::String(s.process_id)).insert(
            "cwd"@,
            JsonModel::String(s.cwd),
        ).insert("startedAt"@, JsonModel::String(s.started_at)).insert(
            "endedAt"@,
            text_or_null(s.ended_at),
        ).insert("status"@, JsonModel::String(process::status_text(s.status))).insert(
            "exitCode"@,
            number_or_null(
                match s.exit_code {
                    Some(code) => Some(code as int),
                    None => None,
                },
            ),
        ).insert(
            "processGroupId"@,
            number_or_null(
                match s.process_group_id {
                    Some(id) => Some(id as int),
                    None => None,
                },
            ),
        ).insert("stdoutOffset"@, tool_schema::number(s.stdout_offset as int)).insert(
            "stderrOffset"@,
            tool_schema::number(s.stderr_offset as int),
        ).insert("stdoutTotalBytes"@, tool_schema::number(s.stdout_total_bytes as int)).insert(
            "stderrTotalBytes"@,
            tool_schema::number(s.stderr_total_bytes as int),
        ).insert("stdoutTruncated"@, JsonModel::Bool(s.stdout_truncated)).insert(
            "stderrTruncated"@,
            JsonModel::Bool(s.stderr_truncated),
        ).insert("stdinOpen"@, JsonModel::Bool(s.stdin_open)).insert(
            "artifactRefs"@,
            JsonModel::Array(s.artifact_refs.map_values(|r: Seq<char>| JsonModel::String(r))),
        ).insert("error"@, text_or_null(s.redacted_error)),
    )
}

/// An answer about a process.
pub open spec fn output_model(s: SnapshotModel, is_error: bool) -> OutputModel {
    OutputModel {
        content: seq![process::combined(s.stdout, s.stderr)],
        details: Some(details_model(s)),
        is_error,
    }
}

/// A text, or nothing.
fn build_text_or_null(text: &Option<String>) -> (r: Json)
    ensures
        r.well_formed(),
        r.model() == text_or_null(text.deep_view()),
{
    match text {
        Some(text) => Json::text(text.as_str()),
        None => Json::Null,
    }
}

/// The details of an answer about a process.
pub fn snapshot_details(snapshot: &ProcessSnapshot) -> (r: Json)
    ensures
        r.well_formed(),
        r.model() == details_model(snapshot@),
{
    let ended_at: Json = match &snapshot.ended_at {
        Some(time) => Json::text(time.rfc3339.as_str()),
        None => Json::Null,
    };
    let exit_code: Json = match snapshot.exit_code {
        Some(code) => Json::integer(code as i64),
        None => Json::Null,
    };
    let process_group_id: Json = match snapshot.process_group_id {
        Some(id) => Json::unsigned(id as u64),
        None => Json::Null,
    };
    JsonObject::new().with("schema", Json::text("pi.devin.process_output.v1")).with(
        "processId",
        Json::text(snapshot.process_id.as_str()),
    ).with("cwd", Json::text(snapshot.cwd.as_str())).with(
        "startedAt",
        Json::text(snapshot.started_at.rfc3339.as_str()),
    ).with("endedAt", ended_at).with("status", Json::text(snapshot.status.name())).with(
        "exitCode",
        exit_code,
    ).with("processGroupId", process_group_id).with(
        "stdoutOffset",
        Json::unsigned(snapshot.stdout_offset),
    ).with("stderrOffset", Json::unsigned(snapshot.stderr_offset)).with(
        "stdoutTotalBytes",
        Json::unsigned(snapshot.stdout_total_bytes),
    ).with("stderrTotalBytes", Json::unsigned(snapshot.stderr_total_bytes)).with(
        "stdoutTruncated",
        Json::Bool(snapshot.stdout_truncated),
    ).with("stderrTruncated", Json::Bool(snapshot.stderr_truncated)).with(
        "stdinOpen",
        Json::Bool(snapshot.stdin_open),
    ).with("artifactRefs", Json::text_array(&snapshot.artifact_refs)).with(
        "error",
        build_text_or_null(&snapshot.redacted_error),
    ).build()
}

/// Content of one text.
fn one_text(text: String) -> (r: Vec<ContentBlock>)
    ensures
        texts(r@) == seq![text@],
{
    let r: Vec<ContentBlock> = vec![ContentBlock::Text(TextContent { text })];
    assert(texts(r@) == seq![text@]);
    r
}

/// News of a process.
pub fn snapshot_update(snapshot: &ProcessSnapshot) -> (r: ToolUpdate)
    ensures
        texts(r.content@) == seq![process::combined(snapshot@.stdout, snapshot@.stderr)],
        details_of(r.details) == Some(details_model(snapshot@)),
{
    ToolUpdate {
        content: one_text(snapshot.combined_output()),
        details: Some(snapshot_details(snapshot)),
    }
}

/// An answer about a process.
pub fn snapshot_output(snapshot: &ProcessSnapshot, is_error: bool) -> (r: ToolOutput)
    ensures
        r@ == output_model(snapshot@, is_error),
        r.well_formed(),
{
    ToolOutput {
        content: one_text(snapshot.combined_output()),
        details: Some(snapshot_details(snapshot)),
        is_error,
    }
}

/// The answer that input was written.
pub open spec fn written_model(process_id: Seq<char>, close_stdin: bool) -> OutputModel {
    OutputModel {
        content: seq!["stdin written"@],
        details: Some(
            JsonModel::Object(
                Map::<Seq<char>, JsonModel>::empty().insert(
                    "schema"@,
                    JsonModel::String("pi.devin.process_control.v1"@),
                ).insert("processId"@, JsonModel::String(process_id)).insert(
                    "status"@,
                    JsonModel::String("succeeded"@),
                ).insert("stdinClosed"@, JsonModel::Bool(close_stdin)),
            ),
        ),
        is_error: false,
    }
}

/// The answer that input was written.
pub fn written_output(process_id: &str, close_stdin: bool) -> (r: ToolOutput)
    ensures
        r@ == written_model(process_id@, close_stdin),
        r.well_formed(),
{
    let details: Json = JsonObject::new().with(
        "schema",
        Json::text("pi.devin.process_control.v1"),
    ).with("processId", Json::text(process_id)).with("status", Json::text("succeeded")).with(
        "stdinClosed",
        Json::Bool(close_stdin),
    ).build();
    ToolOutput {
        content: one_text("stdin written".to_owned()),
        details: Some(details),
        is_error: false,
    }
}

/// How a call ends in the audit.
#[derive(Debug, PartialEq, Eq)]
pub struct Completion {
    pub status: AuditStatus,
    pub artifact_refs: Vec<String>,
    pub error: Option<String>,
}

/// How a call ends in the audit.
#[verifier::ext_equal]
pub struct CompletionModel {
    pub status: AuditStatus,
    pub artifact_refs: Seq<Seq<char>>,
    pub error: Option<Seq<char>>,
}

impl View for Completion {
    type V = CompletionModel;

    open spec fn view(&self) -> CompletionModel {
        CompletionModel {
            status: self.status,
            artifact_refs: self.artifact_refs.deep_view(),
            error: self.error.deep_view(),
        }
    }
}

/// The strings of an array; other values are passed over.
pub open spec fn strings(items: Seq<JsonModel>) -> Seq<Seq<char>>
    decreases items.len(),
{
    if items.len() == 0 {
        seq![]
    } else {
        match items.last() {
            JsonModel::String(s) => strings(items.drop_last()).push(s),
            _ => strings(items.drop_last()),
        }
    }
}

/// A member of the details.
pub open spec fn detail(output: OutputModel, key: Seq<char>) -> Option<JsonModel> {
    match output.details {
        Some(details) => json::member_of(details, key),
        None => None,
    }
}

/// The audit status of a call with this answer: what the status in its details says,
/// or, without one, whether it reports an error.
pub open spec fn answered_status(output: OutputModel) -> AuditStatus {
    match detail(output, "status"@) {
        Some(JsonModel::String(status)) => if status == "cancelled"@ {
            AuditStatus::Cancelled
        } else if status == "timed_out"@ {
            AuditStatus::TimedOut
        } else if status == "failed"@ {
            AuditStatus::Failed
        } else {
            AuditStatus::Succeeded
        },
        _ => if output.is_error {
            AuditStatus::Failed
        } else {
            AuditStatus::Succeeded
        },
    }
}

/// How a call with this answer ends in the audit.
pub open spec fn answered(output: OutputModel) -> CompletionModel {
    CompletionModel {
        status: answered_status(output),
        artifact_refs: match detail(output, "artifactRefs"@) {
            Some(JsonModel::Array(items)) => strings(items),
            _ => seq![],
        },
        error: if output.is_error {
            Some("process tool execution failed"@)
        } else {
            None
        },
    }
}

/// How a call that failed without an answer ends in the audit.
pub open spec fn failed() -> CompletionModel {
    CompletionModel {
        status: AuditStatus::Failed,
        artifact_refs: seq![],
        error: Some("process tool execution failed"@),
    }
}

/// How a call that was not allowed ends in the audit.
pub open spec fn denied() -> CompletionModel {
    CompletionModel {
        status: AuditStatus::Denied,
        artifact_refs: seq![],
        error: Some("process tool authorization denied"@),
    }
}

/// The strings of an array of values.
fn collect_strings(items: &Vec<Json>) -> (r: Vec<String>)
    ensures
        r.deep_view() == strings(items@.map_values(|item: Json| item.model())),
{
    let mut r: Vec<String> = Vec::new();
    let mut i: usize = 0;
    let ghost models = items@.map_values(|item: Json| item.model());
    assert(r.deep_view() == strings(models.take(0)));
    while i < items.len()
        invariant
            i <= items@.len(),
            models == items@.map_values(|item: Json| item.model()),
            r.deep_view() == strings(models.take(i as int)),
        decreases items@.len() - i,
    {
        let ghost before = r.deep_view();
        proof {
            let next = models.take(i + 1);
            assert(next.drop_last() == models.take(i as int));
            assert(next.last() == items@[i as int].model());
        }
        match items[i].as_str() {
            Some(s) => {
                r.push(s.to_owned());
                assert(r.deep_view() == before.push(s@));
            },
            None => {},
        }
        i += 1;
    }
    assert(models.take(models.len() as int) == models);
    r
}

/// The kinds of process tools.
#[derive(Debug, Clone, Copy, PartialEq, Eq, Structural)]
pub enum ToolKind {
    Start,
    GetOutput,
    WriteToProcess,
    KillShell,
}

/// The kind of the tool with a name.
pub open spec fn kind_of(name: Seq<char>) -> Option<ToolKind> {
    if name == "exec"@ || name == "shell_command"@ {
        Some(ToolKind::Start)
    } else if name == "get_output"@ {
        Some(ToolKind::GetOutput)
    } else if name == "write_to_process"@ {
        Some(ToolKind::WriteToProcess)
    } else if name == "kill_shell"@ {
        Some(ToolKind::KillShell)
    } else {
        None
    }
}

/// The label of the tool with a name.
pub open spec fn label_of(name: Seq<char>) -> Seq<char> {
    if name == "exec"@ {
        "Exec"@
    } else if name == "shell_command"@ {
        "Shell Command"@
    } else if name == "get_output"@ {
        "Get Output"@
    } else if name == "write_to_process"@ {
        "Write to Process"@
    } else if name == "kill_shell"@ {
        "Kill Shell"@
    } else {
        "Process"@
    }
}

/// What the tool with a name is for.
pub open spec fn description_of(name: Seq<char>) -> Seq<char> {
    if name == "exec"@ {
        "Execute a shell command in the session-owned process supervisor."@
    } else if name == "shell_command"@ {
        "Run a foreground or background shell command."@
    } else if name == "get_output"@ {
        "Read bounded incremental output and status for a managed process."@
    } else if name == "write_to_process"@ {
        "Write text to stdin of a running managed process."@
    } else if name == "kill_shell"@ {
        "Terminate a managed process group gracefully, then forcefully."@
    } else {
        "Managed process operation."@
    }
}

/// Input of a tool that starts a process.
#[derive(Debug, PartialEq, Eq)]
pub struct StartProcessInput {
    pub command: String,
    pub cwd: Option<String>,
    pub timeout: Option<u64>,
    pub background: bool,
}

/// Input of the tool that reads output.
#[derive(Debug, PartialEq, Eq)]
pub struct GetOutputInput {
    pub process_id: String,
    pub stdout_offset: Option<u64>,
    pub stderr_offset: Option<u64>,
    pub wait_ms: Option<u64>,
}

/// Input of the tool that writes input.
#[derive(Debug, PartialEq, Eq)]
pub struct WriteToProcessInput {
    pub process_id: String,
    pub input: String,
    pub close_stdin: bool,
}

/// Input of the tool that kills a process.
#[derive(Debug, PartialEq, Eq)]
pub struct KillShellInput {
    pub process_id: String,
    pub grace_period_ms: Option<u64>,
}

/// Input of a tool.
#[derive(Debug, PartialEq, Eq)]
pub enum ToolInput {
    Start(StartProcessInput),
    GetOutput(GetOutputInput),
    WriteToProcess(WriteToProcessInput),
    KillShell(KillShellInput),
}

impl ToolInput {
    /// The kind of tool that takes this input.
    pub open spec fn kind(self) -> ToolKind {
        match self {
            ToolInput::Start(_) => ToolKind::Start,
            ToolInput::GetOutput(_) => ToolKind::GetOutput,
            ToolInput::WriteToProcess(_) => ToolKind::WriteToProcess,
            ToolInput::KillShell(_) => ToolKind::KillShell,
        }
    }
}

/// Where a call stands.
#[derive(Debug, PartialEq, Eq)]
pub enum CallPhase {
    /// The policy is asked.
    Authorizing,
    /// The arguments are read as the input of a tool of this kind.
    Parsing(ToolKind),
    /// A process is started, in the background or not.
    Spawning { background: bool },
    /// A process is looked at; it was waited for or not.
    Observing { waited: bool },
    /// Input is written.
    Writing { process_id: String, close_stdin: bool },
    /// The call has ended.
    Finished,
}

/// Where a call stands.
pub enum PhaseModel {
    Authorizing,
    Parsing(ToolKind),
    Spawning { background: bool },
    Observing { waited: bool },
    Writing { process_id: Seq<char>, close_stdin: bool },
    Finished,
}

impl View for CallPhase {
    type V = PhaseModel;

    open spec fn view(&self) -> PhaseModel {
        match self {
            CallPhase::Authorizing => PhaseModel::Authorizing,
            CallPhase::Parsing(kind) => PhaseModel::Parsing(*kind),
            CallPhase::Spawning { background } => PhaseModel::Spawning { background: *background },
            CallPhase::Observing { waited } => PhaseModel::Observing { waited: *waited },
            CallPhase::Writing { process_id, close_stdin } => PhaseModel::Writing {
                process_id: process_id@,
                close_stdin: *close_stdin,
            },
            CallPhase::Finished => PhaseModel::Finished,
        }
    }
}

/// What happened in a call.
#[derive(Debug)]
pub enum CallEvent {
    /// The policy allowed the call, or gave a reason why not.
    Authorized(Result<(), String>),
    /// The arguments were read, or are not acceptable.
    Parsed(Result<ToolInput, String>),
    /// A process was started.
    Spawned(Result<String, Error>),
    /// A process was looked at.
    Observed(Result<ProcessSnapshot, Error>),
    /// Input was written.
    Written(Result<(), Error>),
}

/// What is to be done next in a call.
#[derive(Debug)]
pub enum CallAction {
    /// Read the arguments: answered by `Parsed`.
    Parse(ToolKind),
    /// Start a process: answered by `Spawned`.
    Spawn { command: String, cwd: Option<String>, timeout: Option<Duration> },
    /// Take a snapshot: answered by `Observed`.
    TakeSnapshot { process_id: String },
    /// Wait for the end of a process: answered by `Observed`.
    AwaitTerminal { process_id: String },
    /// Wait for output: answered by `Observed`.
    AwaitChange {
        process_id: String,
        stdout_offset: Option<u64>,
        stderr_offset: Option<u64>,
        wait: Duration,
    },
    /// Write input: answered by `Written`.
    WriteStdin { process_id: String, input: String, close_stdin: bool },
    /// Kill a process: answered by `Observed`.
    Kill { process_id: String, grace: Option<Duration> },
    /// End the call, in the audit too.
    Finish { completion: Completion, result: Result<ToolOutput, Error> },
}

/// What is to be done next in a call; spans of time are in nanoseconds.
pub enum ActionModel {
    Parse(ToolKind),
    Spawn { command: Seq<char>, cwd: Option<Seq<char>>, timeout: Option<nat> },
    TakeSnapshot { process_id: Seq<char> },
    AwaitTerminal { process_id: Seq<char> },
    AwaitChange {
        process_id: Seq<char>,
        stdout_offset: Option<u64>,
        stderr_offset: Option<u64>,
        wait: nat,
    },
    WriteStdin { process_id: Seq<char>, input: Seq<char>, close_stdin: bool },
    Kill { process_id: Seq<char>, grace: Option<nat> },
    Finish { completion: CompletionModel, result: Result<OutputModel, ErrorModel> },
}

/// The length of a span of time, if there is one.
pub open spec fn span(duration: Option<Duration>) -> Option<nat> {
    match duration {
        Some(duration) => Some(duration@),
        None => None,
    }
}

impl View for CallAction {
    type V = ActionModel;

    open spec fn view(&self) -> ActionModel {
        match self {
            CallAction::Parse(kind) => ActionModel::Parse(*kind),
            CallAction::Spawn { command, cwd, timeout } => ActionModel::Spawn {
                command: command@,
                cwd: cwd.deep_view(),
                timeout: span(*timeout),
            },
            CallAction::TakeSnapshot { process_id } => ActionModel::TakeSnapshot {
                process_id: process_id@,
            },
            CallAction::AwaitTerminal { process_id } => ActionModel::AwaitTerminal {
                process_id: process_id@,
            },
            CallAction::AwaitChange { process_id, stdout_offset, stderr_offset, wait } =>
                ActionModel::AwaitChange {
                process_id: process_id@,
                stdout_offset: *stdout_offset,
                stderr_offset: *stderr_offset,
                wait: wait@,
            },
            CallAction::WriteStdin { process_id, input, close_stdin } => ActionModel::WriteStdin {
                process_id: process_id@,
                input: input@,
                close_stdin: *close_stdin,
            },
            CallAction::Kill { process_id, grace } => ActionModel::Kill {
                process_id: process_id@,
                grace: span(*grace),
            },
            CallAction::Finish { completion, result } => ActionModel::Finish {
                completion: completion@,
                result: match result {
                    Ok(output) => Ok(output@),
                    Err(error) => Err(error@),
                },
            },
        }
    }
}

/// Whether an event answers the last action of a call.
pub open spec fn expects(phase: PhaseModel, event: CallEvent) -> bool {
    match phase {
        PhaseModel::Authorizing => event is Authorized,
        PhaseModel::Parsing(kind) => event matches CallEvent::Parsed(parsed) && (parsed matches Ok(
            input,
        ) ==> input.kind() == kind),
        PhaseModel::Spawning { .. } => event is Spawned,
        PhaseModel::Observing { .. } => event is Observed,
        PhaseModel::Writing { .. } => event is Written,
        PhaseModel::Finished => false,
    }
}

/// Whether a process that was waited for ended badly.
pub open spec fn ended_badly(status: ProcessStatus) -> bool {
    status is Failed || status is Cancelled || status is TimedOut
}

/// A call that ends with an answer.
pub open spec fn ends_with(output: OutputModel) -> (PhaseModel, ActionModel) {
    (
        PhaseModel::Finished,
        ActionModel::Finish { completion: answered(output), result: Ok(output) },
    )
}

/// A call that ends with an error, as failed.
pub open spec fn breaks_off(error: ErrorModel) -> (PhaseModel, ActionModel) {
    (PhaseModel::Finished, ActionModel::Finish { completion: failed(), result: Err(error) })
}

/// A number of units as a span of time in nanoseconds.
pub open spec fn scaled(units: Option<u64>, unit: nat) -> Option<nat> {
    match units {
        Some(units) => Some((units * unit) as nat),
        None => None,
    }
}

/// What input leads to.
pub open spec fn after_input(input: ToolInput) -> (PhaseModel, ActionModel) {
    match input {
        ToolInput::Start(input) => (
            PhaseModel::Spawning { background: input.background },
            ActionModel::Spawn {
                command: input.command@,
                cwd: input.cwd.deep_view(),
                timeout: scaled(input.timeout, 1_000_000_000),
            },
        ),
        ToolInput::GetOutput(input) => (
            PhaseModel::Observing { waited: false },
            ActionModel::AwaitChange {
                process_id: input.process_id@,
                stdout_offset: input.stdout_offset,
                stderr_offset: input.stderr_offset,
                wait: match scaled(input.wait_ms, 1_000_000) {
                    Some(wait) => wait,
                    None => 0,
                },
            },
        ),
        ToolInput::WriteToProcess(input) => (
            PhaseModel::Writing { process_id: input.process_id@, close_stdin: input.close_stdin },
            ActionModel::WriteStdin {
                process_id: input.process_id@,
                input: input.input@,
                close_stdin: input.close_stdin,
            },
        ),
        ToolInput::KillShell(input) => (
            PhaseModel::Observing { waited: false },
            ActionModel::Kill {
                process_id: input.process_id@,
                grace: scaled(input.grace_period_ms, 1_000_000),
            },
        ),
    }
}

/// What an event leads to in a call of the tool with a name.
pub open spec fn next(name: Seq<char>, phase: PhaseModel, event: CallEvent) -> (
    PhaseModel,
    ActionModel,
) {
    match (phase, event) {
        (PhaseModel::Authorizing, CallEvent::Authorized(Err(reason))) => (
            PhaseModel::Finished,
            ActionModel::Finish {
                completion: denied(),
                result: Err(ErrorModel::Tool { tool: name, message: reason@ }),
            },
        ),
        (PhaseModel::Authorizing, CallEvent::Authorized(Ok(_))) => match kind_of(name) {
            Some(kind) => (PhaseModel::Parsing(kind), ActionModel::Parse(kind)),
            None => breaks_off(
                ErrorModel::Tool { tool: name, message: "unsupported process tool"@ },
            ),
        },
        (PhaseModel::Parsing(_), CallEvent::Parsed(Ok(input))) => after_input(input),
        (PhaseModel::Parsing(_), CallEvent::Parsed(Err(error))) => breaks_off(
            ErrorModel::Validation(error@),
        ),
        (PhaseModel::Spawning { background }, CallEvent::Spawned(Ok(process_id))) => (
            PhaseModel::Observing { waited: !background },
            if background {
                ActionModel::TakeSnapshot { process_id: process_id@ }
            } else {
                ActionModel::AwaitTerminal { process_id: process_id@ }
            },
        ),
        (PhaseModel::Spawning { .. }, CallEvent::Spawned(Err(error))) => breaks_off(error@),
        (PhaseModel::Observing { waited }, CallEvent::Observed(Ok(snapshot))) => ends_with(
            output_model(snapshot@, waited && ended_badly(snapshot@.status)),
        ),
        (PhaseModel::Observing { .. }, CallEvent::Observed(Err(error))) => breaks_off(error@),
        (
            PhaseModel::Writing { process_id, close_stdin },
            CallEvent::Written(Ok(_)),
        ) => ends_with(written_model(process_id, close_stdin)),
        (PhaseModel::Writing { .. }, CallEvent::Written(Err(error))) => breaks_off(error@),
        _ => arbitrary(),
    }
}

/// A process tool.
#[derive(Debug, Clone, Copy)]
pub struct DevinProcessTool {
    name: &'static str,
}

impl View for DevinProcessTool {
    type V = Seq<char>;

    closed spec fn view(&self) -> Seq<char> {
        self.name@
    }
}

impl DevinProcessTool {
    /// The tool with a name.
    #[must_use]
    pub fn new(name: &'static str) -> (r: Self)
        ensures
            r@ == name@,
    {
        DevinProcessTool { name }
    }

    /// The name.
    pub fn name(&self) -> (r: &'static str)
        ensures
            r@ == self@,
    {
        self.name
    }

    /// The label.
    pub fn label(&self) -> (r: &'static str)
        ensures
            r@ == label_of(self@),
    {
        if str_eq(self.name, "exec") {
            "Exec"
        } else if str_eq(self.name, "shell_command") {
            "Shell Command"
        } else if str_eq(self.name, "get_output") {
            "Get Output"
        } else if str_eq(self.name, "write_to_process") {
            "Write to Process"
        } else if str_eq(self.name, "kill_shell") {
            "Kill Shell"
        } else {
            "Process"
        }
    }

    /// What the tool is for.
    pub fn description(&self) -> (r: &'static str)
        ensures
            r@ == description_of(self@),
    {
        if str_eq(self.name, "exec") {
            "Execute a shell command in the session-owned process supervisor."
        } else if str_eq(self.name, "shell_command") {
            "Run a foreground or background shell command."
        } else if str_eq(self.name, "get_output") {
            "Read bounded incremental output and status for a managed process."
        } else if str_eq(self.name, "write_to_process") {
            "Write text to stdin of a running managed process."
        } else if str_eq(self.name, "kill_shell") {
            "Terminate a managed process group gracefully, then forcefully."
        } else {
            "Managed process operation."
        }
    }

    /// The parameters, as a JSON schema.
    pub fn parameters(&self) -> (r: Json)
        ensures
            r.well_formed(),
            r.model() == tool_schema::schema_model(self@),
    {
        process_tool_schema(self.name)
    }

    /// What the tool does to the world: reading output only reads.
    pub fn effects(&self) -> (r: ToolEffect)
        ensures
            r == if self@ == "get_output"@ {
                ToolEffect::Read
            } else {
                ToolEffect::Process
            },
    {
        if str_eq(self.name, "get_output") {
            ToolEffect::Read
        } else {
            ToolEffect::Process
        }
    }

    /// The kind of the tool.
    pub fn kind(&self) -> (r: Option<ToolKind>)
        ensures
            r == kind_of(self@),
    {
        if str_eq(self.name, "exec") || str_eq(self.name, "shell_command") {
            Some(ToolKind::Start)
        } else if str_eq(self.name, "get_output") {
            Some(ToolKind::GetOutput)
        } else if str_eq(self.name, "write_to_process") {
            Some(ToolKind::WriteToProcess)
        } else if str_eq(self.name, "kill_shell") {
            Some(ToolKind::KillShell)
        } else {
            None
        }
    }

    /// The call as it is put before the policy.
    pub fn authorization_request(&self, call_id: &str, arguments: Json) -> (r: ToolRequest)
        ensures
            r.call_id@ == call_id@,
            r.tool_name@ == self@,
            r.arguments == arguments,
            r.origin == ToolRequestOrigin::Native,
    {
        ToolRequest {
            call_id: call_id.to_owned(),
            tool_name: self.name.to_owned(),
            arguments,
            origin: ToolRequestOrigin::Native,
        }
    }

    /// How a call with this answer ends in the audit.
    pub fn complete(&self, output: &ToolOutput) -> (r: Completion)
        requires
            output.well_formed(),
        ensures
            r@ == answered(output@),
    {
        let mut status: AuditStatus = if output.is_error {
            AuditStatus::Failed
        } else {
            AuditStatus::Succeeded
        };
        let mut artifact_refs: Vec<String> = Vec::new();
        assert(artifact_refs.deep_view() == Seq::<Seq<char>>::empty());
        match &output.details {
            Some(details) => {
                match details.get("status") {
                    Some(value) => match value.as_str() {
                        Some(text) => {
                            status = if str_eq(text, "cancelled") {
                                AuditStatus::Cancelled
                            } else if str_eq(text, "timed_out") {
                                AuditStatus::TimedOut
                            } else if str_eq(text, "failed") {
                                AuditStatus::Failed
                            } else {
                                AuditStatus::Succeeded
                            };
                        },
                        None => {},
                    },
                    None => {},
                }
                match details.get("artifactRefs") {
                    Some(value) => match value {
                        Json::Array(items) => {
                            artifact_refs = collect_strings(items);
                            assert(items@.map_values(|item: Json| item.model())
                                == value.model()->Array_0);
                        },
                        _ => {},
                    },
                    None => {},
                }
            },
            None => {},
        }
        Completion {
            status,
            artifact_refs,
            error: if output.is_error {
                Some("process tool execution failed".to_owned())
            } else {
                None
            },
        }
    }

    /// End a call with an answer.
    fn end_with(&self, output: ToolOutput) -> (r: (CallPhase, CallAction))
        requires
            output.well_formed(),
        ensures
            (r.0@, r.1@) == ends_with(output@),
    {
        let completion: Completion = self.complete(&output);
        (
            CallPhase::Finished,
            CallAction::Finish { completion, result: Ok(output) },
        )
    }

    /// End a call with an error, as failed.
    fn break_off(&self, error: Error) -> (r: (CallPhase, CallAction))
        ensures
            (r.0@, r.1@) == breaks_off(error@),
    {
        let completion: Completion = DevinProcessTool::plain_completion(
            AuditStatus::Failed,
            "process tool execution failed",
        );
        (CallPhase::Finished, CallAction::Finish { completion, result: Err(error) })
    }

    /// A completion without references.
    fn plain_completion(status: AuditStatus, error: &str) -> (r: Completion)
        ensures
            r@ == (CompletionModel { status, artifact_refs: seq![], error: Some(error@) }),
    {
        let none: Vec<String> = Vec::new();
        assert(none.deep_view() == Seq::<Seq<char>>::empty());
        Completion { status, artifact_refs: none, error: Some(error.to_owned()) }
    }

    /// Go on with input.
    fn take_input(&self, input: ToolInput) -> (r: (CallPhase, CallAction))
        ensures
            (r.0@, r.1@) == after_input(input),
    {
        match input {
            ToolInput::Start(input) => {
                let timeout: Option<Duration> = match input.timeout {
                    Some(secs) => Some(Duration::from_secs(secs)),
                    None => None,
                };
                (
                    CallPhase::Spawning { background: input.background },
                    CallAction::Spawn { command: input.command, cwd: input.cwd, timeout },
                )
            },
            ToolInput::GetOutput(input) => {
                let millis: u64 = match input.wait_ms {
                    Some(millis) => millis,
                    None => 0,
                };
                (
                    CallPhase::Observing { waited: false },
                    CallAction::AwaitChange {
                        process_id: input.process_id,
                        stdout_offset: input.stdout_offset,
                        stderr_offset: input.stderr_offset,
                        wait: Duration::from_millis(millis),
                    },
                )
            },
            ToolInput::WriteToProcess(input) => {
                let process_id: String = input.process_id.clone();
                (
                    CallPhase::Writing { process_id, close_stdin: input.close_stdin },
                    CallAction::WriteStdin {
                        process_id: input.process_id,
                        input: input.input,
                        close_stdin: input.close_stdin,
                    },
                )
            },
            ToolInput::KillShell(input) => {
                let grace: Option<Duration> = match input.grace_period_ms {
                    Some(millis) => Some(Duration::from_millis(millis)),
                    None => None,
                };
                (
                    CallPhase::Observing { waited: false },
                    CallAction::Kill { process_id: input.process_id, grace },
                )
            },
        }
    }

    /// Take in the answer to the last action of a call and give the next one. A call
    /// begins in the phase `Authorizing`, with the policy to be asked.
    pub fn execute(&self, phase: CallPhase, event: CallEvent) -> (r: (CallPhase, CallAction))
        requires
            expects(phase@, event),
        ensures
            (r.0@, r.1@) == next(self@, phase@, event),
    {
        match event {
            CallEvent::Authorized(Err(reason)) => (
                CallPhase::Finished,
                CallAction::Finish {
                    completion: DevinProcessTool::plain_completion(
                        AuditStatus::Denied,
                        "process tool authorization denied",
                    ),
                    result: Err(Error::tool(self.name, reason)),
                },
            ),
            CallEvent::Authorized(Ok(_)) => match self.kind() {
                Some(kind) => (CallPhase::Parsing(kind), CallAction::Parse(kind)),
                None => self.break_off(
                    Error::tool(self.name, "unsupported process tool".to_owned()),
                ),
            },
            CallEvent::Parsed(Ok(input)) => self.take_input(input),
            CallEvent::Parsed(Err(error)) => self.break_off(Error::validation(error)),
            CallEvent::Spawned(Ok(process_id)) => {
                let background: bool = match phase {
                    CallPhase::Spawning { background } => background,
                    _ => false,
                };
                let action: CallAction = if background {
                    CallAction::TakeSnapshot { process_id }
                } else {
                    CallAction::AwaitTerminal { process_id }
                };
                (CallPhase::Observing { waited: !background }, action)
            },
            CallEvent::Spawned(Err(error)) => self.break_off(error),
            CallEvent::Observed(Ok(snapshot)) => {
                let waited: bool = match phase {
                    CallPhase::Observing { waited } => waited,
                    _ => false,
                };
                let is_error: bool = waited && match snapshot.status {
                    ProcessStatus::Failed
                    | ProcessStatus::Cancelled
                    | ProcessStatus::TimedOut => true,
                    _ => false,
                };
                self.end_with(snapshot_output(&snapshot, is_error))
            },
            CallEvent::Observed(Err(error)) => self.break_off(error),
            CallEvent::Written(Ok(_)) => {
                let (process_id, close_stdin) = match phase {
                    CallPhase::Writing { process_id, close_stdin } => (process_id, close_stdin),
                    _ => (String::new(), false),
                };
                self.end_with(written_output(process_id.as_str(), close_stdin))
            },
            CallEvent::Written(Err(error)) => self.break_off(error),
        }
    }
}

/// The names of process tools among names, in their order.
pub open spec fn tool_names(enabled: Seq<Seq<char>>) -> Seq<Seq<char>>
    decreases enabled.len(),
{
    if enabled.len() == 0 {
        seq![]
    } else if kind_of(enabled.last()) is Some {
        tool_names(enabled.drop_last()).push(enabled.last())
    } else {
        tool_names(enabled.drop_last())
    }
}

/// The process tool with a name, if there is one.
pub fn process_tool(name: &str) -> (r: Option<DevinProcessTool>)
    ensures
        match r {
            Some(tool) => kind_of(name@) is Some && tool@ == name@,
            None => kind_of(name@) is None,
        },
{
    if str_eq(name, "exec") {
        Some(DevinProcessTool::new("exec"))
    } else if str_eq(name, "shell_command") {
        Some(DevinProcessTool::new("shell_command"))
    } else if str_eq(name, "get_output") {
        Some(DevinProcessTool::new("get_output"))
    } else if str_eq(name, "write_to_process") {
        Some(DevinProcessTool::new("write_to_process"))
    } else if str_eq(name, "kill_shell") {
        Some(DevinProcessTool::new("kill_shell"))
    } else {
        None
    }
}

/// The process tools among the enabled tools, in their order; other names are passed
/// over.
#[must_use]
pub fn process_tools(enabled: &[&str]) -> (r: Vec<DevinProcessTool>)
    ensures
        r@.map_values(|tool: DevinProcessTool| tool@) == tool_names(
            enabled@.map_values(|name: &str| name@),
        ),
{
    let mut r: Vec<DevinProcessTool> = Vec::new();
    let mut i: usize = 0;
    let ghost names = enabled@.map_values(|name: &str| name@);
    assert(r@.map_values(|tool: DevinProcessTool| tool@) == tool_names(names.take(0)));
    while i < enabled.len()
        invariant
            i <= enabled@.len(),
            names == enabled@.map_values(|name: &str| name@),
            r@.map_values(|tool: DevinProcessTool| tool@) == tool_names(names.take(i as int)),
        decreases enabled@.len() - i,
    {
        let ghost before = r@.map_values(|tool: DevinProcessTool| tool@);
        proof {
            let next = names.take(i + 1);
            assert(next.drop_last() == names.take(i as int));
            assert(next.last() == enabled@[i as int]@);
        }
        match process_tool(enabled[i]) {
            Some(tool) => {
                r.push(tool);
                assert(r@.map_values(|tool: DevinProcessTool| tool@) == before.push(tool@));
            },
            None => {},
        }
        i += 1;
    }
    assert(names.take(names.len() as int) == names);
    r
}

/// The strings of an array of strings are those strings.
proof fn lemma_strings_of_texts(texts: Seq<Seq<char>>)
    ensures
        strings(texts.map_values(|s: Seq<char>| JsonModel::String(s))) == texts,
    decreases texts.len(),
{
    let items = texts.map_values(|s: Seq<char>| JsonModel::String(s));
    if texts.len() > 0 {
        let front = texts.drop_last();
        lemma_strings_of_texts(front);
        assert(items.drop_last() == front.map_values(|s: Seq<char>| JsonModel::String(s)));
        assert(items.last() == JsonModel::String(texts.last()));
        assert(front.push(texts.last()) == texts);
    } else {
        assert(strings(items) == texts);
    }
}

/// What the details of an answer about a process say of its status and references.
proof fn lemma_details_members(s: SnapshotModel)
    ensures
        json::member_of(details_model(s), "status"@) == Some(
            JsonModel::String(process::status_text(s.status)),
        ),
        json::member_of(details_model(s), "artifactRefs"@) == Some(
            JsonModel::Array(s.artifact_refs.map_values(|r: Seq<char>| JsonModel::String(r))),
        ),
{
    reveal_strlit("status");
    reveal_strlit("exitCode");
    reveal_strlit("processGroupId");
    reveal_strlit("stdoutOffset");
    reveal_strlit("stderrOffset");
    reveal_strlit("stdoutTotalBytes");
    reveal_strlit("stderrTotalBytes");
    reveal_strlit("stdoutTruncated");
    reveal_strlit("stderrTruncated");
    reveal_strlit("stdinOpen");
    reveal_strlit("artifactRefs");
    reveal_strlit("error");
    assert("status"@.len() == 6);
    assert("artifactRefs"@.len() == 12);
    assert("error"@.len() == 5);
}

/// A call that is answered about a process ends in the audit with the status of that
/// process and with the references of the snapshot, whether the answer counts as an
/// error or not.
pub proof fn law_audit_follows_process(s: SnapshotModel, is_error: bool)
    ensures
        answered(output_model(s, is_error)).status == process::audit_status_of(s.status),
        answered(output_model(s, is_error)).artifact_refs == s.artifact_refs,
        answered(output_model(s, is_error)).error is Some <==> is_error,
{
    lemma_details_members(s);
    lemma_strings_of_texts(s.artifact_refs);
    reveal_strlit("running");
    reveal_strlit("succeeded");
    reveal_strlit("failed");
    reveal_strlit("cancelled");
    reveal_strlit("timed_out");
    assert("running"@.len() == 7 && "failed"@.len() == 6);
    assert("succeeded"@.len() == 9 && "succeeded"@[0] == 's');
    assert("cancelled"@.len() == 9 && "cancelled"@[0] == 'c');
    assert("timed_out"@.len() == 9 && "timed_out"@[0] == 't');
}

/// Large output reaches the audit as a reference to the spill file and in no other
/// form: the audit gets the one reference exactly if the snapshot is incomplete.
pub proof fn law_audit_gets_reference_for_large_output(
    process: process::ProcessModel,
    stdout_offset: Option<u64>,
    stderr_offset: Option<u64>,
    is_error: bool,
)
    ensures
        ({
            let s = process.snapshot(stdout_offset, stderr_offset);
            answered(output_model(s, is_error)).artifact_refs == if s.stdout_truncated
                || s.stderr_truncated {
                seq!["file://"@ + process.spill_path]
            } else {
                Seq::<Seq<char>>::empty()
            }
        }),
{
    law_audit_follows_process(process.snapshot(stdout_offset, stderr_offset), is_error);
}

/// A call that wrote input ends in the audit as succeeded.
pub proof fn law_written_input_is_audited(process_id: Seq<char>, close_stdin: bool)
    ensures
        answered(written_model(process_id, close_stdin)) == (CompletionModel {
            status: AuditStatus::Succeeded,
            artifact_refs: seq![],
            error: None,
        }),
{
    reveal_strlit("schema");
    reveal_strlit("processId");
    reveal_strlit("status");
    reveal_strlit("stdinClosed");
    reveal_strlit("artifactRefs");
    reveal_strlit("succeeded");
    reveal_strlit("cancelled");
    reveal_strlit("timed_out");
    reveal_strlit("failed");
    assert("status"@.len() == 6);
    assert("stdinClosed"@.len() == 11);
    assert("artifactRefs"@.len() == 12);
    assert("schema"@.len() == 6);
    assert("processId"@.len() == 9);
    assert("succeeded"@[0] == 's');
    assert("cancelled"@[0] == 'c');
    assert("timed_out"@[0] == 't');
    assert("failed"@.len() == 6);
}

/// How many answers a call can still take.
pub open spec fn answers_left(phase: PhaseModel) -> nat {
    match phase {
        PhaseModel::Authorizing => 4,
        PhaseModel::Parsing(_) => 3,
        PhaseModel::Spawning { .. } => 2,
        PhaseModel::Observing { .. } => 1,
        PhaseModel::Writing { .. } => 1,
        PhaseModel::Finished => 0,
    }
}

/// Every call ends: each answer brings it nearer to its end, and it is at its end
/// exactly if the next action is to end it.
pub proof fn law_calls_end(name: Seq<char>, phase: PhaseModel, event: CallEvent)
    requires
        expects(phase, event),
    ensures
        answers_left(next(name, phase, event).0) < answers_left(phase),
        next(name, phase, event).0 is Finished <==> next(name, phase, event).1 is Finish,
{
}

/// A call that the policy does not allow does nothing but end, as denied.
pub proof fn law_denied_call_does_nothing(name: Seq<char>, reason: String)
    ensures
        next(name, PhaseModel::Authorizing, CallEvent::Authorized(Err(reason))) == (
            PhaseModel::Finished,
            ActionModel::Finish {
                completion: denied(),
                result: Err(ErrorModel::Tool { tool: name, message: reason@ }),
            },
        ),
        denied().status == AuditStatus::Denied,
{
}

/// A call that ends with an answer ends in the audit with what that answer says.
pub proof fn law_answers_are_audited(name: Seq<char>, phase: PhaseModel, event: CallEvent)
    requires
        expects(phase, event),
    ensures
        next(name, phase, event).1 matches ActionModel::Finish {
            completion,
            result: Ok(output),
        } ==> completion == answered(output),
{
}

/// A call that ends with an error ends in the audit too: as denied if the policy did not
/// allow it, and otherwise as failed, whether its input could not be read, its process
/// could not be started, observed or written to, or its tool is not supported.
pub proof fn law_errors_are_audited(name: Seq<char>, phase: PhaseModel, event: CallEvent)
    requires
        expects(phase, event),
    ensures
        next(name, phase, event).1 matches ActionModel::Finish { completion, result: Err(_) }
            ==> completion == if phase is Authorizing && event is Authorized
            && event->Authorized_0 is Err {
            denied()
        } else {
            failed()
        },
        failed().status == AuditStatus::Failed,
{
}

/// Every tool that is offered is supported.
pub proof fn law_offered_tools_are_supported(enabled: Seq<Seq<char>>, i: int)
    requires
        0 <= i < tool_names(enabled).len(),
    ensures
        kind_of(tool_names(enabled)[i]) is Some,
        enabled.contains(tool_names(enabled)[i]),
    decreases enabled.len(),
{
    let front = enabled.drop_last();
    let last = enabled.last();
    if i < tool_names(front).len() {
        law_offered_tools_are_supported(front, i);
        let name = tool_names(front)[i];
        let k = choose|k: int| 0 <= k < front.len() && front[k] == name;
        assert(enabled[k] == name);
    } else {
        assert(enabled[enabled.len() - 1] == last);
    }
}

} // verus!
