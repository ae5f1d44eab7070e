//! The process tools: the course of a call, what it answers, and how it ends in the audit.

use crate::audit::{AuditStatus, ToolEffect};
use crate::error::Error;
use crate::json::{Json, JsonModel, NumberModel};
use crate::policy::{ToolRequest, ToolRequestOrigin};
use crate::process::{self, ProcessSnapshot, ProcessStatus};
use crate::tool::{
    self, process_tool, process_tools, snapshot_details, snapshot_output, snapshot_update,
    CallAction, CallEvent, CallPhase, Completion, ContentBlock, DevinProcessTool,
    ToolInput, ToolKind, ToolOutput, ToolUpdate,
};
use crate::tool_schema::process_tool_schema;
use vstd::prelude::*;

verus! {

/// Whether a name is that of a tool that starts processes.
pub open spec fn starts_processes(name: Seq<char>) -> bool {
    name == "exec"@ || name == "shell_command"@
}

/// Whether a name is that of a process tool.
pub open spec fn is_tool(name: Seq<char>) -> bool {
    starts_processes(name) || name == "get_output"@ || name == "write_to_process"@ || name
        == "kill_shell"@
}

/// Whether a call ends with an error, and in the audit with a status and a text.
pub open spec fn ends_in_error(
    r: (CallPhase, CallAction),
    status: AuditStatus,
    text: Seq<char>,
) -> bool {
    &&& r.0 is Finished
    &&& r.1 matches CallAction::Finish { completion, result } && completion.status == status
        && completion.artifact_refs@.len() == 0 && (completion.error matches Some(error) && error@
        == text) && result is Err
}

/// Whether content is one text.
pub open spec fn is_text(content: Seq<ContentBlock>, text: Seq<char>) -> bool {
    content.len() == 1 && (content[0] matches ContentBlock::Text(block) && block.text@ == text)
}

/// Whether an object holds a value under a key.
pub open spec fn holds(object: JsonModel, key: Seq<char>, value: JsonModel) -> bool {
    object matches JsonModel::Object(members) && members.dom().contains(key) && members[key]
        == value
}

/// A JSON string.
pub open spec fn string(s: Seq<char>) -> JsonModel {
    JsonModel::String(s)
}

/// A JSON integer.
pub open spec fn integer(n: int) -> JsonModel {
    JsonModel::Number(NumberModel::Integer(n))
}

/// Nothing happens without the policy: a call that it does not allow ends as denied, with the
/// reason; one that it allows goes on to read the input of its tool, and a tool that is none
/// ends as failed.
pub proof fn law_policy_comes_first(
    tool: &DevinProcessTool,
    answer: Result<(), String>,
    r: (CallPhase, CallAction),
)
    requires
        call_ensures(
            DevinProcessTool::execute,
            (tool, CallPhase::Authorizing, CallEvent::Authorized(answer)),
            r,
        ),
    ensures
        answer matches Err(reason) ==> {
            &&& ends_in_error(r, AuditStatus::Denied, "process tool authorization denied"@)
            &&& r.1->result->Err_0 matches Error::Tool { tool: t, message } && t@ == tool@
                && message@ == reason@
        },
        answer is Ok ==> {
            &&& starts_processes(tool@) ==> r.0 == CallPhase::Parsing(ToolKind::Start) && r.1
                == CallAction::Parse(ToolKind::Start)
            &&& tool@ == "get_output"@ ==> r.0 == CallPhase::Parsing(ToolKind::GetOutput) && r.1
                == CallAction::Parse(ToolKind::GetOutput)
            &&& tool@ == "write_to_process"@ ==> r.0 == CallPhase::Parsing(ToolKind::WriteToProcess)
                && r.1 == CallAction::Parse(ToolKind::WriteToProcess)
            &&& tool@ == "kill_shell"@ ==> r.0 == CallPhase::Parsing(ToolKind::KillShell) && r.1
                == CallAction::Parse(ToolKind::KillShell)
            &&& !is_tool(tool@) ==> ends_in_error(
                r,
                AuditStatus::Failed,
                "process tool execution failed"@,
            ) && (r.1->result->Err_0 matches Error::Tool { tool: t, message } && t@ == tool@
                && message@ == "unsupported process tool"@)
        },
{
    lemma_names_differ();
    match r.1 {
        CallAction::Finish { completion, result } => {
            assert(completion.artifact_refs.deep_view().len() == completion.artifact_refs@.len());
        },
        _ => {},
    }
}

/// The names of the tools differ.
proof fn lemma_names_differ()
    ensures
        "exec"@ != "get_output"@,
        "exec"@ != "write_to_process"@,
        "exec"@ != "kill_shell"@,
        "exec"@ != "shell_command"@,
        "shell_command"@ != "get_output"@,
        "shell_command"@ != "write_to_process"@,
        "shell_command"@ != "kill_shell"@,
        "get_output"@ != "write_to_process"@,
        "get_output"@ != "kill_shell"@,
        "write_to_process"@ != "kill_shell"@,
{
    reveal_strlit("exec");
    reveal_strlit("shell_command");
    reveal_strlit("get_output");
    reveal_strlit("write_to_process");
    reveal_strlit("kill_shell");
    assert("exec"@.len() == 4 && "shell_command"@.len() == 13 && "write_to_process"@.len() == 16);
    assert("get_output"@[0] == 'g' && "kill_shell"@[0] == 'k');
}

/// Input is handed on as it was given: the command, directory and time limit in seconds to the
/// start of a process, the offsets and the milliseconds to a wait for output, none of them
/// meaning no wait, the text to the input of a process, and the milliseconds of grace to a
/// kill.
pub proof fn law_input_is_handed_on(
    tool: &DevinProcessTool,
    kind: ToolKind,
    input: ToolInput,
    r: (CallPhase, CallAction),
)
    requires
        input.kind() == kind,
        call_ensures(
            DevinProcessTool::execute,
            (tool, CallPhase::Parsing(kind), CallEvent::Parsed(Ok(input))),
            r,
        ),
    ensures
        input matches ToolInput::Start(given) ==> {
            &&& r.0 matches CallPhase::Spawning { background } && background == given.background
            &&& r.1 matches CallAction::Spawn { command, cwd, timeout } && command@
                == given.command@ && cwd.deep_view() == given.cwd.deep_view() && (timeout is Some
                <==> given.timeout is Some) && (given.timeout matches Some(secs)
                ==> timeout->0.nanos == secs * 1_000_000_000)
        },
        input matches ToolInput::GetOutput(given) ==> {
            &&& r.0 matches CallPhase::Observing { waited } && !waited
            &&& r.1 matches CallAction::AwaitChange { process_id, stdout_offset, stderr_offset, wait }
                && process_id@ == given.process_id@ && stdout_offset == given.stdout_offset
                && stderr_offset == given.stderr_offset && (given.wait_ms matches Some(millis)
                ==> wait.nanos == millis * 1_000_000) && (given.wait_ms is None ==> wait.nanos == 0)
        },
        input matches ToolInput::WriteToProcess(given) ==> {
            &&& r.0 matches CallPhase::Writing { process_id, close_stdin } && process_id@
                == given.process_id@ && close_stdin == given.close_stdin
            &&& r.1 matches CallAction::WriteStdin { process_id, input: text, close_stdin }
                && process_id@ == given.process_id@ && text@ == given.input@ && close_stdin
                == given.close_stdin
        },
        input matches ToolInput::KillShell(given) ==> {
            &&& r.0 matches CallPhase::Observing { waited } && !waited
            &&& r.1 matches CallAction::Kill { process_id, grace } && process_id@
                == given.process_id@ && (grace is Some <==> given.grace_period_ms is Some) && (
            given.grace_period_ms matches Some(millis) ==> grace->0.nanos == millis * 1_000_000)
        },
{
}

/// A process that was started in the background is shown at once; any other is waited for.
pub proof fn law_foreground_is_waited_for(
    tool: &DevinProcessTool,
    background: bool,
    id: String,
    r: (CallPhase, CallAction),
)
    requires
        call_ensures(
            DevinProcessTool::execute,
            (tool, CallPhase::Spawning { background }, CallEvent::Spawned(Ok(id))),
            r,
        ),
    ensures
        r.0 matches CallPhase::Observing { waited } && waited == !background,
        background ==> (r.1 matches CallAction::TakeSnapshot { process_id } && process_id@ == id@),
        !background ==> (r.1 matches CallAction::AwaitTerminal { process_id } && process_id@
            == id@),
{
}

/// An error on the way ends the call with that error, and in the audit as failed: input that
/// could not be read is not valid, and what the supervisor refused is passed on as it is.
pub proof fn law_errors_end_the_call(
    tool: &DevinProcessTool,
    kind: ToolKind,
    phase: CallPhase,
    text: String,
    error: Error,
    unread: (CallPhase, CallAction),
    unspawned: (CallPhase, CallAction),
    unobserved: (CallPhase, CallAction),
    unwritten: (CallPhase, CallAction),
)
    requires
        call_ensures(
            DevinProcessTool::execute,
            (tool, CallPhase::Parsing(kind), CallEvent::Parsed(Err(text))),
            unread,
        ),
        phase is Spawning ==> call_ensures(
            DevinProcessTool::execute,
            (tool, phase, CallEvent::Spawned(Err(error))),
            unspawned,
        ),
        phase is Observing ==> call_ensures(
            DevinProcessTool::execute,
            (tool, phase, CallEvent::Observed(Err(error))),
            unobserved,
        ),
        phase is Writing ==> call_ensures(
            DevinProcessTool::execute,
            (tool, phase, CallEvent::Written(Err(error))),
            unwritten,
        ),
    ensures
        ends_in_error(unread, AuditStatus::Failed, "process tool execution failed"@),
        unread.1->result->Err_0 matches Error::Validation(message) && message@ == text@,
        phase is Spawning ==> ends_in_error(
            unspawned,
            AuditStatus::Failed,
            "process tool execution failed"@,
        ) && unspawned.1->result->Err_0@ == error@,
        phase is Observing ==> ends_in_error(
            unobserved,
            AuditStatus::Failed,
            "process tool execution failed"@,
        ) && unobserved.1->result->Err_0@ == error@,
        phase is Writing ==> ends_in_error(
            unwritten,
            AuditStatus::Failed,
            "process tool execution failed"@,
        ) && unwritten.1->result->Err_0@ == error@,
{
    lemma_no_references(unread.1);
    lemma_no_references(unspawned.1);
    lemma_no_references(unobserved.1);
    lemma_no_references(unwritten.1);
}

/// References are as many as their texts.
proof fn lemma_no_references(action: CallAction)
    ensures
        action matches CallAction::Finish { completion, result }
            ==> completion.artifact_refs.deep_view().len() == completion.artifact_refs@.len(),
{
}

/// A call that was answered about a process has answered with its output and details. It is an
/// error exactly if the process was waited for and has ended without success, so that a
/// foreground call is an error exactly if its process did not succeed. The audit has the
/// outcome of the process, its references, and an error text exactly if the answer is one.
pub proof fn law_answer_about_process(
    tool: &DevinProcessTool,
    waited: bool,
    snapshot: ProcessSnapshot,
    r: (CallPhase, CallAction),
)
    requires
        call_ensures(
            DevinProcessTool::execute,
            (tool, CallPhase::Observing { waited }, CallEvent::Observed(Ok(snapshot))),
            r,
        ),
    ensures
        r.0 is Finished,
        r.1 matches CallAction::Finish { completion, result } && (result matches Ok(output) && {
            &&& output.is_error <==> waited && snapshot.status != ProcessStatus::Running
                && snapshot.status != ProcessStatus::Succeeded
            &&& waited && snapshot.status != ProcessStatus::Running ==> output.is_error == !(
            snapshot.status is Succeeded)
            &&& is_text(output.content@, process::combined(snapshot.stdout@, snapshot.stderr@))
            &&& output.details is Some && output.details->0.model() == tool::details_model(
                snapshot@,
            )
            &&& completion.error is Some <==> output.is_error
            &&& completion.error matches Some(error) ==> error@ == "process tool execution failed"@
            &&& completion.artifact_refs.deep_view() == snapshot.artifact_refs.deep_view()
            &&& completion.status == AuditStatus::Succeeded <==> snapshot.status
                == ProcessStatus::Running || snapshot.status == ProcessStatus::Succeeded
            &&& completion.status == AuditStatus::Failed <==> snapshot.status
                == ProcessStatus::Failed
            &&& completion.status == AuditStatus::Cancelled <==> snapshot.status
                == ProcessStatus::Cancelled
            &&& completion.status == AuditStatus::TimedOut <==> snapshot.status
                == ProcessStatus::TimedOut
            &&& waited && (completion.status == AuditStatus::Failed || completion.status
                == AuditStatus::Cancelled || completion.status == AuditStatus::TimedOut)
                ==> output.is_error
        }),
{
    let is_error = waited && tool::ended_badly(snapshot.status);
    tool::law_audit_follows_process(snapshot@, is_error);
    if r.1 is Finish && r.1->result is Ok {
        let content = r.1->result->Ok_0.content@;
        assert(tool::texts(content).len() == content.len());
        assert(tool::texts(content)[0] == process::combined(snapshot.stdout@, snapshot.stderr@));
    }
}

/// A call that wrote input says so, which process it was and whether it was the last, and ends
/// in the audit as succeeded.
pub proof fn law_written_input_is_answered(
    tool: &DevinProcessTool,
    process_id: String,
    close_stdin: bool,
    r: (CallPhase, CallAction),
)
    requires
        call_ensures(
            DevinProcessTool::execute,
            (tool, CallPhase::Writing { process_id, close_stdin }, CallEvent::Written(Ok(()))),
            r,
        ),
    ensures
        r.0 is Finished,
        r.1 matches CallAction::Finish { completion, result } && (result matches Ok(output) && {
            &&& !output.is_error
            &&& is_text(output.content@, "stdin written"@)
            &&& output.details is Some
            &&& holds(
                output.details->0.model(),
                "schema"@,
                string("pi.devin.process_control.v1"@),
            )
            &&& holds(output.details->0.model(), "processId"@, string(process_id@))
            &&& holds(output.details->0.model(), "status"@, string("succeeded"@))
            &&& holds(output.details->0.model(), "stdinClosed"@, JsonModel::Bool(close_stdin))
            &&& forall|key: Seq<char>| #[trigger]
                output.details->0.model()->Object_0.dom().contains(key) ==> key == "schema"@ || key
                    == "processId"@ || key == "status"@ || key == "stdinClosed"@
            &&& completion.status == AuditStatus::Succeeded
            &&& completion.artifact_refs@.len() == 0
            &&& completion.error is None
        }),
{
    tool::law_written_input_is_audited(process_id@, close_stdin);
    lemma_no_references(r.1);
    reveal_strlit("schema");
    reveal_strlit("processId");
    reveal_strlit("status");
    reveal_strlit("stdinClosed");
    assert("schema"@[1] == 'c' && "status"@[1] == 't');
    assert("processId"@.len() == 9 && "stdinClosed"@.len() == 11);
    if r.1 is Finish && r.1->result is Ok {
        let content = r.1->result->Ok_0.content@;
        assert(tool::texts(content).len() == content.len());
        assert(tool::texts(content)[0] == "stdin written"@);
    }
}

/// A text, or nothing.
pub open spec fn optional_string(s: Option<Seq<char>>) -> JsonModel {
    match s {
        Some(s) => JsonModel::String(s),
        None => JsonModel::Null,
    }
}

/// The details of an answer hold what the snapshot says, each under its own key, and nothing
/// else.
pub proof fn law_details_hold_the_snapshot(snapshot: &ProcessSnapshot, r: Json)
    requires
        call_ensures(snapshot_details, (snapshot,), r),
    ensures
        r.model() == tool::details_model(snapshot@),
        holds(r.model(), "schema"@, string("pi.devin.process_output.v1"@)),
        holds(r.model(), "processId"@, string(snapshot.process_id@)),
        holds(r.model(), "cwd"@, string(snapshot.cwd@)),
        holds(r.model(), "startedAt"@, string(snapshot.started_at.rfc3339@)),
        holds(r.model(), "endedAt"@, optional_string(snapshot.ended_at.deep_view())),
        holds(
            r.model(),
            "exitCode"@,
            match snapshot.exit_code {
                Some(code) => integer(code as int),
                None => JsonModel::Null,
            },
        ),
        holds(
            r.model(),
            "processGroupId"@,
            match snapshot.process_group_id {
                Some(id) => integer(id as int),
                None => JsonModel::Null,
            },
        ),
        holds(r.model(), "stdoutOffset"@, integer(snapshot.stdout_offset as int)),
        holds(r.model(), "stderrOffset"@, integer(snapshot.stderr_offset as int)),
        holds(r.model(), "stdoutTotalBytes"@, integer(snapshot.stdout_total_bytes as int)),
        holds(r.model(), "stderrTotalBytes"@, integer(snapshot.stderr_total_bytes as int)),
        holds(r.model(), "stdoutTruncated"@, JsonModel::Bool(snapshot.stdout_truncated)),
        holds(r.model(), "stderrTruncated"@, JsonModel::Bool(snapshot.stderr_truncated)),
        holds(r.model(), "stdinOpen"@, JsonModel::Bool(snapshot.stdin_open)),
        holds(r.model(), "error"@, optional_string(snapshot.redacted_error.deep_view())),
        r.model() matches JsonModel::Object(members) && members.dom().contains("artifactRefs"@) && (
        members["artifactRefs"@] matches JsonModel::Array(items) && items.len()
            == snapshot.artifact_refs@.len() && forall|i: int|
            0 <= i < items.len() ==> #[trigger] items[i] == string(snapshot.artifact_refs@[i]@)),
        forall|key: Seq<char>| #[trigger]
            r.model()->Object_0.dom().contains(key) ==> key == "schema"@ || key == "processId"@
                || key == "cwd"@ || key == "startedAt"@ || key == "endedAt"@ || key == "status"@
                || key == "exitCode"@ || key == "processGroupId"@ || key == "stdoutOffset"@ || key
                == "stderrOffset"@ || key == "stdoutTotalBytes"@ || key == "stderrTotalBytes"@
                || key == "stdoutTruncated"@ || key == "stderrTruncated"@ || key == "stdinOpen"@
                || key == "artifactRefs"@ || key == "error"@,
        snapshot.status == ProcessStatus::Running ==> holds(
            r.model(),
            "status"@,
            string("running"@),
        ),
        snapshot.status == ProcessStatus::Succeeded ==> holds(
            r.model(),
            "status"@,
            string("succeeded"@),
        ),
        snapshot.status == ProcessStatus::Failed ==> holds(r.model(), "status"@, string("failed"@)),
        snapshot.status == ProcessStatus::Cancelled ==> holds(
            r.model(),
            "status"@,
            string("cancelled"@),
        ),
        snapshot.status == ProcessStatus::TimedOut ==> holds(
            r.model(),
            "status"@,
            string("timed_out"@),
        ),
{
    lemma_detail_keys_differ();
    assert(snapshot.artifact_refs.deep_view().len() == snapshot.artifact_refs@.len());
}

/// The keys of the details differ.
proof fn lemma_detail_keys_differ()
    ensures
        "schema"@.len() == 6 && "schema"@[1] == 'c',
        "processId"@.len() == 9 && "processId"@[0] == 'p',
        "cwd"@.len() == 3,
        "startedAt"@.len() == 9 && "startedAt"@[0] == 's' && "startedAt"@[2] == 'a',
        "endedAt"@.len() == 7,
        "status"@.len() == 6 && "status"@[1] == 't',
        "exitCode"@.len() == 8,
        "processGroupId"@.len() == 14,
        "stdoutOffset"@.len() == 12 && "stdoutOffset"@[0] == 's' && "stdoutOffset"@[3] == 'o',
        "stderrOffset"@.len() == 12 && "stderrOffset"@[0] == 's' && "stderrOffset"@[3] == 'e',
        "stdoutTotalBytes"@.len() == 16 && "stdoutTotalBytes"@[3] == 'o',
        "stderrTotalBytes"@.len() == 16 && "stderrTotalBytes"@[3] == 'e',
        "stdoutTruncated"@.len() == 15 && "stdoutTruncated"@[3] == 'o',
        "stderrTruncated"@.len() == 15 && "stderrTruncated"@[3] == 'e',
        "stdinOpen"@.len() == 9 && "stdinOpen"@[0] == 's' && "stdinOpen"@[2] == 'd',
        "artifactRefs"@.len() == 12 && "artifactRefs"@[0] == 'a',
        "error"@.len() == 5,
{
    reveal_strlit("schema");
    reveal_strlit("processId");
    reveal_strlit("cwd");
    reveal_strlit("startedAt");
    reveal_strlit("endedAt");
    reveal_strlit("status");
    reveal_strlit("exitCode");
    reveal_strlit("processGroupId");
    reveal_strlit("stdoutOffset");
    reveal_strlit("stderrOffset");
    reveal_strlit("stdoutTotalBytes");
    reveal_strlit("stderrTotalBytes");
    reveal_strlit("stdoutTruncated");
    reveal_strlit("stderrTruncated");
    reveal_strlit("stdinOpen");
    reveal_strlit("artifactRefs");
    reveal_strlit("error");
}

/// News of a process and an answer about it show the same text and details, those of the
/// snapshot; an answer is an error exactly if it is said to be one.
pub proof fn law_news_and_answer_agree(
    snapshot: &ProcessSnapshot,
    is_error: bool,
    news: ToolUpdate,
    answer: ToolOutput,
)
    requires
        call_ensures(snapshot_update, (snapshot,), news),
        call_ensures(snapshot_output, (snapshot, is_error), answer),
    ensures
        is_text(news.content@, process::combined(snapshot.stdout@, snapshot.stderr@)),
        is_text(answer.content@, process::combined(snapshot.stdout@, snapshot.stderr@)),
        news.details is Some && answer.details is Some,
        news.details->0.model() == tool::details_model(snapshot@),
        answer.details->0.model() == tool::details_model(snapshot@),
        answer.is_error == is_error,
{
    assert(tool::texts(news.content@).len() == news.content@.len());
    assert(tool::texts(news.content@)[0] == process::combined(snapshot.stdout@, snapshot.stderr@));
    assert(tool::texts(answer.content@).len() == answer.content@.len());
    assert(tool::texts(answer.content@)[0] == process::combined(
        snapshot.stdout@,
        snapshot.stderr@,
    ));
}

/// The audit goes by what an answer says: by the status in its details if there is one, and
/// else by whether it is an error. An error has a text, and nothing else has.
pub proof fn law_completion_goes_by_answer(
    tool: &DevinProcessTool,
    output: &ToolOutput,
    r: Completion,
    status: Seq<char>,
)
    requires
        output.well_formed(),
        call_ensures(DevinProcessTool::complete, (tool, output), r),
    ensures
        r.error is Some <==> output.is_error,
        r.error matches Some(error) ==> error@ == "process tool execution failed"@,
        output.details is Some && holds(output.details->0.model(), "status"@, string(status)) ==> {
            &&& r.status == AuditStatus::Cancelled <==> status == "cancelled"@
            &&& r.status == AuditStatus::TimedOut <==> status == "timed_out"@
            &&& r.status == AuditStatus::Failed <==> status == "failed"@
            &&& r.status == AuditStatus::Succeeded <==> status != "cancelled"@ && status
                != "timed_out"@ && status != "failed"@
        },
        output.details is None || !(output.details->0.model() is Object) || !output.details->0.model()->Object_0.dom().contains(
            "status"@,
        ) || !(output.details->0.model()->Object_0["status"@] is String) ==> r.status
            == if output.is_error {
            AuditStatus::Failed
        } else {
            AuditStatus::Succeeded
        },
{
    reveal_strlit("cancelled");
    reveal_strlit("timed_out");
    reveal_strlit("failed");
    assert("cancelled"@[0] == 'c' && "timed_out"@[0] == 't' && "failed"@.len() == 6);
}

/// The references of an answer are the strings among them, in their order; other values are
/// passed over.
pub proof fn law_references_are_the_strings(
    tool: &DevinProcessTool,
    output: &ToolOutput,
    r: Completion,
    items: Seq<JsonModel>,
    item: JsonModel,
)
    requires
        output.well_formed(),
        call_ensures(DevinProcessTool::complete, (tool, output), r),
    ensures
        output.details is Some && holds(
            output.details->0.model(),
            "artifactRefs"@,
            JsonModel::Array(items),
        ) ==> r.artifact_refs.deep_view() == tool::strings(items),
        output.details is None ==> r.artifact_refs@.len() == 0,
        tool::strings(Seq::empty()).len() == 0,
        item matches JsonModel::String(s) ==> tool::strings(items.push(item)) == tool::strings(
            items,
        ).push(s),
        !(item is String) ==> tool::strings(items.push(item)) == tool::strings(items),
{
    assert(items.push(item).drop_last() =~= items);
    assert(r.artifact_refs.deep_view().len() == r.artifact_refs@.len());
}

/// The policy is asked about the call as it is: its id, the tool's name and the arguments.
pub proof fn law_policy_sees_the_call(
    tool: &DevinProcessTool,
    call_id: &str,
    arguments: Json,
    r: ToolRequest,
)
    requires
        call_ensures(
            DevinProcessTool::authorization_request,
            (tool, call_id, arguments),
            r,
        ),
    ensures
        r.call_id@ == call_id@,
        r.tool_name@ == tool@,
        r.arguments == arguments,
        r.origin == ToolRequestOrigin::Native,
{
}

/// A tool is what its name says: it has the name that it was made with, its label and
/// description are those of the name, only the tool that reads output is one that reads, and
/// its parameters are the schema of its name.
pub proof fn law_tool_is_its_name(
    name: &'static str,
    made: DevinProcessTool,
    called: &'static str,
    label: &'static str,
    description: &'static str,
    effects: ToolEffect,
    kind: Option<ToolKind>,
    parameters: Json,
    schema: Json,
)
    requires
        call_ensures(DevinProcessTool::new, (name,), made),
        call_ensures(DevinProcessTool::name, (&made,), called),
        call_ensures(DevinProcessTool::label, (&made,), label),
        call_ensures(DevinProcessTool::description, (&made,), description),
        call_ensures(DevinProcessTool::effects, (&made,), effects),
        call_ensures(DevinProcessTool::kind, (&made,), kind),
        call_ensures(DevinProcessTool::parameters, (&made,), parameters),
        call_ensures(process_tool_schema, (name,), schema),
    ensures
        made@ == name@ && called@ == name@,
        name@ == "exec"@ ==> label@ == "Exec"@ && description@
            == "Execute a shell command in the session-owned process supervisor."@,
        name@ == "shell_command"@ ==> label@ == "Shell Command"@ && description@
            == "Run a foreground or background shell command."@,
        name@ == "get_output"@ ==> label@ == "Get Output"@ && description@
            == "Read bounded incremental output and status for a managed process."@,
        name@ == "write_to_process"@ ==> label@ == "Write to Process"@ && description@
            == "Write text to stdin of a running managed process."@,
        name@ == "kill_shell"@ ==> label@ == "Kill Shell"@ && description@
            == "Terminate a managed process group gracefully, then forcefully."@,
        !is_tool(name@) ==> label@ == "Process"@ && description@ == "Managed process operation."@,
        effects == ToolEffect::Read <==> name@ == "get_output"@,
        effects == ToolEffect::Process <==> name@ != "get_output"@,
        kind is Some <==> is_tool(name@),
        kind == Some(ToolKind::Start) <==> starts_processes(name@),
        kind == Some(ToolKind::GetOutput) <==> name@ == "get_output"@,
        kind == Some(ToolKind::WriteToProcess) <==> name@ == "write_to_process"@,
        kind == Some(ToolKind::KillShell) <==> name@ == "kill_shell"@,
        parameters.model() == schema.model(),
{
    lemma_names_differ();
}

/// Every schema is that of an object that takes nothing but what it names; both tools that
/// start processes have the same, and names of no tool have one that names nothing.
pub proof fn law_schemas(name: &str, other: &str, r: Json, s: Json)
    requires
        call_ensures(process_tool_schema, (name,), r),
        call_ensures(process_tool_schema, (other,), s),
    ensures
        holds(r.model(), "type"@, string("object"@)),
        holds(r.model(), "additionalProperties"@, JsonModel::Bool(false)),
        !is_tool(name@) ==> !r.model()->Object_0.dom().contains("properties"@)
            && !r.model()->Object_0.dom().contains("required"@),
        is_tool(name@) ==> r.model()->Object_0.dom().contains("properties"@)
            && r.model()->Object_0.dom().contains("required"@),
        starts_processes(name@) && starts_processes(other@) ==> r.model() == s.model(),
        !is_tool(name@) && !is_tool(other@) ==> r.model() == s.model(),
{
    lemma_names_differ();
    reveal_strlit("type");
    reveal_strlit("additionalProperties");
    reveal_strlit("properties");
    reveal_strlit("required");
    assert("type"@.len() == 4 && "additionalProperties"@.len() == 20 && "properties"@.len() == 10
        && "required"@.len() == 8);
}

/// The tools that are offered are the process tools among the enabled names, each as often as
/// it is enabled and in the order in which it is.
pub proof fn law_enabled_tools_are_offered(
    enabled: &[&str],
    r: Vec<DevinProcessTool>,
    name: &str,
    found: Option<DevinProcessTool>,
    names: Seq<Seq<char>>,
    next: Seq<char>,
)
    requires
        call_ensures(process_tools, (enabled,), r),
        call_ensures(process_tool, (name,), found),
    ensures
        r@.map_values(|tool: DevinProcessTool| tool@) == tool::tool_names(
            enabled@.map_values(|name: &str| name@),
        ),
        tool::tool_names(Seq::empty()).len() == 0,
        is_tool(next) ==> tool::tool_names(names.push(next)) == tool::tool_names(names).push(next),
        !is_tool(next) ==> tool::tool_names(names.push(next)) == tool::tool_names(names),
        found is Some <==> is_tool(name@),
        found matches Some(tool) ==> tool@ == name@,
{
    assert(names.push(next).drop_last() =~= names);
}

} // verus!
