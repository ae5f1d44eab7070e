//! The processes of a session: what starting, feeding, stopping, waiting for and watching
//! one of them does, to it and to the others.

use crate::clock::{utc_text, Duration, Timestamp};
use crate::config::ProcessSupervisorConfig;
use crate::error::Error;
use crate::monitor::{Monitor, MonitorAction, MonitorEvent};
use crate::process::{ProcessModel, ProcessSnapshot, ProcessStatus, PumpStep, ReadEvent};
use crate::supervisor::{
    self, BashFound, ChangeEvent, ChangeStep, Cleanup, CleanupStep, KillStep, ProcessSupervisor,
    SpawnPlan, SpawnReport, SupervisorModel, TerminalPoll, TerminalStep, TerminalWait,
};
use crate::text;
use vstd::prelude::*;

verus! {

/// Whether the process at a place has an id.
pub open spec fn stands_at(s: SupervisorModel, id: Seq<char>, i: int) -> bool {
    s.well_formed() && 0 <= i < s.processes.len() && s.processes[i].id == id
}

/// Whether no process has an id.
pub open spec fn absent(s: SupervisorModel, id: Seq<char>) -> bool {
    forall|j: int| 0 <= j < s.processes.len() ==> (#[trigger] s.processes[j]).id != id
}

/// The supervisor with another process at a place and all else as it was.
pub open spec fn put(s: SupervisorModel, i: int, process: ProcessModel) -> SupervisorModel {
    SupervisorModel { processes: s.processes.update(i, process), ..s }
}

/// Whether an error is a report of a tool with these texts.
pub open spec fn reports(e: Error, tool: Seq<char>, message: Seq<char>) -> bool {
    e matches Error::Tool { tool: t, message: m } && t@ == tool && m@ == message
}

/// Whether an error says that no process has an id.
pub open spec fn names_unknown(e: Error, id: Seq<char>) -> bool {
    reports(e, "get_output"@, "unknown process id `"@ + id + "`"@)
}

/// A process that stands at a place is the one that its id finds.
proof fn lemma_found(s: SupervisorModel, id: Seq<char>, i: int)
    requires
        stands_at(s, id, i),
    ensures
        s.known(id),
        s.place(id) == i,
        s.process(id) == s.processes[i],
        s.processes[i].well_formed(),
{
    assert(supervisor::is_at(s.processes, id, i));
    supervisor::lemma_place_unique(s, id, i);
}

/// An id that no process has finds none.
proof fn lemma_absent(s: SupervisorModel, id: Seq<char>)
    requires
        absent(s, id),
    ensures
        !s.known(id),
{
    if s.known(id) {
        let i = choose|i: int| supervisor::is_at(s.processes, id, i);
        assert(s.processes[i].id == id);
    }
}

/// A command is planned or refused: it is refused if the session is ending, if it holds
/// nothing but white space, or if its directory is missing, in this order, and planned
/// otherwise. The script that is planned ends with the command, whatever the prefix; before
/// the command stands the line that waits for background jobs, followed by nothing or, for
/// a prefix that is not blank, by the prefix on lines of its own. It runs in the given
/// directory or else in the workspace, under the configured shell or else the first bash
/// that was found, or `sh`, and with the given time limit.
pub proof fn law_command_is_planned(
    s: &ProcessSupervisor,
    command: &str,
    cwd: Option<&str>,
    timeout: Option<Duration>,
    directory_exists: bool,
    bash: BashFound,
    r: Result<SpawnPlan, Error>,
)
    requires
        call_ensures(
            ProcessSupervisor::plan_spawn,
            (s, command, cwd, timeout, directory_exists, bash),
            r,
        ),
    ensures
        ({
            let trap = "trap 'code=$?; wait; exit $code' EXIT\n"@;
            let solid = exists|k: int|
                0 <= k < command@.len() && !text::is_white_space(#[trigger] command@[k]);
            &&& r is Ok <==> !s@.stopping && solid && directory_exists
            &&& s@.stopping ==> reports(r->Err_0, "exec"@, "process supervisor is stopping"@)
            &&& !s@.stopping && !solid ==> (r->Err_0 matches Error::Validation(m) && m@
                == "command must not be empty"@)
            &&& !s@.stopping && solid && !directory_exists ==> reports(
                r->Err_0,
                "exec"@,
                "working directory does not exist: "@ + (match cwd {
                    Some(cwd) => cwd@,
                    None => s@.workspace,
                }),
            )
            &&& r matches Ok(plan) ==> {
                let before = plan.script@.take(plan.script@.len() - command@.len());
                &&& command@.len() <= plan.script@.len()
                &&& plan.script@.skip(plan.script@.len() - command@.len()) == command@
                &&& s@.command_prefix is None ==> before == trap
                &&& s@.command_prefix matches Some(prefix) ==> {
                    let filled = exists|k: int|
                        0 <= k < prefix.len() && !text::is_white_space(#[trigger] prefix[k]);
                    &&& !filled ==> before == trap
                    &&& filled ==> before == trap + prefix + "\n"@
                }
                &&& cwd matches Some(cwd) ==> plan.cwd@ == cwd@
                &&& cwd is None ==> plan.cwd@ == s@.workspace
                &&& plan.timeout == timeout
                &&& s@.shell_path matches Some(path) ==> plan.shell@ == path
                &&& s@.shell_path is None ==> {
                    &&& bash.bin ==> plan.shell@ == "/bin/bash"@
                    &&& !bash.bin && bash.usr_bin ==> plan.shell@ == "/usr/bin/bash"@
                    &&& !bash.bin && !bash.usr_bin && bash.usr_local_bin ==> plan.shell@
                        == "/usr/local/bin/bash"@
                    &&& !bash.bin && !bash.usr_bin && !bash.usr_local_bin ==> plan.shell@ == "sh"@
                }
            }
        }),
{
    let trap = "trap 'code=$?; wait; exit $code' EXIT\n"@;
    assert(text::blank(command@) <==> !(exists|k: int|
        0 <= k < command@.len() && !text::is_white_space(#[trigger] command@[k])));
    if r is Ok {
        let plan = r->Ok_0;
        let n = plan.script@.len() - command@.len();
        match s@.command_prefix {
            Some(prefix) => {
                assert(text::blank(prefix) <==> !(exists|k: int|
                    0 <= k < prefix.len() && !text::is_white_space(#[trigger] prefix[k])));
                if text::blank(prefix) {
                    assert(plan.script@ == trap + command@);
                    assert(plan.script@.take(n) =~= trap);
                } else {
                    assert(plan.script@ == trap + (prefix + "\n"@ + command@));
                    assert(plan.script@.take(n) =~= trap + prefix + "\n"@);
                }
            },
            None => {
                assert(plan.script@ == trap + command@);
                assert(plan.script@.take(n) =~= trap);
            },
        }
        assert(plan.script@.skip(n) =~= command@);
    }
}

/// A blank prefix is no prefix: two supervisors that differ in this alone plan the same.
pub proof fn law_blank_prefix_is_none(
    s: &ProcessSupervisor,
    t: &ProcessSupervisor,
    command: &str,
    cwd: Option<&str>,
    timeout: Option<Duration>,
    directory_exists: bool,
    bash: BashFound,
    a: Result<SpawnPlan, Error>,
    b: Result<SpawnPlan, Error>,
)
    requires
        s@.command_prefix is None,
        t@.command_prefix is Some,
        forall|k: int|
            0 <= k < t@.command_prefix->0.len() ==> text::is_white_space(
                #[trigger] t@.command_prefix->0[k],
            ),
        s@.workspace == t@.workspace,
        s@.shell_path == t@.shell_path,
        s@.stopping == t@.stopping,
        call_ensures(
            ProcessSupervisor::plan_spawn,
            (s, command, cwd, timeout, directory_exists, bash),
            a,
        ),
        call_ensures(
            ProcessSupervisor::plan_spawn,
            (t, command, cwd, timeout, directory_exists, bash),
            b,
        ),
    ensures
        a is Ok <==> b is Ok,
        a is Ok ==> a->Ok_0.script@ == b->Ok_0.script@ && a->Ok_0.shell@ == b->Ok_0.shell@
            && a->Ok_0.cwd@ == b->Ok_0.cwd@ && a->Ok_0.timeout == b->Ok_0.timeout,
        a is Err ==> a->Err_0@ == b->Err_0@,
{
}

/// A command runs in the directory that was named, or in the workspace.
pub proof fn law_directory(s: &ProcessSupervisor, cwd: Option<&str>, r: String)
    requires
        call_ensures(ProcessSupervisor::spawn_directory, (s, cwd), r),
    ensures
        cwd matches Some(cwd) ==> r@ == cwd@,
        cwd is None ==> r@ == s@.workspace,
{
}

/// Whether a process has just been started as planned.
pub open spec fn just_started(
    p: ProcessModel,
    plan: SpawnPlan,
    pid: u32,
    process_id: Seq<char>,
    spill_path: Seq<char>,
    now: Seq<char>,
    capacity: usize,
) -> bool {
    &&& p.id == process_id && p.command == plan.script@ && p.cwd == plan.cwd@
    &&& p.started_at == now && p.pid == pid && p.process_group_id == Some(pid)
    &&& p.timeout == plan.timeout && p.spill_path == spill_path
    &&& p.status == ProcessStatus::Running && p.exit_code is None && p.ended_at is None
    &&& p.stdin_open && !p.stop_requested && p.redacted_error is None
    &&& p.stdout.retained.len() == 0 && p.stdout.total == 0 && !p.stdout.truncated
    &&& p.stdout.capacity == capacity
    &&& p.stderr == p.stdout
}

/// A start that succeeded registers one more process behind the others, which stay as they
/// are, or in the place of one with the same id: it runs the planned script in the planned directory with the planned time limit, its
/// process group is its own, its input is open, nothing has come out of it, and nobody has
/// asked it to stop. A start that failed registers nothing and says what failed.
pub proof fn law_start_is_registered(
    plan: SpawnPlan,
    report: SpawnReport,
    now: Timestamp,
    i: int,
)
    ensures
        forall|s: &mut ProcessSupervisor, r: Result<String, Error>| #[trigger]
            call_ensures(ProcessSupervisor::spawn_at, (s, plan, report, now), r) ==> {
                &&& r is Ok <==> report is Started
                &&& r is Err ==> final(s)@ == s@
                &&& report matches SpawnReport::Started { pid, process_id, spill_path } ==> {
                    &&& r->Ok_0@ == process_id@
                    &&& absent(s@, process_id@) ==> {
                        let n = s@.processes.len() as int;
                        let p = final(s)@.processes[n];
                        &&& final(s)@ == (SupervisorModel {
                            processes: s@.processes.push(p),
                            ..s@
                        })
                        &&& just_started(
                            p,
                            plan,
                            pid,
                            process_id@,
                            spill_path@,
                            now@,
                            s@.config.output_capacity,
                        )
                    }
                    &&& stands_at(s@, process_id@, i) ==> final(s)@ == put(
                        s@,
                        i,
                        final(s)@.processes[i],
                    ) && just_started(
                        final(s)@.processes[i],
                        plan,
                        pid,
                        process_id@,
                        spill_path@,
                        now@,
                        s@.config.output_capacity,
                    )
                }
                &&& report matches SpawnReport::PrepareFailed(m) ==> reports(
                    r->Err_0,
                    "exec"@,
                    "failed to prepare shell: "@ + m@,
                )
                &&& report matches SpawnReport::SpawnFailed(m) ==> reports(
                    r->Err_0,
                    "exec"@,
                    "failed to spawn shell: "@ + m@,
                )
                &&& report is MissingStdin ==> reports(r->Err_0, "exec"@, "missing child stdin"@)
                &&& report is MissingStdout ==> reports(r->Err_0, "exec"@, "missing child stdout"@)
                &&& report is MissingStderr ==> reports(r->Err_0, "exec"@, "missing child stderr"@)
                &&& report matches SpawnReport::SpillFailed(m) ==> reports(
                    r->Err_0,
                    "exec"@,
                    "failed to create output spill: "@ + m@,
                )
            },
{
    assert forall|s: &mut ProcessSupervisor, r: Result<String, Error>| #[trigger]
        call_ensures(ProcessSupervisor::spawn_at, (s, plan, report, now), r) && report is Started
            && absent(s@, report->process_id@) implies final(s)@ == (SupervisorModel {
        processes: s@.processes.push(final(s)@.processes[s@.processes.len() as int]),
        ..s@
    }) by {
        lemma_absent(s@, report->process_id@);
    }
    assert forall|s: &mut ProcessSupervisor, r: Result<String, Error>| #[trigger]
        call_ensures(ProcessSupervisor::spawn_at, (s, plan, report, now), r) && report is Started
            && stands_at(s@, report->process_id@, i) implies s@.known(report->process_id@)
        && s@.place(report->process_id@) == i by {
        lemma_found(s@, report->process_id@, i);
    }
}

/// A start that is taken in, and an end that is recorded, are so at some moment: everything but
/// the time is as it would be at any.
pub proof fn law_time_only_stamps(
    plan: SpawnPlan,
    report: SpawnReport,
    process_id: &str,
    done: &Monitor,
    i: int,
)
    ensures
        forall|s: &mut ProcessSupervisor, r: Result<String, Error>| #[trigger]
            call_ensures(ProcessSupervisor::spawn, (s, plan, report), r) ==> {
                &&& r is Ok <==> report is Started
                &&& r is Err ==> final(s)@ == s@
                &&& report is Started && absent(s@, report->process_id@) ==> {
                    let p = final(s)@.processes[s@.processes.len() as int];
                    &&& r->Ok_0@ == report->process_id@
                    &&& final(s)@ == (SupervisorModel { processes: s@.processes.push(p), ..s@ })
                    &&& utc_text(p.started_at)
                    &&& p == supervisor::started(
                        plan,
                        report->pid,
                        report->process_id@,
                        report->spill_path@,
                        p.started_at,
                        s@.config.output_capacity as nat,
                    )
                }
            },
        forall|s: &mut ProcessSupervisor, r: Result<(), Error>| #[trigger]
            call_ensures(ProcessSupervisor::finish, (s, process_id, done), r) ==> {
                &&& absent(s@, process_id@) ==> r is Err && names_unknown(r->Err_0, process_id@)
                    && final(s)@ == s@
                &&& stands_at(s@, process_id@, i) ==> {
                    let end = final(s)@.processes[i].ended_at;
                    &&& r is Ok
                    &&& end is Some && utc_text(end->0)
                    &&& final(s)@ == put(
                        s@,
                        i,
                        s@.processes[i].finished(done.forced, done.exit, end->0),
                    )
                }
            },
{
    assert forall|s: &mut ProcessSupervisor, r: Result<String, Error>| #[trigger]
        call_ensures(ProcessSupervisor::spawn, (s, plan, report), r) && report is Started && absent(
            s@,
            report->process_id@,
        ) implies ({
        let p = final(s)@.processes[s@.processes.len() as int];
        &&& final(s)@ == (SupervisorModel { processes: s@.processes.push(p), ..s@ })
        &&& utc_text(p.started_at)
        &&& p == supervisor::started(
            plan,
            report->pid,
            report->process_id@,
            report->spill_path@,
            p.started_at,
            s@.config.output_capacity as nat,
        )
    }) by {
        lemma_absent(s@, report->process_id@);
    }
    assert forall|s: &mut ProcessSupervisor, r: Result<(), Error>| #[trigger]
        call_ensures(ProcessSupervisor::finish, (s, process_id, done), r) implies (absent(
        s@,
        process_id@,
    ) ==> !s@.known(process_id@)) && (stands_at(s@, process_id@, i) ==> s@.known(process_id@)
        && s@.place(process_id@) == i) by {
        if stands_at(s@, process_id@, i) {
            lemma_found(s@, process_id@, i);
        }
        if absent(s@, process_id@) {
            lemma_absent(s@, process_id@);
        }
    }
}

/// A snapshot of a process shows that process, and an id that no process has is refused.
pub proof fn law_snapshot_is_of_its_process(
    s: &ProcessSupervisor,
    process_id: &str,
    stdout_offset: Option<u64>,
    stderr_offset: Option<u64>,
    r: Result<ProcessSnapshot, Error>,
    i: int,
)
    requires
        call_ensures(
            ProcessSupervisor::snapshot,
            (s, process_id, stdout_offset, stderr_offset),
            r,
        ),
    ensures
        stands_at(s@, process_id@, i) ==> r is Ok && r->Ok_0@ == s@.processes[i].snapshot(
            stdout_offset,
            stderr_offset,
        ),
        absent(s@, process_id@) ==> r is Err && names_unknown(r->Err_0, process_id@),
{
    if stands_at(s@, process_id@, i) {
        lemma_found(s@, process_id@, i);
    }
    if absent(s@, process_id@) {
        lemma_absent(s@, process_id@);
    }
}

/// A process takes input exactly if it runs and its input is open.
pub proof fn law_who_takes_input(
    s: &ProcessSupervisor,
    process_id: &str,
    r: Result<(), Error>,
    i: int,
)
    requires
        call_ensures(ProcessSupervisor::stdin_ready, (s, process_id), r),
    ensures
        stands_at(s@, process_id@, i) ==> {
            let p = s@.processes[i];
            &&& r is Ok <==> p.status == ProcessStatus::Running && p.stdin_open
            &&& p.status != ProcessStatus::Running ==> reports(
                r->Err_0,
                "write_to_process"@,
                "process `"@ + process_id@ + "` is no longer running"@,
            )
            &&& p.status == ProcessStatus::Running && !p.stdin_open ==> reports(
                r->Err_0,
                "write_to_process"@,
                "stdin for process `"@ + process_id@ + "` is closed"@,
            )
        },
        absent(s@, process_id@) ==> r is Err && names_unknown(r->Err_0, process_id@),
{
    if stands_at(s@, process_id@, i) {
        lemma_found(s@, process_id@, i);
    }
    if absent(s@, process_id@) {
        lemma_absent(s@, process_id@);
    }
}

/// Input that was written leaves a process as it was, unless it was to be the last: then, and
/// if it could not be written, the input is closed. A process that takes no input is left
/// alone. Closing succeeds exactly on input that is open.
pub proof fn law_input_is_closed_when_asked(
    process_id: &str,
    close_stdin: bool,
    outcome: Result<(), String>,
    i: int,
)
    ensures
        forall|s: &mut ProcessSupervisor, r: Result<(), Error>| #[trigger]
            call_ensures(
                ProcessSupervisor::write_stdin,
                (s, process_id, close_stdin, outcome),
                r,
            ) ==> {
                &&& absent(s@, process_id@) ==> r is Err && names_unknown(r->Err_0, process_id@)
                    && final(s)@ == s@
                &&& stands_at(s@, process_id@, i) ==> {
                    let p = s@.processes[i];
                    let taken = p.status == ProcessStatus::Running && p.stdin_open;
                    &&& r is Ok <==> taken && outcome is Ok
                    &&& !taken || (outcome is Ok && !close_stdin) ==> final(s)@ == s@
                    &&& taken && (outcome is Err || close_stdin) ==> final(s)@ == put(
                        s@,
                        i,
                        ProcessModel { stdin_open: false, ..p },
                    )
                    &&& taken && outcome is Err ==> reports(
                        r->Err_0,
                        "write_to_process"@,
                        "failed to write stdin for process `"@ + process_id@ + ("`: "@
                            + outcome->Err_0@),
                    )
                    &&& p.status != ProcessStatus::Running ==> reports(
                        r->Err_0,
                        "write_to_process"@,
                        "process `"@ + process_id@ + "` is no longer running"@,
                    )
                    &&& p.status == ProcessStatus::Running && !p.stdin_open ==> reports(
                        r->Err_0,
                        "write_to_process"@,
                        "stdin for process `"@ + process_id@ + "` is closed"@,
                    )
                }
            },
        forall|s: &mut ProcessSupervisor, r: Result<(), Error>| #[trigger]
            call_ensures(ProcessSupervisor::close_stdin, (s, process_id), r) ==> {
                &&& absent(s@, process_id@) ==> r is Err && names_unknown(r->Err_0, process_id@)
                    && final(s)@ == s@
                &&& stands_at(s@, process_id@, i) ==> {
                    let p = s@.processes[i];
                    &&& r is Ok <==> p.stdin_open
                    &&& p.stdin_open ==> final(s)@ == put(
                        s@,
                        i,
                        ProcessModel { stdin_open: false, ..p },
                    )
                    &&& !p.stdin_open ==> final(s)@ == s@ && reports(
                        r->Err_0,
                        "write_to_process"@,
                        "stdin for process `"@ + process_id@ + "` is already closed"@,
                    )
                }
            },
{
    assert forall|s: &mut ProcessSupervisor, r: Result<(), Error>|
        stands_at(s@, process_id@, i) && #[trigger] call_ensures(
            ProcessSupervisor::write_stdin,
            (s, process_id, close_stdin, outcome),
            r,
        ) implies s@.known(process_id@) && s@.place(process_id@) == i by {
        lemma_found(s@, process_id@, i);
    }
    assert forall|s: &mut ProcessSupervisor, r: Result<(), Error>|
        absent(s@, process_id@) && #[trigger] call_ensures(
            ProcessSupervisor::write_stdin,
            (s, process_id, close_stdin, outcome),
            r,
        ) implies !s@.known(process_id@) by {
        lemma_absent(s@, process_id@);
    }
    assert forall|s: &mut ProcessSupervisor, r: Result<(), Error>|
        stands_at(s@, process_id@, i) && #[trigger] call_ensures(
            ProcessSupervisor::close_stdin,
            (s, process_id),
            r,
        ) implies s@.known(process_id@) && s@.place(process_id@) == i by {
        lemma_found(s@, process_id@, i);
    }
    assert forall|s: &mut ProcessSupervisor, r: Result<(), Error>|
        absent(s@, process_id@) && #[trigger] call_ensures(
            ProcessSupervisor::close_stdin,
            (s, process_id),
            r,
        ) implies !s@.known(process_id@) by {
        lemma_absent(s@, process_id@);
    }
}

/// A kill asks a running process to stop and has its group terminated, with the grace that was
/// asked for or else the configured one, and five seconds at most; a process that has ended
/// is shown as it is and left alone.
pub proof fn law_kill_terminates_first(process_id: &str, grace: Option<Duration>, i: int)
    ensures
        forall|s: &mut ProcessSupervisor, r: Result<KillStep, Error>| #[trigger]
            call_ensures(ProcessSupervisor::kill, (s, process_id, grace), r) ==> {
                &&& absent(s@, process_id@) ==> r is Err && names_unknown(r->Err_0, process_id@)
                    && final(s)@ == s@
                &&& stands_at(s@, process_id@, i) ==> {
                    let p = s@.processes[i];
                    let wanted: u128 = match grace {
                        Some(grace) => grace.nanos,
                        None => s@.config.kill_grace.nanos,
                    };
                    &&& p.status != ProcessStatus::Running ==> final(s)@ == s@ && (
                    r matches Ok(KillStep::Done(snapshot)) && snapshot@ == p.snapshot(None, None))
                    &&& p.status == ProcessStatus::Running ==> final(s)@ == put(
                        s@,
                        i,
                        ProcessModel { stop_requested: true, ..p },
                    ) && (r matches Ok(KillStep::Terminate { pid, allowed }) && pid == p.pid
                        && allowed.nanos == if wanted <= 5_000_000_000 {
                        wanted
                    } else {
                        5_000_000_000
                    })
                }
            },
{
    assert forall|s: &mut ProcessSupervisor, r: Result<KillStep, Error>|
        stands_at(s@, process_id@, i) && #[trigger] call_ensures(
            ProcessSupervisor::kill,
            (s, process_id, grace),
            r,
        ) implies s@.known(process_id@) && s@.place(process_id@) == i by {
        lemma_found(s@, process_id@, i);
    }
    assert forall|s: &mut ProcessSupervisor, r: Result<KillStep, Error>|
        absent(s@, process_id@) && #[trigger] call_ensures(
            ProcessSupervisor::kill,
            (s, process_id, grace),
            r,
        ) implies !s@.known(process_id@) by {
        lemma_absent(s@, process_id@);
    }
}

/// A kill waits for the end of the process, the poll interval at a time, exactly as long as it
/// was allowed to, and only then has the group killed.
pub proof fn law_kill_waits_out_the_grace(
    s: &ProcessSupervisor,
    process_id: &str,
    allowed: Duration,
    elapsed: Duration,
    r: Result<KillStep, Error>,
    i: int,
)
    requires
        call_ensures(
            ProcessSupervisor::continue_kill,
            (s, process_id, allowed, elapsed),
            r,
        ),
    ensures
        absent(s@, process_id@) ==> r is Err && names_unknown(r->Err_0, process_id@),
        stands_at(s@, process_id@, i) ==> {
            let p = s@.processes[i];
            &&& p.status != ProcessStatus::Running ==> (r matches Ok(KillStep::Done(snapshot))
                && snapshot@ == p.snapshot(None, None))
            &&& p.status == ProcessStatus::Running && elapsed.nanos < allowed.nanos ==> (
            r matches Ok(KillStep::Wait(pause)) && pause == s@.config.poll_interval)
            &&& p.status == ProcessStatus::Running && elapsed.nanos >= allowed.nanos ==> (
            r matches Ok(KillStep::ForceKill(pid)) && pid == p.pid)
        },
{
    if stands_at(s@, process_id@, i) {
        lemma_found(s@, process_id@, i);
    }
    if absent(s@, process_id@) {
        lemma_absent(s@, process_id@);
    }
}

/// The running processes of a session, in their order: each process that runs is one of them,
/// once, and none that has ended is.
pub proof fn law_running_processes(processes: Seq<ProcessModel>, process: ProcessModel)
    ensures
        supervisor::running(Seq::empty()).len() == 0,
        supervisor::running_pids(Seq::empty()).len() == 0,
        process.status == ProcessStatus::Running ==> supervisor::running(processes.push(process))
            == supervisor::running(processes).push(process) && supervisor::running_pids(
            processes.push(process),
        ) == supervisor::running_pids(processes).push(process.pid),
        process.status != ProcessStatus::Running ==> supervisor::running(processes.push(process))
            == supervisor::running(processes) && supervisor::running_pids(processes.push(process))
            == supervisor::running_pids(processes),
{
    supervisor::lemma_running_push(processes, process);
    reveal(Seq::filter);
}

/// The end of a session asks every process that runs to stop and has its group terminated; it
/// leaves alone those that have ended, and nothing is started any more.
pub proof fn law_session_end_stops_all()
    ensures
        forall|s: &mut ProcessSupervisor, r: Cleanup| #[trigger]
            call_ensures(ProcessSupervisor::cleanup_all, (s,), r) ==> {
                &&& final(s)@.stopping
                &&& final(s)@ == (SupervisorModel {
                    stopping: true,
                    processes: final(s)@.processes,
                    ..s@
                })
                &&& final(s)@.processes.len() == s@.processes.len()
                &&& forall|i: int|
                    0 <= i < s@.processes.len() ==> {
                        let p = #[trigger] s@.processes[i];
                        &&& p.status == ProcessStatus::Running ==> final(s)@.processes[i] == (
                        ProcessModel { stop_requested: true, ..p })
                        &&& p.status != ProcessStatus::Running ==> final(s)@.processes[i] == p
                    }
                &&& r.terminate@ == supervisor::running_pids(s@.processes)
                &&& r.watched == s@.processes.len()
            },
{
}

/// The end of a session waits, the poll interval at a time, as long as a process that was asked
/// to stop runs and the configured grace has not passed; then what still runs of them is
/// killed. The count of active processes is the number of those that run.
pub proof fn law_session_end_waits_out_the_grace(
    s: &ProcessSupervisor,
    watched: usize,
    elapsed: Duration,
    r: CleanupStep,
    active: usize,
)
    requires
        call_ensures(ProcessSupervisor::continue_cleanup, (s, watched, elapsed), r),
        call_ensures(ProcessSupervisor::active_process_count, (s,), active),
    ensures
        ({
            let left = supervisor::running_pids(s@.processes.take(watched as int));
            &&& left.len() > 0 && elapsed.nanos < s@.config.kill_grace.nanos ==> (
            r matches CleanupStep::Wait(pause) && pause == s@.config.poll_interval)
            &&& left.len() == 0 || elapsed.nanos >= s@.config.kill_grace.nanos ==> (
            r matches CleanupStep::Kill(pids) && pids@ == left)
        }),
        active == supervisor::running(s@.processes).len(),
{
}

/// A look of a wait for the end passes on what came since the last one, of both streams, if
/// anything did, and then counts both as passed on; it ends the wait exactly if the process
/// has ended, with all that is retained.
pub proof fn law_wait_looks_at_process(s: &ProcessSupervisor, process_id: &str, i: int)
    ensures
        forall|wait: &mut TerminalWait, r: Result<TerminalPoll, Error>| #[trigger]
            call_ensures(ProcessSupervisor::wait_for_terminal, (s, process_id, wait), r) ==> {
                &&& absent(s@, process_id@) ==> r is Err && names_unknown(r->Err_0, process_id@)
                    && *final(wait) == *wait
                &&& stands_at(s@, process_id@, i) ==> {
                    let p = s@.processes[i];
                    let news = (p.stdout.retained.len() > 0 && wait.stdout_offset < p.stdout.total)
                        || (p.stderr.retained.len() > 0 && wait.stderr_offset < p.stderr.total);
                    let seen = p.snapshot(Some(wait.stdout_offset), Some(wait.stderr_offset));
                    &&& r is Ok
                    &&& r->Ok_0.update matches Some(update) ==> update@ == seen && (
                    update.stdout@.len() > 0 || update.stderr@.len() > 0)
                        && final(wait).stdout_offset == p.stdout.total
                        && final(wait).stderr_offset == p.stderr.total
                    &&& r->Ok_0.update is None ==> *final(wait) == *wait
                    &&& r->Ok_0.update is Some <==> news
                    &&& r->Ok_0.finished is Some <==> p.status != ProcessStatus::Running
                    &&& r->Ok_0.finished matches Some(end) ==> end@ == p.snapshot(None, None)
                }
            },
{
    assert forall|wait: &mut TerminalWait, r: Result<TerminalPoll, Error>| #[trigger]
        call_ensures(ProcessSupervisor::wait_for_terminal, (s, process_id, wait), r) implies (
    stands_at(s@, process_id@, i) ==> s@.known(process_id@) && s@.place(process_id@) == i
        && s@.processes[i].well_formed()) && (absent(s@, process_id@) ==> !s@.known(
        process_id@,
    )) by {
        if stands_at(s@, process_id@, i) {
            lemma_found(s@, process_id@, i);
        }
        if absent(s@, process_id@) {
            lemma_absent(s@, process_id@);
        }
    }
}

/// A wait whose caller gave up has the process asked to stop and its group terminated; any
/// other pauses for the poll interval and changes nothing.
pub proof fn law_caller_that_gives_up_stops_process(process_id: &str, cancelled: bool, i: int)
    ensures
        forall|s: &mut ProcessSupervisor, r: Result<TerminalStep, Error>| #[trigger]
            call_ensures(ProcessSupervisor::after_checkpoint, (s, process_id, cancelled), r) ==> {
                &&& absent(s@, process_id@) ==> r is Err && names_unknown(r->Err_0, process_id@)
                    && final(s)@ == s@
                &&& stands_at(s@, process_id@, i) ==> {
                    let p = s@.processes[i];
                    &&& !cancelled ==> final(s)@ == s@ && r is Ok && r->Ok_0 == TerminalStep::Sleep(
                        s@.config.poll_interval,
                    )
                    &&& cancelled ==> final(s)@ == put(
                        s@,
                        i,
                        ProcessModel { stop_requested: true, ..p },
                    ) && r is Ok && r->Ok_0 == TerminalStep::Terminate(p.pid)
                }
            },
{
    assert forall|s: &mut ProcessSupervisor, r: Result<TerminalStep, Error>| #[trigger]
        call_ensures(ProcessSupervisor::after_checkpoint, (s, process_id, cancelled), r) implies (
    stands_at(s@, process_id@, i) ==> s@.known(process_id@) && s@.place(process_id@) == i) && (
    absent(s@, process_id@) ==> !s@.known(process_id@)) by {
        if stands_at(s@, process_id@, i) {
            lemma_found(s@, process_id@, i);
        }
        if absent(s@, process_id@) {
            lemma_absent(s@, process_id@);
        }
    }
}

/// A wait for output lasts no longer and no shorter than was asked for: a check that was not
/// cancelled ends it exactly if the time that was asked for, or thirty seconds if that is
/// shorter, has passed, so that a wait for no time ends at its first check; one that was
/// cancelled ends it at once. Otherwise the wait pauses for the poll interval.
pub proof fn law_wait_lasts_as_asked(
    s: &ProcessSupervisor,
    process_id: &str,
    stdout_offset: Option<u64>,
    stderr_offset: Option<u64>,
    wait: Duration,
    cancelled: bool,
    elapsed: Duration,
    r: Result<ChangeStep, Error>,
    i: int,
)
    requires
        stands_at(s@, process_id@, i),
        call_ensures(
            ProcessSupervisor::wait_for_change,
            (
                s,
                process_id,
                stdout_offset,
                stderr_offset,
                wait,
                ChangeEvent::Checked { cancelled, elapsed },
            ),
            r,
        ),
    ensures
        r is Ok,
        ({
            let limit: u128 = if wait.nanos <= 30_000_000_000 {
                wait.nanos
            } else {
                30_000_000_000
            };
            &&& r->Ok_0 is Done <==> cancelled || elapsed.nanos >= limit
            &&& r->Ok_0 is Sleep <==> !cancelled && elapsed.nanos < limit
        }),
        wait.nanos == 0 ==> r->Ok_0 is Done,
        r->Ok_0 matches ChangeStep::Done(snapshot) ==> snapshot@ == s@.processes[i].snapshot(
            stdout_offset,
            stderr_offset,
        ),
        r->Ok_0 matches ChangeStep::Sleep(pause) ==> pause == s@.config.poll_interval,
{
    lemma_found(s@, process_id@, i);
}

/// A wait for output is over, when it begins and after each pause, exactly if the process has
/// ended or there is a byte at or behind an offset that was asked for; then it shows what
/// there is. A process that no one knows is refused.
pub proof fn law_wait_ends_with_news(
    s: &ProcessSupervisor,
    process_id: &str,
    stdout_offset: Option<u64>,
    stderr_offset: Option<u64>,
    wait: Duration,
    event: ChangeEvent,
    r: Result<ChangeStep, Error>,
    i: int,
)
    requires
        call_ensures(
            ProcessSupervisor::wait_for_change,
            (s, process_id, stdout_offset, stderr_offset, wait, event),
            r,
        ),
    ensures
        absent(s@, process_id@) ==> r is Err && names_unknown(r->Err_0, process_id@),
        stands_at(s@, process_id@, i) && !(event is Checked) ==> {
            let p = s@.processes[i];
            let out = p.stdout.retained.len() > 0 && (stdout_offset matches Some(offset)
                ==> offset < p.stdout.total);
            let err = p.stderr.retained.len() > 0 && (stderr_offset matches Some(offset)
                ==> offset < p.stderr.total);
            &&& r is Ok
            &&& r->Ok_0 is Done <==> p.status != ProcessStatus::Running || out || err
            &&& r->Ok_0 is Check <==> p.status == ProcessStatus::Running && !out && !err
            &&& r->Ok_0 matches ChangeStep::Done(snapshot) ==> snapshot@ == p.snapshot(
                stdout_offset,
                stderr_offset,
            )
        },
{
    if stands_at(s@, process_id@, i) {
        lemma_found(s@, process_id@, i);
    }
    if absent(s@, process_id@) {
        lemma_absent(s@, process_id@);
    }
}

/// What a reader found of a process goes to that process, as it goes to any.
pub proof fn law_reader_feeds_its_process(
    process_id: &str,
    is_stderr: bool,
    event: ReadEvent,
    i: int,
)
    ensures
        forall|s: &mut ProcessSupervisor, r: Result<PumpStep, Error>| #[trigger]
            call_ensures(
                ProcessSupervisor::pump_output,
                (s, process_id, is_stderr, event),
                r,
            ) ==> {
                &&& absent(s@, process_id@) ==> r is Err && names_unknown(r->Err_0, process_id@)
                    && final(s)@ == s@
                &&& stands_at(s@, process_id@, i) ==> {
                    &&& r is Ok
                    &&& r->Ok_0 is Stop <==> !(event matches ReadEvent::Read(bytes) && bytes@.len()
                        > 0)
                    &&& final(s)@ == put(s@, i, s@.processes[i].pumped(is_stderr, event))
                }
            },
{
    assert forall|s: &mut ProcessSupervisor, r: Result<PumpStep, Error>| #[trigger]
        call_ensures(ProcessSupervisor::pump_output, (s, process_id, is_stderr, event), r) implies (
    stands_at(s@, process_id@, i) ==> s@.known(process_id@) && s@.place(process_id@) == i) && (
    absent(s@, process_id@) ==> !s@.known(process_id@)) by {
        if stands_at(s@, process_id@, i) {
            lemma_found(s@, process_id@, i);
        }
        if absent(s@, process_id@) {
            lemma_absent(s@, process_id@);
        }
    }
}

/// A step of the watch over a process goes by that process and the settings, and changes no
/// other; the end that is recorded is that of the watch.
pub proof fn law_watch_is_over_its_process(
    process_id: &str,
    event: MonitorEvent,
    done: &Monitor,
    now: Timestamp,
    i: int,
)
    ensures
        forall|s: &mut ProcessSupervisor, watch: &mut Monitor, r: Result<MonitorAction, Error>|
            #[trigger]
            call_ensures(
                ProcessSupervisor::monitor_process,
                (s, process_id, watch, event),
                r,
            ) ==> {
                &&& absent(s@, process_id@) ==> r is Err && names_unknown(r->Err_0, process_id@)
                    && final(s)@ == s@ && *final(watch) == *watch
                &&& stands_at(s@, process_id@, i) ==> {
                    let next = watch.next(s@.processes[i], event, s@.config);
                    &&& r is Ok && r->Ok_0 == next.action
                    &&& *final(watch) == next.monitor
                    &&& final(s)@ == put(s@, i, next.process)
                }
            },
        forall|s: &mut ProcessSupervisor, r: Result<(), Error>| #[trigger]
            call_ensures(ProcessSupervisor::finish_at, (s, process_id, done, now), r) ==> {
                &&& absent(s@, process_id@) ==> r is Err && names_unknown(r->Err_0, process_id@)
                    && final(s)@ == s@
                &&& stands_at(s@, process_id@, i) ==> r is Ok && final(s)@ == put(
                    s@,
                    i,
                    s@.processes[i].finished(done.forced, done.exit, now@),
                )
            },
{
    assert forall|s: &mut ProcessSupervisor, watch: &mut Monitor, r: Result<MonitorAction, Error>|
        #[trigger]
        call_ensures(ProcessSupervisor::monitor_process, (s, process_id, watch, event), r) implies (
    stands_at(s@, process_id@, i) ==> s@.known(process_id@) && s@.place(process_id@) == i) && (
    absent(s@, process_id@) ==> !s@.known(process_id@)) by {
        if stands_at(s@, process_id@, i) {
            lemma_found(s@, process_id@, i);
        }
        if absent(s@, process_id@) {
            lemma_absent(s@, process_id@);
        }
    }
    assert forall|s: &mut ProcessSupervisor, r: Result<(), Error>| #[trigger]
        call_ensures(ProcessSupervisor::finish_at, (s, process_id, done, now), r) implies (
    stands_at(s@, process_id@, i) ==> s@.known(process_id@) && s@.place(process_id@) == i) && (
    absent(s@, process_id@) ==> !s@.known(process_id@)) by {
        if stands_at(s@, process_id@, i) {
            lemma_found(s@, process_id@, i);
        }
        if absent(s@, process_id@) {
            lemma_absent(s@, process_id@);
        }
    }
}

/// A new supervisor has no processes, is not stopping, and has the settings that it was given,
/// each moved to the nearest within its bounds: room for a byte, a pause of a millisecond or
/// more, five seconds of grace at most.
pub proof fn law_new_supervisor(
    workspace: String,
    shell_path: Option<String>,
    command_prefix: Option<String>,
    config: ProcessSupervisorConfig,
    r: ProcessSupervisor,
)
    requires
        call_ensures(
            ProcessSupervisor::with_config,
            (workspace, shell_path, command_prefix, config),
            r,
        ),
    ensures
        r@.processes.len() == 0,
        !r@.stopping,
        r@.workspace == workspace@,
        r@.shell_path is Some <==> shell_path is Some,
        shell_path matches Some(path) ==> r@.shell_path == Some(path@),
        r@.command_prefix is Some <==> command_prefix is Some,
        command_prefix matches Some(prefix) ==> r@.command_prefix == Some(prefix@),
        r@.config.output_capacity == if config.output_capacity == 0 {
            1
        } else {
            config.output_capacity
        },
        r@.config.poll_interval.nanos == if config.poll_interval.nanos < 1_000_000 {
            1_000_000
        } else {
            config.poll_interval.nanos
        },
        r@.config.kill_grace.nanos == if config.kill_grace.nanos > 5_000_000_000 {
            5_000_000_000
        } else {
            config.kill_grace.nanos
        },
{
}

/// The default settings: a million bytes of each stream, a look every ten milliseconds, a
/// quarter of a second of grace.
pub proof fn law_default_supervisor(
    workspace: String,
    shell_path: Option<String>,
    command_prefix: Option<String>,
    r: ProcessSupervisor,
    directory: &str,
    config: ProcessSupervisorConfig,
)
    requires
        call_ensures(ProcessSupervisor::new, (workspace, shell_path, command_prefix), r),
        call_ensures(ProcessSupervisor::workspace, (&r,), directory),
        call_ensures(ProcessSupervisor::config, (&r,), config),
    ensures
        directory@ == workspace@,
        config == r@.config,
        r@.processes.len() == 0,
        !r@.stopping,
        r@.shell_path is Some <==> shell_path is Some,
        shell_path matches Some(path) ==> r@.shell_path == Some(path@),
        r@.command_prefix is Some <==> command_prefix is Some,
        command_prefix matches Some(prefix) ==> r@.command_prefix == Some(prefix@),
        r@.config.output_capacity == 1_000_000,
        r@.config.poll_interval.nanos == 10_000_000,
        r@.config.kill_grace.nanos == 250_000_000,
{
}

} // verus!
