//! The processes of a session and the operations on them.
//!
//! The supervisor decides; whoever drives it starts processes, signals process
//! groups, moves bytes and watches the clock, and reports what happened.

use crate::buffer::{BoundedBuffer, BufferModel};
use crate::clock::{self, Duration, Timestamp};
use crate::config::{ProcessSupervisorConfig, MAX_KILL_GRACE, MAX_WAIT_FOR_OUTPUT};
use crate::digest::{self, hex, new_uuid};
use crate::error::{Error, ErrorModel};
use crate::history::{self, Operation};
use crate::monitor::{self, Monitor, MonitorAction, MonitorEvent, PollOutcome};
use crate::process::{
    self, ExitReport, ManagedProcess, ProcessModel, ProcessSnapshot, ProcessStatus, PumpStep, ReadEvent,
    SnapshotModel,
};
use crate::text::{self, is_blank, str_eq, surround};
use vstd::prelude::*;
use vstd::string::*;

verus! {

/// The processes of a session.
#[derive(Debug)]
pub struct ProcessSupervisor {
    workspace: String,
    shell_path: Option<String>,
    command_prefix: Option<String>,
    config: ProcessSupervisorConfig,
    processes: Vec<ManagedProcess>,
    stopping: bool,
}

/// What a supervisor holds: its processes in the order in which they came.
#[verifier::ext_equal]
pub struct SupervisorModel {
    pub workspace: Seq<char>,
    pub shell_path: Option<Seq<char>>,
    pub command_prefix: Option<Seq<char>>,
    pub config: ProcessSupervisorConfig,
    pub processes: Seq<ProcessModel>,
    pub stopping: bool,
}

impl View for ProcessSupervisor {
    type V = SupervisorModel;

    closed spec fn view(&self) -> SupervisorModel {
        SupervisorModel {
            workspace: self.workspace@,
            shell_path: self.shell_path.deep_view(),
            command_prefix: self.command_prefix.deep_view(),
            config: self.config,
            processes: self.processes@.map_values(|p: ManagedProcess| p@),
            stopping: self.stopping,
        }
    }
}

/// Whether the process at `i` has the given id.
pub open spec fn is_at(processes: Seq<ProcessModel>, id: Seq<char>, i: int) -> bool {
    0 <= i < processes.len() && processes[i].id == id
}

/// The processes that have not ended.
pub open spec fn running(processes: Seq<ProcessModel>) -> Seq<ProcessModel> {
    processes.filter(|p: ProcessModel| p.status is Running)
}

/// The process ids of the processes that have not ended.
pub open spec fn running_pids(processes: Seq<ProcessModel>) -> Seq<u32> {
    running(processes).map_values(|p: ProcessModel| p.pid)
}

/// A process that was asked to stop if it has not ended.
pub open spec fn asked_to_stop(process: ProcessModel) -> ProcessModel {
    if process.status is Running {
        process.stopping()
    } else {
        process
    }
}

/// The refusal of an id that no process has.
pub open spec fn unknown_process(id: Seq<char>) -> ErrorModel {
    ErrorModel::Tool { tool: "get_output"@, message: "unknown process id `"@ + id + "`"@ }
}

/// A refusal of input for a process.
pub open spec fn stdin_error(before: Seq<char>, id: Seq<char>, behind: Seq<char>) -> ErrorModel {
    ErrorModel::Tool { tool: "write_to_process"@, message: before + id + behind }
}

impl SupervisorModel {
    /// Whether the settings are within their bounds, every process is in order and no
    /// two have the same id.
    pub open spec fn well_formed(self) -> bool {
        &&& self.config.well_formed()
        &&& forall|i: int|
            0 <= i < self.processes.len() ==> (#[trigger] self.processes[i]).well_formed()
        &&& forall|i: int, j: int|
            0 <= i < j < self.processes.len() ==> (#[trigger] self.processes[i]).id != (
            #[trigger] self.processes[j]).id
    }

    /// Whether a process has the given id.
    pub open spec fn known(self, id: Seq<char>) -> bool {
        exists|i: int| is_at(self.processes, id, i)
    }

    /// The place of the process with the given id.
    pub open spec fn place(self, id: Seq<char>) -> int {
        choose|i: int| is_at(self.processes, id, i)
    }

    /// The process with the given id.
    pub open spec fn process(self, id: Seq<char>) -> ProcessModel {
        self.processes[self.place(id)]
    }

    /// The supervisor with another process in the place of the one with an id.
    pub open spec fn with_process(self, id: Seq<char>, process: ProcessModel) -> SupervisorModel {
        SupervisorModel { processes: self.processes.update(self.place(id), process), ..self }
    }

    /// The supervisor with a new process, behind the others or in the place of one
    /// with the same id.
    pub open spec fn registered(self, process: ProcessModel) -> SupervisorModel {
        if self.known(process.id) {
            self.with_process(process.id, process)
        } else {
            SupervisorModel { processes: self.processes.push(process), ..self }
        }
    }

    /// The supervisor after the end of the session was announced.
    pub open spec fn cleaning(self) -> SupervisorModel {
        SupervisorModel {
            stopping: true,
            processes: self.processes.map_values(|p: ProcessModel| asked_to_stop(p)),
            ..self
        }
    }

    /// Why input for a process is refused, if it is: the process is unknown, has ended
    /// or takes no more input.
    pub open spec fn stdin_refusal(self, id: Seq<char>) -> Option<ErrorModel> {
        if !self.known(id) {
            Some(unknown_process(id))
        } else if !(self.process(id).status is Running) {
            Some(stdin_error("process `"@, id, "` is no longer running"@))
        } else if !self.process(id).stdin_open {
            Some(stdin_error("stdin for process `"@, id, "` is closed"@))
        } else {
            None
        }
    }
}

/// Of processes with different ids, only one has a given id.
pub proof fn lemma_place_unique(supervisor: SupervisorModel, id: Seq<char>, i: int)
    requires
        supervisor.well_formed(),
        is_at(supervisor.processes, id, i),
    ensures
        supervisor.known(id),
        supervisor.place(id) == i,
{
    let j = supervisor.place(id);
    assert(is_at(supervisor.processes, id, j));
    if i < j {
        assert(supervisor.processes[i].id != supervisor.processes[j].id);
    } else if j < i {
        assert(supervisor.processes[j].id != supervisor.processes[i].id);
    }
}

/// Replacing a process by one in order with the same id keeps the supervisor in order.
pub proof fn lemma_replace_keeps_well_formed(
    supervisor: SupervisorModel,
    id: Seq<char>,
    process: ProcessModel,
)
    requires
        supervisor.well_formed(),
        supervisor.known(id),
        process.well_formed(),
        process.id == id,
    ensures
        supervisor.with_process(id, process).well_formed(),
{
    let next = supervisor.with_process(id, process);
    let at = supervisor.place(id);
    assert(is_at(supervisor.processes, id, at));
    assert forall|i: int, j: int| 0 <= i < j < next.processes.len() implies (
    #[trigger] next.processes[i]).id != (#[trigger] next.processes[j]).id by {
        assert(supervisor.processes[i].id != supervisor.processes[j].id);
    }
}

/// A new process keeps the supervisor in order.
pub proof fn lemma_register_keeps_well_formed(supervisor: SupervisorModel, process: ProcessModel)
    requires
        supervisor.well_formed(),
        process.well_formed(),
    ensures
        supervisor.registered(process).well_formed(),
{
    if supervisor.known(process.id) {
        lemma_replace_keeps_well_formed(supervisor, process.id, process);
    } else {
        let next = supervisor.registered(process);
        assert forall|i: int, j: int| 0 <= i < j < next.processes.len() implies (
        #[trigger] next.processes[i]).id != (#[trigger] next.processes[j]).id by {
            assert(!is_at(supervisor.processes, process.id, i));
        }
    }
}

/// Announcing the end of the session keeps the supervisor in order.
pub proof fn lemma_cleaning_keeps_well_formed(supervisor: SupervisorModel)
    requires
        supervisor.well_formed(),
    ensures
        supervisor.cleaning().well_formed(),
{
    let next = supervisor.cleaning();
    assert forall|i: int| 0 <= i < next.processes.len() implies (
    #[trigger] next.processes[i]).well_formed() by {
        assert(supervisor.processes[i].well_formed());
    }
    assert forall|i: int, j: int| 0 <= i < j < next.processes.len() implies (
    #[trigger] next.processes[i]).id != (#[trigger] next.processes[j]).id by {
        assert(supervisor.processes[i].id != supervisor.processes[j].id);
    }
}

/// Which of the usual places hold a bash.
#[derive(Debug, Clone, Copy, PartialEq, Eq, Structural)]
pub struct BashFound {
    /// `/bin/bash`
    pub bin: bool,
    /// `/usr/bin/bash`
    pub usr_bin: bool,
    /// `/usr/local/bin/bash`
    pub usr_local_bin: bool,
}

/// The shell that runs commands: the configured one, the first bash that was found,
/// or `sh`.
pub open spec fn chosen_shell(configured: Option<Seq<char>>, found: BashFound) -> Seq<char> {
    match configured {
        Some(path) => path,
        None => if found.bin {
            "/bin/bash"@
        } else if found.usr_bin {
            "/usr/bin/bash"@
        } else if found.usr_local_bin {
            "/usr/local/bin/bash"@
        } else {
            "sh"@
        },
    }
}

/// The script that a shell gets: a trap that waits for background jobs and keeps the
/// exit code, then the configured prefix unless it is blank, then the command.
pub open spec fn script(prefix: Option<Seq<char>>, command: Seq<char>) -> Seq<char> {
    "trap 'code=$?; wait; exit $code' EXIT\n"@ + match prefix {
        Some(prefix) => if text::blank(prefix) {
            command
        } else {
            prefix + "\n"@ + command
        },
        None => command,
    }
}

/// How a process is to be started.
#[derive(Debug, PartialEq, Eq)]
pub struct SpawnPlan {
    pub shell: String,
    pub script: String,
    pub cwd: String,
    pub timeout: Option<Duration>,
}

/// What became of starting a process.
#[derive(Debug, PartialEq, Eq)]
pub enum SpawnReport {
    PrepareFailed(String),
    SpawnFailed(String),
    MissingStdin,
    MissingStdout,
    MissingStderr,
    SpillFailed(String),
    Started { pid: u32, process_id: String, spill_path: String },
}

/// The message of a start that failed.
pub open spec fn spawn_failure(report: SpawnReport) -> Option<Seq<char>> {
    match report {
        SpawnReport::PrepareFailed(error) => Some("failed to prepare shell: "@ + error@),
        SpawnReport::SpawnFailed(error) => Some("failed to spawn shell: "@ + error@),
        SpawnReport::MissingStdin => Some("missing child stdin"@),
        SpawnReport::MissingStdout => Some("missing child stdout"@),
        SpawnReport::MissingStderr => Some("missing child stderr"@),
        SpawnReport::SpillFailed(error) => Some("failed to create output spill: "@ + error@),
        SpawnReport::Started { .. } => None,
    }
}

/// A buffer that nothing has gone through.
pub open spec fn empty_buffer(capacity: nat) -> BufferModel {
    BufferModel { retained: seq![], capacity, total: 0, truncated: false }
}

/// A process that has just been started.
pub open spec fn started(
    plan: SpawnPlan,
    pid: u32,
    process_id: Seq<char>,
    spill_path: Seq<char>,
    now: Seq<char>,
    capacity: nat,
) -> ProcessModel {
    ProcessModel {
        id: process_id,
        command: plan.script@,
        cwd: plan.cwd@,
        started_at: now,
        pid,
        process_group_id: Some(pid),
        timeout: plan.timeout,
        spill_path,
        status: ProcessStatus::Running,
        exit_code: None,
        ended_at: None,
        stdin_open: true,
        stdout: empty_buffer(capacity),
        stderr: empty_buffer(capacity),
        redacted_error: None,
        stop_requested: false,
    }
}

/// The id of a process from the bytes of a UUID.
pub open spec fn process_id_text(uuid: Seq<u8>) -> Seq<char> {
    "proc_"@ + digest::hex_text(uuid)
}

/// The id of a process from the bytes of a UUID.
pub fn process_id_from(uuid: &[u8; 16]) -> (r: String)
    ensures
        r@ == process_id_text(uuid@),
{
    let mut r: String = "proc_".to_owned();
    let digits: String = hex(uuid.as_slice());
    r.append(digits.as_str());
    r
}

/// A new random process id.
pub fn new_process_id() -> (r: String)
    ensures
        exists|uuid: Seq<u8>|
            digest::random_uuid(uuid) && r@ == #[trigger] process_id_text(uuid),
{
    let uuid: [u8; 16] = new_uuid();
    process_id_from(&uuid)
}

/// The name of the file that the output of a process is spilled to.
pub fn spill_file_name(process_id: &str) -> (r: String)
    ensures
        r@ == "pi-"@ + process_id@ + ".log"@,
{
    surround("pi-", process_id, ".log")
}

/// What is to be done next about a process that is being killed.
#[derive(Debug, PartialEq, Eq)]
pub enum KillStep {
    /// The process has ended.
    Done(ProcessSnapshot),
    /// Terminate the process group, which then has this long to end.
    Terminate { pid: u32, allowed: Duration },
    /// Wait for this long at most, or until something changes.
    Wait(Duration),
    /// Kill the process group; that is all.
    ForceKill(u32),
}

/// How long a process that is being killed has to end.
pub open spec fn allowed_grace(config: ProcessSupervisorConfig, grace: Option<Duration>) -> nat {
    let wanted = match grace {
        Some(grace) => grace@,
        None => config.kill_grace@,
    };
    if wanted <= MAX_KILL_GRACE {
        wanted
    } else {
        MAX_KILL_GRACE as nat
    }
}

/// The processes to terminate at the end of a session, and how many processes there
/// were then.
#[derive(Debug, PartialEq, Eq)]
pub struct Cleanup {
    pub terminate: Vec<u32>,
    pub watched: usize,
}

/// What is to be done next at the end of a session.
#[derive(Debug, PartialEq, Eq)]
pub enum CleanupStep {
    /// Pause for this long, then ask again.
    Wait(Duration),
    /// Kill these process groups; that is all.
    Kill(Vec<u32>),
}

/// How far the output of a process was passed on by a wait for its end.
#[derive(Debug, Clone, Copy, PartialEq, Eq, Structural)]
pub struct TerminalWait {
    pub stdout_offset: u64,
    pub stderr_offset: u64,
}

/// What a look at a process that is waited for found: new output to pass on, and the
/// final snapshot if the process has ended.
#[derive(Debug, PartialEq, Eq)]
pub struct TerminalPoll {
    pub update: Option<ProcessSnapshot>,
    pub finished: Option<ProcessSnapshot>,
}

/// What a wait for the end of a process does after its caller was asked whether to go
/// on.
#[derive(Debug, Clone, Copy, PartialEq, Eq, Structural)]
pub enum TerminalStep {
    /// Pause for this long, then look again.
    Sleep(Duration),
    /// Terminate the process group, then take a last snapshot. The watch over the
    /// process kills the group if it outlasts its grace.
    Terminate(u32),
}

/// What happened in a wait for output.
#[derive(Debug, Clone, Copy, PartialEq, Eq, Structural)]
pub enum ChangeEvent {
    /// The wait begins.
    Started,
    /// The pause is over.
    Slept,
    /// The caller was asked whether to go on, this long after the wait began.
    Checked { cancelled: bool, elapsed: Duration },
}

/// What is to be done next in a wait for output.
#[derive(Debug, PartialEq, Eq)]
pub enum ChangeStep {
    /// The wait is over.
    Done(ProcessSnapshot),
    /// Ask whether to go on, and for the time.
    Check,
    /// Pause for this long.
    Sleep(Duration),
}

/// Whether a wait for output ends although nothing came.
pub open spec fn wait_over(wait: Duration, cancelled: bool, elapsed: Duration) -> bool {
    cancelled || elapsed@ >= wait@ || elapsed@ >= MAX_WAIT_FOR_OUTPUT
}

impl ProcessSupervisor {
    /// A supervisor without processes and with the default settings.
    #[must_use]
    pub fn new(
        workspace: String,
        shell_path: Option<String>,
        command_prefix: Option<String>,
    ) -> (r: Self)
        ensures
            r@.well_formed(),
            r@.workspace == workspace@,
            r@.shell_path == shell_path.deep_view(),
            r@.command_prefix == command_prefix.deep_view(),
            r@.config.output_capacity == 1_000_000,
            r@.config.poll_interval@ == 10_000_000,
            r@.config.kill_grace@ == 250_000_000,
            r@.processes.len() == 0,
            !r@.stopping,
    {
        ProcessSupervisor::with_config(
            workspace,
            shell_path,
            command_prefix,
            ProcessSupervisorConfig::default(),
        )
    }

    /// A supervisor without processes; settings beyond their bounds are moved to the
    /// nearest within.
    #[must_use]
    pub fn with_config(
        workspace: String,
        shell_path: Option<String>,
        command_prefix: Option<String>,
        config: ProcessSupervisorConfig,
    ) -> (r: Self)
        ensures
            r@ == (SupervisorModel {
                workspace: workspace@,
                shell_path: shell_path.deep_view(),
                command_prefix: command_prefix.deep_view(),
                config: config.clamped(),
                processes: seq![],
                stopping: false,
            }),
            r@.well_formed(),
    {
        let config: ProcessSupervisorConfig = config.clamp_to_bounds();
        let r: ProcessSupervisor = ProcessSupervisor {
            workspace,
            shell_path,
            command_prefix,
            config,
            processes: Vec::new(),
            stopping: false,
        };
        assert(r@.processes == Seq::<ProcessModel>::empty());
        r
    }

    /// The directory in which commands run unless another is named.
    #[must_use]
    pub fn workspace(&self) -> (r: &str)
        ensures
            r@ == self@.workspace,
    {
        self.workspace.as_str()
    }

    /// The settings.
    pub fn config(&self) -> (r: ProcessSupervisorConfig)
        ensures
            r == self@.config,
    {
        self.config
    }

    /// The place of the process with an id.
    fn process(&self, process_id: &str) -> (r: Result<usize, Error>)
        requires
            self@.well_formed(),
        ensures
            match r {
                Ok(i) => i < self.processes@.len() && self@.known(process_id@) && self@.place(
                    process_id@,
                ) == i && self.processes@[i as int]@ == self@.process(process_id@)
                    && self.processes@[i as int]@.id == process_id@
                    && self.processes@[i as int]@.well_formed(),
                Err(e) => !self@.known(process_id@) && e@ == unknown_process(process_id@),
            },
    {
        let mut i: usize = 0;
        while i < self.processes.len()
            invariant
                i <= self.processes@.len(),
                self@.well_formed(),
                forall|j: int| 0 <= j < i ==> !is_at(self@.processes, process_id@, j),
            decreases self.processes@.len() - i,
        {
            if str_eq(self.processes[i].id.as_str(), process_id) {
                proof {
                    assert(is_at(self@.processes, process_id@, i as int));
                    lemma_place_unique(self@, process_id@, i as int);
                    assert(self@.processes[i as int].well_formed());
                }
                return Ok(i);
            }
            i += 1;
        }
        Err(Error::tool("get_output", surround("unknown process id `", process_id, "`")))
    }

    /// The directory in which a command will run.
    pub fn spawn_directory(&self, cwd: Option<&str>) -> (r: String)
        ensures
            r@ == (match cwd {
                Some(cwd) => cwd@,
                None => self@.workspace,
            }),
    {
        match cwd {
            Some(cwd) => cwd.to_owned(),
            None => self.workspace.clone(),
        }
    }

    /// How a command is to be started, given whether the directory in which it will
    /// run exists and where a bash was found; or why it is not.
    pub fn plan_spawn(
        &self,
        command: &str,
        cwd: Option<&str>,
        timeout: Option<Duration>,
        directory_exists: bool,
        bash: BashFound,
    ) -> (r: Result<SpawnPlan, Error>)
        ensures
            ({
                let directory = match cwd {
                    Some(cwd) => cwd@,
                    None => self@.workspace,
                };
                match r {
                    Ok(plan) => {
                        &&& !self@.stopping && !text::blank(command@) && directory_exists
                        &&& plan.shell@ == chosen_shell(self@.shell_path, bash)
                        &&& plan.script@ == script(self@.command_prefix, command@)
                        &&& plan.cwd@ == directory
                        &&& plan.timeout == timeout
                    },
                    Err(e) => if self@.stopping {
                        e@ == (ErrorModel::Tool {
                            tool: "exec"@,
                            message: "process supervisor is stopping"@,
                        })
                    } else if text::blank(command@) {
                        e@ == ErrorModel::Validation("command must not be empty"@)
                    } else {
                        !directory_exists && e@ == (ErrorModel::Tool {
                            tool: "exec"@,
                            message: "working directory does not exist: "@ + directory,
                        })
                    },
                }
            }),
    {
        if self.stopping {
            return Err(Error::tool("exec", "process supervisor is stopping".to_owned()));
        }
        if is_blank(command) {
            return Err(Error::validation("command must not be empty".to_owned()));
        }
        let directory: String = self.spawn_directory(cwd);
        if !directory_exists {
            let mut message: String = "working directory does not exist: ".to_owned();
            message.append(directory.as_str());
            return Err(Error::tool("exec", message));
        }
        let shell: String = match &self.shell_path {
            Some(path) => path.clone(),
            None => if bash.bin {
                "/bin/bash".to_owned()
            } else if bash.usr_bin {
                "/usr/bin/bash".to_owned()
            } else if bash.usr_local_bin {
                "/usr/local/bin/bash".to_owned()
            } else {
                "sh".to_owned()
            },
        };
        let mut full: String = "trap 'code=$?; wait; exit $code' EXIT\n".to_owned();
        match &self.command_prefix {
            Some(prefix) => if is_blank(prefix.as_str()) {
                full.append(command);
            } else {
                let prefixed: String = surround(prefix.as_str(), "\n", command);
                full.append(prefixed.as_str());
            },
            None => {
                full.append(command);
            },
        }
        Ok(SpawnPlan { shell, script: full, cwd: directory, timeout })
    }

    /// Take in what became of starting a process, at the time `now`.
    pub fn spawn_at(&mut self, plan: SpawnPlan, report: SpawnReport, now: Timestamp) -> (r: Result<
        String,
        Error,
    >)
        requires
            old(self)@.well_formed(),
        ensures
            match r {
                Ok(id) => report matches SpawnReport::Started { pid, process_id, spill_path }
                    && id@ == process_id@ && final(self)@ == old(self)@.registered(
                    started(
                        plan,
                        pid,
                        process_id@,
                        spill_path@,
                        now@,
                        old(self)@.config.output_capacity as nat,
                    ),
                ),
                Err(e) => spawn_failure(report) is Some && final(self)@ == old(self)@ && e@ == (
                ErrorModel::Tool { tool: "exec"@, message: spawn_failure(report)->0 }),
            },
            final(self)@.well_formed(),
            !(report is Started && old(self)@.known(report->process_id@)) ==> history::one_step(
                old(self)@,
                final(self)@,
            ),
    {
        let message: String = match report {
            SpawnReport::Started { pid, process_id, spill_path } => {
                let id: String = process_id.clone();
                let fresh: ManagedProcess = ManagedProcess {
                    id: process_id,
                    command: plan.script,
                    cwd: plan.cwd,
                    started_at: now,
                    pid,
                    process_group_id: Some(pid),
                    timeout: plan.timeout,
                    spill_path,
                    status: ProcessStatus::Running,
                    exit_code: None,
                    ended_at: None,
                    stdin_open: true,
                    stdout: BoundedBuffer::new(self.config.output_capacity),
                    stderr: BoundedBuffer::new(self.config.output_capacity),
                    redacted_error: None,
                    stop_requested: false,
                };
                proof {
                    assert(fresh@ == started(
                        plan,
                        pid,
                        process_id@,
                        spill_path@,
                        now@,
                        self@.config.output_capacity as nat,
                    ));
                    lemma_register_keeps_well_formed(self@, fresh@);
                    if !self@.known(process_id@) {
                        history::lemma_one_step(Operation::Start(fresh@), self@);
                    }
                }
                let ghost next = self@.registered(fresh@);
                match self.process(id.as_str()) {
                    Ok(i) => {
                        self.processes.set(i, fresh);
                    },
                    Err(_) => {
                        self.processes.push(fresh);
                    },
                }
                assert(self@.processes == next.processes);
                return Ok(id);
            },
            SpawnReport::PrepareFailed(error) => surround("failed to prepare shell: ", error.as_str(), ""),
            SpawnReport::SpawnFailed(error) => surround("failed to spawn shell: ", error.as_str(), ""),
            SpawnReport::MissingStdin => "missing child stdin".to_owned(),
            SpawnReport::MissingStdout => "missing child stdout".to_owned(),
            SpawnReport::MissingStderr => "missing child stderr".to_owned(),
            SpawnReport::SpillFailed(error) => surround(
                "failed to create output spill: ",
                error.as_str(),
                "",
            ),
        };
        proof {
            reveal_strlit("");
            assert(message@ == spawn_failure(report)->0);
        }
        Err(Error::tool("exec", message))
    }

    /// Take in what became of starting a process; a process that was started becomes one
    /// of the session's and its id is returned.
    pub fn spawn(&mut self, plan: SpawnPlan, report: SpawnReport) -> (r: Result<String, Error>)
        requires
            old(self)@.well_formed(),
        ensures
            match r {
                Ok(id) => report matches SpawnReport::Started { pid, process_id, spill_path }
                    && id@ == process_id@ && exists|now: Seq<char>|
                    clock::utc_text(now) && final(self)@ == old(self)@.registered(
                        #[trigger] started(
                            plan,
                            pid,
                            process_id@,
                            spill_path@,
                            now,
                            old(self)@.config.output_capacity as nat,
                        ),
                    ),
                Err(e) => spawn_failure(report) is Some && final(self)@ == old(self)@ && e@ == (
                ErrorModel::Tool { tool: "exec"@, message: spawn_failure(report)->0 }),
            },
            final(self)@.well_formed(),
            !(report is Started && old(self)@.known(report->process_id@)) ==> history::one_step(
                old(self)@,
                final(self)@,
            ),
    {
        let now: Timestamp = Timestamp::now();
        self.spawn_at(plan, report, now)
    }

    /// What is known of a process, with its output from the given offsets on or all that
    /// is retained.
    pub fn snapshot(
        &self,
        process_id: &str,
        stdout_offset: Option<u64>,
        stderr_offset: Option<u64>,
    ) -> (r: Result<ProcessSnapshot, Error>)
        requires
            self@.well_formed(),
        ensures
            match r {
                Ok(snapshot) => self@.known(process_id@) && snapshot@ == self@.process(
                    process_id@,
                ).snapshot(stdout_offset, stderr_offset) && self@.process(process_id@).shows_text(
                    stdout_offset,
                    stderr_offset,
                    snapshot@,
                ),
                Err(e) => !self@.known(process_id@) && e@ == unknown_process(process_id@),
            },
    {
        let i: usize = match self.process(process_id) {
            Ok(i) => i,
            Err(e) => {
                return Err(e);
            },
        };
        Ok(self.processes[i].snapshot(stdout_offset, stderr_offset))
    }

    /// Whether a process takes input, or why it does not.
    pub fn stdin_ready(&self, process_id: &str) -> (r: Result<(), Error>)
        requires
            self@.well_formed(),
        ensures
            match r {
                Ok(_) => self@.stdin_refusal(process_id@) is None,
                Err(e) => self@.stdin_refusal(process_id@) == Some(e@),
            },
    {
        let i: usize = match self.process(process_id) {
            Ok(i) => i,
            Err(e) => {
                return Err(e);
            },
        };
        if self.processes[i].status.is_terminal() {
            return Err(
                Error::tool(
                    "write_to_process",
                    surround("process `", process_id, "` is no longer running"),
                ),
            );
        }
        if !self.processes[i].stdin_open {
            return Err(
                Error::tool(
                    "write_to_process",
                    surround("stdin for process `", process_id, "` is closed"),
                ),
            );
        }
        Ok(())
    }

    /// Take in what became of writing input to a process: input that could not be
    /// written is the last that the process takes, as is input that was to be the last.
    pub fn write_stdin(
        &mut self,
        process_id: &str,
        close_stdin: bool,
        outcome: Result<(), String>,
    ) -> (r: Result<(), Error>)
        requires
            old(self)@.well_formed(),
        ensures
            ({
                let id = process_id@;
                let before = old(self)@;
                let closed = before.with_process(id, before.process(id).without_stdin());
                match before.stdin_refusal(id) {
                    Some(refusal) => r matches Err(e) && e@ == refusal && final(self)@ == before,
                    None => match outcome {
                        Err(error) => r matches Err(e) && e@ == stdin_error(
                            "failed to write stdin for process `"@,
                            id,
                            "`: "@ + error@,
                        ) && final(self)@ == closed,
                        Ok(_) => r is Ok && final(self)@ == if close_stdin {
                            closed
                        } else {
                            before
                        },
                    },
                }
            }),
            final(self)@.well_formed(),
            history::one_step(old(self)@, final(self)@),
    {
        proof {
            history::lemma_one_step(Operation::CloseInput { id: process_id@ }, self@);
        }
        match self.stdin_ready(process_id) {
            Ok(_) => {},
            Err(e) => {
                return Err(e);
            },
        }
        let i: usize = match self.process(process_id) {
            Ok(i) => i,
            Err(e) => {
                return Err(e);
            },
        };
        match outcome {
            Err(error) => {
                self.close_input(process_id, i);
                let behind: String = surround("`: ", error.as_str(), "");
                proof {
                    reveal_strlit("");
                    assert(behind@ == "`: "@ + error@);
                }
                Err(
                    Error::tool(
                        "write_to_process",
                        surround(
                            "failed to write stdin for process `",
                            process_id,
                            behind.as_str(),
                        ),
                    ),
                )
            },
            Ok(_) => {
                if close_stdin {
                    self.close_input(process_id, i);
                }
                Ok(())
            },
        }
    }

    /// Close the input of the process at a place.
    fn close_input(&mut self, process_id: &str, i: usize)
        requires
            old(self)@.well_formed(),
            old(self)@.known(process_id@),
            old(self)@.place(process_id@) == i,
            i < old(self).processes@.len(),
        ensures
            final(self)@ == old(self)@.with_process(
                process_id@,
                old(self)@.process(process_id@).without_stdin(),
            ),
            final(self)@.well_formed(),
    {
        let ghost next = self@.with_process(
            process_id@,
            self@.process(process_id@).without_stdin(),
        );
        proof {
            assert(is_at(self@.processes, process_id@, i as int));
            lemma_replace_keeps_well_formed(
                self@,
                process_id@,
                self@.process(process_id@).without_stdin(),
            );
        }
        let process: &mut ManagedProcess = &mut self.processes[i];
        process.stdin_open = false;
        assert(self@.processes == next.processes);
    }

    /// Close the input of a process; input that is closed already is refused.
    pub fn close_stdin(&mut self, process_id: &str) -> (r: Result<(), Error>)
        requires
            old(self)@.well_formed(),
        ensures
            ({
                let id = process_id@;
                let before = old(self)@;
                match r {
                    Ok(_) => before.known(id) && before.process(id).stdin_open && final(self)@
                        == before.with_process(id, before.process(id).without_stdin()),
                    Err(e) => final(self)@ == before && if before.known(id) {
                        !before.process(id).stdin_open && e@ == stdin_error(
                            "stdin for process `"@,
                            id,
                            "` is already closed"@,
                        )
                    } else {
                        e@ == unknown_process(id)
                    },
                }
            }),
            final(self)@.well_formed(),
            history::one_step(old(self)@, final(self)@),
    {
        proof {
            history::lemma_one_step(Operation::CloseInput { id: process_id@ }, self@);
        }
        let i: usize = match self.process(process_id) {
            Ok(i) => i,
            Err(e) => {
                return Err(e);
            },
        };
        if !self.processes[i].stdin_open {
            return Err(
                Error::tool(
                    "write_to_process",
                    surround("stdin for process `", process_id, "` is already closed"),
                ),
            );
        }
        self.close_input(process_id, i);
        Ok(())
    }

    /// Ask for the process at a place to be stopped.
    fn stop_at(&mut self, process_id: &str, i: usize)
        requires
            old(self)@.well_formed(),
            old(self)@.known(process_id@),
            old(self)@.place(process_id@) == i,
            i < old(self).processes@.len(),
        ensures
            final(self)@ == old(self)@.with_process(
                process_id@,
                old(self)@.process(process_id@).stopping(),
            ),
            final(self)@.well_formed(),
    {
        let ghost next = self@.with_process(process_id@, self@.process(process_id@).stopping());
        proof {
            assert(is_at(self@.processes, process_id@, i as int));
            lemma_replace_keeps_well_formed(
                self@,
                process_id@,
                self@.process(process_id@).stopping(),
            );
        }
        let process: &mut ManagedProcess = &mut self.processes[i];
        process.request_stop();
        assert(self@.processes == next.processes);
    }

    /// Begin to kill a process: one that has ended is left alone, any other is asked to
    /// stop and its group is to be terminated.
    pub fn kill(&mut self, process_id: &str, grace: Option<Duration>) -> (r: Result<
        KillStep,
        Error,
    >)
        requires
            old(self)@.well_formed(),
        ensures
            ({
                let id = process_id@;
                let before = old(self)@;
                if !before.known(id) {
                    r matches Err(e) && e@ == unknown_process(id) && final(self)@ == before
                } else if !(before.process(id).status is Running) {
                    r matches Ok(KillStep::Done(snapshot)) && snapshot@ == before.process(
                        id,
                    ).snapshot(None, None) && before.process(id).shows_text(None, None, snapshot@)
                        && final(self)@ == before
                } else {
                    r matches Ok(KillStep::Terminate { pid, allowed }) && pid == before.process(
                        id,
                    ).pid && allowed@ == allowed_grace(before.config, grace) && final(self)@
                        == before.with_process(id, before.process(id).stopping())
                }
            }),
            final(self)@.well_formed(),
            history::one_step(old(self)@, final(self)@),
    {
        proof {
            history::lemma_one_step(Operation::Stop { id: process_id@ }, self@);
        }
        let i: usize = match self.process(process_id) {
            Ok(i) => i,
            Err(e) => {
                return Err(e);
            },
        };
        if self.processes[i].is_terminal() {
            return Ok(KillStep::Done(self.processes[i].snapshot(None, None)));
        }
        let pid: u32 = self.processes[i].pid;
        self.stop_at(process_id, i);
        let wanted: Duration = match grace {
            Some(grace) => grace,
            None => self.config.kill_grace,
        };
        Ok(KillStep::Terminate { pid, allowed: wanted.shorter(Duration { nanos: MAX_KILL_GRACE }) })
    }

    /// Go on to kill a process whose group was terminated this long ago.
    pub fn continue_kill(
        &self,
        process_id: &str,
        allowed: Duration,
        elapsed: Duration,
    ) -> (r: Result<KillStep, Error>)
        requires
            self@.well_formed(),
        ensures
            ({
                let id = process_id@;
                if !self@.known(id) {
                    r matches Err(e) && e@ == unknown_process(id)
                } else if !(self@.process(id).status is Running) {
                    r matches Ok(KillStep::Done(snapshot)) && snapshot@ == self@.process(
                        id,
                    ).snapshot(None, None) && self@.process(id).shows_text(None, None, snapshot@)
                } else if elapsed@ < allowed@ {
                    r matches Ok(KillStep::Wait(pause)) && pause == self@.config.poll_interval
                } else {
                    r matches Ok(KillStep::ForceKill(pid)) && pid == self@.process(id).pid
                }
            }),
    {
        let i: usize = match self.process(process_id) {
            Ok(i) => i,
            Err(e) => {
                return Err(e);
            },
        };
        if self.processes[i].is_terminal() {
            Ok(KillStep::Done(self.processes[i].snapshot(None, None)))
        } else if !elapsed.reaches(allowed) {
            Ok(KillStep::Wait(self.config.poll_interval))
        } else {
            Ok(KillStep::ForceKill(self.processes[i].pid))
        }
    }

    /// The process ids of the first processes that have not ended.
    fn running_among(&self, count: usize) -> (r: Vec<u32>)
        requires
            count <= self@.processes.len(),
        ensures
            r@ == running_pids(self@.processes.take(count as int)),
    {
        let mut r: Vec<u32> = Vec::new();
        let mut i: usize = 0;
        proof {
            reveal(Seq::filter);
            assert(running_pids(self@.processes.take(0)) == Seq::<u32>::empty());
        }
        while i < count
            invariant
                i <= count,
                count <= self@.processes.len(),
                r@ == running_pids(self@.processes.take(i as int)),
            decreases count - i,
        {
            let ghost before = self@.processes.take(i as int);
            let ghost p = self@.processes[i as int];
            if !self.processes[i].is_terminal() {
                r.push(self.processes[i].pid);
            }
            proof {
                lemma_running_push(before, p);
                assert(self@.processes.take(i + 1) == before.push(p));
            }
            i += 1;
        }
        r
    }

    /// Announce the end of the session: nothing more is started, and every process that
    /// has not ended is asked to stop and its group is to be terminated.
    pub fn cleanup_all(&mut self) -> (r: Cleanup)
        requires
            old(self)@.well_formed(),
        ensures
            final(self)@ == old(self)@.cleaning(),
            final(self)@.well_formed(),
            r.terminate@ == running_pids(old(self)@.processes),
            r.watched == old(self)@.processes.len(),
            history::one_step(old(self)@, final(self)@),
    {
        proof {
            history::lemma_one_step(Operation::EndSession, self@);
        }
        let count: usize = self.processes.len();
        let terminate: Vec<u32> = self.running_among(count);
        let ghost before = self@;
        proof {
            assert(before.processes.take(count as int) == before.processes);
            lemma_cleaning_keeps_well_formed(before);
        }
        self.stopping = true;
        let mut i: usize = 0;
        while i < self.processes.len()
            invariant
                i <= self.processes@.len(),
                before == old(self)@,
                self.processes@.len() == before.processes.len(),
                self@.workspace == before.workspace,
                self@.shell_path == before.shell_path,
                self@.command_prefix == before.command_prefix,
                self@.config == before.config,
                self@.stopping,
                forall|k: int|
                    0 <= k < i ==> (#[trigger] self.processes@[k])@ == asked_to_stop(
                        before.processes[k],
                    ),
                forall|k: int|
                    i <= k < self.processes@.len() ==> (#[trigger] self.processes@[k])@
                        == before.processes[k],
            decreases self.processes@.len() - i,
        {
            if !self.processes[i].is_terminal() {
                let process: &mut ManagedProcess = &mut self.processes[i];
                process.request_stop();
            }
            i += 1;
        }
        assert(self@.processes == before.cleaning().processes);
        Cleanup { terminate, watched: count }
    }

    /// Go on at the end of a session, this long after the first `watched` processes were
    /// asked to stop.
    pub fn continue_cleanup(&self, watched: usize, elapsed: Duration) -> (r: CleanupStep)
        requires
            self@.well_formed(),
            watched <= self@.processes.len(),
        ensures
            ({
                let left = running_pids(self@.processes.take(watched as int));
                match r {
                    CleanupStep::Wait(pause) => elapsed@ < self@.config.kill_grace@ && left.len() > 0
                        && pause == self@.config.poll_interval,
                    CleanupStep::Kill(pids) => (elapsed@ >= self@.config.kill_grace@ || left.len()
                        == 0) && pids@ == left,
                }
            }),
    {
        let left: Vec<u32> = self.running_among(watched);
        if !elapsed.reaches(self.config.kill_grace) && left.len() > 0 {
            CleanupStep::Wait(self.config.poll_interval)
        } else {
            CleanupStep::Kill(left)
        }
    }

    /// How many processes have not ended.
    #[must_use]
    pub fn active_process_count(&self) -> (r: usize)
        ensures
            r == running(self@.processes).len(),
    {
        let count: usize = self.processes.len();
        proof {
            assert(self@.processes.take(count as int) == self@.processes);
        }
        self.running_among(count).len()
    }

    /// Look at a process that is waited for: output that was not passed on yet is, and
    /// the last snapshot is given if the process has ended.
    pub fn wait_for_terminal(&self, process_id: &str, wait: &mut TerminalWait) -> (r: Result<
        TerminalPoll,
        Error,
    >)
        requires
            self@.well_formed(),
        ensures
            ({
                let id = process_id@;
                if !self@.known(id) {
                    r matches Err(e) && e@ == unknown_process(id) && *final(wait) == *old(wait)
                } else {
                    let seen = poll_snapshot(self@.process(id), *old(wait));
                    r matches Ok(poll) && *final(wait) == next_wait(self@.process(id), *old(wait))
                        && (poll.update is Some <==> has_news(self@.process(id), *old(wait)))
                        && (poll.update matches Some(update) ==> update@ == seen
                        && update@.has_output() && self@.process(id).shows_text(
                        Some(old(wait).stdout_offset),
                        Some(old(wait).stderr_offset),
                        update@,
                    )) && (poll.finished is Some <==> !(self@.process(id).status is Running)) && (
                    poll.finished matches Some(end) ==> end@ == self@.process(id).snapshot(
                        None,
                        None,
                    ) && self@.process(id).shows_text(None, None, end@))
                }
            }),
    {
        let i: usize = match self.process(process_id) {
            Ok(i) => i,
            Err(e) => {
                return Err(e);
            },
        };
        let snapshot: ProcessSnapshot = self.processes[i].snapshot(
            Some(wait.stdout_offset),
            Some(wait.stderr_offset),
        );
        let finished: Option<ProcessSnapshot> = if snapshot.status.is_terminal() {
            Some(self.processes[i].snapshot(None, None))
        } else {
            None
        };
        if snapshot.has_output() {
            wait.stdout_offset = snapshot.stdout_total_bytes;
            wait.stderr_offset = snapshot.stderr_total_bytes;
            Ok(TerminalPoll { update: Some(snapshot), finished })
        } else {
            Ok(TerminalPoll { update: None, finished })
        }
    }

    /// Go on with a wait for the end of a process after its caller was asked: a caller
    /// that gave up has the process asked to stop and its group terminated.
    pub fn after_checkpoint(&mut self, process_id: &str, cancelled: bool) -> (r: Result<
        TerminalStep,
        Error,
    >)
        requires
            old(self)@.well_formed(),
        ensures
            ({
                let id = process_id@;
                let before = old(self)@;
                if !before.known(id) {
                    r matches Err(e) && e@ == unknown_process(id) && final(self)@ == before
                } else if cancelled {
                    r == Ok::<TerminalStep, Error>(TerminalStep::Terminate(before.process(id).pid))
                        && final(self)@ == before.with_process(id, before.process(id).stopping())
                } else {
                    r == Ok::<TerminalStep, Error>(TerminalStep::Sleep(before.config.poll_interval))
                        && final(self)@ == before
                }
            }),
            final(self)@.well_formed(),
            history::one_step(old(self)@, final(self)@),
    {
        proof {
            history::lemma_one_step(Operation::Stop { id: process_id@ }, self@);
        }
        let i: usize = match self.process(process_id) {
            Ok(i) => i,
            Err(e) => {
                return Err(e);
            },
        };
        if cancelled {
            let pid: u32 = self.processes[i].pid;
            self.stop_at(process_id, i);
            Ok(TerminalStep::Terminate(pid))
        } else {
            Ok(TerminalStep::Sleep(self.config.poll_interval))
        }
    }

    /// One step of a wait for output from the given offsets on: it is over when there is
    /// output, the process has ended, the caller gave up or the time has passed.
    pub fn wait_for_change(
        &self,
        process_id: &str,
        stdout_offset: Option<u64>,
        stderr_offset: Option<u64>,
        wait: Duration,
        event: ChangeEvent,
    ) -> (r: Result<ChangeStep, Error>)
        requires
            self@.well_formed(),
        ensures
            ({
                let id = process_id@;
                let process = self@.process(id);
                if !self@.known(id) {
                    r matches Err(e) && e@ == unknown_process(id)
                } else {
                    let seen = process.snapshot(stdout_offset, stderr_offset);
                    match event {
                        ChangeEvent::Checked { cancelled, elapsed } => if wait_over(
                            wait,
                            cancelled,
                            elapsed,
                        ) {
                            r matches Ok(ChangeStep::Done(snapshot)) && snapshot@ == seen
                                && process.shows_text(stdout_offset, stderr_offset, snapshot@)
                        } else {
                            r matches Ok(ChangeStep::Sleep(pause)) && pause
                                == self@.config.poll_interval
                        },
                        _ => if ready(process, stdout_offset, stderr_offset) {
                            r matches Ok(ChangeStep::Done(snapshot)) && snapshot@ == seen
                                && snapshot@.ready() && process.shows_text(
                                stdout_offset,
                                stderr_offset,
                                snapshot@,
                            )
                        } else {
                            r matches Ok(ChangeStep::Check)
                        },
                    }
                }
            }),
    {
        let i: usize = match self.process(process_id) {
            Ok(i) => i,
            Err(e) => {
                return Err(e);
            },
        };
        match event {
            ChangeEvent::Checked { cancelled, elapsed } => {
                let limit: Duration = wait.shorter(Duration { nanos: MAX_WAIT_FOR_OUTPUT });
                if cancelled || elapsed.reaches(limit) {
                    Ok(ChangeStep::Done(self.processes[i].snapshot(stdout_offset, stderr_offset)))
                } else {
                    Ok(ChangeStep::Sleep(self.config.poll_interval))
                }
            },
            _ => {
                let snapshot: ProcessSnapshot = self.processes[i].snapshot(
                    stdout_offset,
                    stderr_offset,
                );
                if snapshot.ready() {
                    Ok(ChangeStep::Done(snapshot))
                } else {
                    Ok(ChangeStep::Check)
                }
            },
        }
    }

    /// Take in what the reader of an output pipe of a process found.
    pub fn pump_output(&mut self, process_id: &str, is_stderr: bool, event: ReadEvent) -> (r:
        Result<PumpStep, Error>)
        requires
            old(self)@.well_formed(),
        ensures
            ({
                let id = process_id@;
                let before = old(self)@;
                match r {
                    Ok(step) => before.known(id) && step == process::pump_step(event)
                        && final(self)@ == before.with_process(
                        id,
                        before.process(id).pumped(is_stderr, event),
                    ),
                    Err(e) => !before.known(id) && e@ == unknown_process(id) && final(self)@
                        == before,
                }
            }),
            final(self)@.well_formed(),
            history::one_step(old(self)@, final(self)@),
    {
        proof {
            history::lemma_one_step(Operation::Pump { id: process_id@, is_stderr, read: event }, self@);
        }
        let i: usize = match self.process(process_id) {
            Ok(i) => i,
            Err(e) => {
                return Err(e);
            },
        };
        let ghost pumped = self@.process(process_id@).pumped(is_stderr, event);
        let ghost next = self@.with_process(process_id@, pumped);
        let ghost before = self@;
        let process: &mut ManagedProcess = &mut self.processes[i];
        let step: PumpStep = process.pump_output(is_stderr, event);
        proof {
            lemma_replace_keeps_well_formed(before, process_id@, self.processes@[i as int]@);
            assert(self@.processes == next.processes);
        }
        Ok(step)
    }

    /// Take a step of the watch over a process.
    pub fn monitor_process(
        &mut self,
        process_id: &str,
        monitor: &mut Monitor,
        event: MonitorEvent,
    ) -> (r: Result<MonitorAction, Error>)
        requires
            old(self)@.well_formed(),
            old(monitor).well_formed(),
            old(monitor).expects(event),
            event.well_formed(),
        ensures
            ({
                let id = process_id@;
                let before = old(self)@;
                let next = old(monitor).next(before.process(id), event, before.config);
                match r {
                    Ok(action) => before.known(id) && action == next.action && *final(monitor)
                        == next.monitor && final(self)@ == before.with_process(id, next.process),
                    Err(e) => !before.known(id) && e@ == unknown_process(id) && *final(monitor)
                        == *old(monitor) && final(self)@ == before,
                }
            }),
            final(self)@.well_formed(),
            final(monitor).well_formed(),
            history::one_step(old(self)@, final(self)@),
    {
        proof {
            history::lemma_one_step(Operation::Watch { id: process_id@, monitor: *monitor, event }, self@);
        }
        let i: usize = match self.process(process_id) {
            Ok(i) => i,
            Err(e) => {
                return Err(e);
            },
        };
        let config: ProcessSupervisorConfig = self.config;
        let ghost before = self@;
        let ghost stepped = monitor.next(before.process(process_id@), event, config);
        let process: &mut ManagedProcess = &mut self.processes[i];
        let action: MonitorAction = monitor.step(process, event, &config);
        proof {
            lemma_replace_keeps_well_formed(before, process_id@, self.processes@[i as int]@);
            assert(self@.processes == before.with_process(process_id@, stepped.process).processes);
        }
        Ok(action)
    }

    /// Record the end of a process whose watch is done, at the time `now`.
    pub fn finish_at(&mut self, process_id: &str, monitor: &Monitor, now: Timestamp) -> (r: Result<
        (),
        Error,
    >)
        requires
            old(self)@.well_formed(),
            monitor.well_formed(),
            monitor.phase is Done,
            old(self)@.known(process_id@) ==> old(self)@.process(process_id@).status is Running,
        ensures
            ({
                let id = process_id@;
                let before = old(self)@;
                match r {
                    Ok(_) => before.known(id) && final(self)@ == before.with_process(
                        id,
                        before.process(id).finished(monitor.forced, monitor.exit, now@),
                    ),
                    Err(e) => !before.known(id) && e@ == unknown_process(id) && final(self)@
                        == before,
                }
            }),
            final(self)@.well_formed(),
            history::one_step(old(self)@, final(self)@),
    {
        proof {
            history::lemma_one_step(Operation::Finish { id: process_id@, monitor: *monitor, now: now@ }, self@);
        }
        let i: usize = match self.process(process_id) {
            Ok(i) => i,
            Err(e) => {
                return Err(e);
            },
        };
        let ghost before = self@;
        let ghost ended = before.process(process_id@).finished(monitor.forced, monitor.exit, now@);
        let process: &mut ManagedProcess = &mut self.processes[i];
        monitor.finish_at(process, now);
        proof {
            lemma_replace_keeps_well_formed(before, process_id@, self.processes@[i as int]@);
            assert(self@.processes == before.with_process(process_id@, ended).processes);
        }
        Ok(())
    }

    /// Record the end of a process whose watch is done.
    pub fn finish(&mut self, process_id: &str, monitor: &Monitor) -> (r: Result<(), Error>)
        requires
            old(self)@.well_formed(),
            monitor.well_formed(),
            monitor.phase is Done,
            old(self)@.known(process_id@) ==> old(self)@.process(process_id@).status is Running,
        ensures
            ({
                let id = process_id@;
                let before = old(self)@;
                match r {
                    Ok(_) => before.known(id) && exists|now: Seq<char>|
                        clock::utc_text(now) && final(self)@ == before.with_process(
                            id,
                            #[trigger] before.process(id).finished(
                                monitor.forced,
                                monitor.exit,
                                now,
                            ),
                        ),
                    Err(e) => !before.known(id) && e@ == unknown_process(id) && final(self)@
                        == before,
                }
            }),
            final(self)@.well_formed(),
            history::one_step(old(self)@, final(self)@),
    {
        let now: Timestamp = Timestamp::now();
        self.finish_at(process_id, monitor, now)
    }
}

/// What a wait for the end of a process sees of it.
pub open spec fn poll_snapshot(process: ProcessModel, wait: TerminalWait) -> SnapshotModel {
    process.snapshot(Some(wait.stdout_offset), Some(wait.stderr_offset))
}

/// Whether there is output from the given offsets on.
pub open spec fn output_from(
    process: ProcessModel,
    stdout_offset: Option<u64>,
    stderr_offset: Option<u64>,
) -> bool {
    process.stdout.window(stdout_offset).bytes.len() > 0 || process.stderr.window(
        stderr_offset,
    ).bytes.len() > 0
}

/// Whether a wait for output from the given offsets on is over at once.
pub open spec fn ready(
    process: ProcessModel,
    stdout_offset: Option<u64>,
    stderr_offset: Option<u64>,
) -> bool {
    !(process.status is Running) || output_from(process, stdout_offset, stderr_offset)
}

/// Whether there is output that was not passed on yet.
pub open spec fn has_news(process: ProcessModel, wait: TerminalWait) -> bool {
    output_from(process, Some(wait.stdout_offset), Some(wait.stderr_offset))
}

/// How far output has been passed on after a look.
pub open spec fn next_wait(process: ProcessModel, wait: TerminalWait) -> TerminalWait {
    if has_news(process, wait) {
        TerminalWait {
            stdout_offset: process.stdout.total as u64,
            stderr_offset: process.stderr.total as u64,
        }
    } else {
        wait
    }
}

/// The running processes of a longer sequence.
pub proof fn lemma_running_push(processes: Seq<ProcessModel>, process: ProcessModel)
    ensures
        running(processes.push(process)) == if process.status is Running {
            running(processes).push(process)
        } else {
            running(processes)
        },
        running_pids(processes.push(process)) == if process.status is Running {
            running_pids(processes).push(process.pid)
        } else {
            running_pids(processes)
        },
{
    reveal(Seq::filter);
    let all = processes.push(process);
    assert(all.drop_last() == processes);
    assert(all.last() == process);
    assert(running(all) == if process.status is Running {
        running(processes).push(process)
    } else {
        running(processes)
    });
    if process.status is Running {
        assert(running_pids(all) == running_pids(processes).push(process.pid));
    }
}

/// A process that was registered is found under its id, exactly as it was registered.
pub proof fn law_registered_process_is_found(supervisor: SupervisorModel, process: ProcessModel)
    requires
        supervisor.well_formed(),
        process.well_formed(),
    ensures
        supervisor.registered(process).known(process.id),
        supervisor.registered(process).process(process.id) == process,
{
    lemma_register_keeps_well_formed(supervisor, process);
    let next = supervisor.registered(process);
    let at = if supervisor.known(process.id) {
        supervisor.place(process.id)
    } else {
        supervisor.processes.len() as int
    };
    assert(supervisor.known(process.id) ==> is_at(supervisor.processes, process.id, at));
    assert(is_at(next.processes, process.id, at));
    lemma_place_unique(next, process.id, at);
}

/// An operation on one process leaves every other process as it is, and none vanishes.
pub proof fn law_operation_touches_one_process(
    supervisor: SupervisorModel,
    id: Seq<char>,
    process: ProcessModel,
    other: Seq<char>,
)
    requires
        supervisor.well_formed(),
        supervisor.known(id),
        process.well_formed(),
        process.id == id,
        supervisor.known(other),
    ensures
        ({
            let next = supervisor.with_process(id, process);
            &&& next.known(other)
            &&& next.process(other) == if other == id {
                process
            } else {
                supervisor.process(other)
            }
        }),
{
    lemma_replace_keeps_well_formed(supervisor, id, process);
    let next = supervisor.with_process(id, process);
    let at = supervisor.place(other);
    assert(is_at(supervisor.processes, id, supervisor.place(id)));
    assert(is_at(supervisor.processes, other, at));
    assert(is_at(next.processes, other, at));
    lemma_place_unique(next, other, at);
    if other != id {
        assert(supervisor.place(id) != at);
    }
}

/// A new process with a new id leaves every other process as it is.
pub proof fn law_new_process_touches_no_other(
    supervisor: SupervisorModel,
    process: ProcessModel,
    other: Seq<char>,
)
    requires
        supervisor.well_formed(),
        process.well_formed(),
        !supervisor.known(process.id),
        supervisor.known(other),
    ensures
        supervisor.registered(process).known(other),
        supervisor.registered(process).process(other) == supervisor.process(other),
{
    lemma_register_keeps_well_formed(supervisor, process);
    let next = supervisor.registered(process);
    let at = supervisor.place(other);
    assert(is_at(supervisor.processes, other, at));
    assert(is_at(next.processes, other, at));
    lemma_place_unique(next, other, at);
}

/// At the end of a session every process that has not ended is asked to stop, none
/// vanishes or changes otherwise, and as many are active as before.
pub proof fn law_cleanup_reaches_every_running_process(
    supervisor: SupervisorModel,
    id: Seq<char>,
)
    requires
        supervisor.well_formed(),
        supervisor.known(id),
    ensures
        ({
            let next = supervisor.cleaning();
            &&& next.stopping
            &&& next.known(id)
            &&& next.process(id) == asked_to_stop(supervisor.process(id))
            &&& supervisor.process(id).status is Running ==> next.process(id).stop_requested
            &&& supervisor.process(id).status is Running ==> running_pids(
                supervisor.processes,
            ).contains(supervisor.process(id).pid)
            &&& running(next.processes).len() == running(supervisor.processes).len()
        }),
{
    lemma_cleaning_keeps_well_formed(supervisor);
    let next = supervisor.cleaning();
    let at = supervisor.place(id);
    assert(is_at(supervisor.processes, id, at));
    assert(is_at(next.processes, id, at));
    lemma_place_unique(next, id, at);
    lemma_running_members(supervisor.processes, at);
    lemma_cleaning_keeps_count(supervisor.processes);
}

/// A process that has not ended is among the running ones.
proof fn lemma_running_members(processes: Seq<ProcessModel>, i: int)
    requires
        0 <= i < processes.len(),
    ensures
        processes[i].status is Running ==> running_pids(processes).contains(processes[i].pid),
    decreases processes.len(),
{
    let front = processes.drop_last();
    let last = processes.last();
    assert(front.push(last) == processes);
    lemma_running_push(front, last);
    if processes[i].status is Running {
        if i < front.len() {
            lemma_running_members(front, i);
            let k = choose|k: int|
                0 <= k < running_pids(front).len() && running_pids(front)[k] == processes[i].pid;
            assert(running_pids(processes)[k] == processes[i].pid);
        } else {
            let k = running_pids(front).len() as int;
            assert(running_pids(processes)[k] == processes[i].pid);
        }
    }
}

/// Asking processes to stop ends none.
proof fn lemma_cleaning_keeps_count(processes: Seq<ProcessModel>)
    ensures
        running(processes.map_values(|p: ProcessModel| asked_to_stop(p))).len() == running(
            processes,
        ).len(),
    decreases processes.len(),
{
    let asked = processes.map_values(|p: ProcessModel| asked_to_stop(p));
    if processes.len() > 0 {
        let front = processes.drop_last();
        let asked_front = front.map_values(|p: ProcessModel| asked_to_stop(p));
        lemma_cleaning_keeps_count(front);
        assert(front.push(processes.last()) == processes);
        assert(asked_front.push(asked_to_stop(processes.last())) == asked);
        lemma_running_push(front, processes.last());
        lemma_running_push(asked_front, asked_to_stop(processes.last()));
    } else {
        assert(asked == processes);
    }
}

/// A stop is carried out, whether a caller gave up waiting, a process was killed or the
/// session ended: the next look of the watch, unless it fails, settles that the process
/// ends as cancelled, or as timed out if its child still runs and has reached its time
/// limit too; only a child that has ended with success by then has succeeded. If the child
/// runs on, its process group is terminated.
pub proof fn law_stop_leads_to_termination(
    supervisor: SupervisorModel,
    id: Seq<char>,
    monitor: Monitor,
    outcome: PollOutcome,
    elapsed: Duration,
    exit: Option<ExitReport>,
    now: Seq<char>,
)
    requires
        supervisor.well_formed(),
        supervisor.known(id),
        supervisor.process(id).status is Running,
        monitor.well_formed(),
        monitor.phase is Polling,
        !(outcome is Failed),
    ensures
        ({
            let process = supervisor.process(id);
            let look = MonitorEvent::Polled { outcome, elapsed };
            let end = monitor::stopped_status(process, outcome, elapsed);
            let forced = if end is Succeeded {
                None
            } else {
                Some(end)
            };
            let stopped = supervisor.with_process(id, process.stopping());
            let cleaned = supervisor.cleaning();
            let after_stop = monitor.next(stopped.process(id), look, supervisor.config);
            let after_cleanup = monitor.next(cleaned.process(id), look, supervisor.config);
            &&& after_stop.monitor.forced == forced
            &&& after_cleanup.monitor.forced == forced
            &&& end is Succeeded ==> after_stop.monitor.exit == Some(outcome->Exited_0)
                && after_cleanup.monitor.exit == Some(outcome->Exited_0) && process.finished(
                None,
                Some(outcome->Exited_0),
                now,
            ).status == end
            &&& !(end is Succeeded) ==> process.finished(forced, exit, now).status == end
            &&& outcome is StillRunning ==> after_stop.action == MonitorAction::Terminate(
                process.pid,
            ) && after_cleanup.action == MonitorAction::Terminate(process.pid)
        }),
{
    let process = supervisor.process(id);
    assert(is_at(supervisor.processes, id, supervisor.place(id)));
    law_operation_touches_one_process(supervisor, id, process.stopping(), id);
    law_cleanup_reaches_every_running_process(supervisor, id);
}

/// Input that was closed stays refused: a running process whose input was closed
/// refuses input because it is closed, and refuses to have it closed again.
pub proof fn law_closed_stdin_is_refused(supervisor: SupervisorModel, id: Seq<char>)
    requires
        supervisor.well_formed(),
        supervisor.known(id),
        supervisor.process(id).status is Running,
    ensures
        ({
            let closed = supervisor.with_process(id, supervisor.process(id).without_stdin());
            &&& closed.known(id) && !closed.process(id).stdin_open
            &&& closed.stdin_refusal(id) == Some(
                stdin_error("stdin for process `"@, id, "` is closed"@),
            )
        }),
{
    let process = supervisor.process(id);
    assert(is_at(supervisor.processes, id, supervisor.place(id)));
    law_operation_touches_one_process(supervisor, id, process.without_stdin(), id);
}

/// A wait for the end of a process passes on all of its output: after a look, as much
/// of each stream has been passed on as there is, and what the look passed on of a
/// stream, unless some of it had left the window, is exactly what came since
/// the look before. Streams past the largest count are left out.
pub proof fn law_wait_passes_on_all_output(
    process: ProcessModel,
    wait: TerminalWait,
    stdout: Seq<u8>,
    stderr: Seq<u8>,
)
    requires
        process.well_formed(),
        process.stdout.carried(stdout),
        process.stderr.carried(stderr),
        wait.stdout_offset <= stdout.len() <= u64::MAX,
        wait.stderr_offset <= stderr.len() <= u64::MAX,
    ensures
        next_wait(process, wait).stdout_offset == stdout.len(),
        next_wait(process, wait).stderr_offset == stderr.len(),
        ({
            let out = process.stdout.window(Some(wait.stdout_offset));
            let err = process.stderr.window(Some(wait.stderr_offset));
            &&& !out.gap ==> out.bytes == stdout.skip(wait.stdout_offset as int)
            &&& !err.gap ==> err.bytes == stderr.skip(wait.stderr_offset as int)
            &&& has_news(process, wait) <==> wait.stdout_offset < stdout.len()
                || wait.stderr_offset < stderr.len()
        }),
{
    crate::buffer::law_read_gives_back_stream(process.stdout, stdout, Some(wait.stdout_offset));
    crate::buffer::law_read_gives_back_stream(process.stderr, stderr, Some(wait.stderr_offset));
    assert(process.stdout.capacity >= 1 && process.stderr.capacity >= 1);
}

/// Waiting is bounded: a process that is being killed has at most five seconds to end,
/// and a wait for output lasts at most thirty seconds, whatever was asked for.
pub proof fn law_waits_are_bounded(
    config: ProcessSupervisorConfig,
    grace: Option<Duration>,
    wait: Duration,
    cancelled: bool,
    elapsed: Duration,
)
    ensures
        allowed_grace(config, grace) <= 5_000_000_000,
        elapsed@ >= 30_000_000_000 ==> wait_over(wait, cancelled, elapsed),
{
}

} // verus!
