//! One managed process: its data, what is read from it and how it ends.

use crate::audit::AuditStatus;
use crate::buffer::{self, BoundedBuffer, BufferModel};
use crate::clock::{Duration, Timestamp};
use crate::text::surround;
use vstd::prelude::*;
use vstd::string::*;

verus! {

/// How far a process has come.
#[derive(Debug, Clone, Copy, PartialEq, Eq, Structural)]
pub enum ProcessStatus {
    Running,
    Succeeded,
    Failed,
    Cancelled,
    TimedOut,
}

/// The name of a status in records and tool results.
pub open spec fn status_text(status: ProcessStatus) -> Seq<char> {
    match status {
        ProcessStatus::Running => "running"@,
        ProcessStatus::Succeeded => "succeeded"@,
        ProcessStatus::Failed => "failed"@,
        ProcessStatus::Cancelled => "cancelled"@,
        ProcessStatus::TimedOut => "timed_out"@,
    }
}

/// The audit status of a call whose process has this status.
pub open spec fn audit_status_of(status: ProcessStatus) -> AuditStatus {
    match status {
        ProcessStatus::Running => AuditStatus::Succeeded,
        ProcessStatus::Succeeded => AuditStatus::Succeeded,
        ProcessStatus::Failed => AuditStatus::Failed,
        ProcessStatus::Cancelled => AuditStatus::Cancelled,
        ProcessStatus::TimedOut => AuditStatus::TimedOut,
    }
}

impl ProcessStatus {
    /// Whether the process has ended.
    pub fn is_terminal(self) -> (r: bool)
        ensures
            r == !(self is Running),
    {
        !matches!(self, ProcessStatus::Running)
    }

    /// The audit status of a call whose process has this status. A call that left
    /// its process running has succeeded.
    pub fn audit_status(self) -> (r: AuditStatus)
        ensures
            r == audit_status_of(self),
    {
        match self {
            ProcessStatus::Running | ProcessStatus::Succeeded => AuditStatus::Succeeded,
            ProcessStatus::Failed => AuditStatus::Failed,
            ProcessStatus::Cancelled => AuditStatus::Cancelled,
            ProcessStatus::TimedOut => AuditStatus::TimedOut,
        }
    }

    /// The name of the status in records and tool results.
    pub fn name(self) -> (r: &'static str)
        ensures
            r@ == status_text(self),
    {
        match self {
            ProcessStatus::Running => "running",
            ProcessStatus::Succeeded => "succeeded",
            ProcessStatus::Failed => "failed",
            ProcessStatus::Cancelled => "cancelled",
            ProcessStatus::TimedOut => "timed_out",
        }
    }
}

/// How a child ended, as the operating system reports it: whether it succeeded,
/// and the exit code or the signal that ended it.
#[derive(Debug, Clone, Copy, PartialEq, Eq, Structural)]
pub struct ExitReport {
    pub success: bool,
    pub code: Option<i32>,
    pub signal: Option<i32>,
}

impl ExitReport {
    /// Whether the signal number can be negated.
    pub open spec fn well_formed(self) -> bool {
        self.signal != Some(i32::MIN)
    }

    /// The exit code, the negated signal number, or minus one if neither is known.
    pub open spec fn code_or_signal(self) -> int {
        match (self.code, self.signal) {
            (Some(code), _) => code as int,
            (None, Some(signal)) => -signal,
            (None, None) => -1,
        }
    }
}

/// The exit code of a child, the negated signal number if a signal ended it, or
/// minus one if neither is known.
pub fn exit_status_code(status: ExitReport) -> (r: i32)
    requires
        status.well_formed(),
    ensures
        r == status.code_or_signal(),
{
    match status.code {
        Some(code) => code,
        None => match status.signal {
            Some(signal) => -signal,
            None => -1,
        },
    }
}

/// The status that a process ends with: the forced one, or what its exit says.
pub open spec fn resolved_status(
    forced: Option<ProcessStatus>,
    exit: Option<ExitReport>,
) -> ProcessStatus {
    match (forced, exit) {
        (Some(status), _) => status,
        (None, Some(report)) => if report.success {
            ProcessStatus::Succeeded
        } else {
            ProcessStatus::Failed
        },
        (None, None) => ProcessStatus::Failed,
    }
}

/// What is known of a process at one moment.
#[derive(Debug, Clone, PartialEq, Eq)]
pub struct ProcessSnapshot {
    pub process_id: String,
    pub command: String,
    pub cwd: String,
    pub started_at: Timestamp,
    pub ended_at: Option<Timestamp>,
    pub status: ProcessStatus,
    pub exit_code: Option<i32>,
    pub process_group_id: Option<u32>,
    pub stdout: String,
    pub stderr: String,
    pub stdout_offset: u64,
    pub stderr_offset: u64,
    pub stdout_total_bytes: u64,
    pub stderr_total_bytes: u64,
    pub stdout_truncated: bool,
    pub stderr_truncated: bool,
    pub stdin_open: bool,
    pub artifact_refs: Vec<String>,
    pub redacted_error: Option<String>,
}

/// What a snapshot says.
#[verifier::ext_equal]
pub struct SnapshotModel {
    pub process_id: Seq<char>,
    pub command: Seq<char>,
    pub cwd: Seq<char>,
    pub started_at: Seq<char>,
    pub ended_at: Option<Seq<char>>,
    pub status: ProcessStatus,
    pub exit_code: Option<i32>,
    pub process_group_id: Option<u32>,
    pub stdout: Seq<char>,
    pub stderr: Seq<char>,
    pub stdout_offset: nat,
    pub stderr_offset: nat,
    pub stdout_total_bytes: nat,
    pub stderr_total_bytes: nat,
    pub stdout_truncated: bool,
    pub stderr_truncated: bool,
    pub stdin_open: bool,
    pub artifact_refs: Seq<Seq<char>>,
    pub redacted_error: Option<Seq<char>>,
}

impl View for ProcessSnapshot {
    type V = SnapshotModel;

    open spec fn view(&self) -> SnapshotModel {
        SnapshotModel {
            process_id: self.process_id@,
            command: self.command@,
            cwd: self.cwd@,
            started_at: self.started_at@,
            ended_at: self.ended_at.deep_view(),
            status: self.status,
            exit_code: self.exit_code,
            process_group_id: self.process_group_id,
            stdout: self.stdout@,
            stderr: self.stderr@,
            stdout_offset: self.stdout_offset as nat,
            stderr_offset: self.stderr_offset as nat,
            stdout_total_bytes: self.stdout_total_bytes as nat,
            stderr_total_bytes: self.stderr_total_bytes as nat,
            stdout_truncated: self.stdout_truncated,
            stderr_truncated: self.stderr_truncated,
            stdin_open: self.stdin_open,
            artifact_refs: self.artifact_refs.deep_view(),
            redacted_error: self.redacted_error.deep_view(),
        }
    }
}

/// Both outputs in one text: standard output, then standard error behind a
/// heading; what is empty is left out.
pub open spec fn combined(stdout: Seq<char>, stderr: Seq<char>) -> Seq<char> {
    if stdout.len() > 0 && stderr.len() > 0 {
        stdout + "\n[stderr]\n"@ + stderr
    } else if stdout.len() > 0 {
        stdout
    } else if stderr.len() > 0 {
        "[stderr]\n"@ + stderr
    } else {
        seq![]
    }
}

impl SnapshotModel {
    /// Whether there is output or the process has ended.
    pub open spec fn ready(self) -> bool {
        !(self.status is Running) || self.has_output()
    }

    /// Whether there is output.
    pub open spec fn has_output(self) -> bool {
        self.stdout.len() > 0 || self.stderr.len() > 0
    }
}

impl ProcessSnapshot {
    /// Both outputs in one text.
    pub fn combined_output(&self) -> (r: String)
        ensures
            r@ == combined(self.stdout@, self.stderr@),
    {
        if !self.stdout.as_str().is_empty() {
            if !self.stderr.as_str().is_empty() {
                surround(self.stdout.as_str(), "\n[stderr]\n", self.stderr.as_str())
            } else {
                self.stdout.clone()
            }
        } else if !self.stderr.as_str().is_empty() {
            let mut r: String = "[stderr]\n".to_owned();
            r.append(self.stderr.as_str());
            r
        } else {
            let r: String = String::new();
            r
        }
    }

    /// Whether there is output.
    pub fn has_output(&self) -> (r: bool)
        ensures
            r == self@.has_output(),
    {
        !self.stdout.as_str().is_empty() || !self.stderr.as_str().is_empty()
    }

    /// Whether there is output or the process has ended.
    pub fn ready(&self) -> (r: bool)
        ensures
            r == self@.ready(),
    {
        self.status.is_terminal() || self.has_output()
    }
}

/// A process of the session with everything that is known of it.
#[derive(Debug)]
pub struct ManagedProcess {
    pub id: String,
    pub command: String,
    pub cwd: String,
    pub started_at: Timestamp,
    pub pid: u32,
    pub process_group_id: Option<u32>,
    pub timeout: Option<Duration>,
    pub spill_path: String,
    pub status: ProcessStatus,
    pub exit_code: Option<i32>,
    pub ended_at: Option<Timestamp>,
    pub stdin_open: bool,
    pub stdout: BoundedBuffer,
    pub stderr: BoundedBuffer,
    pub redacted_error: Option<String>,
    pub stop_requested: bool,
}

/// What is known of a process.
#[verifier::ext_equal]
pub struct ProcessModel {
    pub id: Seq<char>,
    pub command: Seq<char>,
    pub cwd: Seq<char>,
    pub started_at: Seq<char>,
    pub pid: u32,
    pub process_group_id: Option<u32>,
    pub timeout: Option<Duration>,
    pub spill_path: Seq<char>,
    pub status: ProcessStatus,
    pub exit_code: Option<i32>,
    pub ended_at: Option<Seq<char>>,
    pub stdin_open: bool,
    pub stdout: BufferModel,
    pub stderr: BufferModel,
    pub redacted_error: Option<Seq<char>>,
    pub stop_requested: bool,
}

impl View for ManagedProcess {
    type V = ProcessModel;

    open spec fn view(&self) -> ProcessModel {
        ProcessModel {
            id: self.id@,
            command: self.command@,
            cwd: self.cwd@,
            started_at: self.started_at@,
            pid: self.pid,
            process_group_id: self.process_group_id,
            timeout: self.timeout,
            spill_path: self.spill_path@,
            status: self.status,
            exit_code: self.exit_code,
            ended_at: self.ended_at.deep_view(),
            stdin_open: self.stdin_open,
            stdout: self.stdout@,
            stderr: self.stderr@,
            redacted_error: self.redacted_error.deep_view(),
            stop_requested: self.stop_requested,
        }
    }
}

/// What the reader of an output pipe found: bytes, none of them at the end of the
/// stream, or an error.
#[derive(Debug)]
pub enum ReadEvent {
    Read(Vec<u8>),
    Failed(String),
}

/// What the reader of an output pipe does next.
#[derive(Debug, Clone, Copy, PartialEq, Eq, Structural)]
pub enum PumpStep {
    Continue,
    Stop,
}

/// Whether the reader of an output pipe stops after an event.
pub open spec fn pump_step(event: ReadEvent) -> PumpStep {
    match event {
        ReadEvent::Read(bytes) => if bytes@.len() == 0 {
            PumpStep::Stop
        } else {
            PumpStep::Continue
        },
        ReadEvent::Failed(_) => PumpStep::Stop,
    }
}

/// The heading of a stretch of output in the spill file.
pub open spec fn spill_label(is_stderr: bool) -> Seq<char> {
    if is_stderr {
        "[stderr] "@
    } else {
        "[stdout] "@
    }
}

/// A stretch of output as it stands in the spill file: a heading, then the bytes.
pub fn spill_record(is_stderr: bool, bytes: &[u8]) -> (r: Vec<u8>)
    ensures
        r@ == vstd::utf8::encode_utf8(spill_label(is_stderr)) + bytes@,
{
    let label: &str = if is_stderr {
        "[stderr] "
    } else {
        "[stdout] "
    };
    let mut r: Vec<u8> = label.as_bytes_vec();
    let mut i: usize = 0;
    let ghost heading = r@;
    while i < bytes.len()
        invariant
            i <= bytes@.len(),
            r@ == heading + bytes@.take(i as int),
        decreases bytes@.len() - i,
    {
        r.push(bytes[i]);
        i += 1;
    }
    assert(bytes@.take(bytes@.len() as int) == bytes@);
    r
}

impl ProcessModel {
    /// Whether the buffers are well formed, a process that has ended has an end time
    /// and no open input, and one that has not ended has neither an end time nor an
    /// exit code.
    pub open spec fn well_formed(self) -> bool {
        &&& self.stdout.well_formed()
        &&& self.stderr.well_formed()
        &&& self.status is Running ==> self.ended_at is None && self.exit_code is None
        &&& !(self.status is Running) ==> self.ended_at is Some && !self.stdin_open
    }

    /// What a snapshot from the given offsets says.
    pub open spec fn snapshot(
        self,
        stdout_offset: Option<u64>,
        stderr_offset: Option<u64>,
    ) -> SnapshotModel {
        let out = self.stdout.window(stdout_offset);
        let err = self.stderr.window(stderr_offset);
        let out_truncated = self.stdout.truncated || out.gap;
        let err_truncated = self.stderr.truncated || err.gap;
        SnapshotModel {
            process_id: self.id,
            command: self.command,
            cwd: self.cwd,
            started_at: self.started_at,
            ended_at: self.ended_at,
            status: self.status,
            exit_code: self.exit_code,
            process_group_id: self.process_group_id,
            stdout: buffer::utf8_lossy(out.bytes),
            stderr: buffer::utf8_lossy(err.bytes),
            stdout_offset: out.offset,
            stderr_offset: err.offset,
            stdout_total_bytes: self.stdout.total,
            stderr_total_bytes: self.stderr.total,
            stdout_truncated: out_truncated,
            stderr_truncated: err_truncated,
            stdin_open: self.stdin_open,
            artifact_refs: if out_truncated || err_truncated {
                seq!["file://"@ + self.spill_path]
            } else {
                seq![]
            },
            redacted_error: self.redacted_error,
        }
    }

    /// Whether a snapshot shows output that is valid UTF-8 as the text that it encodes, and
    /// other output as some text: it shows none only of a stream without any.
    pub open spec fn shows_text(
        self,
        stdout_offset: Option<u64>,
        stderr_offset: Option<u64>,
        snapshot: SnapshotModel,
    ) -> bool {
        let out = self.stdout.window(stdout_offset).bytes;
        let err = self.stderr.window(stderr_offset).bytes;
        &&& vstd::utf8::valid_utf8(out) ==> snapshot.stdout == vstd::utf8::decode_utf8(out)
        &&& vstd::utf8::valid_utf8(err) ==> snapshot.stderr == vstd::utf8::decode_utf8(err)
        &&& (snapshot.stdout.len() == 0) == (out.len() == 0)
        &&& (snapshot.stderr.len() == 0) == (err.len() == 0)
    }

    /// The process after a stop was requested.
    pub open spec fn stopping(self) -> ProcessModel {
        ProcessModel { stop_requested: true, ..self }
    }

    /// The process without input.
    pub open spec fn without_stdin(self) -> ProcessModel {
        ProcessModel { stdin_open: false, ..self }
    }

    /// The process with an error text.
    pub open spec fn with_error(self, error: Seq<char>) -> ProcessModel {
        ProcessModel { redacted_error: Some(error), ..self }
    }

    /// The process after output came.
    pub open spec fn with_output(self, is_stderr: bool, bytes: Seq<u8>) -> ProcessModel {
        if is_stderr {
            ProcessModel { stderr: self.stderr.appended(bytes), ..self }
        } else {
            ProcessModel { stdout: self.stdout.appended(bytes), ..self }
        }
    }

    /// The process after the reader of an output pipe reported an event.
    pub open spec fn pumped(self, is_stderr: bool, event: ReadEvent) -> ProcessModel {
        match event {
            ReadEvent::Read(bytes) => if bytes@.len() == 0 {
                self
            } else {
                self.with_output(is_stderr, bytes@)
            },
            ReadEvent::Failed(error) => self.with_error("output reader failed: "@ + error@),
        }
    }

    /// The process after it ended at the time `now`.
    pub open spec fn finished(
        self,
        forced: Option<ProcessStatus>,
        exit: Option<ExitReport>,
        now: Seq<char>,
    ) -> ProcessModel {
        ProcessModel {
            stdin_open: false,
            exit_code: match exit {
                Some(report) => Some(report.code_or_signal() as i32),
                None => None,
            },
            status: resolved_status(forced, exit),
            ended_at: Some(now),
            ..self
        }
    }
}

impl ManagedProcess {
    /// What is known of the process, with its output from the given offsets on or
    /// all that is retained.
    pub fn snapshot(&self, stdout_offset: Option<u64>, stderr_offset: Option<u64>) -> (r:
        ProcessSnapshot)
        requires
            self@.well_formed(),
        ensures
            r@ == self@.snapshot(stdout_offset, stderr_offset),
            r@.has_output() == (self@.stdout.window(stdout_offset).bytes.len() > 0
                || self@.stderr.window(stderr_offset).bytes.len() > 0),
            self@.shows_text(stdout_offset, stderr_offset, r@),
    {
        let (stdout, stdout_from, stdout_gap) = self.stdout.snapshot(stdout_offset);
        let (stderr, stderr_from, stderr_gap) = self.stderr.snapshot(stderr_offset);
        let stdout_truncated: bool = self.stdout.truncated() || stdout_gap;
        let stderr_truncated: bool = self.stderr.truncated() || stderr_gap;
        let mut artifact_refs: Vec<String> = Vec::new();
        assert(artifact_refs.deep_view() == Seq::<Seq<char>>::empty());
        if stdout_truncated || stderr_truncated {
            let mut reference: String = "file://".to_owned();
            reference.append(self.spill_path.as_str());
            artifact_refs.push(reference);
            assert(artifact_refs.deep_view() == seq!["file://"@ + self.spill_path@]);
        }
        ProcessSnapshot {
            process_id: self.id.clone(),
            command: self.command.clone(),
            cwd: self.cwd.clone(),
            started_at: self.started_at.clone(),
            ended_at: self.ended_at.clone(),
            status: self.status,
            exit_code: self.exit_code,
            process_group_id: self.process_group_id,
            stdout,
            stderr,
            stdout_offset: stdout_from,
            stderr_offset: stderr_from,
            stdout_total_bytes: self.stdout.total_bytes(),
            stderr_total_bytes: self.stderr.total_bytes(),
            stdout_truncated,
            stderr_truncated,
            stdin_open: self.stdin_open,
            artifact_refs,
            redacted_error: self.redacted_error.clone(),
        }
    }

    /// Ask for the process to be stopped.
    pub fn request_stop(&mut self)
        ensures
            final(self)@ == old(self)@.stopping(),
    {
        self.stop_requested = true;
    }

    /// Whether the process has ended.
    pub fn is_terminal(&self) -> (r: bool)
        ensures
            r == !(self@.status is Running),
    {
        self.status.is_terminal()
    }

    /// Take in what the reader of an output pipe found, and say whether it goes on.
    pub fn pump_output(&mut self, is_stderr: bool, event: ReadEvent) -> (r: PumpStep)
        requires
            old(self)@.well_formed(),
        ensures
            r == pump_step(event),
            final(self)@ == old(self)@.pumped(is_stderr, event),
            final(self)@.well_formed(),
    {
        match event {
            ReadEvent::Read(bytes) => {
                if bytes.len() == 0 {
                    return PumpStep::Stop;
                }
                if is_stderr {
                    self.stderr.append(bytes.as_slice());
                } else {
                    self.stdout.append(bytes.as_slice());
                }
                PumpStep::Continue
            },
            ReadEvent::Failed(error) => {
                let mut message: String = "output reader failed: ".to_owned();
                message.append(error.as_str());
                self.redacted_error = Some(message);
                PumpStep::Stop
            },
        }
    }

    /// Record that the process ended at the time `now`.
    pub fn finish_at(
        &mut self,
        forced: Option<ProcessStatus>,
        exit: Option<ExitReport>,
        now: Timestamp,
    )
        requires
            old(self)@.well_formed(),
            old(self)@.status is Running,
            exit matches Some(report) ==> report.well_formed(),
            forced != Some(ProcessStatus::Running),
        ensures
            final(self)@ == old(self)@.finished(forced, exit, now@),
            final(self)@.well_formed(),
            !(final(self)@.status is Running),
    {
        self.stdin_open = false;
        self.exit_code = match exit {
            Some(report) => Some(exit_status_code(report)),
            None => None,
        };
        self.status = match forced {
            Some(status) => status,
            None => match exit {
                Some(report) => if report.success {
                    ProcessStatus::Succeeded
                } else {
                    ProcessStatus::Failed
                },
                None => ProcessStatus::Failed,
            },
        };
        self.ended_at = Some(now);
    }
}

/// A process that has ended keeps its status, exit code and end time, and its input
/// stays closed, whatever its pipes still report and however often it is asked to
/// stop.
pub proof fn law_ended_process_stays_ended(
    process: ProcessModel,
    is_stderr: bool,
    event: ReadEvent,
)
    requires
        process.well_formed(),
        !(process.status is Running),
    ensures
        ({
            let next = process.pumped(is_stderr, event);
            &&& next.status == process.status && next.exit_code == process.exit_code
                && next.ended_at == process.ended_at && !next.stdin_open
        }),
        ({
            let next = process.stopping();
            &&& next.status == process.status && next.exit_code == process.exit_code
                && next.ended_at == process.ended_at && !next.stdin_open
        }),
        process.without_stdin() == process,
{
}

/// A snapshot refers to the spill file exactly if it says that output is
/// incomplete.
pub proof fn law_truncation_is_referenced(
    process: ProcessModel,
    stdout_offset: Option<u64>,
    stderr_offset: Option<u64>,
)
    ensures
        ({
            let snapshot = process.snapshot(stdout_offset, stderr_offset);
            &&& (snapshot.stdout_truncated || snapshot.stderr_truncated) <==> snapshot.artifact_refs
                == seq!["file://"@ + process.spill_path]
            &&& !(snapshot.stdout_truncated || snapshot.stderr_truncated) <==> snapshot.artifact_refs
                == Seq::<Seq<char>>::empty()
        }),
{
    assert(seq!["file://"@ + process.spill_path].len() == 1);
}

} // verus!
