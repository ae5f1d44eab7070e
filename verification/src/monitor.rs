//! The watch over a running child: when it is terminated, when it is killed, and
//! which status it ends with.

use crate::clock::{Duration, Timestamp};
use crate::config::ProcessSupervisorConfig;
use crate::process::{ExitReport, ManagedProcess, ProcessModel, ProcessStatus, ReadEvent};
use vstd::prelude::*;
use vstd::string::*;

verus! {

/// What a look at the child found.
#[derive(Debug)]
pub enum PollOutcome {
    Exited(ExitReport),
    StillRunning,
    Failed(String),
}

/// What happened since the last action.
#[derive(Debug)]
pub enum MonitorEvent {
    /// The child was looked at, this long after the watch began.
    Polled { outcome: PollOutcome, elapsed: Duration },
    /// This much time has passed since the process group was terminated.
    GraceElapsed(Duration),
    /// The child was waited for, with its exit if the wait succeeded.
    Reaped(Option<ExitReport>),
    /// Both readers of the output pipes have ended.
    PumpsJoined,
}

/// What is to be done next, and which event answers it.
#[derive(Debug, Clone, Copy, PartialEq, Eq, Structural)]
pub enum MonitorAction {
    /// Look at the child: answered by `Polled`.
    Poll,
    /// Pause, then go on as before the last look.
    Sleep(Duration),
    /// Terminate the process group of this child: answered by `GraceElapsed`.
    Terminate(u32),
    /// Kill the process group and the child and wait for it: answered by `Reaped`.
    ForceKill(u32),
    /// Wait for both readers of the output pipes: answered by `PumpsJoined`.
    JoinPumps,
    /// Wait for the child: answered by `Reaped`.
    Reap,
    /// Record the end of the process.
    Finish,
}

/// Where the watch stands.
#[derive(Debug, Clone, Copy, PartialEq, Eq, Structural)]
pub enum MonitorPhase {
    /// The child runs.
    Polling,
    /// The process group was terminated; the time that it has left is looked at.
    Grace,
    /// The process group was terminated; the child is looked at.
    GracePoll,
    /// The process group was killed.
    Killing,
    /// The child has ended or is lost; the pipes are read to their ends.
    Draining,
    /// The pipes are at their ends; the child is still to be waited for.
    Reaping,
    /// The end can be recorded.
    Done,
}

/// The watch over one child.
#[derive(Debug, Clone, Copy, PartialEq, Eq, Structural)]
pub struct Monitor {
    pub phase: MonitorPhase,
    pub forced: Option<ProcessStatus>,
    pub exit: Option<ExitReport>,
}

impl PollOutcome {
    pub open spec fn well_formed(self) -> bool {
        self matches PollOutcome::Exited(report) ==> report.well_formed()
    }
}

impl MonitorEvent {
    /// Whether the exit reports in the event are well formed.
    pub open spec fn well_formed(self) -> bool {
        match self {
            MonitorEvent::Polled { outcome, elapsed: _ } => outcome.well_formed(),
            MonitorEvent::Reaped(Some(report)) => report.well_formed(),
            _ => true,
        }
    }
}

/// Whether a time limit is reached.
pub open spec fn timed_out(timeout: Option<Duration>, elapsed: Duration) -> bool {
    timeout matches Some(limit) && elapsed@ >= limit@
}

/// The outcome of one step of the watch.
pub struct StepModel {
    pub monitor: Monitor,
    pub process: ProcessModel,
    pub action: MonitorAction,
}

impl Monitor {
    /// Whether the watch is in order: a child that ran when it was last looked at has
    /// no exit yet, termination goes with the status that it was for, and no status is
    /// forced to be running.
    pub open spec fn well_formed(self) -> bool {
        &&& self.forced != Some(ProcessStatus::Running)
        &&& self.forced != Some(ProcessStatus::Succeeded)
        &&& self.exit matches Some(report) ==> report.well_formed()
        &&& match self.phase {
            MonitorPhase::Polling => self.forced is None && self.exit is None,
            MonitorPhase::Grace | MonitorPhase::GracePoll | MonitorPhase::Killing => {
                &&& self.exit is None
                &&& (self.forced == Some(ProcessStatus::Cancelled) || self.forced == Some(
                    ProcessStatus::TimedOut,
                ))
            },
            MonitorPhase::Draining => self.exit is None ==> self.forced is Some,
            MonitorPhase::Reaping => self.exit is None && self.forced is Some,
            MonitorPhase::Done => self.exit is None ==> self.forced is Some,
        }
    }

    /// Whether an event answers the last action.
    pub open spec fn expects(self, event: MonitorEvent) -> bool {
        match self.phase {
            MonitorPhase::Polling | MonitorPhase::GracePoll => event is Polled,
            MonitorPhase::Grace => event is GraceElapsed,
            MonitorPhase::Killing | MonitorPhase::Reaping => event is Reaped,
            MonitorPhase::Draining => event is PumpsJoined,
            MonitorPhase::Done => false,
        }
    }

    /// What an event leads to.
    pub open spec fn next(
        self,
        process: ProcessModel,
        event: MonitorEvent,
        config: ProcessSupervisorConfig,
    ) -> StepModel {
        match (self.phase, event) {
            (
                MonitorPhase::Polling,
                MonitorEvent::Polled { outcome: PollOutcome::Exited(report), elapsed: _ },
            ) => StepModel {
                monitor: Monitor {
                    phase: MonitorPhase::Draining,
                    forced: if process.stop_requested && !report.success {
                        Some(ProcessStatus::Cancelled)
                    } else {
                        None
                    },
                    exit: Some(report),
                },
                process,
                action: MonitorAction::JoinPumps,
            },
            (
                MonitorPhase::Polling,
                MonitorEvent::Polled { outcome: PollOutcome::Failed(error), elapsed: _ },
            ) => StepModel {
                monitor: Monitor {
                    phase: MonitorPhase::Draining,
                    forced: Some(ProcessStatus::Failed),
                    ..self
                },
                process: process.with_error("failed to poll child: "@ + error@),
                action: MonitorAction::JoinPumps,
            },
            (
                MonitorPhase::Polling,
                MonitorEvent::Polled { outcome: PollOutcome::StillRunning, elapsed },
            ) => if timed_out(process.timeout, elapsed) || process.stop_requested {
                StepModel {
                    monitor: Monitor {
                        phase: MonitorPhase::Grace,
                        forced: Some(
                            if timed_out(process.timeout, elapsed) {
                                ProcessStatus::TimedOut
                            } else {
                                ProcessStatus::Cancelled
                            },
                        ),
                        ..self
                    },
                    process,
                    action: MonitorAction::Terminate(process.pid),
                }
            } else {
                StepModel {
                    monitor: self,
                    process,
                    action: MonitorAction::Sleep(config.poll_interval),
                }
            },
            (MonitorPhase::Grace, MonitorEvent::GraceElapsed(elapsed)) => if elapsed@
                < config.kill_grace@ {
                StepModel {
                    monitor: Monitor { phase: MonitorPhase::GracePoll, ..self },
                    process,
                    action: MonitorAction::Poll,
                }
            } else {
                StepModel {
                    monitor: Monitor { phase: MonitorPhase::Killing, ..self },
                    process,
                    action: MonitorAction::ForceKill(process.pid),
                }
            },
            (
                MonitorPhase::GracePoll,
                MonitorEvent::Polled { outcome: PollOutcome::Exited(report), elapsed: _ },
            ) => StepModel {
                monitor: Monitor {
                    phase: MonitorPhase::Draining,
                    exit: Some(report),
                    ..self
                },
                process,
                action: MonitorAction::JoinPumps,
            },
            (
                MonitorPhase::GracePoll,
                MonitorEvent::Polled { outcome: PollOutcome::StillRunning, elapsed: _ },
            ) => StepModel {
                monitor: Monitor { phase: MonitorPhase::Grace, ..self },
                process,
                action: MonitorAction::Sleep(config.poll_interval),
            },
            (
                MonitorPhase::GracePoll,
                MonitorEvent::Polled { outcome: PollOutcome::Failed(_), elapsed: _ },
            ) => StepModel {
                monitor: Monitor { phase: MonitorPhase::Killing, ..self },
                process,
                action: MonitorAction::ForceKill(process.pid),
            },
            (MonitorPhase::Killing, MonitorEvent::Reaped(exit)) => StepModel {
                monitor: Monitor { phase: MonitorPhase::Draining, exit, ..self },
                process,
                action: MonitorAction::JoinPumps,
            },
            (MonitorPhase::Draining, MonitorEvent::PumpsJoined) => if self.exit is None {
                StepModel {
                    monitor: Monitor { phase: MonitorPhase::Reaping, ..self },
                    process,
                    action: MonitorAction::Reap,
                }
            } else {
                StepModel {
                    monitor: Monitor { phase: MonitorPhase::Done, ..self },
                    process,
                    action: MonitorAction::Finish,
                }
            },
            (MonitorPhase::Reaping, MonitorEvent::Reaped(exit)) => StepModel {
                monitor: Monitor { phase: MonitorPhase::Done, exit, ..self },
                process,
                action: MonitorAction::Finish,
            },
            _ => arbitrary(),
        }
    }

    /// A watch over a child that has just been started; the first action is a look.
    pub fn new() -> (r: Self)
        ensures
            r == (Monitor { phase: MonitorPhase::Polling, forced: None, exit: None }),
            r.well_formed(),
    {
        Monitor { phase: MonitorPhase::Polling, forced: None, exit: None }
    }

    /// Take in the answer to the last action and give the next one.
    pub fn step(
        &mut self,
        process: &mut ManagedProcess,
        event: MonitorEvent,
        config: &ProcessSupervisorConfig,
    ) -> (action: MonitorAction)
        requires
            old(self).well_formed(),
            old(self).expects(event),
            event.well_formed(),
            old(process)@.well_formed(),
        ensures
            ({
                let next = old(self).next(old(process)@, event, *config);
                &&& *final(self) == next.monitor
                &&& final(process)@ == next.process
                &&& action == next.action
            }),
            final(self).well_formed(),
            final(process)@.well_formed(),
    {
        match self.phase {
            MonitorPhase::Polling => self.step_polling(process, event, config),
            MonitorPhase::Grace => match event {
                MonitorEvent::GraceElapsed(elapsed) => if !elapsed.reaches(config.kill_grace) {
                    self.phase = MonitorPhase::GracePoll;
                    MonitorAction::Poll
                } else {
                    self.phase = MonitorPhase::Killing;
                    MonitorAction::ForceKill(process.pid)
                },
                _ => MonitorAction::Poll,
            },
            MonitorPhase::GracePoll => match event {
                MonitorEvent::Polled { outcome, elapsed: _ } => match outcome {
                    PollOutcome::Exited(report) => {
                        self.exit = Some(report);
                        self.phase = MonitorPhase::Draining;
                        MonitorAction::JoinPumps
                    },
                    PollOutcome::StillRunning => {
                        self.phase = MonitorPhase::Grace;
                        MonitorAction::Sleep(config.poll_interval)
                    },
                    PollOutcome::Failed(_) => {
                        self.phase = MonitorPhase::Killing;
                        MonitorAction::ForceKill(process.pid)
                    },
                },
                _ => MonitorAction::Poll,
            },
            MonitorPhase::Killing => match event {
                MonitorEvent::Reaped(exit) => {
                    self.exit = exit;
                    self.phase = MonitorPhase::Draining;
                    MonitorAction::JoinPumps
                },
                _ => MonitorAction::Poll,
            },
            MonitorPhase::Draining => if self.exit.is_none() {
                self.phase = MonitorPhase::Reaping;
                MonitorAction::Reap
            } else {
                self.phase = MonitorPhase::Done;
                MonitorAction::Finish
            },
            MonitorPhase::Reaping => match event {
                MonitorEvent::Reaped(exit) => {
                    self.exit = exit;
                    self.phase = MonitorPhase::Done;
                    MonitorAction::Finish
                },
                _ => MonitorAction::Poll,
            },
            MonitorPhase::Done => MonitorAction::Finish,
        }
    }

    /// The step while the child runs.
    fn step_polling(
        &mut self,
        process: &mut ManagedProcess,
        event: MonitorEvent,
        config: &ProcessSupervisorConfig,
    ) -> (action: MonitorAction)
        requires
            old(self).phase is Polling,
            old(self).well_formed(),
            old(self).expects(event),
            event.well_formed(),
            old(process)@.well_formed(),
        ensures
            ({
                let next = old(self).next(old(process)@, event, *config);
                &&& *final(self) == next.monitor
                &&& final(process)@ == next.process
                &&& action == next.action
            }),
            final(self).well_formed(),
            final(process)@.well_formed(),
    {
        match event {
            MonitorEvent::Polled { outcome, elapsed } => match outcome {
                PollOutcome::Exited(report) => {
                    if process.stop_requested && !report.success {
                        self.forced = Some(ProcessStatus::Cancelled);
                    }
                    self.exit = Some(report);
                    self.phase = MonitorPhase::Draining;
                    MonitorAction::JoinPumps
                },
                PollOutcome::Failed(error) => {
                    let mut message: String = "failed to poll child: ".to_owned();
                    message.append(error.as_str());
                    process.redacted_error = Some(message);
                    self.forced = Some(ProcessStatus::Failed);
                    self.phase = MonitorPhase::Draining;
                    MonitorAction::JoinPumps
                },
                PollOutcome::StillRunning => {
                    let timed_out: bool = match process.timeout {
                        Some(limit) => elapsed.reaches(limit),
                        None => false,
                    };
                    if timed_out || process.stop_requested {
                        self.forced = Some(
                            if timed_out {
                                ProcessStatus::TimedOut
                            } else {
                                ProcessStatus::Cancelled
                            },
                        );
                        self.phase = MonitorPhase::Grace;
                        MonitorAction::Terminate(process.pid)
                    } else {
                        MonitorAction::Sleep(config.poll_interval)
                    }
                },
            },
            _ => MonitorAction::Poll,
        }
    }

    /// Record the end of the process at the time `now`.
    pub fn finish_at(&self, process: &mut ManagedProcess, now: Timestamp)
        requires
            self.well_formed(),
            self.phase is Done,
            old(process)@.well_formed(),
            old(process)@.status is Running,
        ensures
            final(process)@ == old(process)@.finished(self.forced, self.exit, now@),
            final(process)@.well_formed(),
            !(final(process)@.status is Running),
    {
        process.finish_at(self.forced, self.exit, now);
    }
}

/// A step keeps the watch in order.
proof fn lemma_next_keeps_well_formed(
    monitor: Monitor,
    process: ProcessModel,
    event: MonitorEvent,
    config: ProcessSupervisorConfig,
)
    requires
        monitor.well_formed(),
        monitor.expects(event),
        event.well_formed(),
    ensures
        monitor.next(process, event, config).monitor.well_formed(),
{
}

/// A status once forced is never replaced: no later event changes it, and the
/// process ends with it whatever its exit was.
pub proof fn law_forced_status_is_final(
    monitor: Monitor,
    process: ProcessModel,
    event: MonitorEvent,
    config: ProcessSupervisorConfig,
    exit: Option<ExitReport>,
    now: Seq<char>,
)
    requires
        monitor.well_formed(),
        monitor.expects(event),
        monitor.forced is Some,
    ensures
        monitor.next(process, event, config).monitor.forced == monitor.forced,
        process.finished(monitor.forced, exit, now).status == monitor.forced->0,
{
}

/// A child that still runs at its time limit ends as timed out, also if a stop was
/// requested; one that still runs after a stop was requested and before its limit
/// ends as cancelled. Either way its process group is terminated first.
pub proof fn law_running_child_is_stopped(
    monitor: Monitor,
    process: ProcessModel,
    elapsed: Duration,
    config: ProcessSupervisorConfig,
)
    requires
        monitor.well_formed(),
        monitor.phase is Polling,
        timed_out(process.timeout, elapsed) || process.stop_requested,
    ensures
        ({
            let next = monitor.next(
                process,
                MonitorEvent::Polled { outcome: PollOutcome::StillRunning, elapsed },
                config,
            );
            &&& next.action == MonitorAction::Terminate(process.pid)
            &&& next.monitor.forced == Some(
                if timed_out(process.timeout, elapsed) {
                    ProcessStatus::TimedOut
                } else {
                    ProcessStatus::Cancelled
                },
            )
        }),
{
}

/// The status that the next look decides on for a process that was asked to stop: timed
/// out if its child still runs and has reached its time limit, succeeded if the child has
/// ended with success before it was stopped, and otherwise cancelled.
pub open spec fn stopped_status(
    process: ProcessModel,
    outcome: PollOutcome,
    elapsed: Duration,
) -> ProcessStatus {
    match outcome {
        PollOutcome::StillRunning => if timed_out(process.timeout, elapsed) {
            ProcessStatus::TimedOut
        } else {
            ProcessStatus::Cancelled
        },
        PollOutcome::Exited(report) => if report.success {
            ProcessStatus::Succeeded
        } else {
            ProcessStatus::Cancelled
        },
        PollOutcome::Failed(_) => ProcessStatus::Failed,
    }
}

/// A stop decides how a process ends: the next look at its child, unless it fails, settles
/// that it ends as cancelled, or as timed out if the child still runs and has reached its
/// time limit; only a child that has ended with success by then has succeeded. If the
/// child runs on, its process group is terminated.
pub proof fn law_stop_decides_status(
    monitor: Monitor,
    process: ProcessModel,
    outcome: PollOutcome,
    elapsed: Duration,
    config: ProcessSupervisorConfig,
)
    requires
        monitor.well_formed(),
        monitor.phase is Polling,
        process.stop_requested,
        !(outcome is Failed),
    ensures
        ({
            let next = monitor.next(process, MonitorEvent::Polled { outcome, elapsed }, config);
            let end = stopped_status(process, outcome, elapsed);
            &&& next.monitor.forced == if end is Succeeded {
                None
            } else {
                Some(end)
            }
            &&& end is Succeeded ==> next.monitor.exit == Some(outcome->Exited_0)
            &&& outcome is StillRunning ==> next.action == MonitorAction::Terminate(process.pid)
        }),
{
}

/// A run of the watch: from each state, the process as it then was and the event.
pub open spec fn valid_run(
    monitors: Seq<Monitor>,
    steps: Seq<(ProcessModel, MonitorEvent)>,
    config: ProcessSupervisorConfig,
) -> bool {
    &&& monitors.len() == steps.len() + 1
    &&& monitors[0] == (Monitor { phase: MonitorPhase::Polling, forced: None, exit: None })
    &&& forall|k: int|
        0 <= k < steps.len() ==> {
            &&& monitors[k].expects((#[trigger] steps[k]).1)
            &&& steps[k].1.well_formed()
            &&& monitors[k + 1] == monitors[k].next(steps[k].0, steps[k].1, config).monitor
        }
}

/// The action that a run takes at a step.
pub open spec fn action_at(
    monitors: Seq<Monitor>,
    steps: Seq<(ProcessModel, MonitorEvent)>,
    config: ProcessSupervisorConfig,
    k: int,
) -> MonitorAction {
    monitors[k].next(steps[k].0, steps[k].1, config).action
}

/// A run keeps the watch in order, and a process group whose time to end is being
/// counted, or that was killed, was terminated before.
pub proof fn lemma_run(
    monitors: Seq<Monitor>,
    steps: Seq<(ProcessModel, MonitorEvent)>,
    config: ProcessSupervisorConfig,
    k: int,
)
    requires
        valid_run(monitors, steps, config),
        0 <= k < monitors.len(),
    ensures
        monitors[k].well_formed(),
        monitors[k].phase is Grace || monitors[k].phase is GracePoll || monitors[k].phase is Killing
            ==> exists|j: int|
            0 <= j < k && #[trigger] action_at(monitors, steps, config, j) is Terminate,
    decreases k,
{
    if k > 0 {
        lemma_run(monitors, steps, config, k - 1);
        let last = steps[k - 1];
        lemma_next_keeps_well_formed(monitors[k - 1], last.0, last.1, config);
        if monitors[k].phase is Grace || monitors[k].phase is GracePoll || monitors[k].phase is Killing {
            if monitors[k - 1].phase is Polling {
                assert(action_at(monitors, steps, config, k - 1) is Terminate);
            } else {
                let j = choose|j: int|
                    0 <= j < k - 1 && #[trigger] action_at(monitors, steps, config, j) is Terminate;
                assert(action_at(monitors, steps, config, j) is Terminate);
            }
        }
    }
}

/// Termination comes first: in every run, a process group is killed only after it
/// was terminated, and then only because its time to end has passed or the child
/// can no longer be looked at.
pub proof fn law_kill_follows_terminate(
    monitors: Seq<Monitor>,
    steps: Seq<(ProcessModel, MonitorEvent)>,
    config: ProcessSupervisorConfig,
    k: int,
)
    requires
        valid_run(monitors, steps, config),
        0 <= k < steps.len(),
        action_at(monitors, steps, config, k) is ForceKill,
    ensures
        exists|j: int|
            0 <= j < k && #[trigger] action_at(monitors, steps, config, j) is Terminate,
        match steps[k].1 {
            MonitorEvent::GraceElapsed(elapsed) => elapsed@ >= config.kill_grace@,
            MonitorEvent::Polled { outcome, elapsed: _ } => outcome is Failed,
            _ => false,
        },
{
    lemma_run(monitors, steps, config, k);
}

/// The grace is bounded: a process group that was terminated five seconds ago or more
/// is killed at the next look at the time, whatever the settings are.
pub proof fn law_grace_is_bounded(
    monitor: Monitor,
    process: ProcessModel,
    elapsed: Duration,
    config: ProcessSupervisorConfig,
)
    requires
        monitor.well_formed(),
        monitor.phase is Grace,
        config.well_formed(),
        elapsed@ >= 5_000_000_000,
    ensures
        monitor.next(process, MonitorEvent::GraceElapsed(elapsed), config).action
            == MonitorAction::ForceKill(process.pid),
{
}

/// Whether two states are states of the same process: what was known of it when it was
/// started is the same in both.
pub open spec fn same_process(a: ProcessModel, b: ProcessModel) -> bool {
    &&& a.id == b.id && a.command == b.command && a.cwd == b.cwd
    &&& a.started_at == b.started_at && a.pid == b.pid
    &&& a.process_group_id == b.process_group_id && a.timeout == b.timeout
    &&& a.spill_path == b.spill_path
    &&& a.stdout.capacity == b.stdout.capacity && a.stderr.capacity == b.stderr.capacity
}

/// A process keeps its id, command, directory, start, process ids, time limit, spill
/// file and output bounds, whatever its pipes report, its input comes to, its watch
/// does and however it ends.
pub proof fn law_process_keeps_its_start(
    process: ProcessModel,
    is_stderr: bool,
    read: ReadEvent,
    monitor: Monitor,
    event: MonitorEvent,
    config: ProcessSupervisorConfig,
    forced: Option<ProcessStatus>,
    exit: Option<ExitReport>,
    now: Seq<char>,
)
    requires
        monitor.expects(event),
    ensures
        same_process(process, process.pumped(is_stderr, read)),
        same_process(process, process.stopping()),
        same_process(process, process.without_stdin()),
        same_process(process, monitor.next(process, event, config).process),
        same_process(process, process.finished(forced, exit, now)),
{
}

/// A status that a run has forced stays forced.
proof fn lemma_forced_stays(
    monitors: Seq<Monitor>,
    steps: Seq<(ProcessModel, MonitorEvent)>,
    config: ProcessSupervisorConfig,
    j: int,
    k: int,
)
    requires
        valid_run(monitors, steps, config),
        0 <= j <= k < monitors.len(),
        monitors[j].forced is Some,
    ensures
        monitors[k].forced == monitors[j].forced,
    decreases k - j,
{
    if j < k {
        lemma_run(monitors, steps, config, j);
        let step = steps[j];
        law_forced_status_is_final(monitors[j], step.0, step.1, config, None, seq![]);
        lemma_forced_stays(monitors, steps, config, j + 1, k);
    }
}

/// Once a child has ended, a run changes neither its exit nor what is forced on its process.
proof fn lemma_exit_stays(
    monitors: Seq<Monitor>,
    steps: Seq<(ProcessModel, MonitorEvent)>,
    config: ProcessSupervisorConfig,
    j: int,
    k: int,
)
    requires
        valid_run(monitors, steps, config),
        0 <= j <= k < monitors.len(),
        monitors[j].exit is Some,
    ensures
        monitors[k].exit == monitors[j].exit,
        monitors[k].forced == monitors[j].forced,
    decreases k - j,
{
    if j < k {
        lemma_run(monitors, steps, config, j);
        let step = steps[j];
        assert(monitors[j].expects(step.1));
        lemma_exit_stays(monitors, steps, config, j + 1, k);
    }
}

/// A process that was asked to stop while its child was being watched ends, in every run in
/// which the next look at the child does not fail, as that look settles it: as cancelled
/// or timed out, whatever the exit of the child is and whenever it comes, unless the look
/// finds that the child has ended with success.
pub proof fn law_stopped_run_ends_as_stopped(
    monitors: Seq<Monitor>,
    steps: Seq<(ProcessModel, MonitorEvent)>,
    config: ProcessSupervisorConfig,
    k: int,
    process: ProcessModel,
    now: Seq<char>,
)
    requires
        valid_run(monitors, steps, config),
        monitors.last().phase is Done,
        0 <= k < steps.len(),
        monitors[k].phase is Polling,
        steps[k].0.stop_requested,
        !(steps[k].1->outcome is Failed),
    ensures
        ({
            let end = monitors.last();
            process.finished(end.forced, end.exit, now).status == stopped_status(
                steps[k].0,
                steps[k].1->outcome,
                steps[k].1->elapsed,
            )
        }),
{
    lemma_run(monitors, steps, config, k);
    let step = steps[k];
    assert(monitors[k].expects(step.1));
    law_stop_decides_status(
        monitors[k],
        step.0,
        step.1->outcome,
        step.1->elapsed,
        config,
    );
    assert(step.1 == MonitorEvent::Polled { outcome: step.1->outcome, elapsed: step.1->elapsed });
    if stopped_status(step.0, step.1->outcome, step.1->elapsed) is Succeeded {
        lemma_exit_stays(monitors, steps, config, k + 1, monitors.len() - 1);
    } else {
        lemma_forced_stays(monitors, steps, config, k + 1, monitors.len() - 1);
    }
}

/// A run that is done records an end: the process is then terminal, and it ends as
/// succeeded only if nothing was forced on it and its child reported success.
pub proof fn law_done_run_ends_process(
    monitors: Seq<Monitor>,
    steps: Seq<(ProcessModel, MonitorEvent)>,
    config: ProcessSupervisorConfig,
    process: ProcessModel,
    now: Seq<char>,
)
    requires
        valid_run(monitors, steps, config),
        monitors.last().phase is Done,
    ensures
        ({
            let end = monitors.last();
            let ended = process.finished(end.forced, end.exit, now);
            &&& !(ended.status is Running)
            &&& ended.ended_at == Some(now)
            &&& !ended.stdin_open
            &&& ended.status is Succeeded <==> end.forced is None && end.exit is Some
                && end.exit->0.success
        }),
{
    lemma_run(monitors, steps, config, monitors.len() - 1);
}

} // verus!
