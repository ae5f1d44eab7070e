//! The watch over a child: it is left alone without a reason, and stopped for one.

use crate::clock::{Duration, Timestamp};
use crate::config::ProcessSupervisorConfig;
use crate::monitor::{
    action_at, lemma_run, valid_run, Monitor, MonitorAction, MonitorEvent, MonitorPhase,
    PollOutcome,
};
use crate::process::{ExitReport, ManagedProcess, ProcessModel, ProcessStatus};
use vstd::prelude::*;

verus! {

/// A running child is left alone unless there is a reason: a look that finds it running,
/// with no stop requested and before any time limit, changes nothing and asks for the next
/// look after the poll interval, however long the child has run.
pub proof fn law_running_child_is_left_alone(elapsed: Duration, config: &ProcessSupervisorConfig)
    ensures
        forall|watch: &mut Monitor, process: &mut ManagedProcess, action: MonitorAction| #[trigger]
            call_ensures(
                Monitor::step,
                (
                    watch,
                    process,
                    MonitorEvent::Polled { outcome: PollOutcome::StillRunning, elapsed },
                    config,
                ),
                action,
            ) && watch.phase is Polling && !process.stop_requested && (
            process.timeout matches Some(limit) ==> elapsed.nanos < limit.nanos) ==> {
                &&& action == MonitorAction::Sleep(config.poll_interval)
                &&& *final(watch) == *watch
                &&& final(process)@ == process@
            },
{
}

/// A running child that was asked to stop, or has reached its time limit, has its process
/// group terminated; what ends it is the limit if that is reached, and else the stop.
pub proof fn law_running_child_is_stopped_for_a_reason(
    elapsed: Duration,
    config: &ProcessSupervisorConfig,
)
    ensures
        forall|watch: &mut Monitor, process: &mut ManagedProcess, action: MonitorAction| #[trigger]
            call_ensures(
                Monitor::step,
                (
                    watch,
                    process,
                    MonitorEvent::Polled { outcome: PollOutcome::StillRunning, elapsed },
                    config,
                ),
                action,
            ) && watch.phase is Polling ==> {
                let late = process.timeout matches Some(limit) && elapsed.nanos >= limit.nanos;
                late || process.stop_requested ==> {
                    &&& action == MonitorAction::Terminate(process.pid)
                    &&& final(watch).phase is Grace
                    &&& final(watch).exit == watch.exit
                    &&& late ==> final(watch).forced == Some(ProcessStatus::TimedOut)
                    &&& !late ==> final(watch).forced == Some(ProcessStatus::Cancelled)
                    &&& final(process)@ == process@
                }
            },
{
}

/// An exit that a look finds is kept as it was reported, at once or during the grace; then
/// the pipes are read to their ends. Without a stop it forces nothing; after a stop it
/// makes the process a cancelled one unless the child succeeded.
pub proof fn law_exit_is_kept(
    report: ExitReport,
    elapsed: Duration,
    config: &ProcessSupervisorConfig,
)
    ensures
        forall|watch: &mut Monitor, process: &mut ManagedProcess, action: MonitorAction| #[trigger]
            call_ensures(
                Monitor::step,
                (
                    watch,
                    process,
                    MonitorEvent::Polled { outcome: PollOutcome::Exited(report), elapsed },
                    config,
                ),
                action,
            ) && (watch.phase is Polling || watch.phase is GracePoll) ==> {
                &&& action == MonitorAction::JoinPumps
                &&& final(watch).phase is Draining
                &&& final(watch).exit == Some(report)
                &&& watch.phase is GracePoll ==> final(watch).forced == watch.forced
                &&& watch.phase is Polling && process.stop_requested && !report.success
                    ==> final(watch).forced == Some(ProcessStatus::Cancelled)
                &&& watch.phase is Polling && (!process.stop_requested || report.success)
                    ==> final(watch).forced is None
                &&& final(process)@ == process@
            },
{
}

/// A look that fails while the child is left to run fails the process, with a text that says
/// why, and leaves everything else that is known of it; one that fails during the grace
/// has the process group killed.
pub proof fn law_failed_look(error: String, elapsed: Duration, config: &ProcessSupervisorConfig)
    ensures
        forall|watch: &mut Monitor, process: &mut ManagedProcess, action: MonitorAction| #[trigger]
            call_ensures(
                Monitor::step,
                (
                    watch,
                    process,
                    MonitorEvent::Polled { outcome: PollOutcome::Failed(error), elapsed },
                    config,
                ),
                action,
            ) ==> {
                &&& watch.phase is Polling ==> {
                    &&& action == MonitorAction::JoinPumps
                    &&& final(watch).phase is Draining
                    &&& final(watch).forced == Some(ProcessStatus::Failed)
                    &&& final(watch).exit == watch.exit
                    &&& final(process)@ == (ProcessModel {
                        redacted_error: Some("failed to poll child: "@ + error@),
                        ..process@
                    })
                }
                &&& watch.phase is GracePoll ==> {
                    &&& action == MonitorAction::ForceKill(process.pid)
                    &&& *final(watch) == (Monitor { phase: MonitorPhase::Killing, ..*watch })
                    &&& final(process)@ == process@
                }
            },
{
}

/// A terminated process group has the whole grace and no more: before it has passed the
/// child is looked at, and looked at again after the poll interval as long as it runs; when
/// it has passed the group is killed.
pub proof fn law_grace_is_granted(elapsed: Duration, config: &ProcessSupervisorConfig)
    ensures
        forall|watch: &mut Monitor, process: &mut ManagedProcess, action: MonitorAction| #[trigger]
            call_ensures(
                Monitor::step,
                (watch, process, MonitorEvent::GraceElapsed(elapsed), config),
                action,
            ) && watch.phase is Grace ==> {
                &&& elapsed.nanos < config.kill_grace.nanos ==> action == MonitorAction::Poll
                    && *final(watch) == (Monitor { phase: MonitorPhase::GracePoll, ..*watch })
                &&& elapsed.nanos >= config.kill_grace.nanos ==> action
                    == MonitorAction::ForceKill(process.pid) && *final(watch) == (Monitor {
                    phase: MonitorPhase::Killing,
                    ..*watch
                })
                &&& final(process)@ == process@
            },
        forall|watch: &mut Monitor, process: &mut ManagedProcess, action: MonitorAction| #[trigger]
            call_ensures(
                Monitor::step,
                (
                    watch,
                    process,
                    MonitorEvent::Polled { outcome: PollOutcome::StillRunning, elapsed },
                    config,
                ),
                action,
            ) && watch.phase is GracePoll ==> {
                &&& action == MonitorAction::Sleep(config.poll_interval)
                &&& *final(watch) == (Monitor { phase: MonitorPhase::Grace, ..*watch })
                &&& final(process)@ == process@
            },
{
}

/// The watch ends with the pipes read and the child waited for: a killed child is waited for
/// first, then the pipes are read to their ends, then a child whose exit is not known is
/// waited for, and then the end is recorded. What a wait reports is kept.
pub proof fn law_watch_winds_down(exit: Option<ExitReport>, config: &ProcessSupervisorConfig)
    ensures
        forall|watch: &mut Monitor, process: &mut ManagedProcess, action: MonitorAction| #[trigger]
            call_ensures(
                Monitor::step,
                (watch, process, MonitorEvent::Reaped(exit), config),
                action,
            ) ==> {
                &&& watch.phase is Killing ==> action == MonitorAction::JoinPumps && *final(watch)
                    == (Monitor { phase: MonitorPhase::Draining, exit, ..*watch })
                &&& watch.phase is Reaping ==> action == MonitorAction::Finish && *final(watch) == (
                Monitor { phase: MonitorPhase::Done, exit, ..*watch })
                &&& watch.phase is Killing || watch.phase is Reaping ==> final(process)@ == process@
            },
        forall|watch: &mut Monitor, process: &mut ManagedProcess, action: MonitorAction| #[trigger]
            call_ensures(
                Monitor::step,
                (watch, process, MonitorEvent::PumpsJoined, config),
                action,
            ) && watch.phase is Draining ==> {
                &&& watch.exit is None ==> action == MonitorAction::Reap && *final(watch) == (
                Monitor { phase: MonitorPhase::Reaping, ..*watch })
                &&& watch.exit is Some ==> action == MonitorAction::Finish && *final(watch) == (
                Monitor { phase: MonitorPhase::Done, ..*watch })
                &&& final(process)@ == process@
            },
{
}

/// A watch begins with nothing forced and no exit.
pub proof fn law_watch_begins_open(watch: Monitor)
    requires
        call_ensures(Monitor::new, (), watch),
    ensures
        watch.phase is Polling,
        watch.forced is None,
        watch.exit is None,
{
}

/// The end that a watch records is what was forced, and else what the exit says: success
/// makes a process succeeded, anything else failed. The exit code is the reported one, or
/// the negated signal, or minus one if neither was reported; without an exit there is none.
/// Output, errors and the start of the process stay as they were.
pub proof fn law_recorded_end(watch: &Monitor, now: Timestamp)
    ensures
        forall|process: &mut ManagedProcess| #[trigger]
            call_ensures(Monitor::finish_at, (watch, process, now), ()) ==> {
                &&& watch.forced matches Some(status) ==> final(process).status == status
                &&& watch.forced is None ==> (final(process).status is Succeeded <==> (
                watch.exit matches Some(report) && report.success))
                &&& watch.forced is None ==> final(process).status is Succeeded
                    || final(process).status is Failed
                &&& watch.exit is None ==> final(process).exit_code is None
                &&& watch.exit matches Some(report) ==> {
                    &&& final(process).exit_code is Some
                    &&& report.code matches Some(code) ==> final(process).exit_code == Some(code)
                    &&& report.code is None && report.signal is Some && report.signal->0 > i32::MIN
                        ==> final(process).exit_code->0 + report.signal->0 == 0
                    &&& report.code is None && report.signal is None ==> final(process).exit_code
                        == Some(-1i32)
                }
                &&& final(process)@.ended_at == Some(now@)
                &&& !final(process).stdin_open
                &&& final(process)@ == (ProcessModel {
                    status: final(process).status,
                    exit_code: final(process).exit_code,
                    ended_at: Some(now@),
                    stdin_open: false,
                    ..process@
                })
            },
{
}

/// Whether a step is a look that found the child running past its time limit.
pub open spec fn past_limit(step: (ProcessModel, MonitorEvent)) -> bool {
    step.1 matches MonitorEvent::Polled { outcome: PollOutcome::StillRunning, elapsed } && (
    step.0.timeout matches Some(limit) && elapsed.nanos >= limit.nanos)
}

/// Whether a step is a look at a child whose process was asked to stop.
pub open spec fn asked_to_stop(step: (ProcessModel, MonitorEvent)) -> bool {
    step.1 is Polled && step.0.stop_requested
}

/// Whether a step is a look that failed.
pub open spec fn lost(step: (ProcessModel, MonitorEvent)) -> bool {
    step.1 matches MonitorEvent::Polled { outcome: PollOutcome::Failed(_), elapsed: _ }
}

/// What is forced in a run has its reason in the run: timed out that a look found the child
/// past its limit, cancelled that a stop was requested, failed that a look failed. Nothing
/// else is ever forced.
pub proof fn law_forced_status_has_its_reason(
    monitors: Seq<Monitor>,
    steps: Seq<(ProcessModel, MonitorEvent)>,
    config: ProcessSupervisorConfig,
    k: int,
)
    requires
        valid_run(monitors, steps, config),
        0 <= k < monitors.len(),
    ensures
        match monitors[k].forced {
            None => true,
            Some(ProcessStatus::TimedOut) => exists|j: int|
                0 <= j < k && past_limit(#[trigger] steps[j]),
            Some(ProcessStatus::Cancelled) => exists|j: int|
                0 <= j < k && asked_to_stop(#[trigger] steps[j]),
            Some(ProcessStatus::Failed) => exists|j: int| 0 <= j < k && lost(#[trigger] steps[j]),
            _ => false,
        },
    decreases k,
{
    if k > 0 {
        law_forced_status_has_its_reason(monitors, steps, config, k - 1);
        lemma_run(monitors, steps, config, k - 1);
        lemma_run(monitors, steps, config, k);
        let step = steps[k - 1];
        assert(monitors[k - 1].expects(step.1));
        if monitors[k].forced == monitors[k - 1].forced {
            match monitors[k].forced {
                Some(ProcessStatus::TimedOut) => {
                    let j = choose|j: int| 0 <= j < k - 1 && past_limit(#[trigger] steps[j]);
                    assert(past_limit(steps[j]));
                },
                Some(ProcessStatus::Cancelled) => {
                    let j = choose|j: int| 0 <= j < k - 1 && asked_to_stop(#[trigger] steps[j]);
                    assert(asked_to_stop(steps[j]));
                },
                Some(ProcessStatus::Failed) => {
                    let j = choose|j: int| 0 <= j < k - 1 && lost(#[trigger] steps[j]);
                    assert(lost(steps[j]));
                },
                _ => {},
            }
        } else {
            assert(monitors[k - 1].phase is Polling);
            assert(past_limit(steps[k - 1]) || asked_to_stop(steps[k - 1]) || lost(steps[k - 1]));
        }
    }
}

/// A process group is terminated or killed only for a reason: in every run a signal comes
/// only after, or at, a look that found the child past its time limit or its process asked
/// to stop.
pub proof fn law_signals_have_their_reason(
    monitors: Seq<Monitor>,
    steps: Seq<(ProcessModel, MonitorEvent)>,
    config: ProcessSupervisorConfig,
    k: int,
)
    requires
        valid_run(monitors, steps, config),
        0 <= k < steps.len(),
        action_at(monitors, steps, config, k) is Terminate || action_at(
            monitors,
            steps,
            config,
            k,
        ) is ForceKill,
    ensures
        exists|j: int|
            0 <= j <= k && (past_limit(#[trigger] steps[j]) || asked_to_stop(steps[j])),
{
    lemma_run(monitors, steps, config, k);
    let step = steps[k];
    assert(monitors[k].expects(step.1));
    if monitors[k].phase is Polling {
        assert(past_limit(steps[k]) || asked_to_stop(steps[k]));
    } else {
        law_forced_status_has_its_reason(monitors, steps, config, k);
        if monitors[k].forced == Some(ProcessStatus::TimedOut) {
            let j = choose|j: int| 0 <= j < k && past_limit(#[trigger] steps[j]);
            assert(past_limit(steps[j]));
        } else {
            let j = choose|j: int| 0 <= j < k && asked_to_stop(#[trigger] steps[j]);
            assert(asked_to_stop(steps[j]));
        }
    }
}

/// A child that is never past its limit, asked to stop or lost ends by its own exit: when the
/// watch is done, the process has succeeded exactly if the child reported success.
pub proof fn law_undisturbed_child_ends_by_its_exit(
    monitors: Seq<Monitor>,
    steps: Seq<(ProcessModel, MonitorEvent)>,
    config: ProcessSupervisorConfig,
    process: ProcessModel,
    now: Seq<char>,
)
    requires
        valid_run(monitors, steps, config),
        monitors.last().phase is Done,
        forall|j: int|
            0 <= j < steps.len() ==> !past_limit(#[trigger] steps[j]) && !asked_to_stop(steps[j])
                && !lost(steps[j]),
    ensures
        monitors.last().exit is Some,
        ({
            let report = monitors.last().exit->0;
            let ended = process.finished(monitors.last().forced, monitors.last().exit, now);
            &&& report.success ==> ended.status is Succeeded
            &&& !report.success ==> ended.status is Failed
        }),
{
    let last = monitors.len() - 1;
    lemma_run(monitors, steps, config, last);
    law_forced_status_has_its_reason(monitors, steps, config, last);
    if monitors[last].forced is Some {
        assert(exists|j: int|
            0 <= j < last && (past_limit(#[trigger] steps[j]) || asked_to_stop(steps[j]) || lost(
                steps[j],
            )));
    }
}

} // verus!
