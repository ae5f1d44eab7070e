//! What holds of a process over the whole of a session.

use crate::monitor::{self, Monitor, MonitorEvent};
use crate::process::{ProcessModel, ReadEvent};
use crate::supervisor::{self, SupervisorModel};
use vstd::prelude::*;

verus! {

/// What a call on a supervisor can do to it.
pub enum Operation {
    /// Register a process that has just been started.
    Start(ProcessModel),
    /// Take in what the reader of an output pipe found.
    Pump { id: Seq<char>, is_stderr: bool, read: ReadEvent },
    /// Close the input of a process.
    CloseInput { id: Seq<char> },
    /// Ask for a process to be stopped.
    Stop { id: Seq<char> },
    /// Announce the end of the session.
    EndSession,
    /// Take a step of the watch over a process.
    Watch { id: Seq<char>, monitor: Monitor, event: MonitorEvent },
    /// Record the end of a process.
    Finish { id: Seq<char>, monitor: Monitor, now: Seq<char> },
}

impl Operation {
    /// Whether the operation can come next: a process that is registered has an id of its
    /// own, the watch gets the event that it asked for, and only a process that has not
    /// ended ends.
    pub open spec fn fits(self, supervisor: SupervisorModel) -> bool {
        match self {
            Operation::Start(process) => process.well_formed() && !supervisor.known(process.id),
            Operation::Watch { id, monitor, event } => monitor.well_formed() && monitor.expects(
                event,
            ) && event.well_formed(),
            Operation::Finish { id, monitor, now } => monitor.well_formed() && monitor.phase is Done
                && (supervisor.known(id) ==> supervisor.process(id).status is Running),
            _ => true,
        }
    }

    /// The supervisor after the operation; one on an unknown process does nothing.
    pub open spec fn after(self, supervisor: SupervisorModel) -> SupervisorModel {
        match self {
            Operation::Start(process) => supervisor.registered(process),
            Operation::Pump { id, is_stderr, read } => changed(
                supervisor,
                id,
                supervisor.process(id).pumped(is_stderr, read),
            ),
            Operation::CloseInput { id } => changed(
                supervisor,
                id,
                supervisor.process(id).without_stdin(),
            ),
            Operation::Stop { id } => changed(supervisor, id, supervisor.process(id).stopping()),
            Operation::EndSession => supervisor.cleaning(),
            Operation::Watch { id, monitor, event } => changed(
                supervisor,
                id,
                monitor.next(supervisor.process(id), event, supervisor.config).process,
            ),
            Operation::Finish { id, monitor, now } => changed(
                supervisor,
                id,
                supervisor.process(id).finished(monitor.forced, monitor.exit, now),
            ),
        }
    }
}

/// The supervisor with another process in the place of the one with an id, if there is
/// one.
pub open spec fn changed(
    supervisor: SupervisorModel,
    id: Seq<char>,
    process: ProcessModel,
) -> SupervisorModel {
    if supervisor.known(id) {
        supervisor.with_process(id, process)
    } else {
        supervisor
    }
}

/// Whether nothing or one operation leads from one state of a supervisor to the other.
pub open spec fn one_step(before: SupervisorModel, after: SupervisorModel) -> bool {
    ||| after == before
    ||| exists|operation: Operation| #[trigger]
        operation.fits(before) && after == operation.after(before)
}

/// An operation that can come next is a step.
pub proof fn lemma_one_step(operation: Operation, before: SupervisorModel)
    requires
        operation.fits(before),
    ensures
        one_step(before, operation.after(before)),
{
}

/// Whether states of a supervisor follow one another, each by at most one operation.
pub open spec fn is_history(states: Seq<SupervisorModel>) -> bool {
    &&& states.len() > 0
    &&& states[0].well_formed()
    &&& forall|i: int, j: int|
        0 <= i && j == i + 1 && j < states.len() ==> #[trigger] one_step(states[i], states[j])
}

/// Whether a process can have come from one state to a later one: it is the same process,
/// no count of its output fell, input that was closed and a stop that was requested stay,
/// and once it has ended, its status, exit code and end time stay.
pub open spec fn continues(earlier: ProcessModel, later: ProcessModel) -> bool {
    &&& monitor::same_process(earlier, later)
    &&& earlier.stdout.total <= later.stdout.total
    &&& earlier.stderr.total <= later.stderr.total
    &&& earlier.stdout.truncated ==> later.stdout.truncated
    &&& earlier.stderr.truncated ==> later.stderr.truncated
    &&& !earlier.stdin_open ==> !later.stdin_open
    &&& earlier.stop_requested ==> later.stop_requested
    &&& !(earlier.status is Running) ==> {
        &&& later.status == earlier.status
        &&& later.exit_code == earlier.exit_code
        &&& later.ended_at == earlier.ended_at
    }
}

/// A change of one process to a state that continues it lets every process continue.
proof fn lemma_changed(
    before: SupervisorModel,
    id: Seq<char>,
    process: ProcessModel,
    other: Seq<char>,
)
    requires
        before.well_formed(),
        before.known(other),
        before.known(id) ==> process.well_formed() && continues(before.process(id), process),
    ensures
        changed(before, id, process).well_formed(),
        changed(before, id, process).known(other),
        continues(before.process(other), changed(before, id, process).process(other)),
{
    if before.known(id) {
        let at = before.place(id);
        assert(supervisor::is_at(before.processes, id, at));
        supervisor::lemma_replace_keeps_well_formed(before, id, process);
        supervisor::law_operation_touches_one_process(before, id, process, other);
    }
}

/// A process that is known is well formed and has the id that it is known by.
proof fn lemma_known_process(before: SupervisorModel, id: Seq<char>)
    requires
        before.well_formed(),
        before.known(id),
    ensures
        before.process(id).well_formed(),
        before.process(id).id == id,
{
    assert(supervisor::is_at(before.processes, id, before.place(id)));
}

/// An operation lets every process continue.
proof fn lemma_operation(operation: Operation, before: SupervisorModel, other: Seq<char>)
    requires
        before.well_formed(),
        before.known(other),
        operation.fits(before),
    ensures
        operation.after(before).well_formed(),
        operation.after(before).known(other),
        continues(before.process(other), operation.after(before).process(other)),
{
    match operation {
        Operation::Start(process) => {
            supervisor::lemma_register_keeps_well_formed(before, process);
            supervisor::law_new_process_touches_no_other(before, process, other);
        },
        Operation::EndSession => {
            supervisor::lemma_cleaning_keeps_well_formed(before);
            supervisor::law_cleanup_reaches_every_running_process(before, other);
        },
        Operation::Pump { id, is_stderr, read } => {
            if before.known(id) {
                lemma_known_process(before, id);
            }
            lemma_changed(before, id, before.process(id).pumped(is_stderr, read), other);
        },
        Operation::CloseInput { id } => {
            if before.known(id) {
                lemma_known_process(before, id);
            }
            lemma_changed(before, id, before.process(id).without_stdin(), other);
        },
        Operation::Stop { id } => {
            if before.known(id) {
                lemma_known_process(before, id);
            }
            lemma_changed(before, id, before.process(id).stopping(), other);
        },
        Operation::Watch { id, monitor, event } => {
            if before.known(id) {
                lemma_known_process(before, id);
            }
            lemma_changed(
                before,
                id,
                monitor.next(before.process(id), event, before.config).process,
                other,
            );
        },
        Operation::Finish { id, monitor, now } => {
            if before.known(id) {
                lemma_known_process(before, id);
            }
            lemma_changed(
                before,
                id,
                before.process(id).finished(monitor.forced, monitor.exit, now),
                other,
            );
        },
    }
}

/// A supervisor stays in order.
proof fn lemma_stays_well_formed(operation: Operation, before: SupervisorModel)
    requires
        before.well_formed(),
        operation.fits(before),
    ensures
        operation.after(before).well_formed(),
{
    if before.processes.len() > 0 {
        let id = before.processes[0].id;
        assert(supervisor::is_at(before.processes, id, 0));
        lemma_operation(operation, before, id);
    } else {
        match operation {
            Operation::Start(process) => {
                supervisor::lemma_register_keeps_well_formed(before, process);
            },
            Operation::EndSession => {
                supervisor::lemma_cleaning_keeps_well_formed(before);
            },
            _ => {},
        }
    }
}

/// Every state of a history is in order.
proof fn lemma_history_is_well_formed(states: Seq<SupervisorModel>, i: int)
    requires
        is_history(states),
        0 <= i < states.len(),
    ensures
        states[i].well_formed(),
    decreases i,
{
    if i > 0 {
        lemma_history_is_well_formed(states, i - 1);
        let (before, after) = (states[i - 1], states[i]);
        assert(one_step(states[i - 1], states[i]));
        if after != before {
            let operation = choose|operation: Operation| #[trigger]
                operation.fits(before) && after == operation.after(before);
            lemma_stays_well_formed(operation, before);
        }
    }
}

/// Over a whole session a process stays known under its id and goes on as the process that
/// was started: its id, command, directory, start and process group never change, the
/// counts of its output never fall, input that was closed stays closed, and from the
/// moment it has ended its status, exit code and end time never change again.
pub proof fn law_process_continues(
    states: Seq<SupervisorModel>,
    id: Seq<char>,
    earlier: int,
    later: int,
)
    requires
        is_history(states),
        0 <= earlier <= later < states.len(),
        states[earlier].known(id),
    ensures
        states[later].well_formed(),
        states[later].known(id),
        continues(states[earlier].process(id), states[later].process(id)),
    decreases later - earlier,
{
    lemma_history_is_well_formed(states, earlier);
    if earlier < later {
        let (before, after) = (states[earlier], states[earlier + 1]);
        assert(one_step(states[earlier], states[earlier + 1]));
        if after != before {
            let operation = choose|operation: Operation| #[trigger]
                operation.fits(before) && after == operation.after(before);
            lemma_operation(operation, before, id);
        }
        law_process_continues(states, id, earlier + 1, later);
    }
}

/// The end of a session is final: a supervisor that is stopping stays so.
pub proof fn law_stopping_is_final(states: Seq<SupervisorModel>, earlier: int, later: int)
    requires
        is_history(states),
        0 <= earlier <= later < states.len(),
    ensures
        states[earlier].stopping ==> states[later].stopping,
    decreases later - earlier,
{
    if earlier < later {
        let (before, after) = (states[earlier], states[earlier + 1]);
        assert(one_step(states[earlier], states[earlier + 1]));
        if after != before {
            let operation = choose|operation: Operation| #[trigger]
                operation.fits(before) && after == operation.after(before);
            assert(before.stopping ==> after.stopping);
        }
        law_stopping_is_final(states, earlier + 1, later);
    }
}

/// What snapshots of one process say over a whole session, from whatever offsets they are
/// taken: the process id, command, directory, start and process group are always the
/// same, the total byte counts never fall, and what a snapshot of an ended process says of
/// status, exit code and end time every later one says too.
pub proof fn law_snapshots_continue(
    states: Seq<SupervisorModel>,
    id: Seq<char>,
    earlier: int,
    later: int,
    earlier_offsets: (Option<u64>, Option<u64>),
    later_offsets: (Option<u64>, Option<u64>),
)
    requires
        is_history(states),
        0 <= earlier <= later < states.len(),
        states[earlier].known(id),
    ensures
        states[later].known(id),
        ({
            let a = states[earlier].process(id).snapshot(earlier_offsets.0, earlier_offsets.1);
            let b = states[later].process(id).snapshot(later_offsets.0, later_offsets.1);
            &&& a.process_id == id && b.process_id == id
            &&& b.command == a.command && b.cwd == a.cwd && b.started_at == a.started_at
            &&& b.process_group_id == a.process_group_id
            &&& a.stdout_total_bytes <= b.stdout_total_bytes
            &&& a.stderr_total_bytes <= b.stderr_total_bytes
            &&& !(a.status is Running) ==> b.status == a.status && b.exit_code == a.exit_code
                && b.ended_at == a.ended_at
        }),
{
    law_process_continues(states, id, earlier, later);
    lemma_history_is_well_formed(states, earlier);
    lemma_known_process(states[earlier], id);
}

} // verus!
