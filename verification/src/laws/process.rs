//! One process: what a snapshot shows, what its pipes do to it, and its exit code.

use crate::audit::AuditStatus;
use crate::buffer::utf8_lossy;
use crate::process::{
    exit_status_code, spill_record, ExitReport, ManagedProcess, ProcessModel, ProcessSnapshot,
    ProcessStatus, PumpStep, ReadEvent,
};
use vstd::prelude::*;

verus! {

/// A snapshot says of a process what is known of it, field by field; of each stream it shows
/// the text of the retained bytes from the offset that it names on, and whether bytes are
/// missing; and it refers to the spill file exactly if some are.
pub proof fn law_snapshot_shows_process(
    process: &ManagedProcess,
    stdout_offset: Option<u64>,
    stderr_offset: Option<u64>,
    r: ProcessSnapshot,
)
    requires
        process@.well_formed(),
        call_ensures(ManagedProcess::snapshot, (process, stdout_offset, stderr_offset), r),
    ensures
        r.process_id@ == process.id@,
        r.command@ == process.command@,
        r.cwd@ == process.cwd@,
        r.started_at@ == process.started_at@,
        r.ended_at.deep_view() == process.ended_at.deep_view(),
        r.status == process.status,
        r.exit_code == process.exit_code,
        r.process_group_id == process.process_group_id,
        r.stdin_open == process.stdin_open,
        r.redacted_error.deep_view() == process.redacted_error.deep_view(),
        r.stdout_total_bytes == process.stdout@.total,
        r.stderr_total_bytes == process.stderr@.total,
        ({
            let out = process.stdout@;
            let err = process.stderr@;
            let out_start = out.total - out.retained.len();
            let err_start = err.total - err.retained.len();
            let out_gap = stdout_offset matches Some(offset) && offset < out_start;
            let err_gap = stderr_offset matches Some(offset) && offset < err_start;
            &&& out_start <= r.stdout_offset <= out.total
            &&& err_start <= r.stderr_offset <= err.total
            &&& r.stdout@ == utf8_lossy(out.retained.skip(r.stdout_offset - out_start))
            &&& r.stderr@ == utf8_lossy(err.retained.skip(r.stderr_offset - err_start))
            &&& stdout_offset is None || out_gap ==> r.stdout_offset == out_start
            &&& stderr_offset is None || err_gap ==> r.stderr_offset == err_start
            &&& stdout_offset matches Some(offset) ==> (out_start <= offset <= out.total
                ==> r.stdout_offset == offset) && (offset > out.total ==> r.stdout_offset
                == out.total)
            &&& stderr_offset matches Some(offset) ==> (err_start <= offset <= err.total
                ==> r.stderr_offset == offset) && (offset > err.total ==> r.stderr_offset
                == err.total)
            &&& r.stdout_truncated == (out.truncated || out_gap)
            &&& r.stderr_truncated == (err.truncated || err_gap)
            &&& r.stdout_truncated || r.stderr_truncated ==> r.artifact_refs@.len() == 1
                && r.artifact_refs@[0]@ == "file://"@ + process.spill_path@
            &&& !r.stdout_truncated && !r.stderr_truncated ==> r.artifact_refs@.len() == 0
        }),
{
    assert(r.artifact_refs.deep_view().len() == r.artifact_refs@.len());
    if r.stdout_truncated || r.stderr_truncated {
        assert(r.artifact_refs.deep_view()[0] == r.artifact_refs@[0]@);
    }
}

/// Both outputs stand in the combined text as they are: standard output first, standard error
/// last, behind a heading of its own line; and nothing else does.
pub proof fn law_combined_output(snapshot: &ProcessSnapshot, r: String)
    requires
        call_ensures(ProcessSnapshot::combined_output, (snapshot,), r),
    ensures
        r@.take(snapshot.stdout@.len() as int) == snapshot.stdout@,
        r@.skip(r@.len() - snapshot.stderr@.len()) == snapshot.stderr@,
        snapshot.stderr@.len() == 0 ==> r@ == snapshot.stdout@,
        snapshot.stderr@.len() > 0 && snapshot.stdout@.len() == 0 ==> r@ == "[stderr]\n"@
            + snapshot.stderr@,
        snapshot.stderr@.len() > 0 && snapshot.stdout@.len() > 0 ==> r@ == snapshot.stdout@
            + "\n[stderr]\n"@ + snapshot.stderr@,
{
    assert(r@.take(snapshot.stdout@.len() as int) =~= snapshot.stdout@);
    assert(r@.skip(r@.len() - snapshot.stderr@.len()) =~= snapshot.stderr@);
}

/// There is something to show exactly if a stream has text, and a wait is over exactly if
/// there is or the process has ended.
pub proof fn law_news(snapshot: &ProcessSnapshot, output: bool, over: bool)
    requires
        call_ensures(ProcessSnapshot::has_output, (snapshot,), output),
        call_ensures(ProcessSnapshot::ready, (snapshot,), over),
    ensures
        output <==> snapshot.stdout@.len() > 0 || snapshot.stderr@.len() > 0,
        over <==> output || snapshot.status != ProcessStatus::Running,
{
}

/// Bytes that a reader found go to its own stream, all of them and nothing else; the end of a
/// stream and an error stop the reader, and an error is kept with its text. Nothing else
/// that is known of the process changes.
pub proof fn law_reader_feeds_its_stream(is_stderr: bool, event: ReadEvent)
    ensures
        forall|process: &mut ManagedProcess, step: PumpStep| #[trigger]
            call_ensures(ManagedProcess::pump_output, (process, is_stderr, event), step) ==> {
                &&& step is Stop <==> !(event matches ReadEvent::Read(bytes) && bytes@.len() > 0)
                &&& event matches ReadEvent::Failed(error) ==> final(process)@ == (ProcessModel {
                    redacted_error: Some("output reader failed: "@ + error@),
                    ..process@
                })
                &&& event matches ReadEvent::Read(bytes) ==> {
                    &&& bytes@.len() == 0 ==> final(process)@ == process@
                    &&& final(process)@ == (ProcessModel {
                        stdout: final(process)@.stdout,
                        stderr: final(process)@.stderr,
                        ..process@
                    })
                    &&& is_stderr ==> final(process)@.stdout == process@.stdout
                    &&& !is_stderr ==> final(process)@.stderr == process@.stderr
                    &&& bytes@.len() > 0 ==> {
                        let (before, after) = if is_stderr {
                            (process@.stderr, final(process)@.stderr)
                        } else {
                            (process@.stdout, final(process)@.stdout)
                        };
                        let all = before.retained + bytes@;
                        &&& after.capacity == before.capacity
                        &&& all.len() <= before.capacity ==> after.retained == all
                            && after.truncated == before.truncated
                        &&& all.len() > before.capacity ==> after.retained == all.skip(
                            all.len() - before.capacity,
                        ) && after.truncated
                        &&& before.total + bytes@.len() <= u64::MAX ==> after.total == before.total
                            + bytes@.len()
                        &&& before.total + bytes@.len() > u64::MAX ==> after.total == u64::MAX
                    }
                }
            },
{
    assert forall|process: &mut ManagedProcess, step: PumpStep| #[trigger]
        call_ensures(
            ManagedProcess::pump_output,
            (process, is_stderr, event),
            step,
        ) && event is Read && event->Read_0@.len() > 0 implies ({
        let bytes = event->Read_0@;
        let (before, after) = if is_stderr {
            (process@.stderr, final(process)@.stderr)
        } else {
            (process@.stdout, final(process)@.stdout)
        };
        let all = before.retained + bytes;
        all.len() <= before.capacity ==> after.retained == all
    }) by {
        let bytes = event->Read_0@;
        let before = if is_stderr {
            process@.stderr
        } else {
            process@.stdout
        };
        let all = before.retained + bytes;
        assert(all.skip(0) == all);
    }
}

/// A stop request is remembered and changes nothing else.
pub proof fn law_stop_request_is_remembered()
    ensures
        forall|process: &mut ManagedProcess| #[trigger]
            call_ensures(ManagedProcess::request_stop, (process,), ()) ==> final(process)@ == (
            ProcessModel { stop_requested: true, ..process@ }),
{
}

/// A stretch of output stands in the spill file whole, behind the name of its stream.
pub proof fn law_spill_holds_output(is_stderr: bool, bytes: &[u8], r: Vec<u8>)
    requires
        call_ensures(spill_record, (is_stderr, bytes), r),
    ensures
        is_stderr ==> r@ == vstd::utf8::encode_utf8("[stderr] "@) + bytes@,
        !is_stderr ==> r@ == vstd::utf8::encode_utf8("[stdout] "@) + bytes@,
        r@.skip(r@.len() - bytes@.len()) == bytes@,
{
    assert(r@.skip(r@.len() - bytes@.len()) =~= bytes@);
}

/// The exit code of a child is its own if it has one; a signal is told by its negated number.
pub proof fn law_exit_code(status: ExitReport, r: i32)
    requires
        status.signal != Some(i32::MIN),
        call_ensures(exit_status_code, (status,), r),
    ensures
        status.code matches Some(code) ==> r == code,
        status.code is None ==> (status.signal matches Some(signal) ==> r + signal == 0),
        status.code is None && status.signal is None ==> r == -1,
{
}

/// A process has ended exactly if it does not run, and the audit of a call tells apart how it
/// ended: only a process that runs or succeeded makes a call that succeeded.
pub proof fn law_status_in_audit(status: ProcessStatus, ended: bool, audit: AuditStatus)
    requires
        call_ensures(ProcessStatus::is_terminal, (status,), ended),
        call_ensures(ProcessStatus::audit_status, (status,), audit),
    ensures
        ended <==> status != ProcessStatus::Running,
        audit == AuditStatus::Succeeded <==> status == ProcessStatus::Running || status
            == ProcessStatus::Succeeded,
        audit == AuditStatus::Failed <==> status == ProcessStatus::Failed,
        audit == AuditStatus::Cancelled <==> status == ProcessStatus::Cancelled,
        audit == AuditStatus::TimedOut <==> status == ProcessStatus::TimedOut,
{
}

} // verus!
