//! Spans of time, settings, errors, ids and the hexadecimal text of bytes.

use crate::clock::Duration;
use crate::config::ProcessSupervisorConfig;
use crate::digest::{hex, hex_text, random_uuid};
use crate::error::Error;
use crate::json_text::{hex_value, lemma_hex_digit};
use crate::supervisor::{new_process_id, process_id_from, spill_file_name};
use vstd::prelude::*;

verus! {

/// A millisecond is a million nanoseconds and a second a thousand million; of two spans one is
/// the shorter and the other the longer, and one reaches the other if it is no shorter.
pub proof fn law_spans(
    n: u64,
    millis: Duration,
    secs: Duration,
    a: Duration,
    b: Duration,
    shorter: Duration,
    longer: Duration,
    reaches: bool,
)
    requires
        call_ensures(Duration::from_millis, (n,), millis),
        call_ensures(Duration::from_secs, (n,), secs),
        call_ensures(Duration::shorter, (a, b), shorter),
        call_ensures(Duration::longer, (a, b), longer),
        call_ensures(Duration::reaches, (a, b), reaches),
    ensures
        millis.nanos == n * 1_000_000,
        secs.nanos == n * 1_000_000_000,
        shorter.nanos <= a.nanos && shorter.nanos <= b.nanos,
        longer.nanos >= a.nanos && longer.nanos >= b.nanos,
        shorter.nanos + longer.nanos == a.nanos + b.nanos,
        reaches <==> a.nanos >= b.nanos,
        a@ == a.nanos,
{
}

/// Settings within their bounds are kept, and each that is not is moved to its bound.
pub proof fn law_settings(
    config: ProcessSupervisorConfig,
    r: ProcessSupervisorConfig,
    default: ProcessSupervisorConfig,
)
    requires
        call_ensures(ProcessSupervisorConfig::clamp_to_bounds, (config,), r),
        call_ensures(ProcessSupervisorConfig::default, (), default),
    ensures
        r.output_capacity == if config.output_capacity == 0 {
            1
        } else {
            config.output_capacity
        },
        r.poll_interval.nanos == if config.poll_interval.nanos < 1_000_000 {
            1_000_000
        } else {
            config.poll_interval.nanos
        },
        r.kill_grace.nanos == if config.kill_grace.nanos > 5_000_000_000 {
            5_000_000_000
        } else {
            config.kill_grace.nanos
        },
        default.output_capacity == 1_000_000,
        default.poll_interval.nanos == 10_000_000,
        default.kill_grace.nanos == 250_000_000,
{
}

/// An error keeps the texts that it was made with, and its message is one of them.
pub proof fn law_errors_keep_their_texts(
    tool: &str,
    message: String,
    of_tool: Error,
    of_input: Error,
    said_by_tool: &str,
    said_of_input: &str,
)
    requires
        call_ensures(Error::tool, (tool, message), of_tool),
        call_ensures(Error::validation, (message,), of_input),
        call_ensures(Error::message, (&of_tool,), said_by_tool),
        call_ensures(Error::message, (&of_input,), said_of_input),
    ensures
        of_tool matches Error::Tool { tool: t, message: m } && t@ == tool@ && m@ == message@,
        of_input matches Error::Validation(m) && m@ == message@,
        said_by_tool@ == message@,
        said_of_input@ == message@,
{
}

/// Each byte can be read back from its two small hexadecimal digits, the high half first.
pub proof fn law_hex_can_be_read_back(bytes: &[u8], r: String, i: int)
    requires
        call_ensures(hex, (bytes,), r),
    ensures
        r@.len() == 2 * bytes@.len(),
        0 <= i < bytes@.len() ==> {
            let (high, low) = (hex_value(r@[2 * i]), hex_value(r@[2 * i + 1]));
            &&& high is Some && low is Some
            &&& bytes@[i] == 16 * high->0 + low->0
            &&& !('A' <= r@[2 * i] <= 'F') && !('A' <= r@[2 * i + 1] <= 'F')
        },
{
    lemma_hex(bytes@, i);
}

/// The digits of a byte in a hexadecimal text.
proof fn lemma_hex(bytes: Seq<u8>, i: int)
    ensures
        hex_text(bytes).len() == 2 * bytes.len(),
        0 <= i < bytes.len() ==> {
            let t = hex_text(bytes);
            let (high, low) = (hex_value(t[2 * i]), hex_value(t[2 * i + 1]));
            &&& high is Some && low is Some
            &&& bytes[i] == 16 * high->0 + low->0
            &&& !('A' <= t[2 * i] <= 'F') && !('A' <= t[2 * i + 1] <= 'F')
        },
    decreases bytes.len(),
{
    if bytes.len() > 0 {
        let front = bytes.drop_last();
        lemma_hex(front, i);
        let b = bytes.last() as int;
        lemma_hex_digit(b / 16);
        lemma_hex_digit(b % 16);
        reveal_strlit("0123456789abcdef");
        if 0 <= i < front.len() {
            assert(bytes[i] == front[i]);
            assert(hex_text(bytes)[2 * i] == hex_text(front)[2 * i]);
            assert(hex_text(bytes)[2 * i + 1] == hex_text(front)[2 * i + 1]);
        }
    }
}

/// A process id is told by its beginning and holds the bytes that it was made of; a new one is
/// made of a random UUID.
pub proof fn law_ids(uuid: &[u8; 16], id: String, drawn: String)
    requires
        call_ensures(process_id_from, (uuid,), id),
        call_ensures(new_process_id, (), drawn),
    ensures
        id@ == "proc_"@ + hex_text(uuid@),
        drawn@.take("proc_"@.len() as int) == "proc_"@,
        exists|bytes: Seq<u8>| #[trigger]
            random_uuid(bytes) && drawn@ == "proc_"@ + hex_text(bytes),
{
    let bytes = choose|bytes: Seq<u8>|
        random_uuid(bytes) && drawn@ == #[trigger] crate::supervisor::process_id_text(bytes);
    assert(random_uuid(bytes));
    assert(drawn@.take("proc_"@.len() as int) =~= "proc_"@);
}

/// The spill file of a process is named after it.
pub proof fn law_spill_name(id: &str, name: String)
    requires
        call_ensures(spill_file_name, (id,), name),
    ensures
        name@ == "pi-"@ + id@ + ".log"@,
{
}

/// A random UUID says so: it is of version four and of the common variant.
pub proof fn law_random_uuid(bytes: Seq<u8>)
    ensures
        random_uuid(bytes) <==> bytes.len() == 16 && bytes[6] / 16 == 4 && bytes[8] / 64 == 2,
{
}

} // verus!
