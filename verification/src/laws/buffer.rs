//! The window on an output stream: what goes in, what stays, and what a read gives.

use crate::buffer::{utf8_lossy, BoundedBuffer};
use vstd::prelude::*;

verus! {

/// A new window is empty and has the room that was asked for, a byte at least.
pub proof fn law_new_window(capacity: usize, buffer: BoundedBuffer, total: u64, truncated: bool)
    requires
        call_ensures(BoundedBuffer::new, (capacity,), buffer),
        call_ensures(BoundedBuffer::total_bytes, (&buffer,), total),
        call_ensures(BoundedBuffer::truncated, (&buffer,), truncated),
    ensures
        buffer@.retained.len() == 0,
        total == 0,
        !truncated,
        capacity > 0 ==> buffer@.capacity == capacity,
        capacity == 0 ==> buffer@.capacity == 1,
{
}

/// Bytes that go in are counted, all of them; as many of the last bytes stay as there is room
/// for, in their order, and the window is truncated from the first byte on that does not.
pub proof fn law_window_keeps_the_last(bytes: &[u8])
    ensures
        forall|buffer: &mut BoundedBuffer| #[trigger]
            call_ensures(BoundedBuffer::append, (buffer, bytes), ()) ==> {
                let (before, after) = (buffer@, final(buffer)@);
                let all = before.retained + bytes@;
                &&& after.capacity == before.capacity
                &&& all.len() <= before.capacity ==> after.retained == all && after.truncated
                    == before.truncated
                &&& all.len() > before.capacity ==> after.retained == all.skip(
                    all.len() - before.capacity,
                ) && after.truncated
                &&& before.total + bytes@.len() <= u64::MAX ==> after.total == before.total
                    + bytes@.len()
                &&& before.total + bytes@.len() > u64::MAX ==> after.total == u64::MAX
            },
{
    assert forall|buffer: &mut BoundedBuffer| #[trigger]
        call_ensures(BoundedBuffer::append, (buffer, bytes), ()) implies ({
        let all = buffer@.retained + bytes@;
        all.skip(0) == all
    }) by {
        let all = buffer@.retained + bytes@;
        assert(all.skip(0) =~= all);
    }
}

/// A read gives the bytes of the window from an offset on: from the requested one if the window
/// holds it, from the beginning of the window if it lies before or none was requested, and
/// nothing behind the end. It tells of bytes that are missing exactly if the requested offset
/// lies before the window.
pub proof fn law_read_starts_where_asked(
    buffer: &BoundedBuffer,
    requested: Option<u64>,
    r: (Vec<u8>, u64, bool),
    text: (String, u64, bool),
)
    requires
        buffer@.well_formed(),
        call_ensures(BoundedBuffer::window, (buffer, requested), r),
        call_ensures(BoundedBuffer::snapshot, (buffer, requested), text),
    ensures
        ({
            let start = buffer@.total - buffer@.retained.len();
            &&& start <= r.1 <= buffer@.total
            &&& r.0@ == buffer@.retained.skip(r.1 - start)
            &&& requested is None ==> r.1 == start && !r.2
            &&& requested matches Some(offset) ==> {
                &&& r.2 <==> offset < start
                &&& offset < start ==> r.1 == start
                &&& start <= offset <= buffer@.total ==> r.1 == offset
                &&& offset > buffer@.total ==> r.1 == buffer@.total
            }
        }),
        text.0@ == utf8_lossy(r.0@),
        vstd::utf8::valid_utf8(r.0@) ==> text.0@ == vstd::utf8::decode_utf8(r.0@),
        text.1 == r.1,
        text.2 == r.2,
{
}

} // verus!
