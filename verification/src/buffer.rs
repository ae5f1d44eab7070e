//! A bounded window on an output stream.

use std::collections::VecDeque;
use vstd::prelude::*;

verus! {

/// The last bytes of a stream, with a count of all bytes that went through it.
#[derive(Debug)]
pub struct BoundedBuffer {
    bytes: VecDeque<u8>,
    capacity: usize,
    total_bytes: u64,
    truncated: bool,
}

/// What a bounded buffer holds.
#[verifier::ext_equal]
pub struct BufferModel {
    pub retained: Seq<u8>,
    pub capacity: nat,
    pub total: nat,
    pub truncated: bool,
}

impl View for BoundedBuffer {
    type V = BufferModel;

    closed spec fn view(&self) -> BufferModel {
        BufferModel {
            retained: self.bytes@,
            capacity: self.capacity as nat,
            total: self.total_bytes as nat,
            truncated: self.truncated,
        }
    }
}

/// The smaller of two numbers.
pub open spec fn min(a: int, b: int) -> int {
    if a <= b {
        a
    } else {
        b
    }
}

/// What a read of a buffer gives: the bytes, the stream offset of the first of
/// them, and whether bytes between the requested offset and the window are gone.
#[verifier::ext_equal]
pub struct WindowModel {
    pub bytes: Seq<u8>,
    pub offset: nat,
    pub gap: bool,
}

impl BufferModel {
    /// Whether the window is within its bound and no longer than the stream.
    pub open spec fn well_formed(self) -> bool {
        &&& 1 <= self.capacity <= usize::MAX
        &&& self.retained.len() <= self.capacity
        &&& self.retained.len() <= self.total <= u64::MAX
    }

    /// The buffer after bytes went in: the window keeps the last bytes.
    pub open spec fn appended(self, bytes: Seq<u8>) -> BufferModel {
        let all = self.retained + bytes;
        let dropped: int = if all.len() > self.capacity {
            all.len() - self.capacity
        } else {
            0
        };
        BufferModel {
            retained: all.skip(dropped),
            capacity: self.capacity,
            total: min((self.total + bytes.len()) as int, u64::MAX as int) as nat,
            truncated: self.truncated || dropped > 0,
        }
    }

    /// The stream offset of the first byte in the window.
    pub open spec fn start(self) -> int {
        self.total - self.retained.len()
    }

    /// A read from the requested offset, or of the whole window.
    pub open spec fn window(self, requested: Option<u64>) -> WindowModel {
        let from: int = match requested {
            Some(offset) => offset as int,
            None => self.start(),
        };
        let offset: int = if from < self.start() {
            self.start()
        } else {
            min(from, self.total as int)
        };
        WindowModel {
            bytes: self.retained.skip(offset - self.start()),
            offset: offset as nat,
            gap: from < self.start(),
        }
    }

    /// Whether this is the buffer of a stream that has carried exactly `stream`:
    /// its last bytes are retained, and something is truncated if they are not all.
    pub open spec fn carried(self, stream: Seq<u8>) -> bool {
        &&& self.retained.len() == min(stream.len() as int, self.capacity as int)
        &&& self.retained == stream.skip(stream.len() - self.retained.len())
        &&& self.total == min(stream.len() as int, u64::MAX as int)
        &&& self.truncated == (stream.len() > self.capacity)
    }
}

/// The text of bytes with every invalid UTF-8 sequence replaced, as
/// `String::from_utf8_lossy` gives it.
pub uninterp spec fn utf8_lossy(bytes: Seq<u8>) -> Seq<char>;

/// `String::from_utf8_lossy`: the text is a function of the bytes alone. Valid
/// UTF-8 is decoded; what is not valid is replaced and never vanishes, so the text
/// is empty exactly if there are no bytes.
#[verifier::external_body]
fn lossy_text(bytes: &[u8]) -> (r: String)
    ensures
        r@ == utf8_lossy(bytes@),
        vstd::utf8::valid_utf8(bytes@) ==> r@ == vstd::utf8::decode_utf8(bytes@),
        (r@.len() == 0) == (bytes@.len() == 0),
{
    String::from_utf8_lossy(bytes).into_owned()
}

impl BoundedBuffer {
    /// An empty buffer; a capacity of zero counts as one.
    pub fn new(capacity: usize) -> (r: Self)
        ensures
            r@ == (BufferModel {
                retained: seq![],
                capacity: if capacity >= 1 {
                    capacity as nat
                } else {
                    1
                },
                total: 0,
                truncated: false,
            }),
            r@.well_formed(),
    {
        let reserve: usize = if capacity <= 65536 {
            capacity
        } else {
            65536
        };
        let capacity: usize = if capacity >= 1 {
            capacity
        } else {
            1
        };
        BoundedBuffer {
            bytes: VecDeque::with_capacity(reserve),
            capacity,
            total_bytes: 0,
            truncated: false,
        }
    }

    /// Let bytes go in; the oldest leave a full window.
    pub fn append(&mut self, bytes: &[u8])
        requires
            old(self)@.well_formed(),
        ensures
            final(self)@ == old(self)@.appended(bytes@),
            final(self)@.well_formed(),
    {
        self.total_bytes = self.total_bytes.saturating_add(bytes.len() as u64);
        let mut i: usize = 0;
        let ghost before = old(self)@.retained;
        while i < bytes.len()
            invariant
                i <= bytes@.len(),
                self.bytes@ == before + bytes@.take(i as int),
                self.capacity == old(self).capacity,
                self.truncated == old(self).truncated,
                self.total_bytes == min((old(self)@.total + bytes@.len()) as int, u64::MAX as int),
            decreases bytes@.len() - i,
        {
            self.bytes.push_back(bytes[i]);
            i += 1;
        }
        let ghost all = self.bytes@;
        assert(bytes@.take(bytes@.len() as int) == bytes@);
        assert(all.skip(0) == all);
        while self.bytes.len() > self.capacity
            invariant
                all == before + bytes@,
                self.bytes@.len() <= all.len(),
                self.bytes@ == all.skip(all.len() - self.bytes@.len()),
                self.capacity == old(self).capacity,
                self.capacity >= 1,
                self.bytes@.len() < all.len() ==> self.bytes@.len() >= self.capacity,
                self.truncated == (old(self).truncated || self.bytes@.len() < all.len()),
                self.total_bytes == min((old(self)@.total + bytes@.len()) as int, u64::MAX as int),
            decreases self.bytes@.len(),
        {
            self.bytes.pop_front();
            self.truncated = true;
        }
    }

    /// The bytes of the window from the requested offset, as `snapshot` reads them.
    pub fn window(&self, requested_offset: Option<u64>) -> (r: (Vec<u8>, u64, bool))
        requires
            self@.well_formed(),
        ensures
            self@.window(requested_offset) == (WindowModel {
                bytes: r.0@,
                offset: r.1 as nat,
                gap: r.2,
            }),
    {
        let retained_start: u64 = self.total_bytes.saturating_sub(self.bytes.len() as u64);
        let requested: u64 = match requested_offset {
            Some(offset) => offset,
            None => retained_start,
        };
        let effective: u64 = if requested < retained_start {
            retained_start
        } else if requested < self.total_bytes {
            requested
        } else {
            self.total_bytes
        };
        let skip: usize = (effective - retained_start) as usize;
        let mut bytes: Vec<u8> = Vec::new();
        let mut i: usize = skip;
        while i < self.bytes.len()
            invariant
                skip <= i <= self.bytes@.len(),
                bytes@ == self.bytes@.subrange(skip as int, i as int),
            decreases self.bytes@.len() - i,
        {
            bytes.push(self.bytes[i]);
            i += 1;
        }
        assert(bytes@ == self.bytes@.skip(skip as int));
        (bytes, effective, requested < retained_start)
    }

    /// The text of the window from the requested offset or of the whole window, the
    /// stream offset where it starts, and whether requested bytes are gone.
    pub fn snapshot(&self, requested_offset: Option<u64>) -> (r: (String, u64, bool))
        requires
            self@.well_formed(),
        ensures
            r.0@ == utf8_lossy(self@.window(requested_offset).bytes),
            vstd::utf8::valid_utf8(self@.window(requested_offset).bytes) ==> r.0@
                == vstd::utf8::decode_utf8(self@.window(requested_offset).bytes),
            (r.0@.len() == 0) == (self@.window(requested_offset).bytes.len() == 0),
            r.1 == self@.window(requested_offset).offset,
            r.2 == self@.window(requested_offset).gap,
    {
        let (bytes, effective, gap) = self.window(requested_offset);
        (lossy_text(bytes.as_slice()), effective, gap)
    }

    /// How many bytes went through, up to the largest count.
    pub fn total_bytes(&self) -> (r: u64)
        ensures
            r == self@.total,
    {
        self.total_bytes
    }

    /// Whether bytes have left the window.
    pub fn truncated(&self) -> (r: bool)
        ensures
            r == self@.truncated,
    {
        self.truncated
    }
}

/// Appending to the buffer of a stream gives the buffer of the longer stream: the
/// buffer goes on to hold the last bytes of everything that went in, to count all of
/// it, and to be truncated exactly if it could not keep all.
pub proof fn law_buffer_follows_stream(buffer: BufferModel, stream: Seq<u8>, bytes: Seq<u8>)
    requires
        buffer.well_formed(),
        buffer.carried(stream),
    ensures
        buffer.appended(bytes).carried(stream + bytes),
{
    let all = buffer.retained + bytes;
    let whole = stream + bytes;
    let next = buffer.appended(bytes);
    assert(next.retained.len() == min(whole.len() as int, buffer.capacity as int));
    assert(all == whole.skip(whole.len() - all.len()));
    assert(next.retained == whole.skip(whole.len() - next.retained.len()));
}

/// A buffer that has taken nothing is that of the empty stream.
pub proof fn law_empty_buffer_carried_nothing(buffer: BufferModel)
    requires
        buffer.well_formed(),
        buffer.retained.len() == 0,
        buffer.total == 0,
        !buffer.truncated,
    ensures
        buffer.carried(seq![]),
{
    assert(buffer.retained == Seq::<u8>::empty().skip(0));
}

/// A read gives back what was written: all bytes of the stream from the offset it
/// reports on, which is the requested one unless that lies before the window or
/// behind the end. Streams past the largest count are left out.
pub proof fn law_read_gives_back_stream(buffer: BufferModel, stream: Seq<u8>, requested: Option<u64>)
    requires
        buffer.well_formed(),
        buffer.carried(stream),
        stream.len() <= u64::MAX,
    ensures
        ({
            let read = buffer.window(requested);
            &&& read.offset <= stream.len()
            &&& read.bytes == stream.skip(read.offset as int)
            &&& requested matches Some(offset) ==> read.gap == (offset < buffer.start())
            &&& requested matches Some(offset) ==> !read.gap && offset <= stream.len()
                ==> read.offset == offset
            &&& requested is None ==> !read.gap && read.offset == buffer.start()
        }),
{
    let read = buffer.window(requested);
    assert(read.bytes == stream.skip(read.offset as int));
}

/// Reads that continue where the stream ended before lose and repeat nothing: what
/// was read up to the old end, followed by a read from there without a gap, is the
/// stream from the first offset on.
pub proof fn law_reads_continue(
    earlier: BufferModel,
    later: BufferModel,
    stream: Seq<u8>,
    more: Seq<u8>,
    requested: Option<u64>,
)
    requires
        earlier.well_formed(),
        later.well_formed(),
        earlier.carried(stream),
        later.carried(stream + more),
        (stream + more).len() <= u64::MAX,
        !later.window(Some(stream.len() as u64)).gap,
    ensures
        earlier.window(requested).bytes + later.window(Some(stream.len() as u64)).bytes == (stream
            + more).skip(earlier.window(requested).offset as int),
        later.window(Some(stream.len() as u64)).bytes == more,
{
    law_read_gives_back_stream(earlier, stream, requested);
    law_read_gives_back_stream(later, stream + more, Some(stream.len() as u64));
    let first = earlier.window(requested);
    let second = later.window(Some(stream.len() as u64));
    assert(second.offset == stream.len());
    assert(second.bytes == more);
    assert(first.bytes + more == (stream + more).skip(first.offset as int));
}

} // verus!
