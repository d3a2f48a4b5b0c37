//! Incremental Annex-B access-unit splitter.
//!
//! A [`ChunkedReader`] owns a growable, bounded byte buffer and consumes a
//! [`ByteSource`] that may deliver data a few bytes at a time or many
//! kilobytes at once.  Each call of [`ChunkedReader::next_chunk`] yields one
//! complete access unit: the bytes from one start code up to (excluding) the
//! next one, or the remaining tail once the source reports end of stream.
//!
//! What `next_chunk` returns is pinned down by the pure function
//! [`split_step`], which depends only on the not-yet-emitted byte stream and
//! the configured maximum buffer size — never on how the source chunks its
//! deliveries.

use vstd::prelude::*;

use crate::start_code::find_code3;
use crate::start_code::find_start_code;
use crate::start_code::is_code3_at;
use crate::start_code::lemma_find_code3_agree;
use crate::start_code::lemma_find_code3_extend;
use crate::start_code::lemma_find_code3_first;
use crate::start_code::lemma_find_code3_none_then_late;
use crate::start_code::lemma_find_code3_some;
use crate::start_code::widen_code;

verus! {

/// Failure conditions of the splitter.
#[derive(Debug, Clone, Copy, PartialEq, Eq, Structural)]
pub enum ChunkedError {
    /// The byte source failed; the stream state is unchanged.
    Io,
    /// The buffered data does not begin with an Annex-B start code.
    NoAnnexBStartCode,
    /// A single access unit would need more buffer space than the
    /// configured maximum (carried in the payload).
    MaxBufferSize(usize),
}

/// A sequential byte source, such as a file, a socket, or an in-memory
/// buffer.  A read delivers the next bytes of one fixed underlying stream;
/// zero bytes delivered into free space means end of stream.
pub trait ByteSource {
    /// Validity of the source's own state.
    spec fn inv(&self) -> bool;

    /// The bytes the source has not yet delivered.
    spec fn remaining(&self) -> Seq<u8>;

    /// Whether a read from this source can fail at all.  An in-memory
    /// source cannot; a file or socket can.
    spec fn can_fail(&self) -> bool;

    /// Read some bytes into `buf[start..]`, returning how many were read.
    fn read_into(&mut self, buf: &mut Vec<u8>, start: usize) -> (r: Result<usize, ChunkedError>)
        requires
            old(self).inv(),
            start <= old(buf).len(),
        ensures
            final(self).inv(),
            final(self).can_fail() == old(self).can_fail(),
            final(buf).len() == old(buf).len(),
            match r {
                Ok(n) => {
                    &&& n <= old(buf).len() - start
                    &&& n <= old(self).remaining().len()
                    &&& final(self).remaining() == old(self).remaining().skip(n as int)
                    &&& forall|j: int|
                        0 <= j < start || start + n <= j < final(buf).len() ==> final(buf)@[j]
                            == old(buf)@[j]
                    &&& forall|j: int|
                        0 <= j < n ==> final(buf)@[start + j] == old(self).remaining()[j]
                    &&& n == 0 ==> old(self).remaining().len() == 0 || start == old(buf).len()
                }
                Err(e) => {
                    &&& e == ChunkedError::Io
                    &&& old(self).can_fail()
                    &&& final(buf)@ == old(buf)@
                    &&& final(self).remaining() == old(self).remaining()
                }
            },
    ;
}

/// An in-memory byte source that delivers at most `max_read` bytes per read
/// call, so that tests can exercise any delivery pattern from one byte at a
/// time up to the whole stream at once.
pub struct MemSource {
    data: Vec<u8>,
    pos: usize,
    max_read: usize,
}

impl MemSource {
    /// A source that delivers as much as fits per read.
    pub fn new(data: Vec<u8>) -> (r: MemSource)
        ensures
            r.inv(),
            r.remaining() == data@,
            !r.can_fail(),
    {
        MemSource { data, pos: 0, max_read: usize::MAX }
    }

    /// A source that delivers at most `max_read` bytes per read.
    pub fn with_max_read(data: Vec<u8>, max_read: usize) -> (r: MemSource)
        requires
            max_read >= 1,
        ensures
            r.inv(),
            r.remaining() == data@,
            !r.can_fail(),
    {
        MemSource { data, pos: 0, max_read }
    }
}

impl ByteSource for MemSource {
    closed spec fn inv(&self) -> bool {
        self.pos <= self.data.len() && self.max_read >= 1
    }

    closed spec fn remaining(&self) -> Seq<u8> {
        self.data@.skip(self.pos as int)
    }

    closed spec fn can_fail(&self) -> bool {
        false
    }

    fn read_into(&mut self, buf: &mut Vec<u8>, start: usize) -> (r: Result<usize, ChunkedError>) {
        let avail = self.data.len() - self.pos;
        let space = buf.len() - start;
        let mut n = if avail < space {
            avail
        } else {
            space
        };
        if self.max_read < n {
            n = self.max_read;
        }
        let mut j: usize = 0;
        while j < n
            invariant
                n <= self.data.len() - self.pos,
                n <= buf.len() - start,
                j <= n,
                self == old(self),
                buf.len() == old(buf).len(),
                forall|m: int|
                    0 <= m < start || start + j <= m < buf.len() ==> buf@[m] == old(buf)@[m],
                forall|m: int| 0 <= m < j ==> #[trigger] buf@[start + m] == self.data@[self.pos + m],
            decreases n - j,
        {
            let b = self.data[self.pos + j];
            buf.set(start + j, b);
            j = j + 1;
        }
        self.pos = self.pos + n;
        proof {
            assert(self.remaining() =~= old(self).remaining().skip(n as int));
            assert forall|m: int| 0 <= m < n implies buf@[start + m] == old(
                self,
            ).remaining()[m] by {
                assert(buf@[start + m] == old(self).data@[old(self).pos + m]);
            }
        }
        Ok(n)
    }
}

/// An in-memory byte source whose next few reads fail before it delivers,
/// for exercising how callers handle and retry source failures.
pub struct FaultySource {
    data: Vec<u8>,
    pos: usize,
    pending_faults: usize,
}

impl FaultySource {
    /// A source over `data` whose next `pending_faults` reads fail.
    pub fn new(data: Vec<u8>, pending_faults: usize) -> (r: FaultySource)
        ensures
            r.inv(),
            r.remaining() == data@,
    {
        FaultySource { data, pos: 0, pending_faults }
    }
}

impl ByteSource for FaultySource {
    closed spec fn inv(&self) -> bool {
        self.pos <= self.data.len()
    }

    closed spec fn remaining(&self) -> Seq<u8> {
        self.data@.skip(self.pos as int)
    }

    closed spec fn can_fail(&self) -> bool {
        true
    }

    fn read_into(&mut self, buf: &mut Vec<u8>, start: usize) -> (r: Result<usize, ChunkedError>) {
        if self.pending_faults > 0 {
            self.pending_faults = self.pending_faults - 1;
            return Err(ChunkedError::Io);
        }
        let avail = self.data.len() - self.pos;
        let space = buf.len() - start;
        let n = if avail < space {
            avail
        } else {
            space
        };
        let mut j: usize = 0;
        while j < n
            invariant
                n <= self.data.len() - self.pos,
                n <= buf.len() - start,
                j <= n,
                self == old(self),
                buf.len() == old(buf).len(),
                forall|m: int|
                    0 <= m < start || start + j <= m < buf.len() ==> buf@[m] == old(buf)@[m],
                forall|m: int|
                    0 <= m < j ==> #[trigger] buf@[start + m] == self.data@[self.pos + m],
            decreases n - j,
        {
            let b = self.data[self.pos + j];
            buf.set(start + j, b);
            j = j + 1;
        }
        self.pos = self.pos + n;
        proof {
            assert(self.remaining() =~= old(self).remaining().skip(n as int));
            assert forall|m: int| 0 <= m < n implies buf@[start + m] == old(
                self,
            ).remaining()[m] by {
                assert(buf@[start + m] == old(self).data@[old(self).pos + m]);
            }
        }
        Ok(n)
    }
}

/// The not-yet-emitted stream begins with a start code: either the
/// three-byte form `00 00 01` or the four-byte form `00 00 00 01`.
pub open spec fn starts_with_start_code(u: Seq<u8>) -> bool {
    ||| (u.len() >= 3 && u[0] == 0u8 && u[1] == 0u8 && u[2] == 1u8)
    ||| (u.len() >= 4 && u[0] == 0u8 && u[1] == 0u8 && u[2] == 0u8 && u[3] == 1u8)
}

/// The prefix `p` of a stream already shows that the stream cannot begin
/// with a start code, no matter what follows.
pub open spec fn prefix_rules_out_start_code(p: Seq<u8>) -> bool {
    ||| (p.len() >= 1 && p[0] != 0u8)
    ||| (p.len() >= 2 && p[1] != 0u8)
    ||| (p.len() >= 3 && p[2] != 0u8 && p[2] != 1u8)
    ||| (p.len() >= 4 && p[2] == 0u8 && p[3] != 1u8)
}

/// What one `next_chunk` call on a well-formed reader returns and consumes,
/// as a pure function of the not-yet-emitted stream `u` and the maximum
/// buffer size `max`:
///
/// - an empty stream yields "no more chunks";
/// - a stream that does not begin with a start code is malformed;
/// - otherwise the chunk ends where the next start code (scanned from
///   offset 3, with the one-byte widening) begins, or at the end of the
///   stream when no further start code follows; a chunk whose end cannot be
///   discovered within `max` buffered bytes exceeds the buffer bound.
pub open spec fn split_step(u: Seq<u8>, max: usize) -> Result<Option<Seq<u8>>, ChunkedError> {
    if u.len() == 0 {
        Ok(None)
    } else if !starts_with_start_code(u) {
        Err(ChunkedError::NoAnnexBStartCode)
    } else {
        match find_code3(u, 3, u.len() as int) {
            Some(i) => {
                if i + 3 <= max {
                    Ok(Some(u.take(widen_code(u, 3, i))))
                } else {
                    Err(ChunkedError::MaxBufferSize(max))
                }
            },
            None => {
                if u.len() < max {
                    Ok(Some(u))
                } else {
                    Err(ChunkedError::MaxBufferSize(max))
                }
            },
        }
    }
}

/// A prefix that rules a start code out does so for every extension.
proof fn lemma_ruled_out(u: Seq<u8>, m: int)
    requires
        0 <= m <= u.len(),
        prefix_rules_out_start_code(u.take(m)),
    ensures
        !starts_with_start_code(u),
{
}

/// A prefix that already shows a start code shows one for the stream.
proof fn lemma_confirmed(u: Seq<u8>, m: int)
    requires
        0 <= m <= u.len(),
        starts_with_start_code(u.take(m)),
    ensures
        starts_with_start_code(u),
{
}

/// Status of the first few buffered bytes against the start-code
/// precondition.
enum PrefixStatus {
    /// The buffer begins with a complete start code.
    Confirmed,
    /// No extension of the buffered bytes can begin with a start code.
    RuledOut,
    /// Fewer than four bytes are buffered and they are still a proper
    /// prefix of a start code.
    Undecided,
}

/// The incremental access-unit splitter.
///
/// `buffer[..end]` holds bytes received from the source and not yet emitted,
/// except that `buffer[..next_start]` is the chunk handed out by the latest
/// `next_chunk` call, which the next call discards (compaction).  The buffer
/// grows by `page_size` bytes at a time and never beyond `max_buffer_size`.
pub struct ChunkedReader<S: ByteSource> {
    source: S,
    buffer: Vec<u8>,
    next_start: usize,
    end: usize,
    page_size: usize,
    max_buffer_size: usize,
}

impl<S: ByteSource> ChunkedReader<S> {
    /// Validity of the reader's state.
    pub closed spec fn wf(&self) -> bool {
        &&& self.next_start <= self.end <= self.buffer.len()
        &&& 4 <= self.page_size <= self.max_buffer_size
        &&& self.page_size <= self.buffer.len() <= self.max_buffer_size
        &&& self.source.inv()
    }

    /// The bytes not yet emitted as part of a chunk: the unconsumed tail of
    /// the buffer followed by everything the source still holds.
    pub closed spec fn unread(&self) -> Seq<u8> {
        self.buffer@.subrange(self.next_start as int, self.end as int) + self.source.remaining()
    }

    /// The configured maximum buffer size.
    pub closed spec fn spec_max(&self) -> usize {
        self.max_buffer_size
    }

    /// The configured page size.
    pub closed spec fn spec_page(&self) -> usize {
        self.page_size
    }

    /// Current capacity of the internal buffer.
    pub closed spec fn capacity(&self) -> usize {
        self.buffer.len()
    }

    /// How many buffered bytes have been received from the source.
    pub closed spec fn spec_end(&self) -> usize {
        self.end
    }

    /// Where the unconsumed buffered bytes begin.
    pub closed spec fn spec_next_start(&self) -> usize {
        self.next_start
    }

    /// All buffered received bytes, including the already emitted head.
    pub closed spec fn buffered(&self) -> Seq<u8> {
        self.buffer@.take(self.end as int)
    }

    /// Whether the reader's source can fail at all.
    pub closed spec fn source_can_fail(&self) -> bool {
        self.source.can_fail()
    }

    /// A reader with the default page size (16 KiB) and maximum buffer
    /// size (16 MiB).
    pub fn new(source: S) -> (r: ChunkedReader<S>)
        requires
            source.inv(),
        ensures
            r.wf(),
            r.unread() == source.remaining(),
            r.source_can_fail() == source.can_fail(),
            r.spec_max() == 16 * 1024 * 1024usize,
            r.spec_page() == 16 * 1024usize,
            r.capacity() == r.spec_page(),
            r.spec_end() == 0,
            r.spec_next_start() == 0,
    {
        Self::custom(source, 16 * 1024, 16 * 1024 * 1024)
    }

    /// A reader with explicit page and maximum buffer sizes.  The buffer
    /// must be able to hold at least one complete four-byte start code, so
    /// the page size must be at least 4.
    pub fn custom(source: S, page_size: usize, max_buffer_size: usize) -> (r: ChunkedReader<S>)
        requires
            source.inv(),
            4 <= page_size <= max_buffer_size,
        ensures
            r.wf(),
            r.unread() == source.remaining(),
            r.source_can_fail() == source.can_fail(),
            r.spec_max() == max_buffer_size,
            r.spec_page() == page_size,
            r.capacity() == page_size,
            r.spec_end() == 0,
            r.spec_next_start() == 0,
    {
        let r = ChunkedReader {
            source,
            buffer: vec![0u8; page_size],
            next_start: 0,
            end: 0,
            page_size,
            max_buffer_size,
        };
        proof {
            assert(r.unread() =~= r.source.remaining());
        }
        r
    }

    /// Grow the buffer by one page, capped at the maximum buffer size.
    /// Fails once the buffer has already reached the maximum.
    pub fn increase_buffer_size(&mut self) -> (r: Result<(), ChunkedError>)
        requires
            old(self).wf(),
        ensures
            final(self).wf(),
            final(self).spec_next_start() == old(self).spec_next_start(),
            final(self).spec_end() == old(self).spec_end(),
            final(self).spec_max() == old(self).spec_max(),
            final(self).spec_page() == old(self).spec_page(),
            final(self).buffered() == old(self).buffered(),
            final(self).unread() == old(self).unread(),
            final(self).source_can_fail() == old(self).source_can_fail(),
            match r {
                Ok(()) => {
                    &&& old(self).capacity() < old(self).spec_max()
                    &&& final(self).capacity() > old(self).capacity()
                    &&& final(self).capacity() as int == if old(self).capacity() as int + old(
                        self,
                    ).spec_page() as int <= old(self).spec_max() as int {
                        old(self).capacity() as int + old(self).spec_page() as int
                    } else {
                        old(self).spec_max() as int
                    }
                }
                Err(e) => {
                    &&& e == ChunkedError::MaxBufferSize(old(self).spec_max())
                    &&& old(self).capacity() == old(self).spec_max()
                    &&& *final(self) == *old(self)
                }
            },
    {
        if self.buffer.len() >= self.max_buffer_size {
            return Err(ChunkedError::MaxBufferSize(self.max_buffer_size));
        }
        let room: usize = self.max_buffer_size - self.buffer.len();
        let add: usize = if self.page_size < room {
            self.page_size
        } else {
            room
        };
        let new_len: usize = self.buffer.len() + add;
        self.buffer.resize(new_len, 0u8);
        proof {
            assert(self.unread() =~= old(self).unread());
            assert(self.buffered() =~= old(self).buffered());
        }
        Ok(())
    }

    /// Decide from the first buffered bytes whether the stream begins with a
    /// start code, can no longer begin with one, or is still undecided.
    fn classify_prefix(&self) -> (r: PrefixStatus)
        requires
            1 <= self.end <= self.buffer.len(),
        ensures
            match r {
                PrefixStatus::Confirmed => starts_with_start_code(self.buffered()),
                PrefixStatus::RuledOut => prefix_rules_out_start_code(self.buffered()),
                PrefixStatus::Undecided => self.spec_end() < 4 && !starts_with_start_code(
                    self.buffered(),
                ),
            },
    {
        if self.buffer[0] != 0 {
            return PrefixStatus::RuledOut;
        }
        if self.end >= 2 && self.buffer[1] != 0 {
            return PrefixStatus::RuledOut;
        }
        if self.end >= 3 {
            let b2 = self.buffer[2];
            if b2 == 1 {
                return PrefixStatus::Confirmed;
            }
            if b2 != 0 {
                return PrefixStatus::RuledOut;
            }
            if self.end >= 4 {
                if self.buffer[3] == 1 {
                    return PrefixStatus::Confirmed;
                } else {
                    return PrefixStatus::RuledOut;
                }
            }
        }
        PrefixStatus::Undecided
    }

    /// Scan the buffered bytes for the start code of the next access unit,
    /// starting three bytes in (to skip the current unit's own start code).
    fn scan_after_prefix(&self) -> (r: Option<usize>)
        requires
            self.end <= self.buffer.len(),
        ensures
            match r {
                Some(k) => {
                    &&& find_start_code(self.buffer@, 3, self.spec_end() as int) == Some(k as int)
                    &&& 3 <= k < self.spec_end()
                }
                None => find_code3(self.buffer@, 3, self.spec_end() as int) == None::<int>,
            },
    {
        if self.end < 6 {
            return None;
        }
        let mut i: usize = 3;
        while i <= self.end - 3
            invariant
                6 <= self.end <= self.buffer.len(),
                3 <= i <= self.end - 2,
                forall|j: int| 3 <= j < i ==> !is_code3_at(self.buffer@, j),
            decreases self.end - i,
        {
            if self.buffer[i] == 0 && self.buffer[i + 1] == 0 && self.buffer[i + 2] == 1 {
                proof {
                    lemma_find_code3_first(self.buffer@, 3, self.end as int, i as int);
                }
                if i > 3 && self.buffer[i - 1] == 0 {
                    return Some(i - 1);
                } else {
                    return Some(i);
                }
            }
            i = i + 1;
        }
        proof {
            match find_code3(self.buffer@, 3, self.end as int) {
                Some(w) => lemma_find_code3_some(self.buffer@, 3, self.end as int, w),
                None => (),
            }
        }
        None
    }

    /// Yield the next complete access unit.
    ///
    /// The result is exactly [`split_step`] applied to the not-yet-emitted
    /// stream and the maximum buffer size, whatever the source's delivery
    /// pattern and the page size:
    ///
    /// - `Ok(Some(chunk))`: one access unit, consumed from the stream;
    /// - `Ok(None)`: the stream has ended and nothing is left;
    /// - `Err(NoAnnexBStartCode)`: the stream does not begin with a start
    ///   code;
    /// - `Err(MaxBufferSize(m))`: one access unit would need more than `m`
    ///   buffered bytes;
    /// - `Err(Io)`: the source failed; the stream itself is unchanged.
    #[verifier::loop_isolation(false)]
    #[verifier::rlimit(100)]
    pub fn next_chunk(&mut self) -> (r: Result<Option<Vec<u8>>, ChunkedError>)
        requires
            old(self).wf(),
        ensures
            final(self).wf(),
            final(self).spec_max() == old(self).spec_max(),
            final(self).spec_page() == old(self).spec_page(),
            final(self).source_can_fail() == old(self).source_can_fail(),
            final(self).capacity() >= old(self).capacity(),
            match r {
                Ok(Some(chunk)) => {
                    &&& split_step(old(self).unread(), old(self).spec_max()) == Ok::<Option<Seq<u8>>, ChunkedError>(Some(chunk@))
                    &&& chunk@.len() <= old(self).unread().len()
                    &&& final(self).unread() == old(self).unread().skip(chunk@.len() as int)
                }
                Ok(None) => {
                    &&& old(self).unread().len() == 0
                    &&& final(self).unread().len() == 0
                }
                Err(e) => {
                    &&& final(self).unread() == old(self).unread()
                    &&& (e == ChunkedError::Io && old(self).source_can_fail()) || split_step(
                        old(self).unread(),
                        old(self).spec_max(),
                    ) == Err::<Option<Seq<u8>>, ChunkedError>(e)
                },
            },
    {
        let ghost u: Seq<u8> = old(self).unread();

        // Compact: move the unconsumed tail to the front of the buffer,
        // discarding the chunk emitted by the previous call.
        if self.next_start > 0 {
            let keep: usize = self.end - self.next_start;
            let mut j: usize = 0;
            while j < keep
                invariant
                    j <= keep,
                    keep == self.end - self.next_start,
                    self.next_start == old(self).spec_next_start(),
                    self.end == old(self).spec_end(),
                    1 <= self.next_start <= self.end <= self.buffer.len(),
                    self.buffer.len() == old(self).capacity(),
                    self.source == old(self).source,
                    self.page_size == old(self).spec_page(),
                    self.max_buffer_size == old(self).spec_max(),
                    forall|m: int| j <= m < self.buffer.len() ==> self.buffer@[m] == old(self).buffer@[m],
                    forall|m: int|
                        0 <= m < j ==> #[trigger] self.buffer@[m] == old(self).buffer@[
                            self.next_start + m
                        ],
                decreases keep - j,
            {
                let b = self.buffer[self.next_start + j];
                self.buffer.set(j, b);
                j = j + 1;
            }
            self.end = keep;
            self.next_start = 0;
            proof {
                assert(self.buffer@.take(self.end as int) =~= old(self).buffer@.subrange(
                    old(self).spec_next_start() as int,
                    old(self).spec_end() as int,
                ));
                assert(self.buffer@.take(self.end as int) + self.source.remaining() =~= u);
            }
        }
        proof {
            assert(self.buffer@.take(self.end as int) + self.source.remaining() =~= u);
        }

        loop
            invariant
                self.next_start == 0,
                self.end <= self.buffer.len(),
                4 <= self.page_size <= self.max_buffer_size,
                self.page_size <= self.buffer.len() <= self.max_buffer_size,
                self.source.inv(),
                self.source.can_fail() == old(self).source_can_fail(),
                self.max_buffer_size == old(self).spec_max(),
                self.page_size == old(self).spec_page(),
                self.buffer.len() >= old(self).capacity(),
                self.buffer@.take(self.end as int) + self.source.remaining() == u,
            decreases self.max_buffer_size - self.buffer.len() + self.source.remaining().len(),
        {
            let ghost rem0: Seq<u8> = self.source.remaining();
            let ghost end0: usize = self.end;
            let ghost buf0: Seq<u8> = self.buffer@;
            let n = match self.source.read_into(&mut self.buffer, self.end) {
                Ok(n) => n,
                Err(_) => {
                    return Err(ChunkedError::Io);
                },
            };
            self.end = self.end + n;
            proof {
                assert(self.buffer@.take(self.end as int) =~= buf0.take(end0 as int) + rem0.take(
                    n as int,
                ));
                assert(self.buffer@.take(self.end as int) + self.source.remaining() =~= u);
                assert forall|m: int| 0 <= m < self.end implies u[m] == self.buffer@[m] by {
                    assert(u[m] == self.buffer@.take(self.end as int)[m]);
                }
            }

            if self.end == 0 {
                // Zero bytes read into free space: the stream has ended and
                // nothing was buffered.
                proof {
                    assert(u =~= Seq::<u8>::empty());
                    assert(self.unread() =~= Seq::<u8>::empty());
                }
                return Ok(None);
            }

            match self.classify_prefix() {
                PrefixStatus::RuledOut => {
                    proof {
                        lemma_ruled_out(u, self.end as int);
                        assert(self.buffered() =~= u.take(self.end as int));
                    }
                    return Err(ChunkedError::NoAnnexBStartCode);
                },
                PrefixStatus::Undecided => {
                    if n == 0 {
                        // End of stream while the buffered bytes are still a
                        // proper prefix of a start code: malformed.
                        proof {
                            assert(u =~= self.buffered());
                        }
                        return Err(ChunkedError::NoAnnexBStartCode);
                    }
                    // More bytes may arrive; read again.
                },
                PrefixStatus::Confirmed => {
                    proof {
                        assert(self.buffered() =~= u.take(self.end as int));
                        lemma_confirmed(u, self.end as int);
                    }
                    match self.scan_after_prefix() {
                        Some(k) => {
                            // The next unit's start code begins at `k`:
                            // emit the bytes before it.
                            proof {
                                lemma_find_code3_agree(self.buffer@, u, 3, self.end as int);
                                match find_code3(u, 3, self.end as int) {
                                    Some(i) => {
                                        lemma_find_code3_some(u, 3, self.end as int, i);
                                        lemma_find_code3_extend(
                                            u,
                                            3,
                                            self.end as int,
                                            u.len() as int,
                                            i,
                                        );
                                        assert(widen_code(u, 3, i) == k as int);
                                        assert(split_step(u, self.max_buffer_size)
                                            == Ok::<Option<Seq<u8>>, ChunkedError>(
                                            Some(u.take(k as int)),
                                        ));
                                    },
                                    None => assert(false),
                                }
                            }
                            let mut chunk: Vec<u8> = Vec::new();
                            let mut j: usize = 0;
                            while j < k
                                invariant
                                    j <= k,
                                    k < self.end <= self.buffer.len(),
                                    chunk@ == self.buffer@.take(j as int),
                                decreases k - j,
                            {
                                let b = self.buffer[j];
                                chunk.push(b);
                                j = j + 1;
                            }
                            self.next_start = k;
                            proof {
                                assert(chunk@ =~= u.take(k as int));
                                assert(self.unread() =~= u.skip(k as int));
                            }
                            return Ok(Some(chunk));
                        },
                        None => {
                            proof {
                                lemma_find_code3_agree(self.buffer@, u, 3, self.end as int);
                            }
                            if self.end == self.buffer.len() {
                                // The buffer is full and holds no next start
                                // code: grow it, or give up at the bound.
                                match self.increase_buffer_size() {
                                    Ok(()) => (),
                                    Err(e) => {
                                        proof {
                                            assert(u.len() >= self.end);
                                            match find_code3(u, 3, u.len() as int) {
                                                Some(i) => {
                                                    lemma_find_code3_none_then_late(
                                                        u,
                                                        3,
                                                        self.end as int,
                                                        u.len() as int,
                                                        i,
                                                    );
                                                },
                                                None => {
                                                    assert(u.len() >= self.max_buffer_size);
                                                },
                                            }
                                            assert(split_step(u, self.max_buffer_size)
                                                == Err::<Option<Seq<u8>>, ChunkedError>(e));
                                        }
                                        return Err(e);
                                    },
                                }
                            } else if n == 0 {
                                // End of stream: emit everything that is
                                // left as the final access unit.
                                proof {
                                    assert(u =~= self.buffer@.take(self.end as int));
                                    assert(split_step(u, self.max_buffer_size)
                                        == Ok::<Option<Seq<u8>>, ChunkedError>(Some(u)));
                                }
                                let k = self.end;
                                let mut chunk: Vec<u8> = Vec::new();
                                let mut j: usize = 0;
                                while j < k
                                    invariant
                                        j <= k,
                                        k == self.end,
                                        self.end <= self.buffer.len(),
                                        chunk@ == self.buffer@.take(j as int),
                                    decreases k - j,
                                {
                                    let b = self.buffer[j];
                                    chunk.push(b);
                                    j = j + 1;
                                }
                                self.next_start = k;
                                proof {
                                    assert(chunk@ =~= u);
                                    assert(self.unread() =~= u.skip(u.len() as int));
                                    assert(self.unread().len() == 0);
                                }
                                return Ok(Some(chunk));
                            }
                            // Otherwise more bytes may arrive; read again.
                        },
                    }
                },
            }
        }
    }
}

/// Buffer growth is monotonic and bounded: a well-formed reader's buffer is
/// never larger than the configured maximum buffer size, and never smaller
/// than one page.  Every operation of the reader keeps the reader
/// well-formed, and `increase_buffer_size` strictly grows the buffer or
/// fails with `MaxBufferSize` exactly when the buffer has reached the
/// maximum.
pub proof fn lemma_buffer_bounded<S: ByteSource>(r: &ChunkedReader<S>)
    requires
        r.wf(),
    ensures
        r.capacity() <= r.spec_max(),
        r.spec_page() <= r.capacity(),
{
}

} // verus!
