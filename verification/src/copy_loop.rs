//! The copy loops of the user-space and batched copies: each is a small
//! state machine that says what to read or copy next and takes back what
//! the operating system did; the caller performs the reads and writes.

use vstd::prelude::*;

use crate::errors::Error;
use crate::sparse::SparseCopy;

verus! {

/// The transfers `ts`, each `(offset, length)`, cover `[start, end)`
/// one after the other, each of at least one byte.
pub open spec fn tiles(ts: Seq<(usize, usize)>, start: int, end: int) -> bool
    decreases ts.len(),
{
    if ts.len() == 0 {
        start == end
    } else {
        &&& ts.last().1 > 0
        &&& ts.last().0 + ts.last().1 == end
        &&& tiles(ts.drop_last(), start, ts.last().0 as int)
    }
}

/// Copy of `nbytes` bytes at offset `off` between two files by
/// positioned reads and writes: each read asks for all that is left,
/// at the same offset in both files.
pub struct RangeCopy {
    pub nbytes: usize,
    pub off: usize,
    pub written: usize,
    /// The transfers completed so far, as `(offset, length)`.
    pub transfers: Ghost<Seq<(usize, usize)>>,
}

impl RangeCopy {
    /// What is written is what the completed transfers covered, from
    /// `off` on without a gap.
    pub open spec fn valid(&self) -> bool {
        &&& self.written <= self.nbytes
        &&& self.off + self.nbytes <= usize::MAX
        &&& tiles(self.transfers@, self.off as int, self.off + self.written)
    }

    pub fn new(nbytes: usize, off: usize) -> (s: RangeCopy)
        requires
            off + nbytes <= usize::MAX,
        ensures
            s.valid(),
            s.nbytes == nbytes,
            s.off == off,
            s.written == 0,
            s.transfers@ == Seq::<(usize, usize)>::empty(),
    {
        RangeCopy { nbytes, off, written: 0, transfers: Ghost(Seq::empty()) }
    }

    /// The next read: `(offset, length)`, or `None` when all bytes are
    /// copied.
    pub fn next_read(&self) -> (r: Option<(usize, usize)>)
        requires
            self.valid(),
        ensures
            self.written < self.nbytes ==> r == Some(
                ((self.off + self.written) as usize, (self.nbytes - self.written) as usize),
            ),
            self.written >= self.nbytes ==> r is None,
    {
        if self.written < self.nbytes {
            Some((self.off + self.written, self.nbytes - self.written))
        } else {
            None
        }
    }

    /// Take back the outcome of a read of `rlen` bytes and of the write
    /// of them, which wrote `wlen` bytes (`None` where no write was
    /// made because the read returned nothing).
    pub fn on_transfer(&mut self, rlen: usize, wlen: Option<usize>) -> (res: Result<(), Error>)
        requires
            old(self).valid(),
            old(self).written < old(self).nbytes,
            rlen <= old(self).nbytes - old(self).written,
        ensures
            final(self).valid(),
            final(self).nbytes == old(self).nbytes,
            final(self).off == old(self).off,
            rlen == 0 ==> res == Err::<(), Error>(Error::InvalidSource("Source file ended prematurely.")),
            rlen > 0 && (wlen is None || wlen->0 < rlen) ==> res == Err::<(), Error>(
                Error::InvalidSource("Failed write to file."),
            ),
            res is Ok <==> (rlen > 0 && (wlen matches Some(w) && w >= rlen)),
            res is Ok ==> final(self).written == old(self).written + rlen,
            res is Ok ==> final(self).transfers@ == old(self).transfers@.push(
                ((old(self).off + old(self).written) as usize, rlen),
            ),
            res is Err ==> final(self).written == old(self).written,
            res is Err ==> final(self).transfers@ == old(self).transfers@,
    {
        if rlen == 0 {
            return Err(Error::InvalidSource("Source file ended prematurely."));
        }
        let complete = match wlen {
            Some(w) => w >= rlen,
            None => false,
        };
        if complete {
            let ghost t = ((self.off + self.written) as usize, rlen);
            let ghost ts = self.transfers@.push(t);
            proof {
                assert(ts.drop_last() =~= self.transfers@);
            }
            self.written = self.written + rlen;
            self.transfers = Ghost(ts);
            Ok(())
        } else {
            Err(Error::InvalidSource("Failed write to file."))
        }
    }
}

/// A range copy that has nothing left to read has written `[off, off +
/// nbytes)` whole, by transfers that follow each other without a gap.
pub proof fn lemma_range_copy_complete(c: RangeCopy)
    requires
        c.valid(),
        c.written >= c.nbytes,
    ensures
        c.written == c.nbytes,
        tiles(c.transfers@, c.off as int, c.off + c.nbytes),
{
}

/// What a read of the streaming copy returned.
pub enum ReadEvent {
    /// The read returned this many bytes.
    Data(usize),
    /// The read was interrupted by a signal and may be retried.
    Interrupted,
    /// The read failed.
    Failed(Error),
}

/// Copy of `nbytes` bytes from the current position of one file to the
/// current position of another, by reads and whole writes.
pub struct StreamCopy {
    pub nbytes: usize,
    pub written: usize,
}

/// What the streaming copy does after a read.
#[derive(PartialEq, Eq, Debug)]
pub enum StreamStep {
    /// Write the first `n` bytes read.
    Write(usize),
    /// Read again.
    Retry,
}

impl StreamCopy {
    pub open spec fn valid(&self) -> bool {
        self.written <= self.nbytes
    }

    pub fn new(nbytes: usize) -> (s: StreamCopy)
        ensures
            s.valid(),
            s.nbytes == nbytes,
            s.written == 0,
    {
        StreamCopy { nbytes, written: 0 }
    }

    /// The number of bytes to read next, or `None` when done.
    pub fn next_read(&self) -> (r: Option<usize>)
        requires
            self.valid(),
        ensures
            self.written < self.nbytes ==> r == Some((self.nbytes - self.written) as usize),
            self.written >= self.nbytes ==> r is None,
    {
        if self.written < self.nbytes {
            Some(self.nbytes - self.written)
        } else {
            None
        }
    }

    /// Take back what a read returned. Data is to be written in full
    /// and counts as written; an interrupted read is retried; an empty
    /// read or a failed read ends the copy with an error.
    pub fn on_read(&mut self, ev: ReadEvent) -> (res: Result<StreamStep, Error>)
        requires
            old(self).valid(),
            old(self).written < old(self).nbytes,
            ev matches ReadEvent::Data(n) ==> n <= old(self).nbytes - old(self).written,
        ensures
            final(self).valid(),
            final(self).nbytes == old(self).nbytes,
            match ev {
                ReadEvent::Data(n) => if n == 0 {
                    res == Err::<StreamStep, Error>(Error::InvalidSource("Source file ended prematurely."))
                        && final(self).written == old(self).written
                } else {
                    res == Ok::<StreamStep, Error>(StreamStep::Write(n))
                        && final(self).written == old(self).written + n
                },
                ReadEvent::Interrupted => res == Ok::<StreamStep, Error>(StreamStep::Retry)
                    && final(self).written == old(self).written,
                ReadEvent::Failed(e) => res == Err::<StreamStep, Error>(e)
                    && final(self).written == old(self).written,
            },
    {
        match ev {
            ReadEvent::Data(n) => {
                if n == 0 {
                    Err(Error::InvalidSource("Source file ended prematurely."))
                } else {
                    self.written = self.written + n;
                    Ok(StreamStep::Write(n))
                }
            },
            ReadEvent::Interrupted => Ok(StreamStep::Retry),
            ReadEvent::Failed(e) => Err(e),
        }
    }
}

/// The sum of the numbers of `s`.
pub open spec fn seq_sum(s: Seq<u64>) -> int
    decreases s.len(),
{
    if s.len() == 0 {
        0
    } else {
        seq_sum(s.drop_last()) + s.last()
    }
}

/// Copy of `len` bytes in batches of at most `batch_size` bytes, each
/// batch reported to the progress feedback as it is copied.
pub struct BatchCopy {
    pub len: u64,
    pub batch_size: u64,
    pub written: u64,
    /// The number of bytes each batch copied, in order.
    pub batches: Ghost<Seq<u64>>,
}

impl BatchCopy {
    /// What is written is the sum of the batches, each of at least one
    /// and at most `batch_size` bytes.
    pub open spec fn valid(&self) -> bool {
        &&& self.written <= self.len
        &&& self.written == seq_sum(self.batches@)
        &&& forall|i: int| 0 <= i < self.batches@.len() ==> 0 < #[trigger] self.batches@[i] <= self.batch_size
    }

    pub fn new(len: u64, batch_size: u64) -> (s: BatchCopy)
        ensures
            s.valid(),
            s.len == len,
            s.batch_size == batch_size,
            s.written == 0,
            s.batches@ == Seq::<u64>::empty(),
    {
        BatchCopy { len, batch_size, written: 0, batches: Ghost(Seq::empty()) }
    }

    /// The size of the next batch, `min(len - written, batch_size)`,
    /// or `None` when all is copied.
    pub fn next_batch(&self) -> (r: Option<u64>)
        requires
            self.valid(),
        ensures
            self.written < self.len ==> r == Some(
                if self.len - self.written <= self.batch_size {
                    (self.len - self.written) as u64
                } else {
                    self.batch_size
                },
            ),
            self.written >= self.len ==> r is None,
    {
        if self.written < self.len {
            let rest = self.len - self.written;
            Some(if rest <= self.batch_size { rest } else { self.batch_size })
        } else {
            None
        }
    }

    /// Take back how many bytes a batch copied, no more than it asked
    /// for. A batch that copied nothing before the whole length is
    /// copied means the source ended early: the copy ends with an error.
    pub fn on_copied(&mut self, n: u64) -> (res: Result<(), Error>)
        requires
            old(self).valid(),
            old(self).written < old(self).len,
            n <= old(self).len - old(self).written,
            n <= old(self).batch_size,
        ensures
            final(self).valid(),
            final(self).len == old(self).len,
            final(self).batch_size == old(self).batch_size,
            n == 0 ==> res == Err::<(), Error>(Error::InvalidSource("Source file ended prematurely."))
                && final(self).written == old(self).written && final(self).batches@ == old(self).batches@,
            n > 0 ==> res is Ok && final(self).written == old(self).written + n
                && final(self).batches@ == old(self).batches@.push(n),
    {
        if n == 0 {
            return Err(Error::InvalidSource("Source file ended prematurely."));
        }
        let ghost bs = self.batches@.push(n);
        proof {
            assert(bs.drop_last() =~= self.batches@);
            assert forall|i: int| 0 <= i < bs.len() implies 0 < #[trigger] bs[i] <= self.batch_size by {
                if i < self.batches@.len() {
                    assert(bs[i] == self.batches@[i]);
                }
            }
        }
        self.written = self.written + n;
        self.batches = Ghost(bs);
        Ok(())
    }
}

/// A batched copy that has nothing left to copy has copied the whole
/// length, as the sum of its batches, none empty and none larger than
/// the batch size; so it takes at most `len` batches.
pub proof fn lemma_batches_cover(b: BatchCopy)
    requires
        b.valid(),
        b.written >= b.len,
    ensures
        seq_sum(b.batches@) == b.len,
        forall|i: int| 0 <= i < b.batches@.len() ==> 0 < #[trigger] b.batches@[i] <= b.batch_size,
        b.batches@.len() <= b.len,
{
    lemma_seq_sum_at_least_len(b.batches@);
}

proof fn lemma_seq_sum_at_least_len(s: Seq<u64>)
    requires
        forall|i: int| 0 <= i < s.len() ==> 0 < #[trigger] s[i],
    ensures
        seq_sum(s) >= s.len(),
    decreases s.len(),
{
    if s.len() > 0 {
        let t = s.drop_last();
        assert forall|i: int| 0 <= i < t.len() implies 0 < #[trigger] t[i] by {
            assert(t[i] == s[i]);
        }
        lemma_seq_sum_at_least_len(t);
        assert(s.last() == s[s.len() - 1]);
    }
}

/// How a file is copied: by its data segments where it looks sparse,
/// else in batches from start to end.
pub enum CopyPlan {
    Sparse(SparseCopy),
    Bytes(BatchCopy),
}

/// Choose how to copy a file of `len` bytes: a sparse copy if the file
/// looks sparse, else a batched copy of the whole length.
pub fn copy_file(len: u64, sparse: bool, batch_size: u64) -> (plan: CopyPlan)
    ensures
        sparse ==> (plan matches CopyPlan::Sparse(s) && s.valid() && s.len == len && s.pos == 0
            && s.seg_end == 0 && s.copied == 0 && s.segments@ == Seq::<(u64, u64)>::empty()),
        !sparse ==> (plan matches CopyPlan::Bytes(b) && b.valid() && b.len == len && b.batch_size
            == batch_size && b.written == 0 && b.batches@ == Seq::<u64>::empty()),
{
    if sparse {
        CopyPlan::Sparse(SparseCopy::new(len))
    } else {
        CopyPlan::Bytes(BatchCopy::new(len, batch_size))
    }
}

} // verus!
