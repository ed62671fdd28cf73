//! Sparse-file detection and the walk over the data segments of a
//! sparse file.

use vstd::prelude::*;

use crate::errors::Error;

verus! {

/// Size of the blocks that `st_blocks` counts.
pub const ST_NBLOCKSIZE: u64 = 512;

/// Guess whether a file is sparse: it has fewer blocks allocated than
/// its size needs, counting blocks of `block_size` bytes. This is the
/// test that coreutils `cp` uses.
pub fn probably_sparse(st_blocks: u64, st_size: u64, block_size: u64) -> (sparse: bool)
    requires
        block_size > 0,
    ensures
        sparse == (st_blocks < st_size / block_size),
{
    st_blocks < st_size / block_size
}

/// Where a seek for data or for a hole ended.
#[derive(PartialEq, Eq, Debug, Clone, Copy, Structural)]
pub enum SeekOff {
    Offset(u64),
    EOF,
}

/// Error number of `lseek(2)` when no data or hole lies past the offset.
pub const ENXIO: i32 = 6;

/// The outcome of `lseek(2)`: an offset, the end of the file when the
/// call failed with `ENXIO`, or the error.
pub fn lseek_result(r: Result<u64, i32>) -> (res: Result<SeekOff, Error>)
    ensures
        r matches Ok(off) ==> res == Ok::<SeekOff, Error>(SeekOff::Offset(off)),
        r matches Err(errno) ==> (errno == ENXIO ==> res == Ok::<SeekOff, Error>(SeekOff::EOF)),
        r matches Err(errno) ==> (errno != ENXIO ==> res == Err::<SeekOff, Error>(Error::OSError(errno))),
{
    match r {
        Err(errno) => {
            if errno == ENXIO {
                Ok(SeekOff::EOF)
            } else {
                Err(Error::OSError(errno))
            }
        },
        Ok(off) => Ok(SeekOff::Offset(off)),
    }
}

/// The position that a seek result stands for: its offset, or the
/// length of the file at the end of the file.
pub open spec fn position(s: SeekOff, len: u64) -> u64 {
    match s {
        SeekOff::Offset(off) => off,
        SeekOff::EOF => len,
    }
}

/// See [position].
pub fn seek_position(s: SeekOff, len: u64) -> (pos: u64)
    ensures
        pos == position(s, len),
{
    match s {
        SeekOff::Offset(off) => off,
        SeekOff::EOF => len,
    }
}

/// The next data segment of a sparse file, given where the seek for
/// data from the current position ended and where the seek for a hole
/// from that data ended: `(next_data, next_hole)`.
pub fn next_sparse_segments(data: SeekOff, hole: SeekOff, len: u64) -> (seg: (u64, u64))
    ensures
        seg.0 == position(data, len),
        seg.1 == position(hole, len),
{
    (seek_position(data, len), seek_position(hole, len))
}

/// The total length of the segments `(data, hole)` of `segs`.
pub open spec fn seg_total(segs: Seq<(u64, u64)>) -> int
    decreases segs.len(),
{
    if segs.len() == 0 {
        0
    } else {
        seg_total(segs.drop_last()) + (segs.last().1 - segs.last().0)
    }
}

/// The segments are in order and apart: each starts no later than it
/// ends, and no earlier than the one before it ends.
pub open spec fn segs_in_order(segs: Seq<(u64, u64)>) -> bool {
    &&& forall|i: int| 0 <= i < segs.len() ==> (#[trigger] segs[i]).0 <= segs[i].1
    &&& forall|i: int, j: int| 0 <= i < j < segs.len() ==> (#[trigger] segs[i]).1 <= (#[trigger] segs[j]).0
}

/// What the copy of a sparse file does next.
#[derive(PartialEq, Eq, Debug, Clone, Copy, Structural)]
pub enum SparseStep {
    /// Look up the next data segment from this offset.
    Lookup(u64),
    /// Copy this many bytes of the current segment, from the current
    /// positions of both files.
    Copy(u64),
    /// The whole file is copied.
    Done,
}

/// The copy of a sparse file, one data segment at a time: from `pos`,
/// the next data segment is looked up and copied whole, possibly in
/// several copies, and the walk goes on from the hole after it until the
/// end of the file.
pub struct SparseCopy {
    pub len: u64,
    /// The next byte to copy, or to look for data from.
    pub pos: u64,
    /// The end of the data segment being copied; equal to `pos` when
    /// there is none.
    pub seg_end: u64,
    /// Bytes copied so far.
    pub copied: u64,
    /// The data segments found so far, as `(data, hole)`.
    pub segments: Ghost<Seq<(u64, u64)>>,
}

proof fn lemma_seg_total_bound(segs: Seq<(u64, u64)>)
    requires
        segs.len() > 0,
        segs_in_order(segs),
    ensures
        seg_total(segs) <= segs.last().1,
    decreases segs.len(),
{
    let t = segs.drop_last();
    if t.len() > 0 {
        assert(segs_in_order(t)) by {
            assert forall|i: int| 0 <= i < t.len() implies (#[trigger] t[i]).0 <= t[i].1 by {
                assert(t[i] == segs[i]);
            }
            assert forall|i: int, j: int| 0 <= i < j < t.len() implies (#[trigger] t[i]).1 <= (
            #[trigger] t[j]).0 by {
                assert(t[i] == segs[i] && t[j] == segs[j]);
            }
        }
        lemma_seg_total_bound(t);
        assert(t.last() == segs[segs.len() - 2]);
        assert(segs[segs.len() - 2].1 <= segs[segs.len() - 1].0);
    } else {
        assert(seg_total(t) == 0);
    }
    assert(segs.last() == segs[segs.len() - 1]);
    assert(segs[segs.len() - 1].0 <= segs[segs.len() - 1].1);
    assert(seg_total(segs) == seg_total(t) + (segs.last().1 - segs.last().0));
}

impl SparseCopy {
    /// The bytes copied are those of the segments found, but for the
    /// rest of the current one; the segments lie in order before the
    /// current position.
    pub open spec fn valid(&self) -> bool {
        &&& self.pos <= self.seg_end
        &&& segs_in_order(self.segments@)
        &&& self.copied + (self.seg_end - self.pos) == seg_total(self.segments@)
        &&& self.segments@.len() == 0 ==> self.pos == 0 && self.seg_end == 0
        &&& self.segments@.len() > 0 ==> self.segments@.last().0 <= self.pos
            && self.segments@.last().1 == self.seg_end
    }

    pub fn new(len: u64) -> (s: SparseCopy)
        ensures
            s.len == len,
            s.pos == 0,
            s.seg_end == 0,
            s.copied == 0,
            s.segments@ == Seq::<(u64, u64)>::empty(),
            s.valid(),
    {
        SparseCopy { len, pos: 0, seg_end: 0, copied: 0, segments: Ghost(Seq::empty()) }
    }

    /// What to do next: copy the rest of the current segment, else look
    /// for the next one from the current position, else nothing once the
    /// end of the file is reached.
    pub fn next_step(&self) -> (step: SparseStep)
        requires
            self.valid(),
        ensures
            step == if self.pos < self.seg_end {
                SparseStep::Copy((self.seg_end - self.pos) as u64)
            } else if self.pos < self.len {
                SparseStep::Lookup(self.pos)
            } else {
                SparseStep::Done
            },
    {
        if self.pos < self.seg_end {
            SparseStep::Copy(self.seg_end - self.pos)
        } else if self.pos < self.len {
            SparseStep::Lookup(self.pos)
        } else {
            SparseStep::Done
        }
    }

    /// Record the segment `[next_data, next_hole)` found from the
    /// current position: it is copied next, from its start.
    pub fn on_segment(&mut self, next_data: u64, next_hole: u64)
        requires
            old(self).valid(),
            old(self).pos == old(self).seg_end,
            old(self).pos <= next_data <= next_hole,
        ensures
            final(self).valid(),
            final(self).len == old(self).len,
            final(self).pos == next_data,
            final(self).seg_end == next_hole,
            final(self).copied == old(self).copied,
            final(self).segments@ == old(self).segments@.push((next_data, next_hole)),
    {
        let ghost segs = self.segments@;
        let ghost nsegs = segs.push((next_data, next_hole));
        proof {
            assert(nsegs.drop_last() =~= segs);
            assert forall|i: int, j: int| 0 <= i < j < nsegs.len() implies (#[trigger] nsegs[i]).1 <= (
            #[trigger] nsegs[j]).0 by {
                if j == nsegs.len() - 1 {
                    assert(nsegs[i] == segs[i]);
                    if i < segs.len() - 1 {
                        assert(segs[i].1 <= segs[segs.len() - 1].0);
                    }
                    assert(segs.last() == segs[segs.len() - 1]);
                } else {
                    assert(nsegs[i] == segs[i] && nsegs[j] == segs[j]);
                }
            }
            assert forall|i: int| 0 <= i < nsegs.len() implies (#[trigger] nsegs[i]).0 <= nsegs[i].1 by {
                if i < segs.len() {
                    assert(nsegs[i] == segs[i]);
                }
            }
        }
        self.pos = next_data;
        self.seg_end = next_hole;
        self.segments = Ghost(nsegs);
    }

    /// Take back how many bytes a copy of the current segment copied:
    /// the walk goes on after them. A copy of nothing means the file
    /// ended before the segment did.
    pub fn on_copied(&mut self, n: u64) -> (res: Result<(), Error>)
        requires
            old(self).valid(),
            old(self).pos < old(self).seg_end,
            n <= old(self).seg_end - old(self).pos,
        ensures
            final(self).valid(),
            final(self).len == old(self).len,
            final(self).seg_end == old(self).seg_end,
            final(self).segments@ == old(self).segments@,
            n == 0 ==> res == Err::<(), Error>(Error::InvalidSource("Source file ended prematurely."))
                && final(self).pos == old(self).pos && final(self).copied == old(self).copied,
            n > 0 ==> res is Ok && final(self).pos == old(self).pos + n
                && final(self).copied == old(self).copied + n,
    {
        if n == 0 {
            return Err(Error::InvalidSource("Source file ended prematurely."));
        }
        proof {
            lemma_seg_total_bound(self.segments@);
        }
        self.pos = self.pos + n;
        self.copied = self.copied + n;
        Ok(())
    }
}

/// Once the walk has nothing left to copy, what it copied is exactly
/// the data segments it found, each whole, in order and apart.
pub proof fn lemma_sparse_copy_complete(s: SparseCopy)
    requires
        s.valid(),
        s.seg_end <= s.pos,
        s.len <= s.pos,
    ensures
        s.copied == seg_total(s.segments@),
        segs_in_order(s.segments@),
        s.segments@.len() > 0 ==> s.segments@.last().1 == s.pos,
{
}

} // verus!
