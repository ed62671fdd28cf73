//! Runtime feedback of copy progress.

use vstd::prelude::*;

use crate::copy_loop::seq_sum;
use crate::errors::XcpError;

verus! {

/// A progress event of a copy.
#[derive(Debug, PartialEq, Eq)]
pub enum StatusUpdate {
    /// This many more bytes were copied.
    Copied(u64),
    /// This many more bytes are to be copied.
    Size(u64),
    /// The copy failed.
    Error(XcpError),
}

/// A receiver of progress events.
pub trait StatusUpdater: Sync + Send {
    fn send(&self, update: StatusUpdate) -> Result<(), XcpError>;
}

/// A receiver that drops every event.
pub struct NoopUpdater;

impl StatusUpdater for NoopUpdater {
    fn send(&self, update: StatusUpdate) -> (r: Result<(), XcpError>)
        ensures
            r is Ok,
    {
        Ok(())
    }
}

/// Whether an event is passed on to the channel. Byte counts are
/// grouped so as not to flood it: a `Copied` event goes through only
/// when the running total, `prev_written` before it, crosses a multiple
/// of the block size; every other event goes through.
pub fn should_forward(update: &StatusUpdate, prev_written: u64, block_size: u64) -> (b: bool)
    requires
        block_size > 0,
        update matches StatusUpdate::Copied(bytes) ==> prev_written + *bytes <= u64::MAX,
    ensures
        b == match update {
            StatusUpdate::Copied(bytes) => (prev_written + *bytes) / (block_size as int) > (
            prev_written as int) / (block_size as int),
            _ => true,
        },
{
    match update {
        StatusUpdate::Copied(bytes) => (prev_written + *bytes) / block_size > prev_written / block_size,
        _ => true,
    }
}

/// The number of `Copied` events of byte counts `s` that are passed on,
/// the running total being `start` before the first.
pub open spec fn forwarded_count(start: int, s: Seq<u64>, block_size: int) -> int
    decreases s.len(),
{
    if s.len() == 0 {
        0
    } else {
        let total = start + s[0];
        (if total / block_size > start / block_size { 1int } else { 0int }) + forwarded_count(
            total,
            s.drop_first(),
            block_size,
        )
    }
}

/// The sum of byte counts.
pub open spec fn bytes_sum(s: Seq<u64>) -> int
    decreases s.len(),
{
    if s.len() == 0 {
        0
    } else {
        s[0] + bytes_sum(s.drop_first())
    }
}

/// Grouping passes on at most one `Copied` event per block of bytes
/// copied: from a running total `start`, the events of byte counts `s`
/// pass on no more messages than the number of block boundaries that
/// the total crosses.
pub proof fn lemma_forwarded_at_most_one_per_block(start: int, s: Seq<u64>, block_size: int)
    requires
        start >= 0,
        block_size > 0,
    ensures
        0 <= forwarded_count(start, s, block_size) <= (start + bytes_sum(s)) / block_size - start
            / block_size,
    decreases s.len(),
{
    if s.len() > 0 {
        let total = start + s[0];
        lemma_forwarded_at_most_one_per_block(total, s.drop_first(), block_size);
        lemma_bytes_sum_nonneg(s.drop_first());
        vstd::arithmetic::div_mod::lemma_div_is_ordered(start, total, block_size);
        vstd::arithmetic::div_mod::lemma_div_is_ordered(total, total + bytes_sum(s.drop_first()), block_size);
        lemma_bytes_sum_nonneg(s.drop_first());
    }
}

proof fn lemma_bytes_sum_nonneg(s: Seq<u64>)
    ensures
        bytes_sum(s) >= 0,
    decreases s.len(),
{
    if s.len() > 0 {
        lemma_bytes_sum_nonneg(s.drop_first());
    }
}

/// Where no event copies more than a block, grouping passes on exactly
/// one `Copied` event per block boundary that the running total
/// crosses: from a running total `start`, the events of byte counts `s`
/// pass on `(start + sum) / block_size - start / block_size` messages.
pub proof fn lemma_forwarded_one_per_block(start: int, s: Seq<u64>, block_size: int)
    requires
        start >= 0,
        block_size > 0,
        forall|i: int| 0 <= i < s.len() ==> #[trigger] s[i] <= block_size,
    ensures
        forwarded_count(start, s, block_size) == (start + bytes_sum(s)) / block_size - start / block_size,
    decreases s.len(),
{
    if s.len() > 0 {
        let total = start + s[0];
        let rest = s.drop_first();
        assert forall|i: int| 0 <= i < rest.len() implies #[trigger] rest[i] <= block_size by {
            assert(rest[i] == s[i + 1]);
        }
        lemma_forwarded_one_per_block(total, rest, block_size);
        vstd::arithmetic::div_mod::lemma_div_is_ordered(start, total, block_size);
        vstd::arithmetic::div_mod::lemma_div_is_ordered(total, start + block_size, block_size);
        vstd::arithmetic::div_mod::lemma_div_plus_one(start, block_size);
        assert(start + s[0] + bytes_sum(rest) == start + bytes_sum(s));
    }
}

/// The grouping of progress events on their way to a channel: byte
/// counts are added up, and a `Copied` event carrying the bytes grouped
/// since the last one passed on goes out each time the running total
/// crosses a multiple of the block size; every other event goes out as
/// it is.
pub struct ProgressGrouper {
    pub block_size: u64,
    /// The running total of the bytes reported copied.
    pub written: u64,
    /// The running total when the last `Copied` event was passed on.
    pub forwarded: u64,
    /// The byte counts of the `Copied` events passed on, in order.
    pub sent: Ghost<Seq<u64>>,
}

impl ProgressGrouper {
    /// The events passed on carry, together, the bytes up to the last
    /// one passed on.
    pub open spec fn valid(&self) -> bool {
        &&& self.block_size > 0
        &&& self.forwarded <= self.written
        &&& seq_sum(self.sent@) == self.forwarded
    }

    pub fn new(block_size: u64) -> (g: ProgressGrouper)
        requires
            block_size > 0,
        ensures
            g.valid(),
            g.block_size == block_size,
            g.written == 0,
            g.forwarded == 0,
            g.sent@ == Seq::<u64>::empty(),
    {
        ProgressGrouper { block_size, written: 0, forwarded: 0, sent: Ghost(Seq::empty()) }
    }

    /// Take an event and say what is passed on: for `Copied(n)`, the
    /// bytes grouped since the last event passed on, where the running
    /// total crosses a multiple of the block size, else nothing; any
    /// other event as it is.
    pub fn on_update(&mut self, update: StatusUpdate) -> (out: Option<StatusUpdate>)
        requires
            old(self).valid(),
            update matches StatusUpdate::Copied(n) ==> old(self).written + n <= u64::MAX,
        ensures
            final(self).valid(),
            final(self).block_size == old(self).block_size,
            match update {
                StatusUpdate::Copied(n) => {
                    let total = old(self).written + n;
                    &&& final(self).written == total
                    &&& if total / (old(self).block_size as int) > (old(self).written as int) / (
                    old(self).block_size as int) {
                        &&& out == Some(StatusUpdate::Copied((total - old(self).forwarded) as u64))
                        &&& final(self).forwarded == total
                        &&& final(self).sent@ == old(self).sent@.push((total - old(self).forwarded) as u64)
                    } else {
                        &&& out is None
                        &&& final(self).forwarded == old(self).forwarded
                        &&& final(self).sent@ == old(self).sent@
                    }
                },
                _ => out == Some(update) && final(self).written == old(self).written
                    && final(self).forwarded == old(self).forwarded && final(self).sent@ == old(
                    self,
                ).sent@,
            },
    {
        match update {
            StatusUpdate::Copied(n) => {
                let prev = self.written;
                let forward = should_forward(&StatusUpdate::Copied(n), prev, self.block_size);
                self.written = prev + n;
                if forward {
                    let grouped = self.written - self.forwarded;
                    let ghost sent = self.sent@.push(grouped);
                    proof {
                        assert(sent.drop_last() =~= self.sent@);
                    }
                    self.forwarded = self.written;
                    self.sent = Ghost(sent);
                    Some(StatusUpdate::Copied(grouped))
                } else {
                    None
                }
            },
            other => Some(other),
        }
    }
}

/// The `Copied` events that grouping passes on add up to the running
/// total at the last one passed on, which is no more than the bytes
/// reported.
pub proof fn lemma_grouped_bytes_add_up(g: ProgressGrouper)
    requires
        g.valid(),
    ensures
        seq_sum(g.sent@) == g.forwarded,
        g.forwarded <= g.written,
{
}

} // verus!
