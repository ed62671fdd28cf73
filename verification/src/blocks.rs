//! Splitting of byte ranges into fixed-size block copy jobs, as the
//! block-parallel driver queues them.

use vstd::prelude::*;

use crate::errors::Error;
use crate::extent::{merge_extents, merged, Extent};

verus! {

/// One block copy: `bytes` bytes at offset `offset`, copied to the same
/// offset of the destination.
#[derive(Debug, Clone, Copy, PartialEq, Eq, Structural)]
pub struct BlockJob {
    pub offset: u64,
    pub bytes: u64,
}

pub open spec fn min_u64(a: u64, b: u64) -> u64 {
    if a <= b { a } else { b }
}

/// The jobs that cover `remaining` bytes from offset `off`, each job
/// `block_size` bytes long but the last, which takes what is left.
pub open spec fn block_plan(off: int, remaining: int, block_size: int) -> Seq<BlockJob>
    decreases remaining,
{
    if remaining <= 0 || block_size <= 0 {
        Seq::empty()
    } else {
        let n = if remaining <= block_size { remaining } else { block_size };
        seq![BlockJob { offset: off as u64, bytes: n as u64 }] + block_plan(off + n, remaining - n, block_size)
    }
}

/// Sum of the lengths of the half-open ranges `[start, end)` of `s`.
pub open spec fn ranges_len(s: Seq<Extent>) -> int
    decreases s.len(),
{
    if s.len() == 0 {
        0
    } else {
        ranges_len(s.drop_last()) + (s.last().end - s.last().start)
    }
}

/// The jobs for each range `[start, end)` of `s`, in order.
pub open spec fn ranges_plan(s: Seq<Extent>, block_size: int) -> Seq<BlockJob>
    decreases s.len(),
{
    if s.len() == 0 {
        Seq::empty()
    } else {
        ranges_plan(s.drop_last(), block_size) + block_plan(
            s.last().start as int,
            s.last().end - s.last().start,
            block_size,
        )
    }
}

/// The ranges that a file of `len` bytes is copied by: the merged
/// extent map where the file looks sparse and the map is known, else
/// the whole file.
pub open spec fn copy_ranges(len: u64, sparse: bool, extents: Option<Seq<Extent>>) -> Seq<Extent> {
    match extents {
        Some(ex) if sparse => merged(ex),
        _ => seq![Extent { start: 0, end: len, shared: false }],
    }
}

/// The view of an optional extent list.
pub open spec fn opt_view(o: Option<Vec<Extent>>) -> Option<Seq<Extent>> {
    match o {
        Some(v) => Some(v@),
        None => None,
    }
}

/// Every extent of `s` has `start <= end`.
pub open spec fn ordered(s: Seq<Extent>) -> bool {
    forall|i: int| 0 <= i < s.len() ==> #[trigger] s[i].start <= s[i].end
}

/// Queue the block copies of the byte range `[start, end)`, each of
/// `block_size` bytes but the last. Returns the length of the range.
pub fn queue_file_range(start: u64, end: u64, block_size: u64, jobs: &mut Vec<BlockJob>) -> (len: u64)
    requires
        start <= end,
        block_size > 0,
    ensures
        len == end - start,
        final(jobs)@ == old(jobs)@ + block_plan(start as int, end - start, block_size as int),
{
    let len = end - start;
    let mut off = start;
    let mut remaining = len;
    let ghost base = old(jobs)@;
    while remaining > 0
        invariant
            block_size > 0,
            off as int + remaining as int == end as int,
            base + block_plan(start as int, len as int, block_size as int) == jobs@ + block_plan(
                off as int,
                remaining as int,
                block_size as int,
            ),
        decreases remaining,
    {
        let n = if remaining <= block_size { remaining } else { block_size };
        let ghost before = jobs@;
        jobs.push(BlockJob { offset: off, bytes: n });
        proof {
            let rest = block_plan(off + n, remaining - n, block_size as int);
            assert(block_plan(off as int, remaining as int, block_size as int) == seq![
                BlockJob { offset: off, bytes: n },
            ] + rest);
            assert(before + (seq![BlockJob { offset: off, bytes: n }] + rest) =~= jobs@ + rest);
        }
        off = off + n;
        remaining = remaining - n;
    }
    proof {
        assert(jobs@ + block_plan(off as int, 0, block_size as int) =~= jobs@);
    }
    len
}

proof fn lemma_merged_ordered(s: Seq<Extent>)
    requires
        ordered(s),
    ensures
        ordered(merged(s)),
    decreases s.len(),
{
    if s.len() > 0 {
        let t = s.drop_last();
        assert(ordered(t)) by {
            assert forall|i: int| 0 <= i < t.len() implies #[trigger] t[i].start <= t[i].end by {
                assert(t[i] == s[i]);
            }
        }
        lemma_merged_ordered(t);
        let m = merged(t);
        let r = merged(s);
        assert(s.last() == s[s.len() - 1]);
        assert forall|i: int| 0 <= i < r.len() implies #[trigger] r[i].start <= r[i].end by {
            if i < m.len() - 1 || (i == m.len() - 1 && r.len() == m.len() + 1) {
                assert(r[i] == m[i]);
            } else if i == m.len() - 1 {
                assert(m[m.len() - 1] == m.last());
            }
        }
    }
}

/// Queue the block copies for a whole file of `len` bytes. Where the
/// file looks sparse and its extent map is known, only the merged
/// extents are queued; otherwise the whole file is. Returns the number
/// of bytes queued.
pub fn queue_file_blocks(
    len: u64,
    sparse: bool,
    extents: Option<Vec<Extent>>,
    block_size: u64,
    jobs: &mut Vec<BlockJob>,
) -> (res: Result<u64, Error>)
    requires
        block_size > 0,
        sparse && extents is Some ==> ordered(extents->0@),
        sparse && extents is Some ==> ranges_len(merged(extents->0@)) <= u64::MAX,
    ensures
        res matches Ok(queued) && queued == ranges_len(
            copy_ranges(len, sparse, opt_view(extents)),
        ),
        final(jobs)@ == old(jobs)@ + ranges_plan(
            copy_ranges(len, sparse, opt_view(extents)),
            block_size as int,
        ),
        final(jobs)@.len() >= old(jobs)@.len(),
        final(jobs)@.subrange(0, old(jobs)@.len() as int) == old(jobs)@,
        ({
            let rs = copy_ranges(len, sparse, opt_view(extents));
            let new = final(jobs)@.subrange(old(jobs)@.len() as int, final(jobs)@.len() as int);
            &&& res matches Ok(queued) && jobs_bytes(new) == queued
            &&& forall|i: int, x: int|
                0 <= i < rs.len() && #[trigger] in_range(rs[i], x) ==> exists|k: int|
                    0 <= k < new.len() && #[trigger] job_covers(new[k], x)
            &&& forall|k: int|
                0 <= k < new.len() ==> 0 < (#[trigger] new[k]).bytes <= block_size && exists|i: int|
                    0 <= i < rs.len() && #[trigger] job_within(new[k], rs[i])
            &&& ranges_apart(rs) ==> forall|k: int, l: int, x: int|
                0 <= k < new.len() && 0 <= l < new.len() && #[trigger] job_covers(new[k], x)
                    && #[trigger] job_covers(new[l], x) ==> k == l
        }),
{
    let ghost ex_view = opt_view(extents);
    let ranges: Vec<Extent> = match extents {
        Some(ex) if sparse => {
            proof {
                lemma_merged_ordered(ex@);
            }
            match merge_extents(ex) {
                Ok(m) => m,
                Err(e) => return Err(e),
            }
        },
        _ => {
            let mut v = Vec::new();
            v.push(Extent { start: 0, end: len, shared: false });
            v
        },
    };
    let ghost rs = ranges@;
    assert(rs == copy_ranges(len, sparse, ex_view)) by {
        if !(sparse && ex_view is Some) {
            assert(rs =~= seq![Extent { start: 0, end: len, shared: false }]);
        }
    }
    assert(ordered(rs)) by {
        if sparse && ex_view is Some {
            lemma_merged_ordered(ex_view->0);
        }
    }
    assert(ranges_len(rs) <= u64::MAX) by {
        if !(sparse && ex_view is Some) {
            assert(rs.drop_last() =~= Seq::<Extent>::empty());
            assert(ranges_len(rs.drop_last()) == 0);
            assert(rs.last() == Extent { start: 0, end: len, shared: false });
        }
    }
    let ghost base = old(jobs)@;
    let mut queued: u64 = 0;
    let n = ranges.len();
    let mut i: usize = 0;
    while i < n
        invariant
            n == rs.len(),
            ranges@ == rs,
            0 <= i <= n,
            block_size > 0,
            ordered(rs),
            ranges_len(rs) <= u64::MAX,
            queued == ranges_len(rs.take(i as int)),
            jobs@ == base + ranges_plan(rs.take(i as int), block_size as int),
        decreases n - i,
    {
        let r = ranges[i];
        proof {
            assert(rs.take(i + 1).drop_last() =~= rs.take(i as int));
            assert(rs.take(i + 1).last() == r);
            lemma_ranges_len_prefix(rs, i + 1);
        }
        assert(r.start <= r.end);
        let ghost before = jobs@;
        let l = queue_file_range(r.start, r.end, block_size, jobs);
        proof {
            assert(jobs@ =~= base + ranges_plan(rs.take(i + 1), block_size as int));
        }
        queued = queued + l;
        i = i + 1;
    }
    proof {
        assert(rs.take(n as int) =~= rs);
        assert(jobs@.subrange(base.len() as int, jobs@.len() as int) =~= ranges_plan(rs, block_size as int));
        assert(jobs@.subrange(0, base.len() as int) =~= base);
        lemma_ranges_plan_tiles(rs, block_size as int);
    }
    Ok(queued)
}

/// Whether a file's extent map can be queued by [queue_file_blocks]:
/// every extent has `start <= end` and the merged extents hold at most
/// `u64::MAX` bytes.
pub fn queueable(extents: &Vec<Extent>) -> (b: bool)
    ensures
        b == (ordered(extents@) && ranges_len(merged(extents@)) <= u64::MAX),
{
    let n = extents.len();
    let mut i: usize = 0;
    while i < n
        invariant
            n == extents@.len(),
            i <= n,
            forall|k: int| 0 <= k < i ==> #[trigger] extents@[k].start <= extents@[k].end,
        decreases n - i,
    {
        if extents[i].start > extents[i].end {
            return false;
        }
        i = i + 1;
    }
    assert(ordered(extents@));
    proof {
        lemma_merged_ordered(extents@);
    }
    let m = match merge_extents(extents.clone()) {
        Ok(m) => m,
        Err(_) => return false,
    };
    let ghost ms = merged(extents@);
    let mut total: u64 = 0;
    let mut j: usize = 0;
    while j < m.len()
        invariant
            m@ == ms,
            ms == merged(extents@),
            ordered(ms),
            j <= ms.len(),
            total == ranges_len(ms.take(j as int)),
        decreases ms.len() - j,
    {
        let r = m[j];
        proof {
            assert(ms.take(j + 1).drop_last() =~= ms.take(j as int));
            assert(ms.take(j + 1).last() == r);
            lemma_ranges_len_prefix(ms, j + 1);
        }
        assert(r.start <= r.end);
        match total.checked_add(r.end - r.start) {
            Some(t) => {
                total = t;
            },
            None => {
                assert(ranges_len(ms.take(j + 1)) == ranges_len(ms.take(j as int)) + (r.end - r.start));
                return false;
            },
        }
        j = j + 1;
    }
    assert(ms.take(ms.len() as int) =~= ms);
    true
}

proof fn lemma_ranges_len_prefix(s: Seq<Extent>, k: int)
    requires
        0 <= k <= s.len(),
        ordered(s),
    ensures
        0 <= ranges_len(s.take(k)) <= ranges_len(s),
    decreases s.len(),
{
    if s.len() > 0 {
        let t = s.drop_last();
        assert(ordered(t)) by {
            assert forall|i: int| 0 <= i < t.len() implies #[trigger] t[i].start <= t[i].end by {
                assert(t[i] == s[i]);
            }
        }
        assert(s.last() == s[s.len() - 1]);
        if k == s.len() {
            assert(s.take(k) =~= s);
            lemma_ranges_len_prefix(t, t.len() as int);
            assert(t.take(t.len() as int) =~= t);
        } else {
            lemma_ranges_len_prefix(t, k);
            assert(t.take(k) =~= s.take(k));
        }
    }
}

/// Total bytes of a list of jobs.
pub open spec fn jobs_bytes(s: Seq<BlockJob>) -> int
    decreases s.len(),
{
    if s.len() == 0 {
        0
    } else {
        s[0].bytes + jobs_bytes(s.drop_first())
    }
}

/// The jobs for a range tile it exactly: job `k` starts `k` blocks
/// after the start, every job but the last is a full block, no job is
/// empty, the last one ends at the end of the range, there are
/// `ceil(len / block_size)` of them and their lengths add up to the
/// length of the range.
pub proof fn lemma_block_plan_tiles(off: int, remaining: int, block_size: int)
    requires
        0 <= off,
        0 <= remaining,
        0 < block_size,
        off + remaining <= u64::MAX,
    ensures
        ({
            let p = block_plan(off, remaining, block_size);
            &&& p.len() == (remaining + block_size - 1) / block_size
            &&& jobs_bytes(p) == remaining
            &&& forall|k: int|
                0 <= k < p.len() ==> {
                    &&& #[trigger] p[k].offset == off + k * block_size
                    &&& 0 < p[k].bytes <= block_size
                    &&& p[k].offset + p[k].bytes <= off + remaining
                    &&& k < p.len() - 1 ==> p[k].bytes == block_size
                    &&& k == p.len() - 1 ==> p[k].offset + p[k].bytes == off + remaining
                }
        }),
    decreases remaining,
{
    let p = block_plan(off, remaining, block_size);
    if remaining == 0 {
        assert((block_size - 1) / block_size == 0) by (nonlinear_arith)
            requires
                block_size > 0,
        ;
    }
    if remaining > 0 {
        let n = if remaining <= block_size { remaining } else { block_size };
        lemma_block_plan_tiles(off + n, remaining - n, block_size);
        let q = block_plan(off + n, remaining - n, block_size);
        assert(p == seq![BlockJob { offset: off as u64, bytes: n as u64 }] + q);
        assert(p.drop_first() =~= q);
        assert(p.len() == q.len() + 1);
        assert(p[0].offset == off && p[0].bytes == n);
        assert(jobs_bytes(p) == n + jobs_bytes(q));
        assert(0 * block_size == 0);
        if remaining <= block_size {
            assert(q.len() == 0);
            assert((remaining + block_size - 1) / block_size == 1) by (nonlinear_arith)
                requires
                    0 < remaining <= block_size,
            ;
        } else {
            assert((remaining + block_size - 1) / block_size == (remaining - block_size
                + block_size - 1) / block_size + 1) by (nonlinear_arith)
                requires
                    remaining > block_size > 0,
            ;
        }
        assert forall|k: int| 0 <= k < p.len() implies {
            &&& #[trigger] p[k].offset == off + k * block_size
            &&& 0 < p[k].bytes <= block_size
            &&& p[k].offset + p[k].bytes <= off + remaining
            &&& k < p.len() - 1 ==> p[k].bytes == block_size
            &&& k == p.len() - 1 ==> p[k].offset + p[k].bytes == off + remaining
        } by {
            if k > 0 {
                assert(p[k] == q[k - 1]);
                assert(q[k - 1].offset == off + n + (k - 1) * block_size);
                if remaining > block_size {
                    assert(off + block_size + (k - 1) * block_size == off + k * block_size)
                        by (nonlinear_arith);
                } else {
                    assert(false);
                }
            }
        }
    }
}

/// Job `j` copies offset `x`.
pub open spec fn job_covers(j: BlockJob, x: int) -> bool {
    j.offset <= x && x < j.offset + j.bytes
}

/// Offset `x` lies in the range `[r.start, r.end)`.
pub open spec fn in_range(r: Extent, x: int) -> bool {
    r.start <= x && x < r.end
}

/// Job `j` lies within the range `[r.start, r.end)`.
pub open spec fn job_within(j: BlockJob, r: Extent) -> bool {
    r.start <= j.offset && j.offset + j.bytes <= r.end
}

/// The jobs follow each other in order without overlapping.
pub open spec fn jobs_apart(js: Seq<BlockJob>) -> bool {
    forall|k: int, l: int| 0 <= k < l < js.len() ==> (#[trigger] js[k]).offset + js[k].bytes <= (
    #[trigger] js[l]).offset
}

/// The ranges follow each other in order without overlapping.
pub open spec fn ranges_apart(s: Seq<Extent>) -> bool {
    forall|i: int, j: int| 0 <= i < j < s.len() ==> (#[trigger] s[i]).end <= (#[trigger] s[j]).start
}

proof fn lemma_jobs_bytes_add(a: Seq<BlockJob>, b: Seq<BlockJob>)
    ensures
        jobs_bytes(a + b) == jobs_bytes(a) + jobs_bytes(b),
    decreases a.len(),
{
    if a.len() > 0 {
        lemma_jobs_bytes_add(a.drop_first(), b);
        assert((a + b).drop_first() =~= a.drop_first() + b);
        assert((a + b)[0] == a[0]);
    } else {
        assert(a + b =~= b);
    }
}

proof fn lemma_block_plan_covers(off: int, remaining: int, block_size: int, x: int)
    requires
        0 <= off,
        0 < block_size,
        off <= x < off + remaining,
        off + remaining <= u64::MAX,
    ensures
        exists|k: int|
            0 <= k < block_plan(off, remaining, block_size).len() && #[trigger] job_covers(
                block_plan(off, remaining, block_size)[k],
                x,
            ),
    decreases remaining,
{
    let p = block_plan(off, remaining, block_size);
    let n = if remaining <= block_size { remaining } else { block_size };
    let q = block_plan(off + n, remaining - n, block_size);
    assert(p == seq![BlockJob { offset: off as u64, bytes: n as u64 }] + q);
    if x < off + n {
        assert(job_covers(p[0], x));
    } else {
        lemma_block_plan_covers(off + n, remaining - n, block_size, x);
        let k = choose|k: int| 0 <= k < q.len() && #[trigger] job_covers(q[k], x);
        assert(p[k + 1] == q[k]);
        assert(job_covers(p[k + 1], x));
    }
}

proof fn lemma_block_plan_within(off: int, remaining: int, block_size: int)
    requires
        0 <= off,
        0 <= remaining,
        0 < block_size,
        off + remaining <= u64::MAX,
    ensures
        ({
            let p = block_plan(off, remaining, block_size);
            &&& forall|k: int|
                0 <= k < p.len() ==> 0 < (#[trigger] p[k]).bytes <= block_size && off <= p[k].offset
                    && p[k].offset + p[k].bytes <= off + remaining
            &&& jobs_apart(p)
        }),
    decreases remaining,
{
    let p = block_plan(off, remaining, block_size);
    if remaining > 0 {
        let n = if remaining <= block_size { remaining } else { block_size };
        let q = block_plan(off + n, remaining - n, block_size);
        lemma_block_plan_within(off + n, remaining - n, block_size);
        assert(p == seq![BlockJob { offset: off as u64, bytes: n as u64 }] + q);
        assert forall|k: int| 0 < k < p.len() implies #[trigger] p[k] == q[k - 1] by {}
        assert forall|k: int, l: int| 0 <= k < l < p.len() implies (#[trigger] p[k]).offset + p[k].bytes <= (
        #[trigger] p[l]).offset by {
            assert(p[l] == q[l - 1]);
            if k > 0 {
                assert(p[k] == q[k - 1]);
            }
        }
    }
}

/// The jobs queued for a list of ranges copy every one of them, shared
/// or not: every offset of every range lies in some job, every job lies
/// in some range and holds between one byte and a block, the jobs hold
/// as many bytes as the ranges do, and where the ranges are in order and
/// apart the jobs are too, so that each offset lies in exactly one job.
pub proof fn lemma_ranges_plan_tiles(s: Seq<Extent>, block_size: int)
    requires
        ordered(s),
        0 < block_size,
    ensures
        ({
            let p = ranges_plan(s, block_size);
            &&& jobs_bytes(p) == ranges_len(s)
            &&& forall|i: int, x: int|
                0 <= i < s.len() && #[trigger] in_range(s[i], x) ==> exists|k: int|
                    0 <= k < p.len() && #[trigger] job_covers(p[k], x)
            &&& forall|k: int|
                0 <= k < p.len() ==> 0 < (#[trigger] p[k]).bytes <= block_size && exists|i: int|
                    0 <= i < s.len() && #[trigger] job_within(p[k], s[i])
            &&& ranges_apart(s) ==> jobs_apart(p)
            &&& ranges_apart(s) ==> forall|k: int, l: int, x: int|
                0 <= k < p.len() && 0 <= l < p.len() && #[trigger] job_covers(p[k], x) && #[trigger] job_covers(
                    p[l],
                    x,
                ) ==> k == l
        }),
    decreases s.len(),
{
    let p = ranges_plan(s, block_size);
    if s.len() == 0 {
        assert(p =~= Seq::<BlockJob>::empty());
    } else {
        let t = s.drop_last();
        let e = s.last();
        assert(e == s[s.len() - 1]);
        assert(ordered(t)) by {
            assert forall|i: int| 0 <= i < t.len() implies #[trigger] t[i].start <= t[i].end by {
                assert(t[i] == s[i]);
            }
        }
        lemma_ranges_plan_tiles(t, block_size);
        let pt = ranges_plan(t, block_size);
        let off = e.start as int;
        let rem = e.end - e.start;
        let pe = block_plan(off, rem, block_size);
        assert(p == pt + pe);
        lemma_block_plan_tiles(off, rem, block_size);
        lemma_block_plan_within(off, rem, block_size);
        lemma_jobs_bytes_add(pt, pe);
        assert forall|k: int| 0 <= k < pt.len() implies #[trigger] p[k] == pt[k] by {}
        assert forall|k: int| 0 <= k < pe.len() implies #[trigger] p[pt.len() + k] == pe[k] by {}
        assert forall|i: int| 0 <= i < t.len() implies #[trigger] t[i] == s[i] by {}
        assert forall|i: int, x: int| 0 <= i < s.len() && #[trigger] in_range(s[i], x) implies exists|k: int|
            0 <= k < p.len() && #[trigger] job_covers(p[k], x) by {
            if i < s.len() - 1 {
                assert(in_range(t[i], x));
                let k = choose|k: int| 0 <= k < pt.len() && #[trigger] job_covers(pt[k], x);
                assert(job_covers(p[k], x));
            } else {
                lemma_block_plan_covers(off, rem, block_size, x);
                let k = choose|k: int| 0 <= k < pe.len() && #[trigger] job_covers(pe[k], x);
                assert(p[pt.len() + k] == pe[k]);
                assert(job_covers(p[pt.len() + k], x));
            }
        }
        assert forall|k: int| 0 <= k < p.len() implies 0 < (#[trigger] p[k]).bytes <= block_size && exists|i: int|
            0 <= i < s.len() && #[trigger] job_within(p[k], s[i]) by {
            if k < pt.len() {
                assert(p[k] == pt[k]);
                let i = choose|i: int| 0 <= i < t.len() && #[trigger] job_within(pt[k], t[i]);
                assert(job_within(p[k], s[i]));
            } else {
                assert(p[k] == pe[k - pt.len()]);
                assert(job_within(p[k], s[s.len() - 1]));
            }
        }
        if ranges_apart(s) {
            assert(ranges_apart(t)) by {
                assert forall|i: int, j: int| 0 <= i < j < t.len() implies (#[trigger] t[i]).end <= (
                #[trigger] t[j]).start by {
                    assert(t[i] == s[i] && t[j] == s[j]);
                }
            }
            assert forall|k: int, l: int| 0 <= k < l < p.len() implies (#[trigger] p[k]).offset + p[k].bytes
                <= (#[trigger] p[l]).offset by {
                if l < pt.len() {
                    assert(p[k] == pt[k] && p[l] == pt[l]);
                } else if k >= pt.len() {
                    assert(p[k] == pe[k - pt.len()] && p[l] == pe[l - pt.len()]);
                } else {
                    assert(p[k] == pt[k]);
                    assert(p[l] == pe[l - pt.len()]);
                    let i = choose|i: int| 0 <= i < t.len() && #[trigger] job_within(pt[k], t[i]);
                    assert(s[i].end <= s[s.len() - 1].start);
                }
            }
            assert forall|k: int, l: int, x: int|
                0 <= k < p.len() && 0 <= l < p.len() && #[trigger] job_covers(p[k], x) && #[trigger] job_covers(
                    p[l],
                    x,
                ) implies k == l by {
                if k < l {
                    assert(p[k].offset + p[k].bytes <= p[l].offset);
                } else if l < k {
                    assert(p[l].offset + p[l].bytes <= p[k].offset);
                }
            }
        }
    }
}

} // verus!
