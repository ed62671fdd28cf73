//! Extents of allocated file data, and merging of contiguous extents.

use vstd::prelude::*;

use crate::errors::Error;

verus! {

/// A run of allocated bytes in a file, as reported by the filesystem.
#[derive(Debug, Clone, Copy, PartialEq, Eq, Structural)]
pub struct Extent {
    pub start: u64,
    pub end: u64,
    pub shared: bool,
}

impl From<core::ops::Range<u64>> for Extent {
    fn from(r: core::ops::Range<u64>) -> (e: Extent) {
        Extent { start: r.start, end: r.end, shared: false }
    }
}

impl vstd::std_specs::convert::FromSpecImpl<core::ops::Range<u64>> for Extent {
    open spec fn obeys_from_spec() -> bool {
        true
    }

    open spec fn from_spec(r: core::ops::Range<u64>) -> Extent {
        Extent { start: r.start, end: r.end, shared: false }
    }
}

/// `next` starts right after the last byte of `prev`.
pub open spec fn contiguous(prev: Extent, next: Extent) -> bool {
    next.start == prev.end + 1
}

/// The extent that spans `prev` followed by `next`; it is shared only
/// if both halves are.
pub open spec fn joined(prev: Extent, next: Extent) -> Extent {
    Extent { start: prev.start, end: next.end, shared: prev.shared && next.shared }
}

/// The result of merging, left to right, every extent into its
/// predecessor when the two are contiguous.
pub open spec fn merged(s: Seq<Extent>) -> Seq<Extent>
    decreases s.len(),
{
    if s.len() == 0 {
        Seq::empty()
    } else {
        let m = merged(s.drop_last());
        let e = s.last();
        if m.len() > 0 && contiguous(m.last(), e) {
            m.drop_last().push(joined(m.last(), e))
        } else {
            m.push(e)
        }
    }
}

/// No extent in `s` is contiguous with the one before it.
pub open spec fn no_contiguous_pairs(s: Seq<Extent>) -> bool {
    forall|i: int| 0 <= i < s.len() - 1 ==> !contiguous(#[trigger] s[i], s[i + 1])
}

/// Every extent spans at least zero bytes when read as the closed
/// interval `[start, end]` (an extent with `start == end + 1` is empty).
pub open spec fn well_formed(s: Seq<Extent>) -> bool {
    forall|i: int| 0 <= i < s.len() ==> #[trigger] s[i].start <= s[i].end + 1
}

/// Offset `x` lies in some extent of `s`, each read as the closed
/// interval `[start, end]`.
pub open spec fn covers(s: Seq<Extent>, x: int) -> bool {
    exists|i: int| 0 <= i < s.len() && #[trigger] s[i].start <= x && x <= s[i].end
}

/// Merge any contiguous extents in a list: an extent that starts right
/// after the end of the previous one is folded into it.
pub fn merge_extents(extents: Vec<Extent>) -> (res: Result<Vec<Extent>, Error>)
    ensures
        res matches Ok(v) && v@ == merged(extents@),
{
    let mut out: Vec<Extent> = Vec::new();
    let mut prev: Option<Extent> = None;
    let n = extents.len();
    let mut i: usize = 0;
    while i < n
        invariant
            n == extents@.len(),
            0 <= i <= n,
            i == 0 <==> prev is None,
            prev is None ==> out@.len() == 0,
            merged(extents@.take(i as int)) == match prev {
                Some(p) => out@.push(p),
                None => out@,
            },
        decreases n - i,
    {
        let e = extents[i];
        proof {
            assert(extents@.take(i + 1).drop_last() =~= extents@.take(i as int));
            assert(extents@.take(i + 1).last() == e);
        }
        match prev {
            Some(p) => {
                if p.end < u64::MAX && e.start == p.end + 1 {
                    prev = Some(Extent { start: p.start, end: e.end, shared: p.shared && e.shared });
                    proof {
                        assert(out@.push(p).drop_last() =~= out@);
                    }
                } else {
                    out.push(p);
                    prev = Some(e);
                }
            },
            None => {
                prev = Some(e);
                proof {
                    assert(merged(extents@.take(0)) =~= Seq::<Extent>::empty());
                }
            },
        }
        i = i + 1;
    }
    if let Some(p) = prev {
        out.push(p);
    }
    proof {
        assert(extents@.take(n as int) =~= extents@);
    }
    Ok(out)
}


/// Merging never yields more extents than it was given.
pub proof fn lemma_merged_len(s: Seq<Extent>)
    ensures
        merged(s).len() <= s.len(),
        s.len() > 0 ==> merged(s).len() > 0,
    decreases s.len(),
{
    if s.len() > 0 {
        lemma_merged_len(s.drop_last());
    }
}

/// After merging, no extent is contiguous with its predecessor.
pub proof fn lemma_merged_no_contiguous_pairs(s: Seq<Extent>)
    ensures
        no_contiguous_pairs(merged(s)),
    decreases s.len(),
{
    if s.len() > 0 {
        let m = merged(s.drop_last());
        let e = s.last();
        lemma_merged_no_contiguous_pairs(s.drop_last());
        lemma_merged_len(s.drop_last());
        let r = merged(s);
        if m.len() > 0 && contiguous(m.last(), e) {
            assert forall|i: int| 0 <= i < r.len() - 1 implies !contiguous(#[trigger] r[i], r[i + 1]) by {
                if i + 1 == r.len() - 1 {
                    assert(r[i] == m[i]);
                    assert(r[i + 1].start == m[i + 1].start);
                } else {
                    assert(r[i] == m[i] && r[i + 1] == m[i + 1]);
                }
            }
        } else {
            assert forall|i: int| 0 <= i < r.len() - 1 implies !contiguous(#[trigger] r[i], r[i + 1]) by {
                if i + 1 == r.len() - 1 {
                    assert(r[i] == m.last());
                } else {
                    assert(r[i] == m[i] && r[i + 1] == m[i + 1]);
                }
            }
        }
    }
}

/// A list with no contiguous neighbours is left as it is.
pub proof fn lemma_merged_identity(s: Seq<Extent>)
    requires
        no_contiguous_pairs(s),
    ensures
        merged(s) == s,
    decreases s.len(),
{
    if s.len() > 0 {
        let t = s.drop_last();
        assert(no_contiguous_pairs(t)) by {
            assert forall|i: int| 0 <= i < t.len() - 1 implies !contiguous(#[trigger] t[i], t[i + 1]) by {
                assert(t[i] == s[i] && t[i + 1] == s[i + 1]);
            }
        }
        lemma_merged_identity(t);
        if t.len() > 0 {
            assert(t.last() == s[s.len() - 2]);
            assert(!contiguous(s[s.len() - 2], s[s.len() - 1]));
        }
        assert(t.push(s.last()) =~= s);
    }
}

/// Merging twice is the same as merging once.
pub proof fn lemma_merge_idempotent(s: Seq<Extent>)
    ensures
        merged(merged(s)) == merged(s),
{
    lemma_merged_no_contiguous_pairs(s);
    lemma_merged_identity(merged(s));
}

/// Merging keeps the set of covered offsets, each extent read as the
/// closed interval `[start, end]`, and keeps the extents well formed.
pub proof fn lemma_merge_preserves_coverage(s: Seq<Extent>, x: int)
    requires
        well_formed(s),
    ensures
        well_formed(merged(s)),
        covers(merged(s), x) <==> covers(s, x),
    decreases s.len(),
{
    if s.len() > 0 {
        let t = s.drop_last();
        let e = s.last();
        assert(well_formed(t)) by {
            assert forall|i: int| 0 <= i < t.len() implies #[trigger] t[i].start <= t[i].end + 1 by {
                assert(t[i] == s[i]);
            }
        }
        lemma_merge_preserves_coverage(t, x);
        let m = merged(t);
        let r = merged(s);
        assert(e == s[s.len() - 1]);
        if m.len() > 0 && contiguous(m.last(), e) {
            let p = m.last();
            assert(p == m[m.len() - 1]);
            assert(well_formed(r)) by {
                assert forall|i: int| 0 <= i < r.len() implies #[trigger] r[i].start <= r[i].end + 1 by {
                    if i < r.len() - 1 {
                        assert(r[i] == m[i]);
                    }
                }
            }
            if covers(r, x) {
                let i = choose|i: int| 0 <= i < r.len() && #[trigger] r[i].start <= x && x <= r[i].end;
                if i < r.len() - 1 {
                    assert(r[i] == m[i]);
                    assert(covers(m, x));
                    let j = choose|j: int| 0 <= j < t.len() && #[trigger] t[j].start <= x && x <= t[j].end;
                    assert(s[j] == t[j]);
                } else if x <= p.end {
                    assert(m[m.len() - 1].start <= x);
                    assert(covers(m, x));
                    let j = choose|j: int| 0 <= j < t.len() && #[trigger] t[j].start <= x && x <= t[j].end;
                    assert(s[j] == t[j]);
                } else {
                    assert(s[s.len() - 1].start <= x);
                }
            }
            if covers(s, x) {
                let j = choose|j: int| 0 <= j < s.len() && #[trigger] s[j].start <= x && x <= s[j].end;
                if j < s.len() - 1 {
                    assert(t[j] == s[j]);
                    assert(covers(t, x));
                    let i = choose|i: int| 0 <= i < m.len() && #[trigger] m[i].start <= x && x <= m[i].end;
                    if i < m.len() - 1 {
                        assert(r[i] == m[i]);
                    } else {
                        assert(r[r.len() - 1].start <= x);
                    }
                } else {
                    assert(r[r.len() - 1].end == e.end);
                    assert(r[r.len() - 1].start <= x);
                }
            }
        } else {
            assert(well_formed(r)) by {
                assert forall|i: int| 0 <= i < r.len() implies #[trigger] r[i].start <= r[i].end + 1 by {
                    if i < r.len() - 1 {
                        assert(r[i] == m[i]);
                    }
                }
            }
            if covers(r, x) {
                let i = choose|i: int| 0 <= i < r.len() && #[trigger] r[i].start <= x && x <= r[i].end;
                if i < r.len() - 1 {
                    assert(r[i] == m[i]);
                    assert(covers(m, x));
                    let j = choose|j: int| 0 <= j < t.len() && #[trigger] t[j].start <= x && x <= t[j].end;
                    assert(s[j] == t[j]);
                } else {
                    assert(s[s.len() - 1].start <= x);
                }
            }
            if covers(s, x) {
                let j = choose|j: int| 0 <= j < s.len() && #[trigger] s[j].start <= x && x <= s[j].end;
                if j < s.len() - 1 {
                    assert(t[j] == s[j]);
                    assert(covers(t, x));
                    let i = choose|i: int| 0 <= i < m.len() && #[trigger] m[i].start <= x && x <= m[i].end;
                    assert(r[i] == m[i]);
                } else {
                    assert(r[r.len() - 1] == e);
                }
            }
        }
    }
}

/// The run that extent `i` of `s` falls in when `s` is cut, in order,
/// into maximal runs of contiguous extents: the number of places up to
/// `i` where an extent is not contiguous with the one before it.
pub open spec fn run_index(s: Seq<Extent>, i: int) -> int
    decreases i,
{
    if i <= 0 {
        0
    } else {
        run_index(s, i - 1) + if contiguous(s[i - 1], s[i]) {
            0int
        } else {
            1int
        }
    }
}

/// Extent `i` of `s` starts a run.
pub open spec fn run_starts(s: Seq<Extent>, i: int) -> bool {
    i == 0 || !contiguous(s[i - 1], s[i])
}

/// Extent `i` of `s` ends a run.
pub open spec fn run_ends(s: Seq<Extent>, i: int) -> bool {
    i == s.len() - 1 || !contiguous(s[i], s[i + 1])
}

/// Every extent of run `k` of `s` is shared.
pub open spec fn run_shared(s: Seq<Extent>, k: int) -> bool {
    forall|i: int| 0 <= i < s.len() && #[trigger] run_index(s, i) == k ==> s[i].shared
}

proof fn lemma_run_index_prefix(s: Seq<Extent>, i: int)
    requires
        0 <= i < s.len() - 1,
    ensures
        run_index(s, i) == run_index(s.drop_last(), i),
    decreases i,
{
    if i > 0 {
        lemma_run_index_prefix(s, i - 1);
        assert(s.drop_last()[i - 1] == s[i - 1]);
        assert(s.drop_last()[i] == s[i]);
    }
}

proof fn lemma_run_index_mono(s: Seq<Extent>, i: int, j: int)
    requires
        0 <= i <= j,
    ensures
        0 <= run_index(s, i) <= run_index(s, j),
    decreases j,
{
    if j > i {
        lemma_run_index_mono(s, i, j - 1);
    } else if i > 0 {
        lemma_run_index_mono(s, 0, i - 1);
    }
}

/// Merging cuts the extents, in order, into maximal runs in which each
/// extent starts right after the end of the one before it, and gives one
/// extent per run: from the start of its first extent to the end of its
/// last, shared only if every extent of the run is.
pub proof fn lemma_merged_runs(s: Seq<Extent>)
    requires
        s.len() > 0,
    ensures
        merged(s).len() == run_index(s, s.len() - 1) + 1,
        forall|i: int|
            #![trigger run_index(s, i)]
            0 <= i < s.len() ==> 0 <= run_index(s, i) < merged(s).len(),
        forall|i: int|
            #![trigger run_index(s, i)]
            0 <= i < s.len() && run_starts(s, i) ==> merged(s)[run_index(s, i)].start == s[i].start,
        forall|i: int|
            #![trigger run_index(s, i)]
            0 <= i < s.len() && run_ends(s, i) ==> merged(s)[run_index(s, i)].end == s[i].end,
        forall|k: int| 0 <= k < merged(s).len() ==> (#[trigger] merged(s)[k]).shared == run_shared(s, k),
    decreases s.len(),
{
    let n = s.len() as int;
    let e = s.last();
    assert(e == s[n - 1]);
    if n == 1 {
        assert(merged(s.drop_last()) =~= Seq::<Extent>::empty());
        let r = merged(s);
        assert(r =~= seq![e]);
        assert forall|k: int| 0 <= k < r.len() implies (#[trigger] r[k]).shared == run_shared(s, k) by {
            assert(run_index(s, 0) == 0);
            if run_shared(s, k) {
                assert(s[0].shared);
            }
        }
    } else {
        let t = s.drop_last();
        lemma_merged_runs(t);
        let m = merged(t);
        let r = merged(s);
        assert forall|i: int| 0 <= i < n - 1 implies run_index(s, i) == #[trigger] run_index(t, i) by {
            lemma_run_index_prefix(s, i);
        }
        assert forall|i: int| 0 <= i < n - 1 implies #[trigger] t[i] == s[i] by {}
        let km = run_index(t, n - 2);
        assert(run_index(s, n - 2) == km);
        assert(m.len() == km + 1);
        // The last merged extent ends where the last extent of `t` ends.
        assert(run_ends(t, n - 2));
        assert(m[km].end == t[n - 2].end);
        assert(m.last() == m[km]);
        assert(contiguous(m.last(), e) == contiguous(s[n - 2], s[n - 1]));
        assert forall|i: int| 0 <= i < n implies #[trigger] run_index(s, i) <= run_index(s, n - 1) by {
            lemma_run_index_mono(s, i, n - 1);
        }
        assert forall|i: int| 0 <= i < n implies 0 <= #[trigger] run_index(s, i) by {
            lemma_run_index_mono(s, 0, i);
        }
        if contiguous(s[n - 2], s[n - 1]) {
            assert(run_index(s, n - 1) == km);
            assert(r == m.drop_last().push(joined(m.last(), e)));
            assert(r.len() == m.len());
            assert forall|k: int| 0 <= k < km implies #[trigger] r[k] == m[k] by {}
            assert forall|i: int|
                #![trigger run_index(s, i)]
                0 <= i < n && run_starts(s, i) implies r[run_index(s, i)].start == s[i].start by {
                if i < n - 1 {
                    assert(run_starts(t, i));
                    assert(m[run_index(t, i)].start == t[i].start);
                }
            }
            assert forall|i: int|
                #![trigger run_index(s, i)]
                0 <= i < n && run_ends(s, i) implies r[run_index(s, i)].end == s[i].end by {
                if i < n - 1 {
                    assert(i < n - 2);
                    assert(run_ends(t, i));
                    assert(m[run_index(t, i)].end == t[i].end);
                    assert(run_index(s, i + 1) == run_index(s, i) + 1);
                    lemma_run_index_mono(s, i + 1, n - 2);
                }
            }
            assert forall|k: int| 0 <= k < r.len() implies (#[trigger] r[k]).shared == run_shared(s, k) by {
                assert(m[k].shared == run_shared(t, k));
                if k < km {
                    assert(r[k] == m[k]);
                    if run_shared(t, k) {
                        assert forall|i: int| 0 <= i < n && #[trigger] run_index(s, i) == k implies s[i].shared by {
                            if i < n - 1 {
                                assert(run_index(t, i) == k);
                            }
                        }
                    }
                    if run_shared(s, k) {
                        assert forall|i: int| 0 <= i < n - 1 && #[trigger] run_index(t, i) == k implies t[i].shared by {
                            assert(run_index(s, i) == k);
                        }
                    }
                } else {
                    assert(k == km);
                    assert(r[k] == joined(m[km], e));
                    if run_shared(t, k) && e.shared {
                        assert forall|i: int| 0 <= i < n && #[trigger] run_index(s, i) == k implies s[i].shared by {
                            if i < n - 1 {
                                assert(run_index(t, i) == k);
                            }
                        }
                    }
                    if run_shared(s, k) {
                        assert(run_index(s, n - 1) == k);
                        assert forall|i: int| 0 <= i < n - 1 && #[trigger] run_index(t, i) == k implies t[i].shared by {
                            assert(run_index(s, i) == k);
                        }
                    }
                }
            }
        } else {
            assert(run_index(s, n - 1) == km + 1);
            assert(r == m.push(e));
            assert forall|k: int| 0 <= k < m.len() implies #[trigger] r[k] == m[k] by {}
            assert forall|i: int|
                #![trigger run_index(s, i)]
                0 <= i < n && run_starts(s, i) implies r[run_index(s, i)].start == s[i].start by {
                if i < n - 1 {
                    assert(run_starts(t, i));
                    assert(m[run_index(t, i)].start == t[i].start);
                }
            }
            assert forall|i: int|
                #![trigger run_index(s, i)]
                0 <= i < n && run_ends(s, i) implies r[run_index(s, i)].end == s[i].end by {
                if i < n - 1 {
                    assert(run_ends(t, i));
                    assert(m[run_index(t, i)].end == t[i].end);
                }
            }
            assert forall|k: int| 0 <= k < r.len() implies (#[trigger] r[k]).shared == run_shared(s, k) by {
                if k < m.len() {
                    assert(m[k].shared == run_shared(t, k));
                    if run_shared(t, k) {
                        assert forall|i: int| 0 <= i < n && #[trigger] run_index(s, i) == k implies s[i].shared by {
                            if i < n - 1 {
                                assert(run_index(t, i) == k);
                            }
                        }
                    }
                    if run_shared(s, k) {
                        assert forall|i: int| 0 <= i < n - 1 && #[trigger] run_index(t, i) == k implies t[i].shared by {
                            assert(run_index(s, i) == k);
                        }
                    }
                } else {
                    assert(r[k] == e);
                    if e.shared {
                        assert forall|i: int| 0 <= i < n && #[trigger] run_index(s, i) == k implies s[i].shared by {
                            if i < n - 1 {
                                lemma_run_index_mono(s, i, n - 2);
                            }
                        }
                    }
                    if run_shared(s, k) {
                        assert(run_index(s, n - 1) == k);
                    }
                }
            }
        }
    }
}

} // verus!
