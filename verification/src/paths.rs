//! The parts of Unix path syntax that the library reads: the final
//! name of a path and the extension of a name, as `std::path::Path`
//! defines them.

use vstd::prelude::*;
use vstd::string::*;

verus! {

/// Where the `/`-separated segment that ends at `end` starts.
pub open spec fn seg_start(p: Seq<char>, end: int) -> int
    decreases end,
{
    if end <= 0 {
        0
    } else if p[end - 1] == '/' {
        end
    } else {
        seg_start(p, end - 1)
    }
}

/// A segment that names nothing: empty (a repeated or trailing `/`) or
/// `.`.
pub open spec fn is_skipped(s: Seq<char>) -> bool {
    s.len() == 0 || s =~= seq!['.']
}

/// The bounds of the final name of `p[0..end]`: its last segment that is
/// neither empty nor `.`, unless that segment is `..`.
pub open spec fn name_bounds(p: Seq<char>, end: int) -> Option<(int, int)>
    decreases end,
{
    if end < 0 || end > p.len() {
        None
    } else {
        let j = seg_start(p, end);
        let seg = p.subrange(j, end);
        if is_skipped(seg) {
            if j <= 0 || j > end {
                None
            } else {
                name_bounds(p, j - 1)
            }
        } else if seg =~= seq!['.', '.'] {
            None
        } else {
            Some((j, end))
        }
    }
}

/// The final name of a path, as `Path::file_name` gives it.
pub open spec fn file_name_of(p: Seq<char>) -> Option<Seq<char>> {
    match name_bounds(p, p.len() as int) {
        Some((a, b)) => Some(p.subrange(a, b)),
        None => None,
    }
}

/// Index of the last `c` in `s`, or -1.
pub open spec fn last_index_of(s: Seq<char>, c: char) -> int
    decreases s.len(),
{
    if s.len() == 0 {
        -1
    } else if s.last() == c {
        s.len() - 1
    } else {
        last_index_of(s.drop_last(), c)
    }
}

/// The extension of a name, as `Path::extension` gives it: what follows
/// its last `.`, provided something precedes that `.`; `..` has none.
pub open spec fn extension_of(name: Seq<char>) -> Option<Seq<char>> {
    let k = last_index_of(name, '.');
    if name =~= seq!['.', '.'] || k < 1 {
        None
    } else {
        Some(name.subrange(k + 1, name.len() as int))
    }
}

/// `s` starts with `prefix`.
pub open spec fn starts_with(s: Seq<char>, prefix: Seq<char>) -> bool {
    prefix.len() <= s.len() && s.subrange(0, prefix.len() as int) =~= prefix
}

/// The characters of a string.
pub fn to_chars(s: &str) -> (v: Vec<char>)
    ensures
        v@ == s@,
{
    let n = s.unicode_len();
    let mut v: Vec<char> = Vec::new();
    let mut i: usize = 0;
    while i < n
        invariant
            n == s@.len(),
            i <= n,
            v@ =~= s@.subrange(0, i as int),
        decreases n - i,
    {
        v.push(s.get_char(i));
        i = i + 1;
    }
    v
}

/// The segment ending at `end` starts within it, holds no `/`, and
/// follows a `/` unless it starts the path.
pub proof fn lemma_seg_start_bounds_pub(p: Seq<char>, end: int)
    requires
        0 <= end <= p.len(),
    ensures
        0 <= seg_start(p, end) <= end,
        forall|k: int| seg_start(p, end) <= k < end ==> p[k] != '/',
        seg_start(p, end) > 0 ==> p[seg_start(p, end) - 1] == '/',
{
    lemma_seg_start_bounds(p, end);
}

proof fn lemma_seg_start_bounds(p: Seq<char>, end: int)
    requires
        0 <= end <= p.len(),
    ensures
        0 <= seg_start(p, end) <= end,
        forall|k: int| seg_start(p, end) <= k < end ==> p[k] != '/',
        seg_start(p, end) > 0 ==> p[seg_start(p, end) - 1] == '/',
    decreases end,
{
    if end > 0 && p[end - 1] != '/' {
        lemma_seg_start_bounds(p, end - 1);
    }
}

/// The start of the segment that ends at `end`.
fn find_seg_start(v: &Vec<char>, end: usize) -> (j: usize)
    requires
        end <= v@.len(),
    ensures
        j == seg_start(v@, end as int),
{
    let mut j = end;
    while j > 0 && v[j - 1] != '/'
        invariant
            j <= end <= v@.len(),
            seg_start(v@, j as int) == seg_start(v@, end as int),
        decreases j,
    {
        j = j - 1;
    }
    j
}

/// The bounds in `v` of the final name of the path `v`.
pub fn name_range(v: &Vec<char>) -> (r: Option<(usize, usize)>)
    ensures
        match r {
            Some((a, b)) => name_bounds(v@, v@.len() as int) == Some((a as int, b as int)) && a
                <= b <= v@.len(),
            None => name_bounds(v@, v@.len() as int) is None,
        },
{
    let mut end = v.len();
    loop
        invariant
            end <= v@.len(),
            name_bounds(v@, end as int) == name_bounds(v@, v@.len() as int),
        decreases end,
    {
        let j = find_seg_start(v, end);
        proof {
            lemma_seg_start_bounds(v@, end as int);
        }
        let len = end - j;
        let skipped = len == 0 || (len == 1 && v[j] == '.');
        proof {
            let seg = v@.subrange(j as int, end as int);
            if len == 1 && v[j as int] == '.' {
                assert(seg =~= seq!['.']);
            }
            if is_skipped(seg) && len == 1 {
                assert(seg[0] == '.');
            }
        }
        if skipped {
            if j == 0 {
                return None;
            }
            end = j - 1;
        } else {
            let dotdot = len == 2 && v[j] == '.' && v[j + 1] == '.';
            proof {
                let seg = v@.subrange(j as int, end as int);
                if dotdot {
                    assert(seg =~= seq!['.', '.']);
                }
                if seg =~= seq!['.', '.'] {
                    assert(seg[0] == '.' && seg[1] == '.');
                }
            }
            if dotdot {
                return None;
            }
            return Some((j, end));
        }
    }
}

/// The final name of a path, as `Path::file_name` gives it: the last
/// component, unless the path ends in `..` or has no named component.
pub fn file_name(path: &str) -> (r: Option<String>)
    ensures
        match r {
            Some(s) => file_name_of(path@) == Some(s@),
            None => file_name_of(path@) is None,
        },
{
    let v = to_chars(path);
    match name_range(&v) {
        Some((a, b)) => Some(String::from_str(path.substring_char(a, b))),
        None => None,
    }
}

/// The index of the last `.` in `v`, if any.
fn last_dot(v: &Vec<char>) -> (k: Option<usize>)
    ensures
        match k {
            Some(i) => last_index_of(v@, '.') == i as int && i < v@.len(),
            None => last_index_of(v@, '.') == -1,
        },
{
    let mut i = v.len();
    assert(v@.subrange(0, i as int) =~= v@);
    while i > 0
        invariant
            i <= v@.len(),
            last_index_of(v@, '.') == last_index_of(v@.subrange(0, i as int), '.'),
        decreases i,
    {
        let ghost pre = v@.subrange(0, i as int);
        assert(pre.drop_last() =~= v@.subrange(0, i - 1));
        if v[i - 1] == '.' {
            return Some(i - 1);
        }
        i = i - 1;
    }
    None
}

/// The extension of a name, as `Path::extension` gives it.
pub fn extension(name: &str) -> (r: Option<String>)
    ensures
        match r {
            Some(s) => extension_of(name@) == Some(s@),
            None => extension_of(name@) is None,
        },
{
    let v = to_chars(name);
    let dotdot = v.len() == 2 && v[0] == '.' && v[1] == '.';
    proof {
        if dotdot {
            assert(v@ =~= seq!['.', '.']);
        }
        if v@ =~= seq!['.', '.'] {
            assert(v@[0] == '.' && v@[1] == '.');
        }
    }
    if dotdot {
        return None;
    }
    match last_dot(&v) {
        Some(k) if k >= 1 => Some(String::from_str(name.substring_char(k + 1, v.len()))),
        _ => None,
    }
}

/// Whether `s` starts with `prefix`.
pub fn str_starts_with(s: &str, prefix: &str) -> (b: bool)
    ensures
        b == starts_with(s@, prefix@),
{
    let sv = to_chars(s);
    let pv = to_chars(prefix);
    if pv.len() > sv.len() {
        return false;
    }
    let mut i: usize = 0;
    while i < pv.len()
        invariant
            sv@ == s@,
            pv@ == prefix@,
            pv@.len() <= sv@.len(),
            i <= pv@.len(),
            forall|k: int| 0 <= k < i ==> sv@[k] == pv@[k],
        decreases pv@.len() - i,
    {
        if sv[i] != pv[i] {
            assert(sv@.subrange(0, pv@.len() as int)[i as int] != pv@[i as int]);
            return false;
        }
        i = i + 1;
    }
    assert(sv@.subrange(0, pv@.len() as int) =~= pv@);
    true
}

/// Whether two strings are equal.
pub fn str_equals(a: &str, b: &str) -> (r: bool)
    ensures
        r == (a@ == b@),
{
    let av = to_chars(a);
    let bv = to_chars(b);
    if av.len() != bv.len() {
        return false;
    }
    let mut i: usize = 0;
    while i < av.len()
        invariant
            av@ == a@,
            bv@ == b@,
            av@.len() == bv@.len(),
            i <= av@.len(),
            forall|k: int| 0 <= k < i ==> av@[k] == bv@[k],
        decreases av@.len() - i,
    {
        if av[i] != bv[i] {
            return false;
        }
        i = i + 1;
    }
    assert(av@ =~= bv@);
    true
}

} // verus!
