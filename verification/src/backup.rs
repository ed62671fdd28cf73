//! Numbered backups of overwritten files, as `cp` makes them: the
//! backup of `file.txt` numbered 123 is `file.txt.~123~`.

use vstd::prelude::*;
use vstd::string::*;

use crate::config::{Backup, Config};
use crate::decimal::{
    all_digits, decimal, is_digit, lemma_decimal_parses, lemma_parse_decimal, parse_u64, parse_u64_spec,
    u64_to_decimal,
};
use crate::errors::XcpError;
use crate::paths::{
    file_name, file_name_of, is_skipped, name_bounds, seg_start, starts_with, str_starts_with, to_chars,
};

verus! {

/// The pattern of the extension of a numbered backup: `~`, digits, `~`.
pub const BAK_PATTERN: &'static str = r"^\~(\d+)\~$";

/// `t` is `~`, then at least one ASCII digit, then `~`.
pub open spec fn is_tilde_number(t: Seq<char>) -> bool {
    &&& t.len() >= 3
    &&& t[0] == '~'
    &&& t.last() == '~'
    &&& all_digits(t.subrange(1, t.len() - 1))
}

/// No ASCII character of `s` is anything but a decimal digit.
pub open spec fn ascii_digits_only(s: Seq<char>) -> bool {
    forall|i: int| 0 <= i < s.len() ==> (#[trigger] s[i] as u32) < 128 ==> is_digit(s[i])
}

/// The first capture group of [BAK_PATTERN] in `text`, through
/// `regex::Regex::new`, `Regex::captures` and `Captures::get`. The
/// pattern is anchored at both ends, so a match is the whole text: a
/// `~`, a non-empty run of Unicode decimal digits (the group) and a
/// `~`. Stated: a group found is the text between the two `~`, is not
/// empty and holds no ASCII character but `0`-`9` (the only ASCII
/// characters that `\d` matches); and a text of ASCII digits between two
/// `~` is always matched. Not stated: which non-ASCII characters `\d`
/// matches. The pattern compiles, so the compile error is never taken.
#[verifier::external_body]
fn capture_group(pattern: &str, text: &str, group: usize) -> (r: Option<String>)
    requires
        pattern@ == BAK_PATTERN@,
        group == 1,
    ensures
        r is Some ==> text@ =~= seq!['~'] + r->0@ + seq!['~'],
        r is Some ==> r->0@.len() > 0,
        r is Some ==> ascii_digits_only(r->0@),
        is_tilde_number(text@) ==> r is Some,
        is_tilde_number(text@) ==> r->0@ =~= text@.subrange(1, text@.len() - 1),
{
    let re = regex::Regex::new(pattern).ok()?;
    let caps = re.captures(text)?;
    let m = caps.get(group)?;
    Some(m.as_str().to_string())
}

/// The number of a numbered backup of a file named `base`, in the form
/// `cp` gives it: the name of `candidate` is `base`, `.~`, a non-empty
/// run of ASCII digits and `~`, and the digits are the number.
pub open spec fn num_backup(base: Seq<char>, candidate: Seq<char>) -> Option<u64> {
    match file_name_of(candidate) {
        Some(name) => {
            let k = base.len() as int;
            if starts_with(name, base) && name.len() > k + 1 && name[k] == '.' && is_tilde_number(
                name.subrange(k + 1, name.len() as int),
            ) {
                parse_u64_spec(name.subrange(k + 2, name.len() - 1))
            } else {
                None
            }
        },
        None => None,
    }
}

/// If `candidate` is a numbered backup of a file named `base_file`,
/// its number.
pub fn is_num_backup(base_file: &str, candidate: &str) -> (r: Option<u64>)
    ensures
        r == num_backup(base_file@, candidate@),
{
    let cname = match file_name(candidate) {
        Some(n) => n,
        None => return None,
    };
    if !str_starts_with(cname.as_str(), base_file) {
        return None;
    }
    let v = to_chars(cname.as_str());
    let k = base_file.unicode_len();
    if v.len() - k <= 1 || v[k] != '.' {
        return None;
    }
    let tail = cname.as_str().substring_char(k + 1, v.len());
    let digits = match capture_group(BAK_PATTERN, tail, 1) {
        Some(g) => g,
        None => return None,
    };
    proof {
        let t = tail@;
        assert(t.subrange(1, t.len() - 1) =~= cname@.subrange(k + 2, cname@.len() - 1));
        if !is_tilde_number(t) {
            assert(!all_digits(t.subrange(1, t.len() - 1)));
            let g = digits@;
            assert(t.subrange(1, t.len() - 1) =~= g);
            if parse_u64_spec(g) is Some {
                assert(g.len() > 0 && g[0] != '+') by {
                    assert(ascii_digits_only(g));
                    assert((g[0] as u32) < 128 ==> is_digit(g[0]));
                }
                assert(all_digits(g));
            }
        }
    }
    parse_u64(digits.as_str())
}

/// The `Debug` form of a path, as `format!("{:?}", Path::new(p))` writes
/// it: quoted, with special characters escaped.
pub uninterp spec fn path_debug(p: Seq<char>) -> Seq<char>;

/// `Path`'s `Debug` format; its result is named by [path_debug], as a
/// function of the path alone, and nothing more is stated of it.
#[verifier::external_body]
fn debug_path(path: &str) -> (r: String)
    ensures
        r@ == path_debug(path@),
{
    format!("{:?}", std::path::Path::new(path))
}

/// The final name of a path, or an error where the path has none.
pub fn filename(path: &str) -> (r: Result<String, XcpError>)
    ensures
        file_name_of(path@) matches Some(n) ==> (r matches Ok(s) && s@ == n),
        file_name_of(path@) is None ==> (r matches Err(XcpError::InvalidArguments(m))
            && m@ == "Invalid path found: "@ + path_debug(path@)),
{
    match file_name(path) {
        Some(n) => Ok(n),
        None => {
            let mut m = String::from_str("Invalid path found: ");
            let d = debug_path(path);
            m.append(d.as_str());
            Err(XcpError::InvalidArguments(m))
        },
    }
}

/// The parent of a path, as `Path::parent` gives it: the path without
/// its last component, or `None` for a root or an empty path.
pub uninterp spec fn parent_of(p: Seq<char>) -> Option<Seq<char>>;

/// `Path::parent`; its result is named by [parent_of], as a function of
/// the path alone, and nothing more is stated of it.
#[verifier::external_body]
fn parent(path: &str) -> (r: Option<String>)
    ensures
        match r {
            Some(s) => parent_of(path@) == Some(s@),
            None => parent_of(path@) is None,
        },
{
    let p = std::path::Path::new(path).parent()?;
    Some(p.to_string_lossy().into_owned())
}

/// The directory whose entries are searched for backups of `file`: its
/// parent, or the current directory (`None`) where the parent is empty or
/// there is none.
pub fn backup_dir(file: &str) -> (d: Option<String>)
    ensures
        match parent_of(file@) {
            Some(p) => if p.len() == 0 { d is None } else { d matches Some(s) && s@ == p },
            None => d is None,
        },
{
    match parent(file) {
        Some(p) => {
            if crate::utils::empty(p.as_str()) {
                None
            } else {
                Some(p)
            }
        },
        None => None,
    }
}

/// Whether some entry is a numbered backup looks at every entry: it
/// holds exactly where an entry at some index is one, and fails exactly
/// where no entry at any index is one.
pub proof fn lemma_any_backup_every_entry(base: Seq<char>, entries: Seq<String>)
    ensures
        forall|i: int| 0 <= i < entries.len() && #[trigger] num_backup(base, entries[i]@) is Some ==> any_backup(
            base,
            entries,
        ),
        !any_backup(base, entries) ==> forall|i: int|
            0 <= i < entries.len() ==> #[trigger] num_backup(base, entries[i]@) is None,
{
}

/// Some entry of `entries` is a numbered backup of a file named `base`.
pub open spec fn any_backup(base: Seq<char>, entries: Seq<String>) -> bool {
    exists|i: int| 0 <= i < entries.len() && #[trigger] num_backup(base, entries[i]@) is Some
}

/// The highest number of the numbered backups of a file named `base`
/// among `entries`, or 0 where there is none.
pub open spec fn max_backup(base: Seq<char>, entries: Seq<String>) -> u64
    decreases entries.len(),
{
    if entries.len() == 0 {
        0
    } else {
        let m = max_backup(base, entries.drop_last());
        match num_backup(base, entries.last()@) {
            Some(k) if k > m => k,
            _ => m,
        }
    }
}

/// Whether the directory entries `entries` hold a numbered backup of
/// `file`.
pub fn has_backup(file: &str, entries: &Vec<String>) -> (r: Result<bool, XcpError>)
    ensures
        file_name_of(file@) matches Some(n) ==> r == Ok::<bool, XcpError>(any_backup(n, entries@)),
        file_name_of(file@) matches Some(n) ==> forall|i: int|
            0 <= i < entries@.len() && #[trigger] num_backup(n, entries@[i]@) is Some ==> r == Ok::<
                bool,
                XcpError,
            >(true),
        r == Ok::<bool, XcpError>(false) ==> (file_name_of(file@) matches Some(n) && forall|i: int|
            0 <= i < entries@.len() ==> #[trigger] num_backup(n, entries@[i]@) is None),
        r == Ok::<bool, XcpError>(true) ==> (file_name_of(file@) matches Some(n) && exists|i: int|
            0 <= i < entries@.len() && #[trigger] num_backup(n, entries@[i]@) is Some),
        file_name_of(file@) is None ==> r is Err,
{
    let fname = match filename(file) {
        Ok(n) => n,
        Err(e) => return Err(e),
    };
    let mut i: usize = 0;
    while i < entries.len()
        invariant
            file_name_of(file@) == Some(fname@),
            i <= entries@.len(),
            forall|k: int| 0 <= k < i ==> #[trigger] num_backup(fname@, entries@[k]@) is None,
        decreases entries@.len() - i,
    {
        if is_num_backup(fname.as_str(), entries[i].as_str()).is_some() {
            assert(num_backup(fname@, entries@[i as int]@) is Some);
            return Ok(true);
        }
        i = i + 1;
    }
    Ok(false)
}

/// The number of the next numbered backup of `file`: one more than the
/// highest number among the backups in `entries`.
pub fn next_backup_num(file: &str, entries: &Vec<String>) -> (r: Result<u64, XcpError>)
    requires
        file_name_of(file@) matches Some(n) ==> forall|i: int|
            0 <= i < entries@.len() ==> #[trigger] num_backup(n, entries@[i]@) != Some(u64::MAX),
    ensures
        file_name_of(file@) matches Some(n) ==> r == Ok::<u64, XcpError>(
            (max_backup(n, entries@) + 1) as u64,
        ),
        file_name_of(file@) is None ==> r is Err,
{
    let fname = match filename(file) {
        Ok(n) => n,
        Err(e) => return Err(e),
    };
    let mut current: u64 = 0;
    let mut i: usize = 0;
    while i < entries.len()
        invariant
            file_name_of(file@) == Some(fname@),
            i <= entries@.len(),
            forall|k: int|
                0 <= k < entries@.len() ==> #[trigger] num_backup(fname@, entries@[k]@) != Some(u64::MAX),
            current == max_backup(fname@, entries@.take(i as int)),
            current < u64::MAX,
        decreases entries@.len() - i,
    {
        let ghost pre = entries@.take(i + 1);
        assert(pre.drop_last() =~= entries@.take(i as int));
        assert(pre.last() == entries@[i as int]);
        match is_num_backup(fname.as_str(), entries[i].as_str()) {
            Some(k) => {
                if k > current {
                    current = k;
                }
            },
            None => {},
        }
        i = i + 1;
    }
    assert(entries@.take(entries@.len() as int) =~= entries@);
    Ok(current + 1)
}

/// Whether no entry is a numbered backup of `file` numbered `u64::MAX`,
/// as [next_backup_num] needs of them.
pub fn backup_numbers_in_range(file: &str, entries: &Vec<String>) -> (b: bool)
    ensures
        b == (file_name_of(file@) matches Some(n) ==> forall|i: int|
            0 <= i < entries@.len() ==> #[trigger] num_backup(n, entries@[i]@) != Some(u64::MAX)),
{
    let fname = match file_name(file) {
        Some(n) => n,
        None => return true,
    };
    let mut i: usize = 0;
    while i < entries.len()
        invariant
            file_name_of(file@) == Some(fname@),
            i <= entries@.len(),
            forall|k: int| 0 <= k < i ==> #[trigger] num_backup(fname@, entries@[k]@) != Some(u64::MAX),
        decreases entries@.len() - i,
    {
        match is_num_backup(fname.as_str(), entries[i].as_str()) {
            Some(k) => {
                if k == u64::MAX {
                    return false;
                }
            },
            None => {},
        }
        i = i + 1;
    }
    true
}

/// The path of the numbered backup `n` of `file`: `file` followed by
/// `.~n~`.
pub open spec fn backup_path(file: Seq<char>, n: u64) -> Seq<char> {
    file + seq!['.', '~'] + decimal(n as nat) + seq!['~']
}

/// The path for the next numbered backup of `file`, given the entries
/// of its directory.
pub fn get_backup_path(file: &str, entries: &Vec<String>) -> (r: Result<String, XcpError>)
    requires
        file_name_of(file@) matches Some(n) ==> forall|i: int|
            0 <= i < entries@.len() ==> #[trigger] num_backup(n, entries@[i]@) != Some(u64::MAX),
    ensures
        file_name_of(file@) matches Some(n) ==> (r matches Ok(p) && p@ == backup_path(
            file@,
            (max_backup(n, entries@) + 1) as u64,
        )),
        file_name_of(file@) is None ==> r is Err,
{
    let num = match next_backup_num(file, entries) {
        Ok(n) => n,
        Err(e) => return Err(e),
    };
    let digits = u64_to_decimal(num);
    let mut p = String::from_str(file);
    p.append(".~");
    p.append(digits.as_str());
    p.append("~");
    proof {
        reveal_strlit(".~");
        reveal_strlit("~");
        assert(p@ =~= backup_path(file@, num));
    }
    Ok(p)
}

/// Whether the backup option asks for the backups in the directory to be
/// looked at: automatic backups of a file that exists.
pub fn backup_scan_needed(conf: &Config, file_exists: bool) -> (b: bool)
    ensures
        b == (conf.backup == Backup::Auto && file_exists),
{
    match conf.backup {
        Backup::Auto => file_exists,
        _ => false,
    }
}

/// Whether a file about to be overwritten is to be backed up first: never
/// without backups or where the file does not exist; always with
/// numbered backups; with automatic backups, where a numbered backup of
/// it exists already (`has_backup`, which is only read in that case).
pub fn needs_backup(conf: &Config, file_exists: bool, has_backup: bool) -> (b: bool)
    ensures
        b == match conf.backup {
            Backup::Off => false,
            Backup::Auto => file_exists && has_backup,
            Backup::Numbered => file_exists,
        },
{
    match conf.backup {
        Backup::Off => false,
        Backup::Auto => file_exists && has_backup,
        Backup::Numbered => file_exists,
    }
}

/// The last `/`-separated segment of `p` is a name: not empty, `.` or
/// `..`.
pub open spec fn ends_in_name(p: Seq<char>) -> bool {
    let seg = p.subrange(seg_start(p, p.len() as int), p.len() as int);
    !is_skipped(seg) && !(seg =~= seq!['.', '.'])
}

proof fn lemma_seg_start_prefix(p: Seq<char>, q: Seq<char>, e: int)
    requires
        0 <= e <= p.len(),
    ensures
        seg_start(p + q, e) == seg_start(p, e),
    decreases e,
{
    if e > 0 {
        assert((p + q)[e - 1] == p[e - 1]);
        lemma_seg_start_prefix(p, q, e - 1);
    }
}

proof fn lemma_seg_start_extend(p: Seq<char>, q: Seq<char>, k: int)
    requires
        0 <= k <= q.len(),
        forall|i: int| 0 <= i < q.len() ==> q[i] != '/',
    ensures
        seg_start(p + q, p.len() + k) == seg_start(p, p.len() as int),
    decreases k,
{
    if k == 0 {
        lemma_seg_start_prefix(p, q, p.len() as int);
    } else {
        assert((p + q)[p.len() + k - 1] == q[k - 1]);
        lemma_seg_start_extend(p, q, k - 1);
    }
}

/// The numbered backup path of a file whose path ends in a name is read
/// back as a numbered backup of that name with the same number.
pub proof fn lemma_backup_path_round_trip(file: Seq<char>, n: u64)
    requires
        ends_in_name(file),
    ensures
        file_name_of(file) is Some,
        num_backup(file_name_of(file)->0, backup_path(file, n)) == Some(n),
{
    let d = decimal(n as nat);
    lemma_decimal_parses(n as nat);
    let q = seq!['.', '~'] + d + seq!['~'];
    let bp = backup_path(file, n);
    assert(bp =~= file + q);
    let len = file.len() as int;
    let j = seg_start(file, len);
    crate::paths::lemma_seg_start_bounds_pub(file, len);
    let seg = file.subrange(j, len);
    // The name of the file itself.
    assert(name_bounds(file, len) == Some((j, len)));
    assert(file_name_of(file) == Some(seg));
    // The name of the backup path.
    assert forall|i: int| 0 <= i < q.len() implies q[i] != '/' by {
        if 2 <= i < 2 + d.len() {
            assert(q[i] == d[i - 2]);
            assert(is_digit(d[i - 2]));
        }
    }
    lemma_seg_start_extend(file, q, q.len() as int);
    assert(seg_start(bp, bp.len() as int) == j);
    let name = bp.subrange(j, bp.len() as int);
    assert(name =~= seg + q);
    assert(name.len() >= 4);
    assert(!is_skipped(name));
    assert(!(name =~= seq!['.', '.']));
    assert(name_bounds(bp, bp.len() as int) == Some((j, bp.len() as int)));
    assert(file_name_of(bp) == Some(name));
    // It starts with the file's name.
    assert(name.subrange(0, seg.len() as int) =~= seg);
    assert(starts_with(name, seg));
    // After the name come `.`, `~`, the digits and `~`.
    let k = seg.len() as int;
    assert(name[k] == '.');
    let tail = name.subrange(k + 1, name.len() as int);
    assert(tail =~= seq!['~'] + d + seq!['~']);
    assert(tail.subrange(1, tail.len() - 1) =~= d);
    assert(is_tilde_number(tail));
    assert(name.subrange(k + 2, name.len() - 1) =~= d);
    lemma_parse_decimal(n);
}

/// No entry holds a backup numbered higher than [max_backup].
pub proof fn lemma_max_backup_bound(base: Seq<char>, entries: Seq<String>, i: int)
    requires
        0 <= i < entries.len(),
        num_backup(base, entries[i]@) is Some,
    ensures
        num_backup(base, entries[i]@)->0 <= max_backup(base, entries),
    decreases entries.len(),
{
    if i < entries.len() - 1 {
        assert(entries.drop_last()[i] == entries[i]);
        lemma_max_backup_bound(base, entries.drop_last(), i);
    }
}

/// The next numbered backup of a file is numbered above every backup
/// of it that exists, so its path is the path of no existing entry.
pub proof fn lemma_next_backup_is_fresh(file: Seq<char>, entries: Seq<String>)
    requires
        ends_in_name(file),
        forall|i: int|
            0 <= i < entries.len() ==> #[trigger] num_backup(file_name_of(file)->0, entries[i]@) != Some(
                u64::MAX,
            ),
    ensures
        ({
            let base = file_name_of(file)->0;
            let next = (max_backup(base, entries) + 1) as u64;
            &&& max_backup(base, entries) < u64::MAX
            &&& forall|i: int|
                0 <= i < entries.len() && #[trigger] num_backup(base, entries[i]@) is Some
                    ==> num_backup(base, entries[i]@)->0 < next
            &&& forall|i: int| 0 <= i < entries.len() ==> #[trigger] entries[i]@ != backup_path(file, next)
        }),
{
    let base = file_name_of(file)->0;
    lemma_max_backup_not_max(base, entries);
    let next = (max_backup(base, entries) + 1) as u64;
    lemma_backup_path_round_trip(file, next);
    assert forall|i: int|
        0 <= i < entries.len() && #[trigger] num_backup(base, entries[i]@) is Some
            implies num_backup(base, entries[i]@)->0 < next by {
        lemma_max_backup_bound(base, entries, i);
    }
    assert forall|i: int| 0 <= i < entries.len() implies #[trigger] entries[i]@ != backup_path(file, next) by {
        if entries[i]@ == backup_path(file, next) {
            lemma_max_backup_bound(base, entries, i);
        }
    }
}

proof fn lemma_max_backup_not_max(base: Seq<char>, entries: Seq<String>)
    requires
        forall|i: int| 0 <= i < entries.len() ==> #[trigger] num_backup(base, entries[i]@) != Some(u64::MAX),
    ensures
        max_backup(base, entries) < u64::MAX,
    decreases entries.len(),
{
    if entries.len() > 0 {
        let t = entries.drop_last();
        assert forall|i: int| 0 <= i < t.len() implies #[trigger] num_backup(base, t[i]@) != Some(u64::MAX) by {
            assert(t[i] == entries[i]);
        }
        lemma_max_backup_not_max(base, t);
        assert(entries.last() == entries[entries.len() - 1]);
    }
}

} // verus!
