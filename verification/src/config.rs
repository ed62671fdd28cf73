//! Runtime options of the copy drivers.

use vstd::prelude::*;
use vstd::string::*;

use crate::errors::XcpError;
use crate::paths::str_equals;

verus! {

/// The lower-case form of a string, as `str::to_lowercase` gives it
/// (Unicode case mapping).
pub uninterp spec fn lowercase(s: Seq<char>) -> Seq<char>;

/// `c` with an ASCII capital letter turned into the small one.
pub open spec fn ascii_lower_char(c: char) -> char {
    if 'A' <= c && c <= 'Z' {
        ((c as u32) + 32) as char
    } else {
        c
    }
}

/// Every character of `s` is ASCII.
pub open spec fn is_ascii_text(s: Seq<char>) -> bool {
    forall|i: int| 0 <= i < s.len() ==> (#[trigger] s[i] as u32) < 128
}

/// The lower-case form of `s`: for ASCII text, each capital letter made
/// small and the rest kept; otherwise [lowercase].
pub open spec fn lowered(s: Seq<char>) -> Seq<char> {
    if is_ascii_text(s) {
        s.map_values(|c: char| ascii_lower_char(c))
    } else {
        lowercase(s)
    }
}

/// `str::to_lowercase`: its result is named by [lowercase], as a
/// function of the string alone. Stated besides: on ASCII text it turns
/// `A`-`Z` into `a`-`z` and keeps every other character, as the Unicode
/// lower-case mapping does for ASCII. Nothing more of the Unicode mapping
/// is stated.
#[verifier::external_body]
pub(crate) fn lower(s: &str) -> (r: String)
    ensures
        r@ == lowercase(s@),
        is_ascii_text(s@) ==> r@ == s@.map_values(|c: char| ascii_lower_char(c)),
{
    s.to_lowercase()
}

/// `num_cpus::get`: the number of CPUs available to this process. It
/// depends on the machine, so only what holds of every outcome is
/// stated: it is at least 1.
#[verifier::external_body]
pub fn num_cpus() -> (n: usize)
    ensures
        n >= 1,
{
    num_cpus::get()
}

/// How to handle reflinks.
#[derive(Clone, Copy, Debug, PartialEq, Eq, Structural)]
pub enum Reflink {
    /// Attempt to reflink and fall back to a copy if it is not possible.
    Auto,
    /// Always reflink; fail if it is not supported.
    Always,
    /// Always copy the data.
    Never,
}

impl Default for Reflink {
    fn default() -> (r: Reflink)
        ensures
            r == Reflink::Auto,
    {
        Reflink::Auto
    }
}

/// Whether a copy tries a reflink first: unless reflinks are off.
pub fn should_try_reflink(mode: Reflink) -> (b: bool)
    ensures
        b == (mode != Reflink::Never),
{
    match mode {
        Reflink::Never => false,
        _ => true,
    }
}

/// The outcome of a copy's reflink step, `reflinked` being whether the
/// reflink was made (never tried where reflinks are off): `Ok(true)`
/// when the data is shared and nothing is left to copy, `Ok(false)` when
/// the data is to be copied, and an error where a reflink is required
/// and the filesystem cannot make one.
pub fn reflink_outcome(mode: Reflink, reflinked: bool) -> (r: Result<bool, XcpError>)
    ensures
        mode == Reflink::Never ==> r == Ok::<bool, XcpError>(false),
        mode == Reflink::Auto ==> r == Ok::<bool, XcpError>(reflinked),
        mode == Reflink::Always && reflinked ==> r == Ok::<bool, XcpError>(true),
        mode == Reflink::Always && !reflinked ==> (r matches Err(XcpError::CopyError(m))
            && m@ == "Reflink is not supported for these files"@),
{
    match mode {
        Reflink::Never => Ok(false),
        Reflink::Auto => Ok(reflinked),
        Reflink::Always => {
            if reflinked {
                Ok(true)
            } else {
                Err(XcpError::CopyError(String::from_str("Reflink is not supported for these files")))
            }
        },
    }
}

/// The message for an option value that is not known.
fn unexpected_value(option: &str, s: &str) -> (m: String)
    ensures
        m@ == "Unexpected value for '"@ + option@ + "': "@ + s@,
{
    let mut m = String::from_str("Unexpected value for '");
    m.append(option);
    m.append("': ");
    m.append(s);
    m
}

impl Reflink {
    /// Parse a reflink option, ignoring case.
    pub fn from_str(s: &str) -> (r: Result<Reflink, XcpError>)
        ensures
            lowered(s@) == "always"@ ==> r == Ok::<Reflink, XcpError>(Reflink::Always),
            lowered(s@) == "auto"@ ==> r == Ok::<Reflink, XcpError>(Reflink::Auto),
            lowered(s@) == "never"@ ==> r == Ok::<Reflink, XcpError>(Reflink::Never),
            lowered(s@) != "always"@ && lowered(s@) != "auto"@ && lowered(s@) != "never"@
                ==> (r matches Err(XcpError::InvalidArguments(m)) && m@ == "Unexpected value for 'reflink': "@ + s@),
    {
        proof {
            reveal_strlit("always");
            reveal_strlit("auto");
            reveal_strlit("never");
            reveal_strlit("reflink");
            reveal_strlit("Unexpected value for '");
            reveal_strlit("': ");
            reveal_strlit("Unexpected value for 'reflink': ");
            assert("Unexpected value for '"@ + "reflink"@ + "': "@ =~= "Unexpected value for 'reflink': "@);
            assert("always"@ != "auto"@ && "always"@ != "never"@ && "auto"@ != "never"@) by {
                assert("always"@.len() == 6 && "auto"@.len() == 4 && "never"@.len() == 5);
            }
        }
        let l = lower(s);
        if str_equals(l.as_str(), "always") {
            Ok(Reflink::Always)
        } else if str_equals(l.as_str(), "auto") {
            Ok(Reflink::Auto)
        } else if str_equals(l.as_str(), "never") {
            Ok(Reflink::Never)
        } else {
            Err(XcpError::InvalidArguments(unexpected_value("reflink", s)))
        }
    }
}

/// Whether to back up files that are overwritten.
#[derive(Clone, Copy, Debug, PartialEq, Eq, Structural)]
pub enum Backup {
    /// No backups.
    Off,
    /// A numbered backup if a numbered backup exists already.
    Auto,
    /// Numbered backups, as `cp` makes them (`file.txt.~123~`).
    Numbered,
}

impl Backup {
    /// Parse a backup option, ignoring case.
    pub fn from_str(s: &str) -> (r: Result<Backup, XcpError>)
        ensures
            lowered(s@) == "none"@ || lowered(s@) == "off"@ ==> r == Ok::<Backup, XcpError>(Backup::Off),
            lowered(s@) == "auto"@ ==> r == Ok::<Backup, XcpError>(Backup::Auto),
            lowered(s@) == "numbered"@ ==> r == Ok::<Backup, XcpError>(Backup::Numbered),
            lowered(s@) != "none"@ && lowered(s@) != "off"@ && lowered(s@) != "auto"@
                && lowered(s@) != "numbered"@ ==> (r matches Err(XcpError::InvalidArguments(m))
                && m@ == "Unexpected value for 'backup': "@ + s@),
    {
        proof {
            reveal_strlit("none");
            reveal_strlit("off");
            reveal_strlit("auto");
            reveal_strlit("numbered");
            reveal_strlit("backup");
            reveal_strlit("Unexpected value for '");
            reveal_strlit("': ");
            reveal_strlit("Unexpected value for 'backup': ");
            assert("Unexpected value for '"@ + "backup"@ + "': "@ =~= "Unexpected value for 'backup': "@);
            assert("none"@ != "auto"@ && "off"@ != "auto"@ && "none"@ != "numbered"@
                && "off"@ != "numbered"@ && "auto"@ != "numbered"@) by {
                assert("none"@.len() == 4 && "off"@.len() == 3 && "auto"@.len() == 4 && "numbered"@.len() == 8);
                assert("none"@[0] != "auto"@[0]);
            }
        }
        let l = lower(s);
        if str_equals(l.as_str(), "none") || str_equals(l.as_str(), "off") {
            Ok(Backup::Off)
        } else if str_equals(l.as_str(), "auto") {
            Ok(Backup::Auto)
        } else if str_equals(l.as_str(), "numbered") {
            Ok(Backup::Numbered)
        } else {
            Err(XcpError::InvalidArguments(unexpected_value("backup", s)))
        }
    }
}

/// The runtime options of the copy drivers.
#[derive(Clone, Copy, Debug, PartialEq, Eq, Structural)]
pub struct Config {
    /// Number of parallel workers; 0 means one per logical CPU.
    pub workers: usize,
    /// Block size of operations; the whole file by default.
    pub block_size: u64,
    /// Honour a `.gitignore` at the root of each source directory.
    pub gitignore: bool,
    /// Do not overwrite existing files.
    pub no_clobber: bool,
    /// Do not copy file permissions.
    pub no_perms: bool,
    /// Do not copy file timestamps.
    pub no_timestamps: bool,
    /// Follow symlinks in the source.
    pub dereference: bool,
    /// Copy a directory onto the target rather than into it.
    pub no_target_directory: bool,
    /// Sync each file to disk after writing.
    pub fsync: bool,
    /// Reflink options.
    pub reflink: Reflink,
    /// Backup options.
    pub backup: Backup,
}

/// The number of workers to run for a configured number `workers` on a
/// machine with `ncpus` CPUs: the configured number, or one per CPU where
/// it is 0.
pub open spec fn workers_for(workers: usize, ncpus: usize) -> usize {
    if workers == 0 {
        ncpus
    } else {
        workers
    }
}

impl Config {
    /// The number of workers to run on a machine with `ncpus` CPUs.
    pub fn num_workers_with(&self, ncpus: usize) -> (n: usize)
        ensures
            n == workers_for(self.workers, ncpus),
    {
        if self.workers == 0 {
            ncpus
        } else {
            self.workers
        }
    }

    /// The number of workers to run: the configured number, or one per
    /// CPU of this machine where it is 0.
    pub fn num_workers(&self) -> (n: usize)
        ensures
            self.workers != 0 ==> n == self.workers,
            n >= 1,
    {
        if self.workers == 0 {
            let ncpus = num_cpus();
            self.num_workers_with(ncpus)
        } else {
            self.workers
        }
    }
}

impl Default for Config {
    fn default() -> (c: Config)
        ensures
            c.workers >= 1,
            c.block_size == u64::MAX,
            !c.gitignore,
            !c.no_clobber,
            !c.no_perms,
            !c.no_timestamps,
            !c.dereference,
            !c.no_target_directory,
            !c.fsync,
            c.reflink == Reflink::Auto,
            c.backup == Backup::Off,
    {
        Config {
            workers: num_cpus(),
            block_size: u64::MAX,
            gitignore: false,
            no_clobber: false,
            no_perms: false,
            no_timestamps: false,
            dereference: false,
            no_target_directory: false,
            fsync: false,
            reflink: Reflink::Auto,
            backup: Backup::Off,
        }
    }
}

} // verus!
