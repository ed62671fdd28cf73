//! The decisions of the tree walk of a directory copy: where a source
//! lands in the destination and what is done with each entry under it.

use vstd::prelude::*;
use vstd::string::*;

use crate::attribs::FileType;
use crate::errors::XcpError;
use crate::utils::empty;

verus! {

/// The path that `Path::join` makes of `base` and `p` on Unix: `p` alone
/// where it is absolute, else `p` after `base`, with a `/` between them
/// where `base` is not empty and does not end in one.
pub open spec fn path_join(base: Seq<char>, p: Seq<char>) -> Seq<char> {
    if p.len() > 0 && p[0] == '/' {
        p
    } else if base.len() > 0 && base.last() != '/' {
        base + seq!['/'] + p
    } else {
        base + p
    }
}

/// The last component of a path, as `Path::components().last()` gives
/// it (`/`, `.`, `..` or a name), or `None` where there is none.
pub uninterp spec fn last_component_of(p: Seq<char>) -> Option<Seq<char>>;

/// Join a path onto a base, as `Path::join` does on Unix.
pub fn join(base: &str, p: &str) -> (r: String)
    ensures
        r@ == path_join(base@, p@),
{
    let pn = p.unicode_len();
    if pn > 0 && p.get_char(0) == '/' {
        return String::from_str(p);
    }
    let bn = base.unicode_len();
    let mut r = String::from_str(base);
    if bn > 0 && base.get_char(bn - 1) != '/' {
        r.append("/");
        proof {
            reveal_strlit("/");
        }
    }
    r.append(p);
    r
}

/// Whether the tree walk keeps an entry: every entry where there is no
/// ignore file, else those that the ignore file does not match as
/// ignored (`ignored`, what the ignore file said of the entry).
pub fn keeps_entry(ignored: Option<bool>) -> (keep: bool)
    ensures
        keep == match ignored {
            None => true,
            Some(i) => !i,
        },
{
    match ignored {
        None => true,
        Some(i) => !i,
    }
}

/// The last item of `Path::components`, as a string; its result is named
/// by [last_component_of], as a function of the path alone, and nothing
/// more is stated of it.
#[verifier::external_body]
pub fn last_component(p: &str) -> (r: Option<String>)
    ensures
        match r {
            Some(s) => last_component_of(p@) == Some(s@),
            None => last_component_of(p@) is None,
        },
{
    let c = std::path::Path::new(p).components().last()?;
    Some(c.as_os_str().to_string_lossy().into_owned())
}

/// Where the tree of `source` is copied to: into the destination, under
/// the source's last component, where the destination exists and is not
/// to be copied onto; else onto the destination itself.
pub fn target_base(source: &str, dest: &str, dest_exists: bool, no_target_directory: bool) -> (r: Result<
    String,
    XcpError,
>)
    ensures
        last_component_of(source@) is None ==> r == Err::<String, XcpError>(
            XcpError::InvalidSource("Failed to find source directory name."),
        ),
        last_component_of(source@) matches Some(c) ==> (r matches Ok(t) && t@ == if dest_exists
            && !no_target_directory {
            path_join(dest@, c)
        } else {
            dest@
        }),
{
    let sourcedir = match last_component(source) {
        Some(c) => c,
        None => return Err(XcpError::InvalidSource("Failed to find source directory name.")),
    };
    if dest_exists && !no_target_directory {
        Ok(join(dest, sourcedir.as_str()))
    } else {
        Ok(String::from_str(dest))
    }
}

/// The target of a tree entry at path `rel` below the source: the
/// target base for the source itself, else `rel` joined to it.
pub fn entry_target(target_base: &str, rel: &str) -> (t: String)
    ensures
        rel@.len() == 0 ==> t@ == target_base@,
        rel@.len() != 0 ==> t@ == path_join(target_base@, rel@),
{
    if !empty(rel) {
        join(target_base, rel)
    } else {
        String::from_str(target_base)
    }
}

/// What is done with a tree entry.
#[derive(Debug, Clone, Copy, PartialEq, Eq, Structural)]
pub enum EntryAction {
    /// Report `size` more bytes to copy and queue the copy of the file.
    Copy { size: u64 },
    /// Queue a symlink to the link's target.
    Link,
    /// Create the directory.
    CreateDir,
    /// Queue the clone of a special file.
    Special,
}

/// The walk stops: `report` is sent to the progress feedback, if any,
/// and `error` ends the walk.
#[derive(Debug, PartialEq, Eq)]
pub struct Abort {
    pub report: Option<XcpError>,
    pub error: XcpError,
}

/// The action for a tree entry of kind `file_type` and size `size`
/// whose target is `target`. An existing target ends the walk where
/// overwriting is refused; an entry of unknown kind ends it too.
pub fn plan_entry(file_type: FileType, size: u64, no_clobber: bool, target_exists: bool, target: String) -> (r:
    Result<EntryAction, Abort>)
    ensures
        no_clobber && target_exists ==> (r matches Err(a) && a.error == XcpError::EarlyShutdown(
            "Path exists and --no-clobber set.",
        ) && a.report == Some(
            XcpError::DestinationExists("Destination file exists and --no-clobber is set.", target),
        )),
        !(no_clobber && target_exists) ==> match file_type {
            FileType::File => r == Ok::<EntryAction, Abort>(EntryAction::Copy { size }),
            FileType::Symlink => r == Ok::<EntryAction, Abort>(EntryAction::Link),
            FileType::Dir => r == Ok::<EntryAction, Abort>(EntryAction::CreateDir),
            FileType::Socket | FileType::Char | FileType::Fifo => r == Ok::<EntryAction, Abort>(
                EntryAction::Special,
            ),
            FileType::Other => r matches Err(a) && a.report is None && a.error
                == XcpError::UnknownFileType(target),
        },
{
    if no_clobber && target_exists {
        return Err(
            Abort {
                report: Some(
                    XcpError::DestinationExists("Destination file exists and --no-clobber is set.", target),
                ),
                error: XcpError::EarlyShutdown("Path exists and --no-clobber set."),
            },
        );
    }
    match file_type {
        FileType::File => Ok(EntryAction::Copy { size }),
        FileType::Symlink => Ok(EntryAction::Link),
        FileType::Dir => Ok(EntryAction::CreateDir),
        FileType::Socket | FileType::Char | FileType::Fifo => Ok(EntryAction::Special),
        FileType::Other => Err(Abort { report: None, error: XcpError::UnknownFileType(target) }),
    }
}

} // verus!
