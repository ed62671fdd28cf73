//! The checks of the command line before a copy starts: which path is
//! the destination, and whether the sources and the destination fit.

use vstd::prelude::*;
use vstd::string::*;

use crate::errors::XcpError;

verus! {

/// Split the path arguments into the destination, the last one, and the
/// source patterns before it.
pub fn split_paths(paths: &Vec<String>) -> (r: Result<(String, Vec<String>), XcpError>)
    ensures
        paths@.len() == 0 ==> (r matches Err(XcpError::InvalidArguments(m)) && m@ == "Insufficient arguments"@),
        paths@.len() > 0 ==> (r matches Ok((d, s)) && d == paths@.last() && s@ == paths@.drop_last()),
{
    let n = paths.len();
    if n == 0 {
        return Err(XcpError::InvalidArguments(String::from_str("Insufficient arguments")));
    }
    let mut sources: Vec<String> = Vec::new();
    let mut i: usize = 0;
    while i < n - 1
        invariant
            n == paths@.len(),
            n > 0,
            i <= n - 1,
            sources@ == paths@.take(i as int),
        decreases n - 1 - i,
    {
        sources.push(paths[i].clone());
        assert(sources@ =~= paths@.take(i + 1));
        i = i + 1;
    }
    assert(paths@.take(n - 1) =~= paths@.drop_last());
    Ok((paths[n - 1].clone(), sources))
}

/// Several sources need a destination directory. This is checked on the
/// patterns, before they are expanded.
pub fn check_destination(n_patterns: usize, dest_is_dir: bool) -> (r: Result<(), XcpError>)
    ensures
        n_patterns > 1 && !dest_is_dir ==> r == Err::<(), XcpError>(
            XcpError::InvalidDestination("Multiple sources and destination is not a directory."),
        ),
        !(n_patterns > 1 && !dest_is_dir) ==> r is Ok,
{
    if n_patterns > 1 && !dest_is_dir {
        return Err(XcpError::InvalidDestination("Multiple sources and destination is not a directory."));
    }
    Ok(())
}

/// How the sources are copied.
#[derive(Debug, Clone, Copy, PartialEq, Eq, Structural)]
pub enum CopyMode {
    /// One file onto an existing file.
    Single,
    /// The sources, each checked first, into the destination.
    All,
}

/// How to copy `n_sources` expanded sources: nothing found is an error;
/// one source onto an existing file is a single copy, refused where
/// overwriting is; anything else copies all sources.
pub fn plan_copy(n_sources: usize, dest_is_file: bool, no_clobber: bool) -> (r: Result<CopyMode, XcpError>)
    ensures
        n_sources == 0 ==> (r matches Err(XcpError::IOError(m)) && m@ == "No source files found."@),
        n_sources == 1 && dest_is_file && no_clobber ==> (r matches Err(XcpError::IOError(m))
            && m@ == "Destination file exists and --no-clobber is set."@),
        n_sources == 1 && dest_is_file && !no_clobber ==> r == Ok::<CopyMode, XcpError>(CopyMode::Single),
        n_sources > 0 && !(n_sources == 1 && dest_is_file) ==> r == Ok::<CopyMode, XcpError>(CopyMode::All),
{
    if n_sources == 0 {
        Err(XcpError::IOError(String::from_str("No source files found.")))
    } else if n_sources == 1 && dest_is_file {
        if no_clobber {
            Err(XcpError::IOError(String::from_str("Destination file exists and --no-clobber is set.")))
        } else {
            Ok(CopyMode::Single)
        }
    } else {
        Ok(CopyMode::All)
    }
}

/// The check of one source before all are copied: it exists; it is a
/// directory only where copying is recursive; the destination, where it
/// exists, is a directory.
pub fn check_source(exists: bool, is_dir: bool, recursive: bool, dest_exists: bool, dest_is_dir: bool) -> (r:
    Result<(), XcpError>)
    ensures
        !exists ==> (r matches Err(XcpError::IOError(m)) && m@ == "Source does not exist."@),
        exists && is_dir && !recursive ==> r == Err::<(), XcpError>(
            XcpError::InvalidSource("Source is directory and --recursive not specified."),
        ),
        exists && !(is_dir && !recursive) && dest_exists && !dest_is_dir ==> r == Err::<(), XcpError>(
            XcpError::InvalidDestination("Source is directory but target exists and is not a directory"),
        ),
        exists && !(is_dir && !recursive) && !(dest_exists && !dest_is_dir) ==> r is Ok,
{
    if !exists {
        return Err(XcpError::IOError(String::from_str("Source does not exist.")));
    }
    if is_dir && !recursive {
        return Err(XcpError::InvalidSource("Source is directory and --recursive not specified."));
    }
    if dest_exists && !dest_is_dir {
        return Err(
            XcpError::InvalidDestination("Source is directory but target exists and is not a directory"),
        );
    }
    Ok(())
}

} // verus!
