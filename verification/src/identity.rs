//! Identity of files on disk.

use vstd::prelude::*;

verus! {

/// What identifies a file on disk: its device and its inode.
#[derive(Debug, Clone, Copy, PartialEq, Eq, Structural)]
pub struct FileId {
    pub dev: u64,
    pub ino: u64,
}

/// Two paths name the same file when their inodes and devices agree.
pub fn is_same_file(src: FileId, dest: FileId) -> (same: bool)
    ensures
        same == (src.ino == dest.ino && src.dev == dest.dev),
{
    (src.ino == dest.ino) && (src.dev == dest.dev)
}

} // verus!
