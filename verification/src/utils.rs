//! Small helpers: the kind of a directory entry and the empty path.

use vstd::prelude::*;

use crate::paths::to_chars;

verus! {

/// The kind of a directory entry.
#[derive(Debug, Clone, Copy, PartialEq, Eq, Structural)]
pub enum FileType {
    File,
    Dir,
    Symlink,
    Other,
}

/// Conversion to a [FileType].
pub trait ToFileType {
    fn to_enum(self) -> FileType;
}

/// What a file type answers when asked whether it is a directory, a
/// regular file or a symlink.
#[derive(Debug, Clone, Copy, PartialEq, Eq, Structural)]
pub struct FileTypeFlags {
    pub is_dir: bool,
    pub is_file: bool,
    pub is_symlink: bool,
}

/// The kind of an entry, asked in the order directory, file, symlink.
pub open spec fn kind_of(f: FileTypeFlags) -> FileType {
    if f.is_dir {
        FileType::Dir
    } else if f.is_file {
        FileType::File
    } else if f.is_symlink {
        FileType::Symlink
    } else {
        FileType::Other
    }
}

/// See [kind_of].
pub fn to_enum(ft: FileTypeFlags) -> (k: FileType)
    ensures
        k == kind_of(ft),
{
    if ft.is_dir {
        FileType::Dir
    } else if ft.is_file {
        FileType::File
    } else if ft.is_symlink {
        FileType::Symlink
    } else {
        FileType::Other
    }
}

impl ToFileType for FileTypeFlags {
    fn to_enum(self) -> (k: FileType)
        ensures
            k == kind_of(self),
    {
        to_enum(self)
    }
}

/// Whether a path is the empty path: a path has no components exactly
/// when it is the empty string.
pub fn empty(path: &str) -> (b: bool)
    ensures
        b == (path@.len() == 0),
{
    let v = to_chars(path);
    v.len() == 0
}

} // verus!
