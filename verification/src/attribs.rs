//! The kind of a tree entry, as the copy drivers dispatch on it.

use vstd::prelude::*;

use crate::node::{
    file_type_from_raw_mode, node_type_of, NodeType, S_IFBLK, S_IFCHR, S_IFDIR, S_IFIFO, S_IFLNK, S_IFMT, S_IFREG,
    S_IFSOCK,
};

verus! {

/// The kind of a tree entry.
#[derive(Debug, Clone, Copy, PartialEq, Eq, Structural)]
pub enum FileType {
    File,
    Dir,
    Symlink,
    Socket,
    Char,
    Fifo,
    Other,
}

/// The entry kind of a file type; block devices and unknown types are
/// `Other`.
pub open spec fn kind_of_node(t: NodeType) -> FileType {
    match t {
        NodeType::RegularFile => FileType::File,
        NodeType::Directory => FileType::Dir,
        NodeType::Symlink => FileType::Symlink,
        NodeType::Socket => FileType::Socket,
        NodeType::CharacterDevice => FileType::Char,
        NodeType::Fifo => FileType::Fifo,
        NodeType::BlockDevice => FileType::Other,
        NodeType::Unknown => FileType::Other,
    }
}

/// The entry kind of a mode is read off its type bits: each of the six
/// kinds that a tree copy handles comes from its own `S_IF*` value, and a
/// mode is `Other` exactly where its type bits are `S_IFBLK` or none of
/// the seven known file types.
pub proof fn lemma_entry_kind_of_mode(mode: u32)
    ensures
        (kind_of_node(node_type_of(mode)) == FileType::File) == (mode & S_IFMT == S_IFREG),
        (kind_of_node(node_type_of(mode)) == FileType::Dir) == (mode & S_IFMT == S_IFDIR),
        (kind_of_node(node_type_of(mode)) == FileType::Symlink) == (mode & S_IFMT == S_IFLNK),
        (kind_of_node(node_type_of(mode)) == FileType::Socket) == (mode & S_IFMT == S_IFSOCK),
        (kind_of_node(node_type_of(mode)) == FileType::Char) == (mode & S_IFMT == S_IFCHR),
        (kind_of_node(node_type_of(mode)) == FileType::Fifo) == (mode & S_IFMT == S_IFIFO),
        (kind_of_node(node_type_of(mode)) == FileType::Other) == (mode & S_IFMT == S_IFBLK || (mode & S_IFMT
            != S_IFREG && mode & S_IFMT != S_IFDIR && mode & S_IFMT != S_IFLNK && mode & S_IFMT != S_IFSOCK
            && mode & S_IFMT != S_IFCHR && mode & S_IFMT != S_IFIFO && mode & S_IFMT != S_IFBLK)),
{
}

impl FileType {
    /// The entry kind of a raw `st_mode`, by its type bits: a regular
    /// file, directory, symlink, socket, character device or fifo is
    /// that kind; a block device or an unknown type is `Other`.
    pub fn from_raw_mode(mode: u32) -> (k: FileType)
        ensures
            k == kind_of_node(node_type_of(mode)),
            (k == FileType::File) == (mode & S_IFMT == S_IFREG),
            (k == FileType::Dir) == (mode & S_IFMT == S_IFDIR),
            (k == FileType::Symlink) == (mode & S_IFMT == S_IFLNK),
            (k == FileType::Socket) == (mode & S_IFMT == S_IFSOCK),
            (k == FileType::Char) == (mode & S_IFMT == S_IFCHR),
            (k == FileType::Fifo) == (mode & S_IFMT == S_IFIFO),
            (k == FileType::Other) == (mode & S_IFMT == S_IFBLK || (mode & S_IFMT != S_IFREG && mode
                & S_IFMT != S_IFDIR && mode & S_IFMT != S_IFLNK && mode & S_IFMT != S_IFSOCK && mode & S_IFMT
                != S_IFCHR && mode & S_IFMT != S_IFIFO && mode & S_IFMT != S_IFBLK)),
    {
        proof {
            lemma_entry_kind_of_mode(mode);
        }
        match file_type_from_raw_mode(mode) {
            NodeType::RegularFile => FileType::File,
            NodeType::Directory => FileType::Dir,
            NodeType::Symlink => FileType::Symlink,
            NodeType::Socket => FileType::Socket,
            NodeType::CharacterDevice => FileType::Char,
            NodeType::Fifo => FileType::Fifo,
            NodeType::BlockDevice => FileType::Other,
            NodeType::Unknown => FileType::Other,
        }
    }
}

} // verus!
