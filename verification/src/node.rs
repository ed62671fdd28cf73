//! The type and permission bits of a raw `st_mode`, as `rustix` reads
//! them, for the copy of special files and for the kind of tree entries.

use vstd::prelude::*;

verus! {

/// The file type bits of `st_mode`.
pub const S_IFMT: u32 = 0o170000;
pub const S_IFSOCK: u32 = 0o140000;
pub const S_IFLNK: u32 = 0o120000;
pub const S_IFREG: u32 = 0o100000;
pub const S_IFBLK: u32 = 0o060000;
pub const S_IFDIR: u32 = 0o040000;
pub const S_IFCHR: u32 = 0o020000;
pub const S_IFIFO: u32 = 0o010000;

/// The file types of `rustix::fs::FileType`.
#[derive(Debug, Clone, Copy, PartialEq, Eq, Structural)]
pub enum NodeType {
    RegularFile,
    Directory,
    Symlink,
    Fifo,
    Socket,
    CharacterDevice,
    BlockDevice,
    Unknown,
}

/// The file type that the type bits of `mode` name.
pub open spec fn node_type_of(mode: u32) -> NodeType {
    let t = mode & S_IFMT;
    if t == S_IFREG {
        NodeType::RegularFile
    } else if t == S_IFDIR {
        NodeType::Directory
    } else if t == S_IFLNK {
        NodeType::Symlink
    } else if t == S_IFIFO {
        NodeType::Fifo
    } else if t == S_IFSOCK {
        NodeType::Socket
    } else if t == S_IFCHR {
        NodeType::CharacterDevice
    } else if t == S_IFBLK {
        NodeType::BlockDevice
    } else {
        NodeType::Unknown
    }
}

/// `rustix::fs::FileType::from_raw_mode`: the type named by the
/// `S_IFMT` bits of the mode, `Unknown` for any other value of them.
#[verifier::external_body]
pub fn file_type_from_raw_mode(mode: u32) -> (t: NodeType)
    ensures
        t == node_type_of(mode),
{
    match rustix::fs::FileType::from_raw_mode(mode) {
        rustix::fs::FileType::RegularFile => NodeType::RegularFile,
        rustix::fs::FileType::Directory => NodeType::Directory,
        rustix::fs::FileType::Symlink => NodeType::Symlink,
        rustix::fs::FileType::Fifo => NodeType::Fifo,
        rustix::fs::FileType::Socket => NodeType::Socket,
        rustix::fs::FileType::CharacterDevice => NodeType::CharacterDevice,
        rustix::fs::FileType::BlockDevice => NodeType::BlockDevice,
        rustix::fs::FileType::Unknown => NodeType::Unknown,
    }
}

/// `rustix::fs::Mode::from_raw_mode`, as raw bits: the mode with its
/// `S_IFMT` bits cleared (every other bit is a known flag of `Mode`).
#[verifier::external_body]
pub fn mode_from_raw_mode(mode: u32) -> (m: u32)
    ensures
        m == mode & !S_IFMT,
{
    rustix::fs::Mode::from_raw_mode(mode).bits()
}

/// What `mknodat(2)` is called with to clone a special file.
#[derive(Debug, Clone, Copy, PartialEq, Eq, Structural)]
pub struct NodeSpec {
    pub file_type: NodeType,
    pub mode: u32,
    /// Device number of the node (for a device node).
    pub dev: u64,
}

/// The node to create as a clone of a special file (unix socket,
/// character device, ...) with raw mode `raw_mode` and device number
/// `rdev`, the source's own (`st_rdev`): the clone has the source's kind
/// and permission bits, and a device node keeps its device number.
pub fn copy_node(raw_mode: u32, rdev: u64) -> (n: NodeSpec)
    ensures
        n.file_type == node_type_of(raw_mode),
        n.mode == raw_mode & !S_IFMT,
        n.dev == rdev,
{
    let mode = mode_from_raw_mode(raw_mode);
    let file_type = file_type_from_raw_mode(raw_mode);
    NodeSpec { file_type, mode, dev: rdev }
}

} // verus!
