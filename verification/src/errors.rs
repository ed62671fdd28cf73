//! Error types of the library.

use vstd::prelude::*;

verus! {

/// Errors of the low-level file operations.
#[derive(Debug, PartialEq, Eq)]
pub enum Error {
    /// The source file did not behave as a source file should.
    InvalidSource(&'static str),
    /// An I/O error, described by its message.
    IOError(String),
    /// An error number returned by the operating system.
    OSError(i32),
    /// The operation is not available on this platform.
    UnsupportedOperation,
    /// A callback reported an error.
    CallbackError(String),
}

} // verus!

verus! {

/// Errors of the copy engine and of the command line.
#[derive(Debug, PartialEq, Eq)]
pub enum XcpError {
    /// A tree entry of a kind that cannot be copied.
    UnknownFileType(String),
    /// A driver name that is not known.
    UnknownDriver(String),
    /// The arguments cannot be acted on.
    InvalidArguments(String),
    /// The source cannot be copied.
    InvalidSource(&'static str),
    /// The destination cannot be copied to.
    InvalidDestination(&'static str),
    /// The destination exists and must not be overwritten.
    DestinationExists(&'static str, String),
    /// An I/O error, described by its message.
    IOError(String),
    /// A copy failed.
    CopyError(String),
    /// The copy stopped before it was complete.
    EarlyShutdown(&'static str),
    /// The operating system is not supported.
    UnsupportedOS(&'static str),
    /// The operation is not available on this platform.
    UnsupportedOperation,
}

} // verus!
