//! Progress bars.

use vstd::prelude::*;

verus! {

/// A progress bar over a number of bytes.
pub trait ProgressBar {
    fn set_size(&self, size: u64);
    fn inc_size(&self, size: u64);
    fn inc(&self, size: u64);
    fn end(&self);
}

/// A progress bar that shows nothing.
pub struct NoopBar;

impl ProgressBar for NoopBar {
    fn set_size(&self, size: u64) {
    }

    fn inc_size(&self, size: u64) {
    }

    fn inc(&self, size: u64) {
    }

    fn end(&self) {
    }
}

/// Which progress bar to show.
#[derive(Debug, Clone, Copy, PartialEq, Eq, Structural)]
pub enum BarKind {
    /// No bar.
    Noop,
    /// A bar on the terminal, over this many bytes.
    Visual(u64),
}

/// The progress bar for a copy of `size` bytes: none where progress is
/// turned off, else a visible one.
pub fn create_bar(no_progress: bool, size: u64) -> (b: BarKind)
    ensures
        no_progress ==> b == BarKind::Noop,
        !no_progress ==> b == BarKind::Visual(size),
{
    if no_progress {
        BarKind::Noop
    } else {
        BarKind::Visual(size)
    }
}

} // verus!
