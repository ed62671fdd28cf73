//! The copy drivers: `parfile` copies files in parallel, one worker per
//! file; `parblock` copies blocks of each file in parallel.

use vstd::prelude::*;

use crate::config::{lowered, Config};
use crate::errors::XcpError;
use crate::feedback::StatusUpdater;
use crate::paths::str_equals;

pub mod parblock;
pub mod parfile;

verus! {

/// The operations of a copy driver.
pub trait CopyDriver {
    /// Recursively copy a set of paths to a destination, reporting
    /// progress to `stats`.
    fn copy_all(&self, sources: Vec<String>, dest: &str, stats: std::sync::Arc<dyn StatusUpdater>) -> Result<(), XcpError>;

    /// Copy a single file to a destination, reporting progress to
    /// `stats`.
    fn copy_single(&self, source: &str, dest: &str, stats: std::sync::Arc<dyn StatusUpdater>) -> Result<(), XcpError>;
}

/// The drivers there are.
#[derive(Debug, Clone, Copy, PartialEq, Eq, Structural)]
pub enum Drivers {
    ParFile,
    ParBlock,
}

/// The error for a driver name that is not known.
fn unknown_driver(s: &str) -> (e: XcpError)
    ensures
        e matches XcpError::UnknownDriver(m) && m@ == s@,
{
    XcpError::UnknownDriver(String::from_str(s))
}

impl Drivers {
    /// Parse a driver name, ignoring case.
    pub fn from_str(s: &str) -> (r: Result<Drivers, XcpError>)
        ensures
            lowered(s@) == "parfile"@ ==> r == Ok::<Drivers, XcpError>(Drivers::ParFile),
            lowered(s@) == "parblock"@ ==> r == Ok::<Drivers, XcpError>(Drivers::ParBlock),
            lowered(s@) != "parfile"@ && lowered(s@) != "parblock"@ ==> (r matches Err(
                XcpError::UnknownDriver(m),
            ) && m@ == s@),
    {
        proof {
            reveal_strlit("parfile");
            reveal_strlit("parblock");
            assert("parfile"@ != "parblock"@) by {
                assert("parfile"@.len() == 7 && "parblock"@.len() == 8);
            }
        }
        let l = crate::config::lower(s);
        if str_equals(l.as_str(), "parfile") {
            Ok(Drivers::ParFile)
        } else if str_equals(l.as_str(), "parblock") {
            Ok(Drivers::ParBlock)
        } else {
            Err(unknown_driver(s))
        }
    }
}

/// A driver, configured and ready to copy.
pub enum LoadedDriver {
    ParFile(parfile::Driver),
    ParBlock(parblock::Driver),
}

/// Load and configure a driver. The block-parallel driver fails on a
/// platform it does not support.
pub fn load_driver(driver: Drivers, config: &Config, platform_supported: bool) -> (r: Result<
    LoadedDriver,
    XcpError,
>)
    ensures
        driver == Drivers::ParFile ==> (r matches Ok(LoadedDriver::ParFile(d)) && d.config() == *config),
        driver == Drivers::ParBlock && platform_supported ==> (r matches Ok(LoadedDriver::ParBlock(d))
            && d.config() == *config),
        driver == Drivers::ParBlock && !platform_supported ==> r == Err::<LoadedDriver, XcpError>(
            XcpError::UnsupportedOS("The parblock driver is not currently supported on this OS."),
        ),
{
    match driver {
        Drivers::ParFile => match parfile::Driver::new(config.clone()) {
            Ok(d) => Ok(LoadedDriver::ParFile(d)),
            Err(e) => Err(e),
        },
        Drivers::ParBlock => match parblock::Driver::new(config.clone(), platform_supported) {
            Ok(d) => Ok(LoadedDriver::ParBlock(d)),
            Err(e) => Err(e),
        },
    }
}

/// The driver to run: the one asked for, the file-parallel one by
/// default. The block-parallel driver is refused on a platform it does
/// not support.
pub fn pick_driver(driver: Option<Drivers>, parblock_supported: bool) -> (r: Result<Drivers, XcpError>)
    ensures
        driver is None ==> r == Ok::<Drivers, XcpError>(Drivers::ParFile),
        driver == Some(Drivers::ParFile) ==> r == Ok::<Drivers, XcpError>(Drivers::ParFile),
        driver == Some(Drivers::ParBlock) && parblock_supported ==> r == Ok::<Drivers, XcpError>(
            Drivers::ParBlock,
        ),
        driver == Some(Drivers::ParBlock) && !parblock_supported ==> r == Err::<Drivers, XcpError>(
            XcpError::UnsupportedOS("The parblock driver is not currently supported on Mac."),
        ),
{
    let d = match driver {
        Some(d) => d,
        None => Drivers::ParFile,
    };
    let supported = match d {
        Drivers::ParFile => true,
        Drivers::ParBlock => parblock_supported,
    };
    if !supported {
        return Err(XcpError::UnsupportedOS("The parblock driver is not currently supported on Mac."));
    }
    Ok(d)
}

} // verus!
