//! The block-parallel driver.

use vstd::prelude::*;

use crate::config::Config;
use crate::errors::XcpError;

verus! {

/// The block-parallel driver: blocks of each file are copied by a pool
/// of workers.
pub struct Driver {
    config: Config,
}

impl Driver {
    pub closed spec fn config(&self) -> Config {
        self.config
    }

    /// The driver, on a platform that supports it.
    pub fn new(config: Config, platform_supported: bool) -> (r: Result<Driver, XcpError>)
        ensures
            platform_supported ==> (r matches Ok(d) && d.config() == config),
            !platform_supported ==> r == Err::<Driver, XcpError>(
                XcpError::UnsupportedOS("The parblock driver is not currently supported on this OS."),
            ),
    {
        if !platform_supported {
            return Err(XcpError::UnsupportedOS("The parblock driver is not currently supported on this OS."));
        }
        Ok(Driver { config })
    }

    /// The configuration of the driver.
    pub fn get_config(&self) -> (c: &Config)
        ensures
            *c == self.config(),
    {
        &self.config
    }
}

} // verus!
