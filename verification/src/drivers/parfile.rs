//! The file-parallel driver.

use vstd::prelude::*;

use crate::config::Config;
use crate::errors::XcpError;

verus! {

/// The file-parallel driver: one worker copies each file.
pub struct Driver {
    config: Config,
}

impl Driver {
    pub closed spec fn config(&self) -> Config {
        self.config
    }

    pub fn new(config: Config) -> (r: Result<Driver, XcpError>)
        ensures
            r matches Ok(d) && d.config() == config,
    {
        Ok(Driver { config })
    }

    /// The configuration of the driver.
    pub fn get_config(&self) -> (c: &Config)
        ensures
            *c == self.config(),
    {
        &self.config
    }
}

} // verus!
