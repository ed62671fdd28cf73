//! Verified core of an extended `cp`: extent maps, sparse-file copy
//! planning, numbered backups, driver configuration and the decisions
//! that the copy drivers take for each file.

pub mod errors;
pub mod attribs;
pub mod backup;
pub mod blocks;
pub mod cli;
pub mod config;
pub mod copy_loop;
pub mod decimal;
pub mod drivers;
pub mod extent;
pub mod feedback;
pub mod identity;
pub mod kernel;
pub mod node;
pub mod options;
pub mod paths;
pub mod progress;
pub mod sparse;
pub mod utils;
pub mod walk;
