//! The command-line options and the driver configuration made of them.

use vstd::prelude::*;

use crate::config::{num_cpus, workers_for, Backup, Config, Reflink};
use crate::drivers::Drivers;

verus! {

/// The command-line options.
#[derive(Clone, Debug)]
pub struct Opts {
    /// Verbosity; each repeat logs more.
    pub verbose: u8,
    /// Copy directories recursively.
    pub recursive: bool,
    /// Follow symlinks in the source.
    pub dereference: bool,
    /// Number of parallel workers; 0 means one per logical CPU.
    pub workers: usize,
    /// Block size of operations.
    pub block_size: u64,
    /// Do not overwrite an existing file.
    pub no_clobber: bool,
    /// Honour `.gitignore` files.
    pub gitignore: bool,
    /// Expand file patterns.
    pub glob: bool,
    /// Show no progress bar.
    pub no_progress: bool,
    /// Do not copy file permissions.
    pub no_perms: bool,
    /// Do not copy file timestamps.
    pub no_timestamps: bool,
    /// The driver to use.
    pub driver: Drivers,
    /// Copy a directory onto the target rather than into it.
    pub no_target_directory: bool,
    /// Sync each file to disk after writing.
    pub fsync: bool,
    /// Reflink options.
    pub reflink: Reflink,
    /// Backup options.
    pub backup: Backup,
    /// Sources and destination.
    pub paths: Vec<String>,
}

/// Levels of logging.
#[derive(Debug, Clone, Copy, PartialEq, Eq, Structural)]
pub enum LogLevel {
    Warn,
    Info,
    Debug,
    Trace,
}

impl Opts {
    /// The log level for the verbosity: warnings, then info, debug and
    /// trace with each repeat of the option.
    pub fn log_level(&self) -> (l: LogLevel)
        ensures
            self.verbose == 0 ==> l == LogLevel::Warn,
            self.verbose == 1 ==> l == LogLevel::Info,
            self.verbose == 2 ==> l == LogLevel::Debug,
            self.verbose >= 3 ==> l == LogLevel::Trace,
    {
        match self.verbose {
            0 => LogLevel::Warn,
            1 => LogLevel::Info,
            2 => LogLevel::Debug,
            _ => LogLevel::Trace,
        }
    }
}

/// The driver configuration of the command-line options `opts` on a
/// machine with `ncpus` CPUs: one worker per CPU where 0 workers are
/// asked for, and a block size of the whole address range where no
/// progress is shown; the other options as given.
pub open spec fn config_from(opts: Opts, ncpus: usize) -> Config {
    Config {
        workers: workers_for(opts.workers, ncpus),
        block_size: if opts.no_progress {
            usize::MAX as u64
        } else {
            opts.block_size
        },
        gitignore: opts.gitignore,
        no_clobber: opts.no_clobber,
        no_perms: opts.no_perms,
        no_timestamps: opts.no_timestamps,
        dereference: opts.dereference,
        no_target_directory: opts.no_target_directory,
        fsync: opts.fsync,
        reflink: opts.reflink,
        backup: opts.backup,
    }
}

impl Config {
    /// The driver configuration of the command-line options on a machine
    /// with `ncpus` CPUs.
    pub fn from_opts_with(opts: &Opts, ncpus: usize) -> (c: Config)
        ensures
            c == config_from(*opts, ncpus),
            opts.workers == 0 ==> c.workers == ncpus,
            opts.workers != 0 ==> c.workers == opts.workers,
            opts.no_progress ==> c.block_size == usize::MAX as u64,
            !opts.no_progress ==> c.block_size == opts.block_size,
            c.gitignore == opts.gitignore,
            c.no_clobber == opts.no_clobber,
            c.no_perms == opts.no_perms,
            c.no_timestamps == opts.no_timestamps,
            c.dereference == opts.dereference,
            c.no_target_directory == opts.no_target_directory,
            c.fsync == opts.fsync,
            c.reflink == opts.reflink,
            c.backup == opts.backup,
    {
        Config {
            workers: if opts.workers == 0 {
                ncpus
            } else {
                opts.workers
            },
            block_size: if opts.no_progress {
                usize::MAX as u64
            } else {
                opts.block_size
            },
            gitignore: opts.gitignore,
            no_clobber: opts.no_clobber,
            no_perms: opts.no_perms,
            no_timestamps: opts.no_timestamps,
            dereference: opts.dereference,
            no_target_directory: opts.no_target_directory,
            fsync: opts.fsync,
            reflink: opts.reflink,
            backup: opts.backup,
        }
    }

    /// The driver configuration of the command-line options on this
    /// machine: [config_from] with this machine's CPU count, which is at
    /// least 1 and is asked for only where 0 workers are.
    pub fn from_opts(opts: &Opts) -> (c: Config)
        ensures
            c == config_from(*opts, c.workers),
            c.workers >= 1,
            opts.workers != 0 ==> c.workers == opts.workers,
            opts.no_progress ==> c.block_size == usize::MAX as u64,
            !opts.no_progress ==> c.block_size == opts.block_size,
            c.gitignore == opts.gitignore,
            c.no_clobber == opts.no_clobber,
            c.no_perms == opts.no_perms,
            c.no_timestamps == opts.no_timestamps,
            c.dereference == opts.dereference,
            c.no_target_directory == opts.no_target_directory,
            c.fsync == opts.fsync,
            c.reflink == opts.reflink,
            c.backup == opts.backup,
    {
        let ncpus = if opts.workers == 0 {
            num_cpus()
        } else {
            opts.workers
        };
        Config::from_opts_with(opts, ncpus)
    }
}

/// The configuration of a set of options takes every option that it
/// passes on as it is, takes the CPU count for the number of workers
/// exactly where 0 workers are asked for, and takes the whole address
/// range as block size exactly where no progress is shown.
pub proof fn lemma_config_from_options(opts: Opts, ncpus: usize)
    ensures
        ({
            let c = config_from(opts, ncpus);
            &&& c.workers == if opts.workers == 0 { ncpus } else { opts.workers }
            &&& c.block_size == if opts.no_progress { usize::MAX as u64 } else { opts.block_size }
            &&& c.gitignore == opts.gitignore
            &&& c.no_clobber == opts.no_clobber
            &&& c.no_perms == opts.no_perms
            &&& c.no_timestamps == opts.no_timestamps
            &&& c.dereference == opts.dereference
            &&& c.no_target_directory == opts.no_target_directory
            &&& c.fsync == opts.fsync
            &&& c.reflink == opts.reflink
            &&& c.backup == opts.backup
        }),
{
}

} // verus!
