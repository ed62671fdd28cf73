use xcp::cli::{check_destination, check_source, plan_copy, split_paths, CopyMode};
use xcp::config::{Backup, Config, Reflink};
use xcp::drivers::Drivers;
use xcp::errors::XcpError;
use xcp::options::{LogLevel, Opts};

#[test]
fn common_no_args() {
    let r = split_paths(&vec![]);
    match r {
        Err(XcpError::InvalidArguments(m)) => assert!(m.contains("Insufficient arguments")),
        other => panic!("unexpected {other:?}"),
    }
}

#[test]
fn last_path_is_the_destination() {
    let paths = vec!["a".to_string(), "b".to_string(), "dest".to_string()];
    let (dest, sources) = split_paths(&paths).unwrap();
    assert_eq!(dest, "dest");
    assert_eq!(sources, vec!["a".to_string(), "b".to_string()]);
    let (dest, sources) = split_paths(&vec!["only".to_string()]).unwrap();
    assert_eq!(dest, "only");
    assert!(sources.is_empty());
}

#[test]
fn several_sources_need_a_directory() {
    assert_eq!(check_destination(2, false),
        Err(XcpError::InvalidDestination("Multiple sources and destination is not a directory.")));
    assert!(check_destination(2, true).is_ok());
    assert!(check_destination(1, false).is_ok());
}

#[test]
fn copy_mode_by_sources_and_destination() {
    assert_eq!(plan_copy(0, false, false), Err(XcpError::IOError("No source files found.".to_string())));
    assert_eq!(plan_copy(1, true, false), Ok(CopyMode::Single));
    assert_eq!(plan_copy(1, true, true),
        Err(XcpError::IOError("Destination file exists and --no-clobber is set.".to_string())));
    assert_eq!(plan_copy(1, false, true), Ok(CopyMode::All));
    assert_eq!(plan_copy(3, true, false), Ok(CopyMode::All));
}

#[test]
fn sources_are_checked_in_order() {
    assert_eq!(check_source(false, true, false, true, false),
        Err(XcpError::IOError("Source does not exist.".to_string())));
    assert_eq!(check_source(true, true, false, true, false),
        Err(XcpError::InvalidSource("Source is directory and --recursive not specified.")));
    assert_eq!(check_source(true, true, true, true, false),
        Err(XcpError::InvalidDestination("Source is directory but target exists and is not a directory")));
    assert!(check_source(true, true, true, true, true).is_ok());
    assert!(check_source(true, false, false, false, false).is_ok());
}

fn opts(verbose: u8, workers: usize, no_progress: bool) -> Opts {
    Opts {
        verbose,
        recursive: true,
        dereference: false,
        workers,
        block_size: 1_000_000,
        no_clobber: true,
        gitignore: false,
        glob: false,
        no_progress,
        no_perms: true,
        no_timestamps: false,
        driver: Drivers::ParFile,
        no_target_directory: false,
        fsync: true,
        reflink: Reflink::Never,
        backup: Backup::Numbered,
        paths: vec![],
    }
}

#[test]
fn log_level_by_verbosity() {
    assert_eq!(opts(0, 1, false).log_level(), LogLevel::Warn);
    assert_eq!(opts(1, 1, false).log_level(), LogLevel::Info);
    assert_eq!(opts(2, 1, false).log_level(), LogLevel::Debug);
    assert_eq!(opts(3, 1, false).log_level(), LogLevel::Trace);
    assert_eq!(opts(200, 1, false).log_level(), LogLevel::Trace);
}

#[test]
fn config_of_options() {
    let c = Config::from_opts(&opts(0, 4, false));
    assert_eq!(c.workers, 4);
    assert_eq!(c.block_size, 1_000_000);
    assert!(c.no_clobber && c.no_perms && c.fsync && !c.gitignore);
    assert_eq!(c.reflink, Reflink::Never);
    assert_eq!(c.backup, Backup::Numbered);
    let c = Config::from_opts(&opts(0, 0, true));
    assert!(c.workers >= 1);
    assert_eq!(c.block_size, usize::MAX as u64);
}

#[test]
fn config_workers_follow_the_cpu_count() {
    let c = Config::from_opts_with(&opts(0, 0, false), 12);
    assert_eq!(c.workers, 12);
    assert_eq!(c.block_size, 1_000_000);
    let c = Config::from_opts_with(&opts(0, 3, true), 12);
    assert_eq!(c.workers, 3);
    assert_eq!(c.block_size, usize::MAX as u64);
    assert_eq!(c.num_workers_with(16), 3);
    let mut c0 = c;
    c0.workers = 0;
    assert_eq!(c0.num_workers_with(16), 16);
}
