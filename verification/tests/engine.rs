use xcp::attribs::FileType as EntryType;
use xcp::config::{Backup, Config, Reflink};
use xcp::drivers::{load_driver, pick_driver, Drivers, LoadedDriver};
use xcp::errors::XcpError;
use xcp::feedback::{should_forward, NoopUpdater, ProgressGrouper, StatusUpdate, StatusUpdater};
use xcp::node::{copy_node, NodeType};
use xcp::progress::{create_bar, BarKind, NoopBar, ProgressBar};
use xcp::utils::{empty, to_enum, FileType, FileTypeFlags, ToFileType};
use xcp::walk::{entry_target, join, keeps_entry, plan_entry, target_base, Abort, EntryAction};

#[test]
fn option_values_ignore_case() {
    assert_eq!(Reflink::from_str("ALWAYS"), Ok(Reflink::Always));
    assert_eq!(Reflink::from_str("auto"), Ok(Reflink::Auto));
    assert_eq!(Reflink::from_str("Never"), Ok(Reflink::Never));
    assert_eq!(Reflink::from_str("sometimes"),
        Err(XcpError::InvalidArguments("Unexpected value for 'reflink': sometimes".to_string())));
    assert_eq!(Backup::from_str("NONE"), Ok(Backup::Off));
    assert_eq!(Backup::from_str("off"), Ok(Backup::Off));
    assert_eq!(Backup::from_str("Auto"), Ok(Backup::Auto));
    assert_eq!(Backup::from_str("numbered"), Ok(Backup::Numbered));
    assert_eq!(Backup::from_str("simple"),
        Err(XcpError::InvalidArguments("Unexpected value for 'backup': simple".to_string())));
    assert_eq!(Reflink::default(), Reflink::Auto);
}

#[test]
fn default_config() {
    let c = Config::default();
    assert!(c.workers >= 1);
    assert_eq!(c.block_size, u64::MAX);
    assert!(!c.gitignore && !c.no_clobber && !c.no_perms && !c.no_target_directory && !c.fsync);
    assert_eq!(c.reflink, Reflink::Auto);
    assert_eq!(c.backup, Backup::Off);
    let mut c2 = c;
    c2.workers = 0;
    assert!(c2.num_workers() >= 1);
    c2.workers = 7;
    assert_eq!(c2.num_workers(), 7);
}

#[test]
fn drivers_by_name() {
    assert_eq!(Drivers::from_str("ParFile"), Ok(Drivers::ParFile));
    assert_eq!(Drivers::from_str("parblock"), Ok(Drivers::ParBlock));
    assert_eq!(Drivers::from_str("fast"), Err(XcpError::UnknownDriver("fast".to_string())));
}

#[test]
fn loading_and_picking_drivers() {
    let c = Config::default();
    match load_driver(Drivers::ParFile, &c, false) {
        Ok(LoadedDriver::ParFile(d)) => assert_eq!(*d.get_config(), c),
        _ => panic!("expected the file-parallel driver"),
    }
    match load_driver(Drivers::ParBlock, &c, true) {
        Ok(LoadedDriver::ParBlock(d)) => assert_eq!(*d.get_config(), c),
        _ => panic!("expected the block-parallel driver"),
    }
    assert!(matches!(load_driver(Drivers::ParBlock, &c, false),
        Err(XcpError::UnsupportedOS("The parblock driver is not currently supported on this OS."))));
    assert_eq!(pick_driver(None, false), Ok(Drivers::ParFile));
    assert_eq!(pick_driver(Some(Drivers::ParBlock), true), Ok(Drivers::ParBlock));
    assert_eq!(pick_driver(Some(Drivers::ParBlock), false),
        Err(XcpError::UnsupportedOS("The parblock driver is not currently supported on Mac.")));
}

#[test]
fn updates_are_grouped_by_block() {
    assert!(!should_forward(&StatusUpdate::Copied(10), 0, 100));
    assert!(should_forward(&StatusUpdate::Copied(10), 95, 100));
    assert!(should_forward(&StatusUpdate::Copied(100), 0, 100));
    assert!(!should_forward(&StatusUpdate::Copied(5), 100, 100));
    assert!(should_forward(&StatusUpdate::Size(1), 0, 100));
    assert!(should_forward(&StatusUpdate::Error(XcpError::UnsupportedOperation), 0, 100));
    assert!(!should_forward(&StatusUpdate::Copied(1 << 40), 0, u64::MAX));
    assert!(NoopUpdater.send(StatusUpdate::Size(3)).is_ok());
}

#[test]
fn grouped_progress_passes_one_event_per_block() {
    let mut total: u64 = 0;
    let mut passed = 0;
    for n in [4u64, 4, 4, 4, 4, 10, 3] {
        if should_forward(&StatusUpdate::Copied(n), total, 10) {
            passed += 1;
        }
        total += n;
    }
    assert_eq!(total, 33);
    assert_eq!(passed, 3);
}

#[test]
fn progress_bar_choice() {
    assert_eq!(create_bar(true, 10), BarKind::Noop);
    assert_eq!(create_bar(false, 10), BarKind::Visual(10));
    let b = NoopBar;
    b.set_size(1);
    b.inc_size(1);
    b.inc(1);
    b.end();
}

#[test]
fn file_type_flags() {
    let f = |d, fi, s| FileTypeFlags { is_dir: d, is_file: fi, is_symlink: s };
    assert_eq!(to_enum(f(true, false, false)), FileType::Dir);
    assert_eq!(to_enum(f(false, true, false)), FileType::File);
    assert_eq!(f(false, false, true).to_enum(), FileType::Symlink);
    assert_eq!(to_enum(f(false, false, false)), FileType::Other);
    assert!(empty(""));
    assert!(!empty("."));
}

#[test]
fn special_file_node() {
    let n = copy_node(0o140755, 42);
    assert_eq!(n.file_type, NodeType::Socket);
    assert_eq!(n.mode, 0o755);
    assert_eq!(n.dev, 42);
    let n = copy_node(0o020644, 7);
    assert_eq!(n.file_type, NodeType::CharacterDevice);
    assert_eq!(n.mode, 0o644);
    assert_eq!(copy_node(0o104755, 0).mode, 0o4755);
    assert_eq!(EntryType::from_raw_mode(0o100644), EntryType::File);
    assert_eq!(EntryType::from_raw_mode(0o040755), EntryType::Dir);
    assert_eq!(EntryType::from_raw_mode(0o120777), EntryType::Symlink);
    assert_eq!(EntryType::from_raw_mode(0o010600), EntryType::Fifo);
    assert_eq!(EntryType::from_raw_mode(0o060600), EntryType::Other);
}

#[test]
fn tree_targets() {
    assert_eq!(target_base("src/dir", "/dest", true, false).unwrap(), "/dest/dir");
    assert_eq!(target_base("src/dir", "/dest", true, true).unwrap(), "/dest");
    assert_eq!(target_base("src/dir", "/dest", false, false).unwrap(), "/dest");
    assert_eq!(target_base("", "/dest", true, false),
        Err(XcpError::InvalidSource("Failed to find source directory name.")));
    assert_eq!(entry_target("/dest/dir", ""), "/dest/dir");
    assert_eq!(entry_target("/dest/dir", "a/b.txt"), "/dest/dir/a/b.txt");
}

#[test]
fn paths_join_as_std_does() {
    for (base, p) in [("/dest", "a"), ("/dest/", "a"), ("", "a"), ("/dest", "/abs"), ("d", ""), ("", ""), ("/", "x/y")] {
        let expected = std::path::Path::new(base).join(p).to_string_lossy().into_owned();
        assert_eq!(join(base, p), expected);
    }
    assert_eq!(join("/dest", "a"), "/dest/a");
    assert_eq!(join("/dest", "/abs"), "/abs");
}

#[test]
fn ignored_entries_are_dropped() {
    assert!(keeps_entry(None));
    assert!(keeps_entry(Some(false)));
    assert!(!keeps_entry(Some(true)));
}

#[test]
fn tree_entry_actions() {
    assert_eq!(plan_entry(EntryType::File, 12, false, true, "t".to_string()), Ok(EntryAction::Copy { size: 12 }));
    assert_eq!(plan_entry(EntryType::Symlink, 0, true, false, "t".to_string()), Ok(EntryAction::Link));
    assert_eq!(plan_entry(EntryType::Dir, 0, false, false, "t".to_string()), Ok(EntryAction::CreateDir));
    assert_eq!(plan_entry(EntryType::Fifo, 0, false, false, "t".to_string()), Ok(EntryAction::Special));
    assert_eq!(plan_entry(EntryType::Other, 0, false, false, "t".to_string()),
        Err(Abort { report: None, error: XcpError::UnknownFileType("t".to_string()) }));
    assert_eq!(plan_entry(EntryType::File, 1, true, true, "t".to_string()),
        Err(Abort {
            report: Some(XcpError::DestinationExists("Destination file exists and --no-clobber is set.", "t".to_string())),
            error: XcpError::EarlyShutdown("Path exists and --no-clobber set."),
        }));
}

#[test]
fn at_most_one_update_per_block() {
    let block = 100u64;
    let counts = [30u64, 30, 30, 30, 250, 1, 1, 98, 0, 100];
    let mut total = 0u64;
    let mut forwarded = 0u64;
    for c in counts {
        if should_forward(&StatusUpdate::Copied(c), total, block) {
            forwarded += 1;
        }
        total += c;
    }
    assert_eq!(total, 570);
    assert!(forwarded <= total / block);
    assert_eq!(forwarded, 4);
}

#[test]
fn grouped_progress_carries_the_bytes_since_the_last_event() {
    let mut g = ProgressGrouper::new(10);
    let mut out = Vec::new();
    for n in [4u64, 4, 4, 4, 4, 25, 3] {
        if let Some(e) = g.on_update(StatusUpdate::Copied(n)) {
            out.push(e);
        }
    }
    assert_eq!(out, vec![StatusUpdate::Copied(12), StatusUpdate::Copied(8), StatusUpdate::Copied(25)]);
    assert_eq!((g.written, g.forwarded), (48, 45));
    assert_eq!(g.on_update(StatusUpdate::Size(7)), Some(StatusUpdate::Size(7)));
    assert_eq!(
        g.on_update(StatusUpdate::Error(XcpError::UnsupportedOperation)),
        Some(StatusUpdate::Error(XcpError::UnsupportedOperation))
    );
    assert_eq!(g.written, 48);
}

#[test]
fn device_nodes_keep_their_device_number() {
    let n = copy_node(0o060640, 0x0803);
    assert_eq!(n.file_type, NodeType::BlockDevice);
    assert_eq!(n.mode, 0o640);
    assert_eq!(n.dev, 0x0803);
}
