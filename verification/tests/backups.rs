use xcp::backup::{backup_dir, filename, get_backup_path, has_backup, is_num_backup, needs_backup, next_backup_num, backup_scan_needed};
use xcp::config::{Backup, Config};
use xcp::errors::XcpError;

#[test]
fn test_is_backup() {
    let cand = "/some/path/file.txt.~123~";

    let bnum = is_num_backup("file.txt", cand);
    assert!(bnum.is_some());
    assert_eq!(123, bnum.unwrap());

    let bnum = is_num_backup("other_file.txt", cand);
    assert!(bnum.is_none());

    let bnum = is_num_backup("le.txt", cand);
    assert!(bnum.is_none());
}

fn entries(names: &[&str]) -> Vec<String> {
    names.iter().map(|n| format!("/tmp/dir/{n}")).collect()
}

#[test]
fn test_backup_num_scan() {
    let base = "/tmp/dir/file.txt";
    let next = next_backup_num(base, &entries(&["file.txt"])).unwrap();
    assert_eq!(1, next);
    let next = next_backup_num(base, &entries(&["file.txt", "file.txt.~123~"])).unwrap();
    assert_eq!(124, next);
    let next = next_backup_num(base, &entries(&["file.txt", "file.txt.~123~", "file.txt.~999~"])).unwrap();
    assert_eq!(1000, next);
}

#[test]
fn test_gen_backup_path() {
    let base = "/tmp/dir/file.txt";
    let backup = get_backup_path(base, &entries(&["file.txt"])).unwrap();
    assert_eq!(backup, "/tmp/dir/file.txt.~1~");
}

#[test]
fn test_needs_backup() {
    let base = "/tmp/dir/file.txt";
    assert!(!has_backup(base, &entries(&["file.txt"])).unwrap());
    assert!(has_backup(base, &entries(&["file.txt", "file.txt.~123~"])).unwrap());
    assert!(has_backup(base, &entries(&["file.txt", "file.txt.~123~", "file.txt.~999~"])).unwrap());
}

#[test]
fn backup_numbers_need_digits_between_tildes() {
    assert_eq!(is_num_backup("f", "f.~~"), None);
    assert_eq!(is_num_backup("f", "f.~12"), None);
    assert_eq!(is_num_backup("f", "f.~1a~"), None);
    assert_eq!(is_num_backup("f", "f.~+1~"), None);
    assert_eq!(is_num_backup("f", "f.~007~"), Some(7));
    assert_eq!(is_num_backup("f", "f.~99999999999999999999~"), None);
    assert_eq!(is_num_backup("f", "f.~18446744073709551615~"), Some(u64::MAX));
    assert_eq!(is_num_backup("f", "f.~١~"), None);
    assert_eq!(is_num_backup("f", ".~1~"), None);
    assert_eq!(is_num_backup("f", "dir/f.~4~/"), Some(4));
    assert_eq!(is_num_backup("f", "f.~4~/.."), None);
}

#[test]
fn backup_names_are_the_base_name_then_the_number() {
    assert_eq!(is_num_backup("file.txt", "file.txtx.~5~"), None);
    assert_eq!(is_num_backup("file.txt", "file.txt.old.~5~"), None);
    assert_eq!(is_num_backup("file", "file.txt.~5~"), None);
    assert_eq!(is_num_backup("file.txt", "file.txt~5~"), None);
    assert_eq!(is_num_backup("file.txt", "file.txt.~5~"), Some(5));
}

#[test]
fn next_backup_path_round_trips() {
    let file = "some/dir/report.pdf";
    let existing = vec!["some/dir/report.pdf.~3~".to_string(), "some/dir/other.~9~".to_string()];
    let p = get_backup_path(file, &existing).unwrap();
    assert_eq!(p, "some/dir/report.pdf.~4~");
    assert_eq!(is_num_backup("report.pdf", &p), Some(4));
    assert!(!existing.contains(&p));
}

#[test]
fn backups_of_a_path_without_a_name_are_refused() {
    match filename("/") {
        Err(XcpError::InvalidArguments(m)) => assert_eq!(m, "Invalid path found: \"/\""),
        other => panic!("unexpected {other:?}"),
    }
    assert!(has_backup("..", &vec![]).is_err());
    assert!(next_backup_num("", &vec![]).is_err());
    assert_eq!(filename("a/b.txt").unwrap(), "b.txt");
}

#[test]
fn backup_decision_follows_the_option() {
    let mut conf = Config::default();
    conf.backup = Backup::Off;
    assert!(!needs_backup(&conf, true, true));
    conf.backup = Backup::Numbered;
    assert!(needs_backup(&conf, true, false));
    assert!(!needs_backup(&conf, false, false));
    conf.backup = Backup::Auto;
    assert!(needs_backup(&conf, true, true));
    assert!(!needs_backup(&conf, true, false));
    assert!(!needs_backup(&conf, false, true));
    assert!(backup_scan_needed(&conf, true));
    assert!(!backup_scan_needed(&conf, false));
}

#[test]
fn backups_are_searched_in_the_parent_directory() {
    assert_eq!(backup_dir("/tmp/dir/file.txt"), Some("/tmp/dir".to_string()));
    assert_eq!(backup_dir("file.txt"), None);
    assert_eq!(backup_dir("/"), None);
    assert_eq!(backup_dir("/file.txt"), Some("/".to_string()));
}
