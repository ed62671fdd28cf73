use std::path::Path;

use xcp::decimal::{parse_u64, u64_to_decimal};
use xcp::paths::{extension, file_name, str_equals, str_starts_with};

const SAMPLES: &[&str] = &[
    "", "/", "//", ".", "..", "./", "../", "a", "a/", "a//", "a/.", "a/./", "a/..", "/a", "/a/b",
    "a/b/c.txt", "a/b/.", "./a", "x/./y", ".bashrc", "a/.bashrc", "file.tar.gz", "file.", "a.~1~",
    "/some/path/file.txt.~123~", "..a", "a..", "...", "é/ü.ß", "a/b/../", "a/.../",
];

#[test]
fn file_name_agrees_with_std() {
    for s in SAMPLES {
        let expected = Path::new(s).file_name().map(|n| n.to_str().unwrap().to_string());
        assert_eq!(file_name(s), expected, "path {s:?}");
    }
}

#[test]
fn extension_agrees_with_std() {
    for s in SAMPLES {
        if let Some(name) = Path::new(s).file_name() {
            let name = name.to_str().unwrap();
            let expected = Path::new(name).extension().map(|n| n.to_str().unwrap().to_string());
            assert_eq!(extension(name), expected, "name {name:?}");
        }
    }
    assert_eq!(extension(".."), None);
}

#[test]
fn starts_with_and_equals() {
    assert!(str_starts_with("file.txt.~1~", "file.txt"));
    assert!(!str_starts_with("file", "file.txt"));
    assert!(str_starts_with("abc", ""));
    assert!(str_equals("é", "é"));
    assert!(!str_equals("ab", "abc"));
}

#[test]
fn parse_agrees_with_std() {
    let samples = ["", "+", "-", "0", "+0", "-0", "007", "12a", " 1", "18446744073709551615",
        "18446744073709551616", "99999999999999999999999", "+18446744073709551615", "١٢", "++1"];
    for s in samples {
        assert_eq!(parse_u64(s), s.parse::<u64>().ok(), "numeral {s:?}");
    }
}

#[test]
fn decimal_agrees_with_std() {
    for n in [0u64, 1, 9, 10, 99, 100, 12345, u64::MAX] {
        assert_eq!(u64_to_decimal(n), n.to_string());
        assert_eq!(parse_u64(&u64_to_decimal(n)), Some(n));
    }
}
