use emu_cli::text::{decimal_string, ends_with, parse_decimal, sorts_before, starts_with};
use emu_cli::text::{same_text, trim_end_matches, trim_start_matches};
use emu_cli::util::{proc_path, valid_filename};

#[test]
fn test_valid_filename() {
    for item in vec!["../one", "/vmlinuz", "im\x00smrt", "one/../two"] {
        assert!(!valid_filename(item));
    }

    for item in vec!["qemu-8675309.qcow2", "config"] {
        assert!(valid_filename(item));
    }
}

#[test]
fn valid_filename_edges() {
    assert!(valid_filename(""));
    assert!(valid_filename("."));
    assert!(valid_filename("a.b.c"));
    assert!(valid_filename(".a."));
    assert!(!valid_filename(".."));
    assert!(!valid_filename("a..b"));
    assert!(!valid_filename("a/"));
    assert!(!valid_filename("\x00"));
    assert!(valid_filename("vm \u{e9}t\u{e9}"));
}

#[test]
fn proc_path_names_the_process() {
    assert_eq!(proc_path(1), "/proc/1");
    assert_eq!(proc_path(8675309), "/proc/8675309");
    assert_eq!(proc_path(0), "/proc/0");
    assert_eq!(proc_path(u32::MAX), "/proc/4294967295");
}

#[test]
fn decimal_numerals() {
    assert_eq!(decimal_string(0), "0");
    assert_eq!(decimal_string(9), "9");
    assert_eq!(decimal_string(10), "10");
    assert_eq!(decimal_string(16384), "16384");
    assert_eq!(decimal_string(u64::MAX), "18446744073709551615");
    assert_eq!(parse_decimal("0", 10), Some(0));
    assert_eq!(parse_decimal("10", 10), Some(10));
    assert_eq!(parse_decimal("11", 10), None);
    assert_eq!(parse_decimal("+10", 10), Some(10));
    assert_eq!(parse_decimal("++1", 10), None);
    assert_eq!(parse_decimal("0000000000000000000001", 10), Some(1));
    assert_eq!(parse_decimal("99999999999999999999999", u32::MAX), None);
    assert_eq!(parse_decimal("\u{663}", 10), None);
}

#[test]
fn prefixes_suffixes_and_order() {
    assert!(ends_with("a.qcow2", ".qcow2"));
    assert!(!ends_with("a.qcow", ".qcow2"));
    assert!(ends_with("abc", ""));
    assert!(starts_with("emu.vm", "emu."));
    assert!(!starts_with("emu", "emu."));
    assert!(same_text("abc", "abc"));
    assert!(!same_text("abc", "abd"));
    assert!(!same_text("abc", "ab"));
    assert!(sorts_before("", "a"));
    assert!(sorts_before("a", "a"));
    assert!(sorts_before("a", "ab"));
    assert!(!sorts_before("ab", "a"));
    assert!(sorts_before("ab", "b"));
    assert!(!sorts_before("b", "ab"));
    assert_eq!(trim_start_matches("emu.emu.x", "emu."), "x");
    assert_eq!(trim_start_matches("xemu.", "emu."), "xemu.");
    assert_eq!(trim_start_matches("abc", ""), "abc");
    assert_eq!(trim_end_matches("x.service.service", ".service"), "x");
    assert_eq!(trim_end_matches("service", ".service"), "service");
    assert_eq!(trim_end_matches("aaa", "a"), "");
}
