use scst::first_line;
use scst::text::{base_name, dec_string, join, parse_i8, parse_u32, parse_u64, parse_usize};

#[test]
fn lib_test_read_fl() {
    assert_eq!(first_line("1"), "1");
    assert_eq!(first_line("3.1\nDEBUG"), "3.1");
    assert_eq!(first_line("open\n[key]"), "open");
}

#[test]
fn first_line_edges() {
    assert_eq!(first_line(""), "");
    assert_eq!(first_line("\nsecond"), "");
    assert_eq!(first_line("only\n"), "only");
}

#[test]
fn base_name_takes_last_component() {
    assert_eq!(base_name("/sys/kernel/scst_tgt/handlers/vdisk_fileio"), "vdisk_fileio");
    assert_eq!(base_name("disk1"), "disk1");
    assert_eq!(base_name("/a/"), "");
}

#[test]
fn join_puts_a_slash_between() {
    assert_eq!(join("/sys/devices/scst", "handlers"), "/sys/devices/scst/handlers");
}

#[test]
fn decimal_notation() {
    assert_eq!(dec_string(0), "0");
    assert_eq!(dec_string(7), "7");
    assert_eq!(dec_string(1234), "1234");
    assert_eq!(dec_string(u64::MAX), "18446744073709551615");
}

#[test]
fn parse_numbers_like_std() {
    assert_eq!(parse_u64("42"), Some(42));
    assert_eq!(parse_u64("+42"), Some(42));
    assert_eq!(parse_u64("007"), Some(7));
    assert_eq!(parse_u64(""), None);
    assert_eq!(parse_u64("+"), None);
    assert_eq!(parse_u64("-1"), None);
    assert_eq!(parse_u64("4 2"), None);
    assert_eq!(parse_u64("18446744073709551615"), Some(u64::MAX));
    assert_eq!(parse_u64("18446744073709551616"), None);
    assert_eq!(parse_u32("4294967296"), None);
    assert_eq!(parse_u32("512"), Some(512));
    assert_eq!(parse_usize("10737418240"), Some(10737418240));
    assert_eq!(parse_i8("-128"), Some(-128));
    assert_eq!(parse_i8("127"), Some(127));
    assert_eq!(parse_i8("128"), None);
    assert_eq!(parse_i8("-129"), None);
    assert_eq!(parse_i8("-"), None);
    assert_eq!(parse_i8("1"), Some(1));
}
