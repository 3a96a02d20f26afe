use shed_power::text::{timestamp_text, truncate_for_log};

#[test]
fn log_previews_are_cut_with_an_ellipsis() {
    assert_eq!(truncate_for_log("hello", 10), "hello");
    assert_eq!(truncate_for_log("hello", 5), "hello");
    assert_eq!(truncate_for_log("hello world", 5), "hello...");
    assert_eq!(truncate_for_log("ééé", 2), "éé...");
    assert_eq!(truncate_for_log("", 0), "");
    assert_eq!(truncate_for_log("x", 0), "...");
}

#[test]
fn timestamps_are_decimal_seconds() {
    assert_eq!(timestamp_text(0), "0");
    assert_eq!(timestamp_text(1700000000), "1700000000");
    assert_eq!(timestamp_text(u64::MAX), "18446744073709551615");
}
