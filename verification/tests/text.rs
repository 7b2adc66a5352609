use open_switch::clock::{get_unix_timestamp, timestamp_from};
use open_switch::error::AppError;
use open_switch::text::{
    contains_text, decimal_string, ends_with, is_blank, same_trimmed, str_eq,
};

#[test]
fn decimal_numerals() {
    assert_eq!(decimal_string(0), "0");
    assert_eq!(decimal_string(7), "7");
    assert_eq!(decimal_string(10), "10");
    assert_eq!(decimal_string(1_700_000_000), "1700000000");
    assert_eq!(decimal_string(-1), "-1");
    assert_eq!(decimal_string(-120), "-120");
    assert_eq!(decimal_string(i64::MAX), "9223372036854775807");
    assert_eq!(decimal_string(i64::MIN), "-9223372036854775808");
    for n in [-1000i64, -99, -10, -9, 9, 11, 99, 100, 101, 12345, 9_007_199_254_740_993] {
        assert_eq!(decimal_string(n), n.to_string());
    }
}

#[test]
fn blank_texts() {
    assert!(is_blank(""));
    assert!(is_blank(" "));
    assert!(is_blank("\n\t\r  \u{a0}\u{3000}"));
    assert!(!is_blank("a"));
    assert!(!is_blank("  a  "));
    assert!(!is_blank("\u{200b}"));
}

#[test]
fn comparison_of_texts() {
    assert!(str_eq("", ""));
    assert!(str_eq("abc", "abc"));
    assert!(!str_eq("abc", "abd"));
    assert!(!str_eq("abc", "ab"));
    assert!(!str_eq("é", "e"));
    assert!(same_trimmed("  a b \n", "a b"));
    assert!(same_trimmed("", "  "));
    assert!(!same_trimmed("a  b", "a b"));
    assert!(!same_trimmed("A", "a"));
}

#[test]
fn suffixes() {
    assert!(ends_with("run.cmd", ".cmd"));
    assert!(ends_with(".cmd", ".cmd"));
    assert!(ends_with("anything", ""));
    assert!(!ends_with("cmd", ".cmd"));
    assert!(!ends_with("run.cmdx", ".cmd"));
    assert!(ends_with("naïve.bat", ".bat"));
    assert!(ends_with("日本語", "本語"));
    assert!(!ends_with("", "a"));
}

#[test]
fn membership_in_a_list_of_texts() {
    let items = vec!["a".to_string(), "b".to_string()];
    assert!(contains_text(&items, "a"));
    assert!(contains_text(&items, "b"));
    assert!(!contains_text(&items, "c"));
    assert!(!contains_text(&items, ""));
    assert!(!contains_text(&Vec::new(), "a"));
}

#[test]
fn timestamps_from_clock_readings() {
    assert_eq!(timestamp_from(Ok(0)), Ok(0));
    assert_eq!(timestamp_from(Ok(1_700_000_000)), Ok(1_700_000_000));
    assert_eq!(timestamp_from(Ok(i64::MAX as u64)), Ok(i64::MAX));
    assert_eq!(timestamp_from(Ok(i64::MAX as u64 + 1)), Ok(i64::MIN));
    assert_eq!(timestamp_from(Ok(u64::MAX)), Ok(-1));
    assert_eq!(
        timestamp_from(Err("second time provided was later than self".to_string())),
        Err(AppError::Message(
            "Failed to get system time: second time provided was later than self".to_string()
        ))
    );
}

#[test]
fn the_clock_reads_a_time_after_2020() {
    let now = get_unix_timestamp();
    assert!(now.is_ok_and(|t| t > 1_577_836_800));
}

#[test]
fn error_messages() {
    assert_eq!(AppError::Config("no home".to_string()).message(), "Config error: no home");
    assert_eq!(AppError::io("/a/b", "denied").message(), "IO error: /a/b: denied");
    assert_eq!(
        AppError::io("/a/b", "denied"),
        AppError::Io { path: "/a/b".to_string(), source: "denied".to_string() }
    );
    assert_eq!(AppError::json("/c.json", "eof").message(), "JSON parse error: /c.json: eof");
    assert_eq!(
        AppError::json("/c.json", "eof"),
        AppError::Json { path: "/c.json".to_string(), source: "eof".to_string() }
    );
    assert_eq!(
        AppError::JsonSerialize { source: "bad".to_string() }.message(),
        "JSON serialize error: bad"
    );
    assert_eq!(AppError::Message("plain".to_string()).message(), "plain");
    assert_eq!(AppError::Database("locked".to_string()).message(), "Database error: locked");
    assert_eq!(AppError::InvalidInput("nope".to_string()).message(), "Invalid input: nope");
}
