use umakazoe::errors::FormatError;
use umakazoe::matcher::{extract_increment, extract_overwrite, extract_registration};
use umakazoe::text::contains_text;

#[test]
fn registration_extracts_trailing_pattern() {
    assert_eq!(extract_registration("かぞえて ぽ"), Some("ぽ".to_string()));
    assert_eq!(
        extract_registration("よろしく かぞえて ぽ です"),
        Some("ぽ です".to_string())
    );
}

#[test]
fn registration_skips_the_whole_whitespace_run() {
    assert_eq!(extract_registration("かぞえて    ぽ"), Some("ぽ".to_string()));
    assert_eq!(extract_registration("かぞえて　ぽ"), Some("ぽ".to_string()));
}

#[test]
fn registration_fails_without_a_following_pattern() {
    assert_eq!(extract_registration("かぞえて"), None);
    assert_eq!(extract_registration("かぞえて   "), None);
    assert_eq!(extract_registration("かぞえてぽ"), None);
    assert_eq!(extract_registration("なにもなし"), None);
}

#[test]
fn registration_takes_the_first_workable_occurrence() {
    // The first occurrence has no whitespace after it, so the second one is
    // the leftmost match.
    assert_eq!(
        extract_registration("かぞえてX かぞえて ぽ"),
        Some("ぽ".to_string())
    );
}

#[test]
fn increment_defaults_to_one() {
    assert_eq!(extract_increment("P", "P"), Ok(1));
    assert_eq!(extract_increment("P 5", "P"), Ok(1));
}

#[test]
fn increment_takes_digits_before_the_pattern() {
    assert_eq!(extract_increment("3 P", "P"), Ok(3));
    assert_eq!(extract_increment("12 P", "P"), Ok(12));
    assert_eq!(extract_increment("23P", "P"), Ok(23));
    assert_eq!(extract_increment("きょうは 7　P", "P"), Ok(7));
}

#[test]
fn increment_is_leftmost() {
    assert_eq!(extract_increment("2x3 P", "P"), Ok(3));
    assert_eq!(extract_increment("5 P 9 P", "P"), Ok(5));
}

#[test]
fn increment_digit_run_is_greedy() {
    // The digit run backtracks just enough for the literal pattern to fit.
    assert_eq!(extract_increment("231P", "1P"), Ok(23));
}

#[test]
fn increment_overflow_is_refused() {
    assert_eq!(extract_increment("2147483647 P", "P"), Ok(2147483647));
    assert_eq!(extract_increment("2147483648 P", "P"), Err(FormatError));
    assert_eq!(extract_increment("99999999999 P", "P"), Err(FormatError));
}

#[test]
fn overwrite_takes_digits_after_the_pattern() {
    assert_eq!(extract_overwrite("P 4", "P"), Ok(Some(4)));
    assert_eq!(extract_overwrite("うわがき P　10", "P"), Ok(Some(10)));
}

#[test]
fn overwrite_has_no_default() {
    assert_eq!(extract_overwrite("P", "P"), Ok(None));
    assert_eq!(extract_overwrite("7 P", "P"), Ok(None));
    assert_eq!(extract_overwrite("P7", "P"), Ok(None));
    assert_eq!(extract_overwrite("zzz 4", "P"), Ok(None));
}

#[test]
fn overwrite_overflow_is_refused() {
    assert_eq!(extract_overwrite("P 2147483648", "P"), Err(FormatError));
}

#[test]
fn contains_is_literal_substring_containment() {
    assert!(contains_text("abcdef", "cde"));
    assert!(contains_text("abcdef", ""));
    assert!(!contains_text("abcdef", "ce"));
    assert!(contains_text("ぽぽぽ", "ぽぽ"));
    assert!(!contains_text("ab", "abc"));
}
