use nuclear_core::diagnostics::{
    needs_rotation, redact, redact_and_bound, retention_expired, Diagnostics,
    MAX_DIAGNOSTIC_MESSAGE_BYTES, MAX_LOG_BYTES,
};

fn check_redaction() {
    let value = redact("open https://example.com/watch?v=secret at C:\\Users\\Alice\\cookies.txt\nAuthorization: Bearer secret-token\nCookie: session=abc; preference=dark");
    assert!(!value.contains("example.com"));
    assert!(!value.contains("Alice"));
    assert!(!value.contains("abc"));
    assert!(!value.contains("secret-token"));
    assert!(!value.contains("preference"));
    assert!(value.contains("[url]"));
    assert!(value.contains("[path]"));
}

fn check_unicode_bound() {
    let message = format!("{} secret-token", "🙂".repeat(MAX_DIAGNOSTIC_MESSAGE_BYTES));
    let bounded = redact_and_bound(&message);

    assert!(bounded.len() <= MAX_DIAGNOSTIC_MESSAGE_BYTES);
    assert!(bounded.ends_with("...[truncated]"));
    assert!(std::str::from_utf8(bounded.as_bytes()).is_ok());
}

#[test]
fn diagnostics_redaction_removes_urls_paths_and_secret_values() {
    check_redaction();
}

#[test]
fn tests_redaction_removes_urls_paths_and_secret_values() {
    check_redaction();
}

#[test]
fn diagnostics_diagnostic_messages_are_unicode_safely_bounded() {
    check_unicode_bound();
}

#[test]
fn tests_diagnostic_messages_are_unicode_safely_bounded() {
    check_unicode_bound();
}

#[test]
fn short_messages_are_logged_as_redacted() {
    assert_eq!(redact_and_bound("token=abc done"), "token=[redacted] done");
    assert_eq!(redact_and_bound("plain"), "plain");
}

#[test]
fn log_files_are_numbered_after_the_current_one() {
    let diagnostics = Diagnostics::new(r"C:\Data\diagnostics".to_string());
    assert_eq!(diagnostics.log_path(0), r"C:\Data\diagnostics\diagnostics.jsonl");
    assert_eq!(diagnostics.log_path(3), r"C:\Data\diagnostics\diagnostics.3.jsonl");
    assert_eq!(diagnostics.export_order(), vec![4, 3, 2, 1, 0]);
    assert_eq!(diagnostics.rotation_renames(), vec![(3, 4), (2, 3), (1, 2), (0, 1)]);
}

#[test]
fn rotation_happens_only_past_the_size_limit() {
    assert!(!needs_rotation(None, 10));
    assert!(!needs_rotation(Some(MAX_LOG_BYTES - 10), 10));
    assert!(needs_rotation(Some(MAX_LOG_BYTES - 10), 11));
    assert!(needs_rotation(Some(u64::MAX), 1));
}

#[test]
fn files_expire_after_seven_days() {
    assert!(!retention_expired(604_800, 0));
    assert!(retention_expired(604_800, 1));
    assert!(retention_expired(604_801, 0));
    assert!(!retention_expired(0, 0));
}
