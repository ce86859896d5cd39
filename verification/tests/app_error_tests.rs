use nuclear_core::app_error::{AppError, MAX_ERROR_DETAIL_BYTES, MAX_ERROR_SUMMARY_BYTES};

fn unicode_capped_error() -> AppError {
    AppError::new("failed", &"🙂".repeat(MAX_ERROR_SUMMARY_BYTES))
        .with_detail(&"🙂".repeat(MAX_ERROR_DETAIL_BYTES))
}

#[test]
fn app_error_boundary_unicode_safely_caps_summary_and_detail() {
    let error = unicode_capped_error();

    assert!(error.summary.len() <= MAX_ERROR_SUMMARY_BYTES);
    assert!(error.detail.as_ref().unwrap().len() <= MAX_ERROR_DETAIL_BYTES);
    assert!(error.summary.ends_with("...[truncated]"));
    assert!(error.detail.unwrap().ends_with("...[truncated]"));
}

#[test]
fn tests_boundary_unicode_safely_caps_summary_and_detail() {
    let error = unicode_capped_error();

    assert!(error.summary.len() <= MAX_ERROR_SUMMARY_BYTES);
    assert!(error.detail.as_ref().unwrap().len() <= MAX_ERROR_DETAIL_BYTES);
    assert!(error.summary.ends_with("...[truncated]"));
    assert!(error.detail.unwrap().ends_with("...[truncated]"));
}

fn rendered_fields(error: &AppError) -> String {
    format!(
        "{}\n{}\n{}\n{}",
        error.code,
        error.summary,
        error.detail.clone().unwrap_or_default(),
        error.correlation_id
    )
}

fn redacted_error() -> AppError {
    AppError::new(
        "failed",
        "https://example.com/private C:\\Users\\Alice\\file token=secret\nAuthorization: Bearer bearer-secret",
    )
    .with_detail("cookie=private-value at \\\\server\\share\\item")
}

#[test]
fn app_error_boundary_redacts_urls_paths_and_secret_assignments() {
    let rendered = rendered_fields(&redacted_error());
    assert!(!rendered.contains("example.com"));
    assert!(!rendered.contains("Alice"));
    assert!(!rendered.contains("secret"));
    assert!(!rendered.contains("server"));
    assert!(!rendered.contains("private-value"));
    assert!(!rendered.contains("bearer-secret"));
}

#[test]
fn tests_boundary_redacts_urls_paths_and_secret_assignments() {
    let rendered = rendered_fields(&redacted_error());
    assert!(!rendered.contains("example.com"));
    assert!(!rendered.contains("Alice"));
    assert!(!rendered.contains("secret"));
    assert!(!rendered.contains("server"));
    assert!(!rendered.contains("private-value"));
    assert!(!rendered.contains("bearer-secret"));
}

#[test]
fn constructors_set_stable_codes_and_retry_hints() {
    let invalid = AppError::invalid("Bad input.");
    assert_eq!(invalid.code, "invalid_request");
    assert_eq!(invalid.summary, "Bad input.");
    assert!(!invalid.retryable);
    assert!(invalid.detail.is_none());

    let missing = AppError::not_found("queue item");
    assert_eq!(missing.code, "not_found");
    assert_eq!(missing.summary, "The requested queue item was not found.");

    let busy = AppError::busy("Try later.");
    assert_eq!(busy.code, "busy");
    assert!(busy.retryable);

    let internal = AppError::internal("Broken.");
    assert_eq!(internal.code, "internal_error");
    assert!(internal.retryable);
    assert_eq!(internal.to_display_string(), "Broken.");
}

#[test]
fn correlation_ids_are_hyphenated_uuids_and_fresh() {
    let first = AppError::new("a", "b");
    let second = AppError::new("a", "b");
    assert_eq!(first.correlation_id.chars().count(), 36);
    assert_ne!(first.correlation_id, second.correlation_id);
}

#[test]
fn retryable_replaces_only_the_retry_hint() {
    let error = AppError::new("code", "Summary.");
    let id = error.correlation_id.clone();
    let retried = error.retryable(true);
    assert!(retried.retryable);
    assert_eq!(retried.code, "code");
    assert_eq!(retried.summary, "Summary.");
    assert_eq!(retried.correlation_id, id);
}
