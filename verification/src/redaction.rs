//! Removal of URLs, Windows paths and credential assignments from
//! user-visible and logged text.
use crate::patterns::{regex_replace_all, regex_replace_all_result};
use vstd::prelude::*;

verus! {

/// Absolute `http://` or `https://` URLs.
pub const URL_PATTERN: &'static str = r#"(?i)https?://[^\s"']+"#;

/// Drive-letter and UNC paths.
pub const WINDOWS_PATH_PATTERN: &'static str = r#"(?i)(?:[a-z]:\\|\\\\)[^\r\n\t"']+"#;

/// Authorization and cookie header assignments, to the end of the line.
pub const HEADER_SECRET_PATTERN: &'static str =
    r"(?im)\b(authorization|proxy-authorization|cookie|set-cookie)\s*[:=]\s*[^\r\n]+";

/// Token and API-key assignments, to the next separator.
pub const TOKEN_PATTERN: &'static str = r"(?i)\b(token|api[_-]?key)\s*[:=]\s*[^\s,;]+";

pub const URL_REPLACEMENT: &'static str = "[url]";

pub const PATH_REPLACEMENT: &'static str = "[path]";

pub const SECRET_REPLACEMENT: &'static str = "$1=[redacted]";

/// Stands for the whole text when a redaction pattern cannot be compiled.
pub const FULLY_REDACTED: &'static str = "[redacted]";

/// One redaction pass; a pattern that cannot be compiled hides the whole text.
pub open spec fn redaction_pass(pattern: Seq<char>, text: Seq<char>, replacement: Seq<char>) -> Seq<
    char,
> {
    match regex_replace_all_result(pattern, text, replacement) {
        Some(r) => r,
        None => FULLY_REDACTED@,
    }
}

/// URLs, then paths, then header secrets, then tokens are replaced.
pub open spec fn redacted(message: Seq<char>) -> Seq<char> {
    let no_urls = redaction_pass(URL_PATTERN@, message, URL_REPLACEMENT@);
    let no_paths = redaction_pass(WINDOWS_PATH_PATTERN@, no_urls, PATH_REPLACEMENT@);
    let no_headers = redaction_pass(HEADER_SECRET_PATTERN@, no_paths, SECRET_REPLACEMENT@);
    redaction_pass(TOKEN_PATTERN@, no_headers, SECRET_REPLACEMENT@)
}

fn apply_pass(pattern: &str, text: &str, replacement: &str) -> (res: String)
    ensures
        res@ == redaction_pass(pattern@, text@, replacement@),
{
    match regex_replace_all(pattern, text, replacement) {
        Some(r) => r,
        None => FULLY_REDACTED.to_owned(),
    }
}

/// Removes URLs, Windows paths, header secrets and token assignments.
pub fn redact(message: &str) -> (res: String)
    ensures
        res@ == redacted(message@),
{
    let no_urls = apply_pass(URL_PATTERN, message, URL_REPLACEMENT);
    let no_paths = apply_pass(WINDOWS_PATH_PATTERN, no_urls.as_str(), PATH_REPLACEMENT);
    let no_headers = apply_pass(HEADER_SECRET_PATTERN, no_paths.as_str(), SECRET_REPLACEMENT);
    apply_pass(TOKEN_PATTERN, no_headers.as_str(), SECRET_REPLACEMENT)
}

} // verus!
