//! What one line of downloader output says about progress.
use crate::patterns::{regex_first_group, regex_first_group_result, regex_is_match, regex_is_match_result};
use vstd::prelude::*;

verus! {

/// A progress line: the percentage, followed by `%` and ` of`.
pub const DOWNLOAD_PROGRESS_PATTERN: &'static str = r"\[download\]\s+([\d.]+)%\s+of";

/// The transfer speed after `at`.
pub const DOWNLOAD_SPEED_PATTERN: &'static str = r"at\s+([\d.]+\w+/s)";

/// The remaining time after `ETA`.
pub const DOWNLOAD_ETA_PATTERN: &'static str = r"ETA\s+(\S+)";

/// A line of the post-processing steps (merging, converting, remuxing).
pub const DOWNLOAD_MERGE_PATTERN: &'static str =
    r"(?i)\[Merger\]|\[VideoConvertor\]|\[VideoRemuxer\]|\[ExtractAudio\]|post-?process|converting|remuxing";

/// What a line of downloader output reports.
#[derive(Debug, Clone, PartialEq, Eq)]
pub enum DownloadLineUpdate {
    /// Download progress: the percentage as written, and the speed and
    /// remaining time when the line gives them.
    Downloading { percent_text: String, speed: Option<String>, eta: Option<String> },
    /// Post-processing has started.
    Postprocessing,
    /// The line says nothing about progress.
    Nothing,
}

/// The first group of `pattern` in `text`, where the pattern matches.
pub open spec fn first_group(pattern: Seq<char>, text: Seq<char>) -> Option<Seq<char>> {
    match regex_first_group_result(pattern, text) {
        Some(Some(g)) => Some(g),
        _ => None,
    }
}

fn first_group_of(pattern: &str, text: &str) -> (res: Option<String>)
    ensures
        match res {
            Some(g) => first_group(pattern@, text@) == Some(g@),
            None => first_group(pattern@, text@) is None,
        },
{
    match regex_first_group(pattern, text) {
        Some(Some(g)) => Some(g),
        _ => None,
    }
}

/// A progress line reports its percentage, speed and remaining time; a line
/// of the post-processing steps reports post-processing; any other line
/// reports nothing.
pub fn classify_download_line(line: &str) -> (u: DownloadLineUpdate)
    ensures
        match first_group(DOWNLOAD_PROGRESS_PATTERN@, line@) {
            Some(p) => u matches DownloadLineUpdate::Downloading { percent_text, speed, eta }
                && percent_text@ == p && match first_group(DOWNLOAD_SPEED_PATTERN@, line@) {
                Some(s) => speed matches Some(x) && x@ == s,
                None => speed is None,
            } && match first_group(DOWNLOAD_ETA_PATTERN@, line@) {
                Some(e) => eta matches Some(x) && x@ == e,
                None => eta is None,
            },
            None => if regex_is_match_result(DOWNLOAD_MERGE_PATTERN@, line@) == Some(true) {
                u == DownloadLineUpdate::Postprocessing
            } else {
                u == DownloadLineUpdate::Nothing
            },
        },
{
    match first_group_of(DOWNLOAD_PROGRESS_PATTERN, line) {
        Some(percent_text) => DownloadLineUpdate::Downloading {
            percent_text,
            speed: first_group_of(DOWNLOAD_SPEED_PATTERN, line),
            eta: first_group_of(DOWNLOAD_ETA_PATTERN, line),
        },
        None => match regex_is_match(DOWNLOAD_MERGE_PATTERN, line) {
            Some(true) => DownloadLineUpdate::Postprocessing,
            _ => DownloadLineUpdate::Nothing,
        },
    }
}

} // verus!
