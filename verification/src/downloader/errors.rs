//! Turning downloader failures into stable error codes and readable messages.
use crate::downloader::validation::{is_x_or_twitter_url, x_or_twitter_url};
use crate::text::{
    ascii_lower, chars_of, concat2, contains, contains_str, extend_str,
    i64_to_string, join_chars, join_with, owned, signed_decimal, slice_range, split_chars, str_eq,
    split_on, string_from_chars, to_ascii_lower, trim, trimmed_whitespace, views_of_chars,
};
use vstd::prelude::*;

verus! {

/// A classified failure of a downloader process.
#[derive(Debug, Clone, PartialEq, Eq)]
pub struct DownloadErrorInfo {
    pub code: String,
    pub message: String,
    pub detail: String,
}

/// The guest-token / API authorisation failures of the X (Twitter) extractor.
pub open spec fn twitter_api_auth_error(message: Seq<char>) -> bool {
    let l = ascii_lower(message);
    contains(l, "guest token"@) || contains(l, "bad guest token"@) || contains(
        l,
        "failed to query api"@,
    ) || (contains(l, "[twitter]"@) && contains(l, "unauthorized"@))
}

pub fn is_twitter_api_auth_error(message: &str) -> (res: bool)
    ensures
        res == twitter_api_auth_error(message@),
{
    let chars = chars_of(message);
    let l = to_ascii_lower(chars.as_slice());
    let l = l.as_slice();
    contains_str(l, "guest token") || contains_str(l, "bad guest token") || contains_str(
        l,
        "failed to query api",
    ) || (contains_str(l, "[twitter]") && contains_str(l, "unauthorized"))
}

/// Messages saying that a post has no downloadable video.
pub open spec fn twitter_missing_video_error(message: Seq<char>) -> bool {
    let l = ascii_lower(message);
    contains(l, "no video"@) || contains(l, "does not contain a video"@) || contains(
        l,
        "no video could be found"@,
    ) || contains(l, "no media"@) || contains(l, "requested format is not available"@)
}

pub fn is_twitter_missing_video_error(message: &str) -> (res: bool)
    ensures
        res == twitter_missing_video_error(message@),
{
    let chars = chars_of(message);
    let l = to_ascii_lower(chars.as_slice());
    let l = l.as_slice();
    contains_str(l, "no video") || contains_str(l, "does not contain a video") || contains_str(
        l,
        "no video could be found",
    ) || contains_str(l, "no media") || contains_str(l, "requested format is not available")
}

/// An X or Twitter URL whose failure the syndication API may avoid.
pub open spec fn retry_with_twitter_syndication(url: Seq<char>, message: Seq<char>) -> bool {
    x_or_twitter_url(url) && (twitter_api_auth_error(message) || twitter_missing_video_error(
        message,
    ))
}

pub fn should_retry_with_twitter_syndication(url: &str, message: &str) -> (res: bool)
    ensures
        res == retry_with_twitter_syndication(url@, message@),
{
    is_x_or_twitter_url(url) && (is_twitter_api_auth_error(message)
        || is_twitter_missing_video_error(message))
}

/// Blank lines and the DRM warning that ffmpeg prints before real errors.
pub open spec fn non_actionable_error_line(line: Seq<char>) -> bool {
    let t = trim(line);
    t.len() == 0 || contains(ascii_lower(t), "drm protected stream detected, decoding will likely fail"@)
}

pub fn is_non_actionable_error_line(line: &[char]) -> (res: bool)
    ensures
        res == non_actionable_error_line(line@),
{
    let t = trimmed_whitespace(line);
    if t.len() == 0 {
        return true;
    }
    let l = to_ascii_lower(t.as_slice());
    contains_str(l.as_slice(), "drm protected stream detected, decoding will likely fail")
}

/// The non-empty trimmed lines of a text, in order.
pub open spec fn keep_nonempty(lines: Seq<Seq<char>>) -> Seq<Seq<char>>
    decreases lines.len(),
{
    if lines.len() == 0 {
        Seq::empty()
    } else {
        let prev = keep_nonempty(lines.drop_last());
        if trim(lines.last()).len() > 0 {
            prev.push(trim(lines.last()))
        } else {
            prev
        }
    }
}

/// The lines that are not [`non_actionable_error_line`], in order.
pub open spec fn keep_actionable(lines: Seq<Seq<char>>) -> Seq<Seq<char>>
    decreases lines.len(),
{
    if lines.len() == 0 {
        Seq::empty()
    } else {
        let prev = keep_actionable(lines.drop_last());
        if non_actionable_error_line(lines.last()) {
            prev
        } else {
            prev.push(lines.last())
        }
    }
}

/// The last three elements (or all, if fewer).
pub open spec fn last_three(lines: Seq<Seq<char>>) -> Seq<Seq<char>> {
    if lines.len() > 3 {
        lines.skip(lines.len() - 3)
    } else {
        lines
    }
}

/// The one-line summary of a failed process: its last three meaningful
/// stderr lines joined with ` | `, preferring lines other than the DRM
/// warning, or the exit code when stderr is empty.
pub open spec fn error_summary(stderr: Seq<char>, exit_code: Option<i32>) -> Seq<char> {
    if stderr.len() == 0 {
        "yt-dlp exited with code "@ + signed_decimal(
            match exit_code {
                Some(c) => c as int,
                None => -1,
            },
        )
    } else {
        let lines = keep_nonempty(split_on(stderr, '\n'));
        let actionable = keep_actionable(lines);
        let chosen = if actionable.len() == 0 {
            lines
        } else {
            actionable
        };
        join_with(last_three(chosen), " | "@)
    }
}

pub fn build_error_message(stderr_output: &str, exit_code: Option<i32>) -> (res: String)
    ensures
        res@ == error_summary(stderr_output@, exit_code),
{
    let chars = chars_of(stderr_output);
    if chars.len() == 0 {
        let code: i64 = match exit_code {
            Some(c) => c as i64,
            None => -1,
        };
        let digits = i64_to_string(code);
        return concat2("yt-dlp exited with code ", digits.as_str());
    }
    let segments = split_chars(chars.as_slice(), '\n');
    let mut lines: Vec<Vec<char>> = Vec::new();
    let mut i: usize = 0;
    while i < segments.len()
        invariant
            i <= segments@.len(),
            views_of_chars(lines@) == keep_nonempty(views_of_chars(segments@).take(i as int)),
        decreases segments@.len() - i,
    {
        let t = trimmed_whitespace(segments[i].as_slice());
        let ghost prefix = views_of_chars(segments@).take(i + 1);
        assert(prefix.drop_last() =~= views_of_chars(segments@).take(i as int));
        if t.len() > 0 {
            lines.push(t);
            assert(views_of_chars(lines@) =~= keep_nonempty(prefix));
        }
        i += 1;
    }
    assert(views_of_chars(segments@).take(segments@.len() as int) =~= views_of_chars(segments@));
    let mut actionable: Vec<Vec<char>> = Vec::new();
    let mut j: usize = 0;
    while j < lines.len()
        invariant
            j <= lines@.len(),
            views_of_chars(actionable@) == keep_actionable(views_of_chars(lines@).take(j as int)),
        decreases lines@.len() - j,
    {
        let ghost prefix = views_of_chars(lines@).take(j + 1);
        assert(prefix.drop_last() =~= views_of_chars(lines@).take(j as int));
        if !is_non_actionable_error_line(lines[j].as_slice()) {
            let copy = slice_range(lines[j].as_slice(), 0, lines[j].len());
            assert(copy@ =~= lines@[j as int]@);
            actionable.push(copy);
            assert(views_of_chars(actionable@) =~= keep_actionable(prefix));
        }
        j += 1;
    }
    assert(views_of_chars(lines@).take(lines@.len() as int) =~= views_of_chars(lines@));
    let chosen = if actionable.len() == 0 {
        lines
    } else {
        actionable
    };
    let n = chosen.len();
    let start = if n > 3 {
        n - 3
    } else {
        0
    };
    let mut tail: Vec<Vec<char>> = Vec::new();
    let mut k = start;
    while k < n
        invariant
            start <= k <= n,
            n == chosen@.len(),
            views_of_chars(tail@) == views_of_chars(chosen@).subrange(start as int, k as int),
        decreases n - k,
    {
        let copy = slice_range(chosen[k].as_slice(), 0, chosen[k].len());
        assert(copy@ =~= chosen@[k as int]@);
        let ghost before = tail@;
        tail.push(copy);
        assert(tail@ == before.push(copy));
        assert(views_of_chars(tail@) =~= views_of_chars(before).push(copy@));
        k += 1;
        assert(views_of_chars(tail@) =~= views_of_chars(chosen@).subrange(start as int, k as int));
    }
    assert(views_of_chars(chosen@).subrange(start as int, n as int) =~= last_three(
        views_of_chars(chosen@),
    ));
    let joined = join_chars(&tail, " | ");
    string_from_chars(joined.as_slice())
}

/// A failure with the same message as its detail.
pub fn simple_error(code: &str, message: &str) -> (e: DownloadErrorInfo)
    ensures
        e.code@ == code@,
        e.message@ == message@,
        e.detail@ == message@,
{
    DownloadErrorInfo { code: owned(code), message: owned(message), detail: owned(message) }
}

/// The error code for a process failure, decided from its lower-cased stderr.
pub open spec fn failure_code(lower: Seq<char>) -> Seq<char> {
    if contains(lower, "no supported javascript runtime"@) || contains(lower, "js runtime"@)
        || contains(lower, "ejs"@) {
        "youtube_missing_js_runtime"@
    } else if contains(lower, "po token"@) || contains(lower, "potoken"@) || contains(
        lower,
        "proof of origin"@,
    ) || contains(lower, "confirm you"@) || contains(lower, "not a bot"@) || contains(
        lower,
        "bot verification"@,
    ) {
        "youtube_bot_verification"@
    } else if contains(lower, "login required"@) || contains(lower, "authentication required"@)
        || contains(lower, "private video"@) || contains(lower, "members-only"@) || contains(
        lower,
        "age-restricted"@,
    ) || contains(lower, "sign in to confirm your age"@) {
        "login_required"@
    } else if (contains(lower, "could not copy"@) && contains(lower, "cookie"@)) || contains(
        lower,
        "cookie database"@,
    ) || contains(lower, "cookies-from-browser"@) || (contains(lower, "decrypt"@) && contains(
        lower,
        "cookie"@,
    )) || (contains(lower, "cookie"@) && contains(lower, "locked"@)) || (contains(
        lower,
        "cookie"@,
    ) && contains(lower, "expired"@)) {
        "cookie_failure"@
    } else if contains(lower, "requested format is not available"@) || contains(
        lower,
        "no video formats found"@,
    ) || contains(lower, "no compatible formats"@) {
        "format_unavailable"@
    } else if contains(lower, "not available in your country"@) || contains(lower, "geo"@)
        || contains(lower, "region"@) {
        "region_unavailable"@
    } else if contains(lower, "video unavailable"@) || contains(lower, "this video is unavailable"@)
        || contains(lower, "removed"@) || contains(lower, "unsupported url"@) {
        "unavailable"@
    } else if contains(lower, "ffmpeg"@) || contains(lower, "ffprobe"@) || contains(
        lower,
        "post-process"@,
    ) || contains(lower, "postprocess"@) {
        "postprocess_failed"@
    } else {
        "download_failed"@
    }
}

/// The user-facing message for a failure code; `summary` is used for the
/// generic code and `mp4` selects the MP4-specific format hint.
pub open spec fn failure_message(code: Seq<char>, mp4: bool, summary: Seq<char>) -> Seq<char> {
    if code == "youtube_missing_js_runtime"@ {
        "YouTube extraction needs the bundled JavaScript runtime. Update the downloader runtime and retry."@
    } else if code == "youtube_bot_verification"@ {
        "YouTube asked for bot or PO-token verification for this public video. Update the downloader runtime first; if it still fails, use the advanced compatibility config/plugin hook for that network."@
    } else if code == "login_required"@ {
        "This video requires an account that can access it. Enable cookies or provide a cookies.txt file, then retry."@
    } else if code == "cookie_failure"@ {
        "The selected cookies could not be used. Refresh the cookies.txt file or close the browser before importing cookies."@
    } else if code == "format_unavailable"@ {
        if mp4 {
            "No compatible MP4 stream is available for this video. Choose MKV for best quality or WebM conversion and retry."@
        } else {
            "The requested format is not available for this video. Choose another format or quality and retry."@
        }
    } else if code == "region_unavailable"@ {
        "This video is not available from the current region or network."@
    } else if code == "unavailable"@ {
        "This URL is unavailable or unsupported by the downloader runtime."@
    } else if code == "postprocess_failed"@ {
        "The media downloaded but post-processing failed. Update the downloader runtime and retry."@
    } else {
        summary
    }
}

/// The detail of a classified failure: the trimmed stderr (or the summary when
/// stderr is blank) followed by the runtime diagnostic summary.
pub open spec fn failure_detail(stderr: Seq<char>, summary: Seq<char>, runtime_summary: Seq<char>) -> Seq<
    char,
> {
    (if trim(stderr).len() == 0 {
        summary
    } else {
        trim(stderr)
    }) + "\n\nRuntime: "@ + runtime_summary
}

pub open spec fn hint_is_mp4(format_hint: Option<&str>) -> bool {
    match format_hint {
        Some(h) => h@ == "mp4"@,
        None => false,
    }
}

fn code_text(lower: &[char]) -> (code: &'static str)
    ensures
        code@ == failure_code(lower@),
{
    if contains_str(lower, "no supported javascript runtime") || contains_str(lower, "js runtime")
        || contains_str(lower, "ejs") {
        "youtube_missing_js_runtime"
    } else if contains_str(lower, "po token") || contains_str(lower, "potoken") || contains_str(
        lower,
        "proof of origin",
    ) || contains_str(lower, "confirm you") || contains_str(lower, "not a bot") || contains_str(
        lower,
        "bot verification",
    ) {
        "youtube_bot_verification"
    } else if contains_str(lower, "login required") || contains_str(lower, "authentication required")
        || contains_str(lower, "private video") || contains_str(lower, "members-only")
        || contains_str(lower, "age-restricted") || contains_str(lower, "sign in to confirm your age") {
        "login_required"
    } else if (contains_str(lower, "could not copy") && contains_str(lower, "cookie")) || contains_str(
        lower,
        "cookie database",
    ) || contains_str(lower, "cookies-from-browser") || (contains_str(lower, "decrypt")
        && contains_str(lower, "cookie")) || (contains_str(lower, "cookie") && contains_str(
        lower,
        "locked",
    )) || (contains_str(lower, "cookie") && contains_str(lower, "expired")) {
        "cookie_failure"
    } else if contains_str(lower, "requested format is not available") || contains_str(
        lower,
        "no video formats found",
    ) || contains_str(lower, "no compatible formats") {
        "format_unavailable"
    } else if contains_str(lower, "not available in your country") || contains_str(lower, "geo")
        || contains_str(lower, "region") {
        "region_unavailable"
    } else if contains_str(lower, "video unavailable") || contains_str(
        lower,
        "this video is unavailable",
    ) || contains_str(lower, "removed") || contains_str(lower, "unsupported url") {
        "unavailable"
    } else if contains_str(lower, "ffmpeg") || contains_str(lower, "ffprobe") || contains_str(
        lower,
        "post-process",
    ) || contains_str(lower, "postprocess") {
        "postprocess_failed"
    } else {
        "download_failed"
    }
}

fn message_text(code: &str, mp4: bool, summary: &str) -> (m: String)
    ensures
        m@ == failure_message(code@, mp4, summary@),
{
    if str_eq(code, "youtube_missing_js_runtime") {
        owned("YouTube extraction needs the bundled JavaScript runtime. Update the downloader runtime and retry.")
    } else if str_eq(code, "youtube_bot_verification") {
        owned("YouTube asked for bot or PO-token verification for this public video. Update the downloader runtime first; if it still fails, use the advanced compatibility config/plugin hook for that network.")
    } else if str_eq(code, "login_required") {
        owned("This video requires an account that can access it. Enable cookies or provide a cookies.txt file, then retry.")
    } else if str_eq(code, "cookie_failure") {
        owned("The selected cookies could not be used. Refresh the cookies.txt file or close the browser before importing cookies.")
    } else if str_eq(code, "format_unavailable") {
        if mp4 {
            owned("No compatible MP4 stream is available for this video. Choose MKV for best quality or WebM conversion and retry.")
        } else {
            owned("The requested format is not available for this video. Choose another format or quality and retry.")
        }
    } else if str_eq(code, "region_unavailable") {
        owned("This video is not available from the current region or network.")
    } else if str_eq(code, "unavailable") {
        owned("This URL is unavailable or unsupported by the downloader runtime.")
    } else if str_eq(code, "postprocess_failed") {
        owned("The media downloaded but post-processing failed. Update the downloader runtime and retry.")
    } else {
        owned(summary)
    }
}

/// Classifies a failed downloader process from its stderr. `runtime_summary`
/// is the runtime's diagnostic line appended to the detail.
pub fn classify_process_error(
    stderr_output: &str,
    exit_code: Option<i32>,
    format_hint: Option<&str>,
    runtime_summary: &str,
) -> (e: DownloadErrorInfo)
    ensures
        ({
            let summary = error_summary(stderr_output@, exit_code);
            let code = failure_code(ascii_lower(stderr_output@));
            &&& e.code@ == code
            &&& e.message@ == failure_message(code, hint_is_mp4(format_hint), summary)
            &&& e.detail@ == failure_detail(stderr_output@, summary, runtime_summary@)
        }),
{
    let summary = build_error_message(stderr_output, exit_code);
    let chars = chars_of(stderr_output);
    let lower = to_ascii_lower(chars.as_slice());
    let code = code_text(lower.as_slice());
    let mp4 = match format_hint {
        Some(h) => str_eq(h, "mp4"),
        None => false,
    };
    let message = message_text(code, mp4, summary.as_str());
    let trimmed = trimmed_whitespace(chars.as_slice());
    let mut detail: Vec<char> = if trimmed.len() == 0 {
        chars_of(summary.as_str())
    } else {
        trimmed
    };
    extend_str(&mut detail, "\n\nRuntime: ");
    extend_str(&mut detail, runtime_summary);
    DownloadErrorInfo {
        code: owned(code),
        message,
        detail: string_from_chars(detail.as_slice()),
    }
}

/// The message shown when fetching metadata fails.
pub fn error_for_fetch(stderr_output: &str, exit_code: Option<i32>, runtime_summary: &str) -> (m:
    String)
    ensures
        m@ == failure_message(
            failure_code(ascii_lower(stderr_output@)),
            false,
            error_summary(stderr_output@, exit_code),
        ),
{
    let error = classify_process_error(stderr_output, exit_code, None, runtime_summary);
    error.message
}

/// The downloader's own words for a missing JavaScript runtime.
pub open spec fn mentions_js_runtime(l: Seq<char>) -> bool {
    contains(l, "no supported javascript runtime"@) || contains(l, "js runtime"@) || contains(l, "ejs"@)
}

/// The downloader's words for a bot or proof-of-origin check.
pub open spec fn mentions_bot_check(l: Seq<char>) -> bool {
    contains(l, "po token"@) || contains(l, "potoken"@) || contains(l, "proof of origin"@) || contains(
        l,
        "confirm you"@,
    ) || contains(l, "not a bot"@) || contains(l, "bot verification"@)
}

/// The downloader's words for content that needs a signed-in account.
pub open spec fn mentions_account_needed(l: Seq<char>) -> bool {
    contains(l, "login required"@) || contains(l, "authentication required"@) || contains(
        l,
        "private video"@,
    ) || contains(l, "members-only"@) || contains(l, "age-restricted"@) || contains(
        l,
        "sign in to confirm your age"@,
    )
}

/// The downloader's words for cookies it could not use.
pub open spec fn mentions_cookie_trouble(l: Seq<char>) -> bool {
    let cookie = contains(l, "cookie"@);
    (contains(l, "could not copy"@) && cookie) || contains(l, "cookie database"@) || contains(
        l,
        "cookies-from-browser"@,
    ) || (contains(l, "decrypt"@) && cookie) || (cookie && contains(l, "locked"@)) || (cookie
        && contains(l, "expired"@))
}

/// The downloader's words for a format it cannot provide.
pub open spec fn mentions_missing_format(l: Seq<char>) -> bool {
    contains(l, "requested format is not available"@) || contains(l, "no video formats found"@)
        || contains(l, "no compatible formats"@)
}

/// The downloader's words for a regional restriction.
pub open spec fn mentions_region(l: Seq<char>) -> bool {
    contains(l, "not available in your country"@) || contains(l, "geo"@) || contains(l, "region"@)
}

/// The downloader's words for content that is gone or not supported.
pub open spec fn mentions_unavailable(l: Seq<char>) -> bool {
    contains(l, "video unavailable"@) || contains(l, "this video is unavailable"@) || contains(
        l,
        "removed"@,
    ) || contains(l, "unsupported url"@)
}

/// The downloader's words for a failed post-processing step.
pub open spec fn mentions_postprocessing(l: Seq<char>) -> bool {
    contains(l, "ffmpeg"@) || contains(l, "ffprobe"@) || contains(l, "post-process"@) || contains(
        l,
        "postprocess"@,
    )
}

/// A failed run is classified by the first group of phrases, in this order,
/// that its lower-cased stderr contains: a missing JavaScript runtime, a bot
/// check, an account requirement (for example a private video), unusable
/// cookies, a missing format, a regional block, unavailable content, or a
/// post-processing failure; with none of them it is a generic
/// `download_failed` whose message is the stderr summary. Each code comes
/// with its fixed user message (for a missing format, the MP4 variant when
/// the download asked for MP4). [`classify_process_error`] returns this code
/// and message.
pub proof fn law_failures_are_classified_by_their_phrases(stderr: Seq<char>, mp4: bool, summary: Seq<char>)
    ensures
        ({
            let l = ascii_lower(stderr);
            let code = failure_code(l);
            let message = failure_message(code, mp4, summary);
            let a = mentions_js_runtime(l);
            let b = !a && mentions_bot_check(l);
            let c = !a && !mentions_bot_check(l) && mentions_account_needed(l);
            let d = !a && !mentions_bot_check(l) && !mentions_account_needed(l) && mentions_cookie_trouble(l);
            let earlier = a || mentions_bot_check(l) || mentions_account_needed(l) || mentions_cookie_trouble(l);
            let f = !earlier && mentions_missing_format(l);
            let g = !earlier && !mentions_missing_format(l) && mentions_region(l);
            let h = !earlier && !mentions_missing_format(l) && !mentions_region(l) && mentions_unavailable(l);
            let k = !earlier && !mentions_missing_format(l) && !mentions_region(l) && !mentions_unavailable(l)
                && mentions_postprocessing(l);
            let none = !earlier && !mentions_missing_format(l) && !mentions_region(l) && !mentions_unavailable(l)
                && !mentions_postprocessing(l);
            &&& a ==> code == "youtube_missing_js_runtime"@ && message
                == "YouTube extraction needs the bundled JavaScript runtime. Update the downloader runtime and retry."@
            &&& b ==> code == "youtube_bot_verification"@ && message
                == "YouTube asked for bot or PO-token verification for this public video. Update the downloader runtime first; if it still fails, use the advanced compatibility config/plugin hook for that network."@
            &&& c ==> code == "login_required"@ && message
                == "This video requires an account that can access it. Enable cookies or provide a cookies.txt file, then retry."@
            &&& d ==> code == "cookie_failure"@ && message
                == "The selected cookies could not be used. Refresh the cookies.txt file or close the browser before importing cookies."@
            &&& f ==> code == "format_unavailable"@ && message == (if mp4 {
                "No compatible MP4 stream is available for this video. Choose MKV for best quality or WebM conversion and retry."@
            } else {
                "The requested format is not available for this video. Choose another format or quality and retry."@
            })
            &&& g ==> code == "region_unavailable"@ && message
                == "This video is not available from the current region or network."@
            &&& h ==> code == "unavailable"@ && message
                == "This URL is unavailable or unsupported by the downloader runtime."@
            &&& k ==> code == "postprocess_failed"@ && message
                == "The media downloaded but post-processing failed. Update the downloader runtime and retry."@
            &&& none ==> code == "download_failed"@ && message == summary
        }),
{
    reveal_strlit("youtube_missing_js_runtime");
    reveal_strlit("youtube_bot_verification");
    reveal_strlit("login_required");
    reveal_strlit("cookie_failure");
    reveal_strlit("format_unavailable");
    reveal_strlit("region_unavailable");
    reveal_strlit("unavailable");
    reveal_strlit("postprocess_failed");
    reveal_strlit("download_failed");
    let names = seq![
        "youtube_missing_js_runtime"@,
        "youtube_bot_verification"@,
        "login_required"@,
        "cookie_failure"@,
        "format_unavailable"@,
        "region_unavailable"@,
        "unavailable"@,
        "postprocess_failed"@,
        "download_failed"@,
    ];
    assert("youtube_missing_js_runtime"@.len() == 26);
    assert("youtube_bot_verification"@.len() == 24);
    assert("login_required"@.len() == 14 && "login_required"@[0] == 'l');
    assert("cookie_failure"@.len() == 14 && "cookie_failure"@[0] == 'c');
    assert("format_unavailable"@.len() == 18 && "format_unavailable"@[0] == 'f');
    assert("region_unavailable"@.len() == 18 && "region_unavailable"@[0] == 'r');
    assert("unavailable"@.len() == 11);
    assert("postprocess_failed"@.len() == 18 && "postprocess_failed"@[0] == 'p');
    assert("download_failed"@.len() == 15);
    assert(forall|a: int, b: int| 0 <= a < b < 9 ==> names[a] != names[b]) by {
        assert forall|a: int, b: int| 0 <= a < b < 9 implies names[a] != names[b] by {
            if names[a].len() == names[b].len() {
                assert(names[a][0] != names[b][0]);
            }
        }
    }
    let l = ascii_lower(stderr);
    let code = failure_code(l);
    assert(code == "download_failed"@ ==> failure_message(code, mp4, summary) == summary);
    assert(code == "unavailable"@ ==> failure_message(code, mp4, summary) == "This URL is unavailable or unsupported by the downloader runtime."@);
    assert(code == "region_unavailable"@ ==> failure_message(code, mp4, summary) == "This video is not available from the current region or network."@);
    assert(code == "postprocess_failed"@ ==> failure_message(code, mp4, summary) == "The media downloaded but post-processing failed. Update the downloader runtime and retry."@);
}

} // verus!
