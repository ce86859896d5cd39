//! Validation of fetch and download requests before any process is started.
use crate::app_error::{safe_text_of, AppError, MAX_ERROR_SUMMARY_BYTES};
use crate::downloader::naming::{normalize_override_chars, normalized_override};
use crate::models::{selection_error, CookieConfig, DownloadRequest};
use crate::patterns::{regex_is_match, regex_is_match_result};
use crate::text::{
    ascii_lower, chars_eq, chars_of, concat3, ends_with, ends_with_chars, owned, str_byte_len,
    str_eq, string_from_chars, to_ascii_lower, trim, trimmed_whitespace, utf8_len,
};
use vstd::prelude::*;

verus! {

/// Byte cap of every user-supplied field that reaches a command line.
pub const MAX_ACTIONABLE_FIELD_BYTES: usize = 4096;

/// Accepted quality names other than `best`: three or four digits and `p`.
pub const QUALITY_PATTERN: &'static str = r"^\d{3,4}p$";

/// Scheme, host and serialisation of a URL as parsed by `url::Url::parse`, or
/// `None` when the text is not an absolute URL.
pub uninterp spec fn parsed_url(raw: Seq<char>) -> Option<(Seq<char>, Option<Seq<char>>, Seq<char>)>;

/// Parses `raw` with `url::Url::parse` and returns its `scheme()`,
/// `host_str()` and `as_str()`; two parsed URLs are equal exactly when their
/// serialisations are. The contract names the result; it does not restate URL
/// syntax.
#[verifier::external_body]
pub(crate) fn parse_url_parts(raw: &str) -> (res: Option<(String, Option<String>, String)>)
    ensures
        match res {
            Some((scheme, host, serialization)) => parsed_url(raw@) == Some(
                (
                    scheme@,
                    match host {
                        Some(h) => Some(h@),
                        None => None::<Seq<char>>,
                    },
                    serialization@,
                ),
            ),
            None => parsed_url(raw@) is None,
        },
{
    match url::Url::parse(raw) {
        Ok(url) => Some(
            (url.scheme().to_string(), url.host_str().map(|host| host.to_string()), url.as_str().to_string()),
        ),
        Err(_) => None,
    }
}

/// The URL parses and uses `http` or `https`.
pub open spec fn allowed_download_url(raw: Seq<char>) -> bool {
    match parsed_url(raw) {
        Some((scheme, _, _)) => scheme == "http"@ || scheme == "https"@,
        None => false,
    }
}

pub fn is_allowed_download_url(raw: &str) -> (res: bool)
    ensures
        res == allowed_download_url(raw@),
{
    match parse_url_parts(raw) {
        Some((scheme, _, _)) => str_eq(scheme.as_str(), "http") || str_eq(scheme.as_str(), "https"),
        None => false,
    }
}

/// The URL's host is `x.com`, `twitter.com` or one of their subdomains.
pub open spec fn x_or_twitter_url(raw: Seq<char>) -> bool {
    match parsed_url(raw) {
        Some((_, Some(host), _)) => {
            let h = ascii_lower(host);
            h == "x.com"@ || ends_with(h, ".x.com"@) || h == "twitter.com"@ || ends_with(
                h,
                ".twitter.com"@,
            )
        },
        _ => false,
    }
}

pub fn is_x_or_twitter_url(raw: &str) -> (res: bool)
    ensures
        res == x_or_twitter_url(raw@),
{
    match parse_url_parts(raw) {
        Some((_, Some(host), _)) => {
            let chars = chars_of(host.as_str());
            let h = to_ascii_lower(chars.as_slice());
            let x = chars_of("x.com");
            let x_sub = chars_of(".x.com");
            let t = chars_of("twitter.com");
            let t_sub = chars_of(".twitter.com");
            chars_eq(h.as_slice(), x.as_slice()) || ends_with_chars(h.as_slice(), x_sub.as_slice())
                || chars_eq(h.as_slice(), t.as_slice()) || ends_with_chars(
                h.as_slice(),
                t_sub.as_slice(),
            )
        },
        _ => false,
    }
}

/// The over-size message for a field, if its encoding exceeds 4 KiB.
pub open spec fn actionable_error(name: Seq<char>, value: Seq<char>) -> Option<Seq<char>> {
    if utf8_len(value) > MAX_ACTIONABLE_FIELD_BYTES {
        Some("The "@ + name + " exceeds the 4 KiB input limit."@)
    } else {
        None
    }
}

pub open spec fn result_matches(res: Result<(), String>, expected: Option<Seq<char>>) -> bool {
    match res {
        Ok(()) => expected is None,
        Err(m) => expected == Some(m@),
    }
}

pub fn validate_actionable_input(name: &str, value: &str) -> (res: Result<(), String>)
    ensures
        result_matches(res, actionable_error(name@, value@)),
{
    if str_byte_len(value) > MAX_ACTIONABLE_FIELD_BYTES {
        Err(concat3("The ", name, " exceeds the 4 KiB input limit."))
    } else {
        Ok(())
    }
}

/// Browsers whose cookie stores can be imported.
pub open spec fn cookie_browsers() -> Seq<Seq<char>> {
    seq!["firefox"@, "chrome"@, "edge"@, "brave"@, "opera"@, "chromium"@]
}

fn cookie_browser_at(i: usize) -> (s: &'static str)
    requires
        i < 6,
    ensures
        s@ == cookie_browsers()[i as int],
{
    match i {
        0 => "firefox",
        1 => "chrome",
        2 => "edge",
        3 => "brave",
        4 => "opera",
        _ => "chromium",
    }
}

pub open spec fn supported_cookie_browser(browser: Seq<char>) -> bool {
    exists|i: int| 0 <= i < 6 && cookie_browsers()[i] == browser
}

fn is_supported_cookie_browser(browser: &str) -> (res: bool)
    ensures
        res == supported_cookie_browser(browser@),
{
    let mut i: usize = 0;
    while i < 6
        invariant
            i <= 6,
            forall|j: int| 0 <= j < i ==> cookie_browsers()[j] != browser@,
        decreases 6 - i,
    {
        if str_eq(cookie_browser_at(i), browser) {
            return true;
        }
        i += 1;
    }
    false
}

/// The trimmed cookie file path that must name an existing file for the
/// configuration to be accepted, when cookies come from an enabled file.
pub open spec fn cookie_file_to_check(config: CookieConfig) -> Option<Seq<char>> {
    if config.enabled && config.mode@ == "file"@ {
        match config.cookie_file {
            Some(p) => if trim(p@).len() > 0 {
                Some(trim(p@))
            } else {
                None
            },
            None => None,
        }
    } else {
        None
    }
}

pub fn cookie_file_probe(config: &CookieConfig) -> (res: Option<String>)
    ensures
        match res {
            Some(p) => cookie_file_to_check(*config) == Some(p@),
            None => cookie_file_to_check(*config) is None,
        },
{
    if config.enabled && str_eq(config.mode.as_str(), "file") {
        match &config.cookie_file {
            Some(p) => {
                let chars = chars_of(p.as_str());
                let t = trimmed_whitespace(chars.as_slice());
                if t.len() > 0 {
                    Some(string_from_chars(t.as_slice()))
                } else {
                    None
                }
            },
            None => None,
        }
    } else {
        None
    }
}

/// The first problem with a cookie configuration. `cookie_file_exists` is
/// whether [`cookie_file_to_check`] names an existing regular file.
pub open spec fn cookie_config_error(config: CookieConfig, cookie_file_exists: bool) -> Option<
    Seq<char>,
> {
    if actionable_error("cookie mode"@, config.mode@) is Some {
        actionable_error("cookie mode"@, config.mode@)
    } else if actionable_error("cookie browser"@, config.browser@) is Some {
        actionable_error("cookie browser"@, config.browser@)
    } else if config.cookie_file is Some && actionable_error(
        "cookie file path"@,
        config.cookie_file->0@,
    ) is Some {
        actionable_error("cookie file path"@, config.cookie_file->0@)
    } else if !config.enabled {
        None
    } else if config.mode@ == "browser"@ {
        if supported_cookie_browser(config.browser@) {
            None
        } else {
            Some("Unsupported browser for cookie import."@)
        }
    } else if config.mode@ == "file"@ {
        if cookie_file_to_check(config) is Some {
            if cookie_file_exists {
                None
            } else {
                Some("Cookie file was not found."@)
            }
        } else {
            Some("Cookie file mode requires a cookies.txt path."@)
        }
    } else {
        Some("Unsupported cookie mode."@)
    }
}

pub fn validate_cookie_config(config: &CookieConfig, cookie_file_exists: bool) -> (res: Result<
    (),
    String,
>)
    ensures
        result_matches(res, cookie_config_error(*config, cookie_file_exists)),
{
    validate_actionable_input("cookie mode", config.mode.as_str())?;
    validate_actionable_input("cookie browser", config.browser.as_str())?;
    if let Some(path) = &config.cookie_file {
        validate_actionable_input("cookie file path", path.as_str())?;
    }
    if !config.enabled {
        return Ok(());
    }
    if str_eq(config.mode.as_str(), "browser") {
        if is_supported_cookie_browser(config.browser.as_str()) {
            Ok(())
        } else {
            Err(owned("Unsupported browser for cookie import."))
        }
    } else if str_eq(config.mode.as_str(), "file") {
        match cookie_file_probe(config) {
            Some(_) => if cookie_file_exists {
                Ok(())
            } else {
                Err(owned("Cookie file was not found."))
            },
            None => Err(owned("Cookie file mode requires a cookies.txt path.")),
        }
    } else {
        Err(owned("Unsupported cookie mode."))
    }
}

/// The trimmed compatibility config path that must name an existing file.
pub open spec fn compat_path_to_check(path: Option<Seq<char>>) -> Option<Seq<char>> {
    match path {
        Some(p) => if trim(p).len() > 0 {
            Some(trim(p))
        } else {
            None
        },
        None => None,
    }
}

pub fn compat_path_probe(path: Option<&str>) -> (res: Option<String>)
    ensures
        match res {
            Some(p) => compat_path_to_check(opt_str_view(path)) == Some(p@),
            None => compat_path_to_check(opt_str_view(path)) is None,
        },
{
    match path {
        Some(p) => {
            let chars = chars_of(p);
            let t = trimmed_whitespace(chars.as_slice());
            if t.len() > 0 {
                Some(string_from_chars(t.as_slice()))
            } else {
                None
            }
        },
        None => None,
    }
}

pub open spec fn opt_str_view(o: Option<&str>) -> Option<Seq<char>> {
    match o {
        Some(s) => Some(s@),
        None => None,
    }
}

pub open spec fn compat_config_error(path: Option<Seq<char>>, compat_file_exists: bool) -> Option<
    Seq<char>,
> {
    if path is Some && actionable_error("compatibility config path"@, path->0) is Some {
        actionable_error("compatibility config path"@, path->0)
    } else if compat_path_to_check(path) is None {
        None
    } else if compat_file_exists {
        None
    } else {
        Some("Compatibility config file was not found."@)
    }
}

pub fn validate_compat_config_path(path: Option<&str>, compat_file_exists: bool) -> (res: Result<
    (),
    String,
>)
    ensures
        result_matches(res, compat_config_error(opt_str_view(path), compat_file_exists)),
{
    if let Some(p) = path {
        validate_actionable_input("compatibility config path", p)?;
    }
    match compat_path_probe(path) {
        None => Ok(()),
        Some(_) => if compat_file_exists {
            Ok(())
        } else {
            Err(owned("Compatibility config file was not found."))
        },
    }
}

pub open spec fn opt_cookie(o: Option<&CookieConfig>) -> Option<CookieConfig> {
    match o {
        Some(c) => Some(*c),
        None => None,
    }
}

/// The first problem with a fetch request, `None` when it may run.
pub open spec fn fetch_request_error(
    url: Seq<char>,
    cookie_config: Option<CookieConfig>,
    compat_config_path: Option<Seq<char>>,
    cookie_file_exists: bool,
    compat_file_exists: bool,
) -> Option<Seq<char>> {
    if actionable_error("URL"@, url) is Some {
        actionable_error("URL"@, url)
    } else if !allowed_download_url(url) {
        Some("Only http:// and https:// URLs are allowed."@)
    } else if cookie_config is Some && cookie_config_error(
        cookie_config->0,
        cookie_file_exists,
    ) is Some {
        cookie_config_error(cookie_config->0, cookie_file_exists)
    } else {
        compat_config_error(compat_config_path, compat_file_exists)
    }
}

/// Checks a URL inspection request. The two flags report whether the paths
/// named by [`cookie_file_probe`] and [`compat_path_probe`] exist as files.
pub fn validate_fetch_request(
    url: &str,
    cookie_config: Option<&CookieConfig>,
    compat_config_path: Option<&str>,
    cookie_file_exists: bool,
    compat_file_exists: bool,
) -> (res: Result<(), String>)
    ensures
        result_matches(
            res,
            fetch_request_error(
                url@,
                opt_cookie(cookie_config),
                opt_str_view(compat_config_path),
                cookie_file_exists,
                compat_file_exists,
            ),
        ),
{
    validate_actionable_input("URL", url)?;
    if !is_allowed_download_url(url) {
        return Err(owned("Only http:// and https:// URLs are allowed."));
    }
    if let Some(config) = cookie_config {
        validate_cookie_config(config, cookie_file_exists)?;
    }
    validate_compat_config_path(compat_config_path, compat_file_exists)?;
    Ok(())
}

/// Output formats the downloader can produce.
pub open spec fn allowed_formats() -> Seq<Seq<char>> {
    seq!["mp4"@, "mkv"@, "webm"@, "mp3"@, "flac"@, "wav"@, "aac"@, "opus"@]
}

pub open spec fn allowed_format(format: Seq<char>) -> bool {
    exists|i: int| 0 <= i < 8 && allowed_formats()[i] == format
}

fn allowed_format_at(i: usize) -> (s: &'static str)
    requires
        i < 8,
    ensures
        s@ == allowed_formats()[i as int],
{
    match i {
        0 => "mp4",
        1 => "mkv",
        2 => "webm",
        3 => "mp3",
        4 => "flac",
        5 => "wav",
        6 => "aac",
        _ => "opus",
    }
}

pub fn is_allowed_format(format: &str) -> (res: bool)
    ensures
        res == allowed_format(format@),
{
    let mut i: usize = 0;
    while i < 8
        invariant
            i <= 8,
            forall|j: int| 0 <= j < i ==> allowed_formats()[j] != format@,
        decreases 8 - i,
    {
        if str_eq(allowed_format_at(i), format) {
            return true;
        }
        i += 1;
    }
    false
}

/// `best`, or a name the quality pattern matches.
pub open spec fn allowed_quality(quality: Seq<char>) -> bool {
    quality == "best"@ || regex_is_match_result(QUALITY_PATTERN@, quality) == Some(true)
}

pub fn is_allowed_quality(quality: &str) -> (res: bool)
    ensures
        res == allowed_quality(quality@),
{
    if str_eq(quality, "best") {
        return true;
    }
    match regex_is_match(QUALITY_PATTERN, quality) {
        Some(matched) => matched,
        None => false,
    }
}

/// The first problem with a download request, `None` when it may run.
pub open spec fn download_request_error(
    r: DownloadRequest,
    cookie_file_exists: bool,
    compat_file_exists: bool,
) -> Option<Seq<char>> {
    let compat = match r.compat_config_path {
        Some(p) => Some(p@),
        None => None,
    };
    if fetch_request_error(r.url@, r.cookie_config, compat, cookie_file_exists, compat_file_exists) is Some {
        fetch_request_error(r.url@, r.cookie_config, compat, cookie_file_exists, compat_file_exists)
    } else if r.selection is Some && selection_error(r.selection->0) is Some {
        selection_error(r.selection->0)
    } else if actionable_error("output format"@, r.format@) is Some {
        actionable_error("output format"@, r.format@)
    } else if actionable_error("quality"@, r.quality@) is Some {
        actionable_error("quality"@, r.quality@)
    } else if actionable_error("output folder"@, r.output_dir@) is Some {
        actionable_error("output folder"@, r.output_dir@)
    } else if r.filename_override is Some && actionable_error(
        "custom filename"@,
        r.filename_override->0@,
    ) is Some {
        actionable_error("custom filename"@, r.filename_override->0@)
    } else if !allowed_format(r.format@) {
        Some("Unsupported output format."@)
    } else if !allowed_quality(r.quality@) {
        Some("Unsupported quality selection."@)
    } else if trim(r.output_dir@).len() == 0 {
        Some("Output folder is not set."@)
    } else if r.filename_override is Some && normalized_override(r.filename_override->0@) is None {
        Some("Custom filename must contain at least one valid character."@)
    } else {
        None
    }
}

/// Checks a download request. The two flags report whether the paths named by
/// [`cookie_file_probe`] and [`compat_path_probe`] exist as files.
pub fn validate_download_request(
    request: &DownloadRequest,
    cookie_file_exists: bool,
    compat_file_exists: bool,
) -> (res: Result<(), String>)
    ensures
        result_matches(res, download_request_error(*request, cookie_file_exists, compat_file_exists)),
{
    let compat: Option<&str> = match &request.compat_config_path {
        Some(p) => Some(p.as_str()),
        None => None,
    };
    validate_fetch_request(
        request.url.as_str(),
        request.cookie_config.as_ref(),
        compat,
        cookie_file_exists,
        compat_file_exists,
    )?;
    if let Some(selection) = &request.selection {
        selection.validate()?;
    }
    validate_actionable_input("output format", request.format.as_str())?;
    validate_actionable_input("quality", request.quality.as_str())?;
    validate_actionable_input("output folder", request.output_dir.as_str())?;
    if let Some(filename) = &request.filename_override {
        validate_actionable_input("custom filename", filename.as_str())?;
    }
    if !is_allowed_format(request.format.as_str()) {
        return Err(owned("Unsupported output format."));
    }
    if !is_allowed_quality(request.quality.as_str()) {
        return Err(owned("Unsupported quality selection."));
    }
    let dir = chars_of(request.output_dir.as_str());
    let dir_trimmed = trimmed_whitespace(dir.as_slice());
    if dir_trimmed.len() == 0 {
        return Err(owned("Output folder is not set."));
    }
    if let Some(filename) = &request.filename_override {
        if normalize_override_chars(filename.as_str()).is_none() {
            return Err(owned("Custom filename must contain at least one valid character."));
        }
    }
    Ok(())
}

/// `invalid_request` with the given summary, as `AppError::invalid` builds it.
pub open spec fn invalid_with(e: AppError, summary: Seq<char>) -> bool {
    &&& e.code@ == "invalid_request"@
    &&& e.summary@ == safe_text_of(summary, MAX_ERROR_SUMMARY_BYTES as nat)
    &&& e.detail is None
    &&& !e.retryable
}

/// The output folder to create: `path` trimmed of whitespace, or an
/// `invalid_request` error when it exceeds 4 KiB or is blank.
pub fn output_directory_input(path: &str) -> (res: Result<String, AppError>)
    ensures
        match actionable_error("output folder"@, path@) {
            Some(m) => res matches Err(e) && invalid_with(e, m),
            None => if trim(path@).len() == 0 {
                res matches Err(e) && invalid_with(e, "Output folder is not set."@)
            } else {
                res matches Ok(t) && t@ == trim(path@)
            },
        },
{
    if let Err(m) = validate_actionable_input("output folder", path) {
        return Err(AppError::invalid(m.as_str()));
    }
    let chars = chars_of(path);
    let trimmed = trimmed_whitespace(chars.as_slice());
    if trimmed.len() == 0 {
        return Err(AppError::invalid("Output folder is not set."));
    }
    Ok(string_from_chars(trimmed.as_slice()))
}

/// Judges the space available on the output volume: a full volume is
/// refused as `output_directory_full`.
pub fn check_output_free_space(available_bytes: u64) -> (res: Result<(), AppError>)
    ensures
        res is Ok <==> available_bytes > 0,
        res matches Err(e) ==> e.code@ == "output_directory_full"@ && e.summary@ == safe_text_of(
            "The selected output volume has no available space."@,
            MAX_ERROR_SUMMARY_BYTES as nat,
        ) && e.detail is None,
{
    if available_bytes == 0 {
        return Err(
            AppError::new("output_directory_full", "The selected output volume has no available space."),
        );
    }
    Ok(())
}

/// Judges what `symlink_metadata` reported of the output folder: it must be a
/// directory that is neither a symbolic link nor a reparse point.
pub fn check_output_directory_metadata(is_dir: bool, is_symlink: bool, is_reparse_point: bool) -> (res:
    Result<(), AppError>)
    ensures
        (!is_dir || is_symlink) ==> (res matches Err(e) && e.code@ == "output_directory_unsafe"@
            && e.summary@ == safe_text_of(
            "The selected output folder must be a regular local directory."@,
            MAX_ERROR_SUMMARY_BYTES as nat,
        )),
        (is_dir && !is_symlink && is_reparse_point) ==> (res matches Err(e) && e.code@
            == "output_directory_unsafe"@ && e.summary@ == safe_text_of(
            "The selected output folder cannot be a reparse point."@,
            MAX_ERROR_SUMMARY_BYTES as nat,
        )),
        (is_dir && !is_symlink && !is_reparse_point) <==> res is Ok,
{
    if !is_dir || is_symlink {
        return Err(
            AppError::new(
                "output_directory_unsafe",
                "The selected output folder must be a regular local directory.",
            ),
        );
    }
    if is_reparse_point {
        return Err(
            AppError::new(
                "output_directory_unsafe",
                "The selected output folder cannot be a reparse point.",
            ),
        );
    }
    Ok(())
}

/// The output formats the application offers: four video containers and
/// four audio formats.
pub open spec fn offered_format(f: Seq<char>) -> bool {
    ||| f == "mp4"@
    ||| f == "mkv"@
    ||| f == "webm"@
    ||| f == "mp3"@
    ||| f == "flac"@
    ||| f == "wav"@
    ||| f == "aac"@
    ||| f == "opus"@
}

proof fn lemma_utf8_len_at_most_four_per_char(s: Seq<char>)
    ensures
        utf8_len(s) <= 4 * s.len(),
    decreases s.len(),
{
    if s.len() > 0 {
        lemma_utf8_len_at_most_four_per_char(s.drop_last());
    }
}

/// A download request that is accepted stays accepted when its output format
/// is replaced by any offered format, and a request is only ever accepted
/// with an offered format.
pub proof fn law_every_offered_format_is_accepted(
    r: DownloadRequest,
    format: String,
    cookie_file_exists: bool,
    compat_file_exists: bool,
)
    ensures
        download_request_error(r, cookie_file_exists, compat_file_exists) is None ==> offered_format(r.format@),
        download_request_error(r, cookie_file_exists, compat_file_exists) is None && offered_format(format@)
            ==> download_request_error(
            DownloadRequest { format, ..r },
            cookie_file_exists,
            compat_file_exists,
        ) is None,
{
    if download_request_error(r, cookie_file_exists, compat_file_exists) is None {
        let k = choose|i: int| 0 <= i < 8 && allowed_formats()[i] == r.format@;
        assert(allowed_formats()[k] == r.format@);
    }
    if offered_format(format@) {
        lemma_utf8_len_at_most_four_per_char(format@);
        reveal_strlit("mp4");
        reveal_strlit("mkv");
        reveal_strlit("webm");
        reveal_strlit("mp3");
        reveal_strlit("flac");
        reveal_strlit("wav");
        reveal_strlit("aac");
        reveal_strlit("opus");
        assert(format@.len() <= 4);
        let formats = allowed_formats();
        if format@ == "mp4"@ {
            assert(formats[0] == format@);
        } else if format@ == "mkv"@ {
            assert(formats[1] == format@);
        } else if format@ == "webm"@ {
            assert(formats[2] == format@);
        } else if format@ == "mp3"@ {
            assert(formats[3] == format@);
        } else if format@ == "flac"@ {
            assert(formats[4] == format@);
        } else if format@ == "wav"@ {
            assert(formats[5] == format@);
        } else if format@ == "aac"@ {
            assert(formats[6] == format@);
        } else {
            assert(formats[7] == format@);
        }
        assert(allowed_format(format@));
    }
}

} // verus!
