//! Argument lists for the downloader process.
use crate::downloader::naming::{
    build_output_template, escape_output_template_literal, escape_template, opt_view,
    output_template,
};
use crate::downloader::validation::{is_x_or_twitter_url, x_or_twitter_url};
use crate::models::{CookieConfig, DownloadRequest, MediaSelection};
use crate::text::{
    chars_of, decimal, extend_chars, extend_str, owned, replace_char, replace_char_with,
    str_eq, string_from_chars, trim, trimmed_whitespace, u64_to_string, views_of_strings,
};
use vstd::prelude::*;

verus! {

/// File, inside the staging folder, to which the downloader prints the final output path.
pub const FINAL_OUTPUT_RECORD_NAME: &'static str = ".nuclear-final-output-v1.jsonl";

/// The `--print-to-file` template that records the moved output path as JSON.
pub const FINAL_OUTPUT_RECORD_TEMPLATE: &'static str =
    r#"after_move:{"schema_version":1,"filepath":%(filepath)j}"#;

/// Most playlist entries listed by one inspection.
pub const MAX_PLAYLIST_ENTRIES: usize = 1000;

/// Locations of the bundled runtime tools, as text paths.
#[derive(Debug, Clone, PartialEq, Eq)]
pub struct YtdlpCommandConfig {
    pub ffmpeg_dir: Option<String>,
    pub deno_path: Option<String>,
    pub plugin_dir: Option<String>,
}

pub open spec fn strs(v: Vec<String>) -> Seq<Seq<char>> {
    views_of_strings(v@)
}

fn push_arg(args: &mut Vec<String>, arg: &str)
    ensures
        strs(*final(args)) == strs(*old(args)).push(arg@),
{
    let ghost before = args@;
    args.push(owned(arg));
    assert(views_of_strings(args@) =~= views_of_strings(before).push(arg@));
}

fn push_owned(args: &mut Vec<String>, arg: String)
    ensures
        strs(*final(args)) == strs(*old(args)).push(arg@),
{
    let ghost before = args@;
    let ghost v = arg@;
    args.push(arg);
    assert(views_of_strings(args@) =~= views_of_strings(before).push(v));
}

/// Joins a single relative name to a folder path the way Windows paths join:
/// no separator after an empty folder, an existing separator or a bare drive
/// (`C:`), otherwise a backslash.
pub open spec fn windows_join(base: Seq<char>, name: Seq<char>) -> Seq<char> {
    if base.len() == 0 {
        name
    } else if base.last() == '\\' || base.last() == '/' {
        base + name
    } else if base.len() == 2 && base[1] == ':' && (('a' <= base[0] && base[0] <= 'z') || (
    'A' <= base[0] && base[0] <= 'Z')) {
        base + name
    } else {
        base + "\\"@ + name
    }
}

pub fn join_windows_path(base: &str, name: &str) -> (res: Vec<char>)
    ensures
        res@ == windows_join(base@, name@),
{
    let mut out = chars_of(base);
    let n = out.len();
    if n == 0 {
        return chars_of(name);
    }
    let last = out[n - 1];
    let drive_only = n == 2 && out[1] == ':' && (('a' <= out[0] && out[0] <= 'z') || ('A' <= out[0]
        && out[0] <= 'Z'));
    if !(last == '\\' || last == '/' || drive_only) {
        extend_str(&mut out, "\\");
    }
    extend_str(&mut out, name);
    out
}

/// The record path handed to `--print-to-file`, with `/` separators and `%` escaped.
pub open spec fn final_output_record_arg(staging_dir: Seq<char>) -> Seq<char> {
    escape_template(replace_char(windows_join(staging_dir, FINAL_OUTPUT_RECORD_NAME@), '\\', "/"@))
}

pub open spec fn final_output_record_args(staging_dir: Seq<char>) -> Seq<Seq<char>> {
    seq!["--print-to-file"@, FINAL_OUTPUT_RECORD_TEMPLATE@, final_output_record_arg(staging_dir)]
}

pub fn append_final_output_record_args(args: &mut Vec<String>, staging_dir: &str)
    ensures
        strs(*final(args)) == strs(*old(args)) + final_output_record_args(staging_dir@),
{
    let joined = join_windows_path(staging_dir, FINAL_OUTPUT_RECORD_NAME);
    let slashed = replace_char_with(joined.as_slice(), '\\', "/");
    let escaped = escape_output_template_literal(slashed.as_slice());
    let ghost before = strs(*args);
    push_arg(args, "--print-to-file");
    push_arg(args, FINAL_OUTPUT_RECORD_TEMPLATE);
    push_owned(args, string_from_chars(escaped.as_slice()));
    assert(strs(*args) =~= before + final_output_record_args(staging_dir@));
}

pub open spec fn opt_args(cond: bool, items: Seq<Seq<char>>) -> Seq<Seq<char>> {
    if cond {
        items
    } else {
        Seq::empty()
    }
}

/// Flags that pin the downloader to the bundled runtime and an optional compatibility config.
pub open spec fn runtime_args(config: YtdlpCommandConfig, compat: Option<Seq<char>>) -> Seq<
    Seq<char>,
> {
    seq!["--ignore-config"@] + (match compat {
        Some(p) => opt_args(trim(p).len() > 0, seq!["--config-locations"@, trim(p)]),
        None => Seq::empty(),
    }) + seq!["--no-plugin-dirs"@] + (match config.plugin_dir {
        Some(d) => seq!["--plugin-dirs"@, d@],
        None => Seq::empty(),
    }) + seq!["--no-js-runtimes"@] + (match config.deno_path {
        Some(d) => seq!["--js-runtimes"@, "deno:"@ + d@],
        None => Seq::empty(),
    }) + (match config.ffmpeg_dir {
        Some(d) => seq!["--ffmpeg-location"@, d@],
        None => Seq::empty(),
    })
}

pub fn append_ytdlp_runtime_args(
    args: &mut Vec<String>,
    runtime_config: &YtdlpCommandConfig,
    compat_config_path: Option<&str>,
)
    ensures
        strs(*final(args)) == strs(*old(args)) + runtime_args(
            *runtime_config,
            crate::downloader::validation::opt_str_view(compat_config_path),
        ),
{
    let ghost before = strs(*args);
    push_arg(args, "--ignore-config");
    let ghost s1 = strs(*args);
    if let Some(path) = compat_config_path {
        let chars = chars_of(path);
        let t = trimmed_whitespace(chars.as_slice());
        if t.len() > 0 {
            push_arg(args, "--config-locations");
            push_owned(args, string_from_chars(t.as_slice()));
        }
    }
    let ghost s2 = strs(*args);
    push_arg(args, "--no-plugin-dirs");
    if let Some(plugin_dir) = &runtime_config.plugin_dir {
        push_arg(args, "--plugin-dirs");
        push_arg(args, plugin_dir.as_str());
    }
    let ghost s3 = strs(*args);
    push_arg(args, "--no-js-runtimes");
    if let Some(deno_path) = &runtime_config.deno_path {
        push_arg(args, "--js-runtimes");
        let mut d = chars_of("deno:");
        extend_str(&mut d, deno_path.as_str());
        push_owned(args, string_from_chars(d.as_slice()));
    }
    let ghost s4 = strs(*args);
    if let Some(ffmpeg_dir) = &runtime_config.ffmpeg_dir {
        push_arg(args, "--ffmpeg-location");
        push_arg(args, ffmpeg_dir.as_str());
    }
    assert(strs(*args) =~= before + runtime_args(
        *runtime_config,
        crate::downloader::validation::opt_str_view(compat_config_path),
    ));
}

/// Cookie flags for an enabled cookie selection.
pub open spec fn cookie_args(config: CookieConfig) -> Seq<Seq<char>> {
    if !config.enabled {
        Seq::empty()
    } else if config.mode@ == "file"@ {
        match config.cookie_file {
            Some(p) => seq!["--cookies"@, p@],
            None => Seq::empty(),
        }
    } else if config.mode@ == "browser"@ {
        seq!["--cookies-from-browser"@, config.browser@]
    } else {
        Seq::empty()
    }
}

pub fn append_cookie_args(args: &mut Vec<String>, config: &CookieConfig)
    ensures
        strs(*final(args)) == strs(*old(args)) + cookie_args(*config),
{
    let ghost before = strs(*args);
    if !config.enabled {
        assert(strs(*args) =~= before + cookie_args(*config));
        return;
    }
    if str_eq(config.mode.as_str(), "file") {
        if let Some(path) = &config.cookie_file {
            push_arg(args, "--cookies");
            push_arg(args, path.as_str());
        }
    } else if str_eq(config.mode.as_str(), "browser") {
        push_arg(args, "--cookies-from-browser");
        push_arg(args, config.browser.as_str());
    }
    assert(strs(*args) =~= before + cookie_args(*config));
}

/// Switches the X extractor to the syndication API when asked and applicable.
pub open spec fn twitter_syndication_args(url: Seq<char>, enabled: bool) -> Seq<Seq<char>> {
    opt_args(
        enabled && x_or_twitter_url(url),
        seq!["--extractor-args"@, "twitter:api=syndication"@],
    )
}

pub fn append_twitter_syndication_args(args: &mut Vec<String>, url: &str, enabled: bool)
    ensures
        strs(*final(args)) == strs(*old(args)) + twitter_syndication_args(url@, enabled),
{
    let ghost before = strs(*args);
    if enabled && is_x_or_twitter_url(url) {
        push_arg(args, "--extractor-args");
        push_arg(args, "twitter:api=syndication");
    }
    assert(strs(*args) =~= before + twitter_syndication_args(url@, enabled));
}

/// The alternatives of the `-f` selector, each capped at height `h` when a cap is given.
pub open spec fn selector_branches(format: Seq<char>, height: Option<Seq<char>>) -> Seq<Seq<char>> {
    match height {
        None => if format == "mp4"@ {
            seq![
                "bestvideo[ext=mp4][vcodec^=avc1]+bestaudio[ext=m4a]"@,
                "bestvideo[ext=mp4]+bestaudio[ext=m4a]"@,
                "best[ext=mp4]"@,
                "best"@,
            ]
        } else if format == "webm"@ {
            seq![
                "bestvideo[ext=webm]+bestaudio[ext=webm]"@,
                "best[ext=webm]"@,
                "bestvideo+bestaudio"@,
                "best"@,
            ]
        } else {
            seq!["bestvideo+bestaudio"@, "best"@]
        },
        Some(h) => {
            let cap = "[height<="@ + h + "]"@;
            if format == "mp4"@ {
                seq![
                    "bestvideo"@ + cap + "[ext=mp4][vcodec^=avc1]+bestaudio[ext=m4a]"@,
                    "bestvideo"@ + cap + "[ext=mp4]+bestaudio[ext=m4a]"@,
                    "best"@ + cap + "[ext=mp4]"@,
                    "best"@ + cap,
                ]
            } else if format == "mkv"@ {
                seq!["bestvideo"@ + cap + "+bestaudio"@, "best"@ + cap]
            } else if format == "webm"@ {
                seq![
                    "bestvideo"@ + cap + "[ext=webm]+bestaudio[ext=webm]"@,
                    "best"@ + cap + "[ext=webm]"@,
                    "bestvideo"@ + cap + "+bestaudio"@,
                    "best"@ + cap,
                ]
            } else {
                seq!["bestvideo+bestaudio"@, "best"@]
            }
        },
    }
}

/// The height cap implied by a quality name: `None` for `best`, else the name without `p`.
pub open spec fn height_limit(quality: Seq<char>) -> Option<Seq<char>> {
    if quality == "best"@ {
        None
    } else {
        Some(replace_char(quality, 'p', ""@))
    }
}

/// The `-f` selector: the branches joined with `/`.
pub open spec fn video_selector(format: Seq<char>, quality: Seq<char>) -> Seq<char> {
    crate::text::join_with(selector_branches(format, height_limit(quality)), "/"@)
}

/// Every branch of a capped selector carries the cap, so no branch can fall
/// back to an uncapped stream.
pub proof fn law_capped_selectors_never_fall_back(format: Seq<char>, quality: Seq<char>)
    requires
        quality != "best"@,
        format == "mp4"@ || format == "mkv"@ || format == "webm"@,
    ensures
        forall|i: int|
            0 <= i < selector_branches(format, height_limit(quality)).len() ==> crate::text::contains(
                #[trigger] selector_branches(format, height_limit(quality))[i],
                "[height<="@ + replace_char(quality, 'p', ""@) + "]"@,
            ),
{
    let h = replace_char(quality, 'p', ""@);
    let cap = "[height<="@ + h + "]"@;
    let b = selector_branches(format, height_limit(quality));
    assert forall|i: int| 0 <= i < b.len() implies crate::text::contains(#[trigger] b[i], cap) by {
        if format == "mp4"@ {
            if i == 0 {
                lemma_contains_middle("bestvideo"@, cap, "[ext=mp4][vcodec^=avc1]+bestaudio[ext=m4a]"@);
            } else if i == 1 {
                lemma_contains_middle("bestvideo"@, cap, "[ext=mp4]+bestaudio[ext=m4a]"@);
            } else if i == 2 {
                lemma_contains_middle("best"@, cap, "[ext=mp4]"@);
            } else {
                lemma_contains_end("best"@, cap);
            }
        } else if format == "mkv"@ {
            if i == 0 {
                lemma_contains_middle("bestvideo"@, cap, "+bestaudio"@);
            } else {
                lemma_contains_end("best"@, cap);
            }
        } else {
            if i == 0 {
                lemma_contains_middle("bestvideo"@, cap, "[ext=webm]+bestaudio[ext=webm]"@);
            } else if i == 1 {
                lemma_contains_middle("best"@, cap, "[ext=webm]"@);
            } else if i == 2 {
                lemma_contains_middle("bestvideo"@, cap, "+bestaudio"@);
            } else {
                lemma_contains_end("best"@, cap);
            }
        }
    }
}

proof fn lemma_contains_middle(pre: Seq<char>, mid: Seq<char>, post: Seq<char>)
    ensures
        crate::text::contains(pre + mid + post, mid),
{
    let s = pre + mid + post;
    assert(s.subrange(pre.len() as int, (pre.len() + mid.len()) as int) =~= mid);
    assert(crate::text::occurs_at(s, mid, pre.len() as int));
}

proof fn lemma_contains_end(pre: Seq<char>, mid: Seq<char>)
    ensures
        crate::text::contains(pre + mid, mid),
{
    let s = pre + mid;
    assert(s.subrange(pre.len() as int, (pre.len() + mid.len()) as int) =~= mid);
    assert(crate::text::occurs_at(s, mid, pre.len() as int));
}

#[verifier::rlimit(50)]
fn selector_text(format: &str, quality: &str) -> (res: Vec<char>)
    ensures
        res@ == video_selector(format@, quality@),
{
    let is_best = str_eq(quality, "best");
    let q = chars_of(quality);
    let h = replace_char_with(q.as_slice(), 'p', "");
    let mut cap = chars_of("[height<=");
    extend_chars(&mut cap, h.as_slice());
    extend_str(&mut cap, "]");
    let ghost hs = height_limit(quality@);
    let ghost branches = selector_branches(format@, hs);
    let mut out: Vec<char> = Vec::new();
    if is_best {
        if str_eq(format, "mp4") {
            extend_str(&mut out, "bestvideo[ext=mp4][vcodec^=avc1]+bestaudio[ext=m4a]/bestvideo[ext=mp4]+bestaudio[ext=m4a]/best[ext=mp4]/best");
            proof { reveal_strlit("bestvideo[ext=mp4][vcodec^=avc1]+bestaudio[ext=m4a]/bestvideo[ext=mp4]+bestaudio[ext=m4a]/best[ext=mp4]/best"); reveal_strlit("bestvideo[ext=mp4][vcodec^=avc1]+bestaudio[ext=m4a]"); reveal_strlit("bestvideo[ext=mp4]+bestaudio[ext=m4a]"); reveal_strlit("best[ext=mp4]"); reveal_strlit("best"); reveal_strlit("/"); lemma_join4(branches, "/"@); }
        } else if str_eq(format, "webm") {
            extend_str(&mut out, "bestvideo[ext=webm]+bestaudio[ext=webm]/best[ext=webm]/bestvideo+bestaudio/best");
            proof { reveal_strlit("bestvideo[ext=webm]+bestaudio[ext=webm]/best[ext=webm]/bestvideo+bestaudio/best"); reveal_strlit("bestvideo[ext=webm]+bestaudio[ext=webm]"); reveal_strlit("best[ext=webm]"); reveal_strlit("bestvideo+bestaudio"); reveal_strlit("best"); reveal_strlit("/"); lemma_join4(branches, "/"@); }
        } else {
            extend_str(&mut out, "bestvideo+bestaudio/best");
            proof { reveal_strlit("bestvideo+bestaudio/best"); reveal_strlit("bestvideo+bestaudio"); reveal_strlit("best"); reveal_strlit("/"); lemma_join2(branches, "/"@); }
        }
        assert(out@ =~= video_selector(format@, quality@));
        return out;
    }
    if str_eq(format, "mp4") {
        extend_str(&mut out, "bestvideo");
        extend_chars(&mut out, cap.as_slice());
        extend_str(&mut out, "[ext=mp4][vcodec^=avc1]+bestaudio[ext=m4a]/bestvideo");
        extend_chars(&mut out, cap.as_slice());
        extend_str(&mut out, "[ext=mp4]+bestaudio[ext=m4a]/best");
        extend_chars(&mut out, cap.as_slice());
        extend_str(&mut out, "[ext=mp4]/best");
        extend_chars(&mut out, cap.as_slice());
        proof {
            reveal_strlit("[ext=mp4][vcodec^=avc1]+bestaudio[ext=m4a]/bestvideo");
            reveal_strlit("[ext=mp4][vcodec^=avc1]+bestaudio[ext=m4a]");
            reveal_strlit("[ext=mp4]+bestaudio[ext=m4a]/best");
            reveal_strlit("[ext=mp4]+bestaudio[ext=m4a]");
            reveal_strlit("[ext=mp4]/best");
            reveal_strlit("[ext=mp4]");
            reveal_strlit("bestvideo");
            reveal_strlit("best");
            reveal_strlit("/");
            lemma_join4(branches, "/"@);
        }
    } else if str_eq(format, "mkv") {
        extend_str(&mut out, "bestvideo");
        extend_chars(&mut out, cap.as_slice());
        extend_str(&mut out, "+bestaudio/best");
        extend_chars(&mut out, cap.as_slice());
        proof {
            reveal_strlit("+bestaudio/best");
            reveal_strlit("+bestaudio");
            reveal_strlit("bestvideo");
            reveal_strlit("best");
            reveal_strlit("/");
            lemma_join2(branches, "/"@);
        }
    } else if str_eq(format, "webm") {
        extend_str(&mut out, "bestvideo");
        extend_chars(&mut out, cap.as_slice());
        extend_str(&mut out, "[ext=webm]+bestaudio[ext=webm]/best");
        extend_chars(&mut out, cap.as_slice());
        extend_str(&mut out, "[ext=webm]/bestvideo");
        extend_chars(&mut out, cap.as_slice());
        extend_str(&mut out, "+bestaudio/best");
        extend_chars(&mut out, cap.as_slice());
        proof {
            reveal_strlit("[ext=webm]+bestaudio[ext=webm]/best");
            reveal_strlit("[ext=webm]+bestaudio[ext=webm]");
            reveal_strlit("[ext=webm]/bestvideo");
            reveal_strlit("[ext=webm]");
            reveal_strlit("+bestaudio/best");
            reveal_strlit("+bestaudio");
            reveal_strlit("bestvideo");
            reveal_strlit("best");
            reveal_strlit("/");
            lemma_join4(branches, "/"@);
        }
    } else {
        extend_str(&mut out, "bestvideo+bestaudio/best");
        proof {
            reveal_strlit("bestvideo+bestaudio/best");
            reveal_strlit("bestvideo+bestaudio");
            reveal_strlit("best");
            reveal_strlit("/");
            lemma_join2(branches, "/"@);
        }
    }
    assert(out@ =~= video_selector(format@, quality@));
    out
}

proof fn lemma_join2(parts: Seq<Seq<char>>, sep: Seq<char>)
    requires
        parts.len() == 2,
    ensures
        crate::text::join_with(parts, sep) == parts[0] + sep + parts[1],
{
    let p1 = parts.drop_last();
    assert(p1.len() == 1);
    assert(p1[0] == parts[0]);
    assert(crate::text::join_with(p1, sep) == parts[0]);
}

proof fn lemma_join4(parts: Seq<Seq<char>>, sep: Seq<char>)
    requires
        parts.len() == 4,
    ensures
        crate::text::join_with(parts, sep) == parts[0] + sep + parts[1] + sep + parts[2] + sep
            + parts[3],
{
    let p3 = parts.drop_last();
    let p2 = p3.drop_last();
    let p1 = p2.drop_last();
    assert(p1.len() == 1);
    assert(p1[0] == parts[0]);
    assert(p2[1] == parts[1]);
    assert(p3[2] == parts[2]);
    assert(crate::text::join_with(p1, sep) == parts[0]);
    assert(crate::text::join_with(p2, sep) == parts[0] + sep + parts[1]);
    assert(crate::text::join_with(p3, sep) == parts[0] + sep + parts[1] + sep + parts[2]);
}

pub fn format_selector_for_video(request: &DownloadRequest) -> (res: String)
    ensures
        res@ == video_selector(request.format@, request.quality@),
{
    let v = selector_text(request.format.as_str(), request.quality.as_str());
    string_from_chars(v.as_slice())
}

/// Merge and remux flags for a video container.
pub open spec fn postprocess_args(format: Seq<char>) -> Seq<Seq<char>> {
    if format == "mp4"@ {
        seq!["--merge-output-format"@, "mp4"@, "--remux-video"@, "mp4"@]
    } else if format == "mkv"@ {
        seq!["--merge-output-format"@, "mkv"@, "--remux-video"@, "mkv"@]
    } else if format == "webm"@ {
        seq!["--merge-output-format"@, "mkv"@]
    } else {
        Seq::empty()
    }
}

pub fn append_video_postprocess_args(args: &mut Vec<String>, format: &str)
    ensures
        strs(*final(args)) == strs(*old(args)) + postprocess_args(format@),
{
    let ghost before = strs(*args);
    if str_eq(format, "mp4") {
        push_arg(args, "--merge-output-format");
        push_arg(args, "mp4");
        push_arg(args, "--remux-video");
        push_arg(args, "mp4");
    } else if str_eq(format, "mkv") {
        push_arg(args, "--merge-output-format");
        push_arg(args, "mkv");
        push_arg(args, "--remux-video");
        push_arg(args, "mkv");
    } else if str_eq(format, "webm") {
        push_arg(args, "--merge-output-format");
        push_arg(args, "mkv");
    }
    assert(strs(*args) =~= before + postprocess_args(format@));
}

pub open spec fn is_audio_format(format: Seq<char>) -> bool {
    format == "mp3"@ || format == "flac"@ || format == "wav"@ || format == "aac"@ || format
        == "opus"@
}

pub open spec fn opt_string_view(o: Option<String>) -> Option<Seq<char>> {
    match o {
        Some(s) => Some(s@),
        None => None,
    }
}

/// The complete argument list of one download attempt.
pub open spec fn download_args(
    r: DownloadRequest,
    use_twitter_syndication: bool,
    config: YtdlpCommandConfig,
) -> Seq<Seq<char>> {
    runtime_args(config, opt_string_view(r.compat_config_path)) + (if is_audio_format(r.format@) {
        seq!["-x"@, "--audio-format"@, r.format@, "--audio-quality"@, "0"@]
    } else {
        seq!["-f"@, video_selector(r.format@, r.quality@)] + postprocess_args(r.format@)
    }) + seq!["--newline"@, "--progress"@, "--progress-delta"@, "0.5"@, "--no-playlist"@]
        + twitter_syndication_args(r.url@, use_twitter_syndication) + seq![
        "-o"@,
        output_template(r.output_dir@, opt_view(r.filename_override)),
    ] + final_output_record_args(r.output_dir@) + (match r.cookie_config {
        Some(c) => cookie_args(c),
        None => Seq::empty(),
    }) + seq![r.url@]
}

#[verifier::rlimit(40)]
pub fn build_download_args_with_runtime(
    request: &DownloadRequest,
    use_twitter_syndication: bool,
    runtime_config: &YtdlpCommandConfig,
) -> (args: Vec<String>)
    ensures
        strs(args) == download_args(*request, use_twitter_syndication, *runtime_config),
{
    let mut args: Vec<String> = Vec::new();
    let compat: Option<&str> = match &request.compat_config_path {
        Some(p) => Some(p.as_str()),
        None => None,
    };
    assert(strs(args) =~= Seq::<Seq<char>>::empty());
    append_ytdlp_runtime_args(&mut args, runtime_config, compat);
    let ghost s1 = strs(args);
    assert(s1 == runtime_args(*runtime_config, opt_string_view(request.compat_config_path)));
    let fmt = request.format.as_str();
    let audio = str_eq(fmt, "mp3") || str_eq(fmt, "flac") || str_eq(fmt, "wav") || str_eq(fmt, "aac")
        || str_eq(fmt, "opus");
    if audio {
        push_arg(&mut args, "-x");
        push_arg(&mut args, "--audio-format");
        push_arg(&mut args, fmt);
        push_arg(&mut args, "--audio-quality");
        push_arg(&mut args, "0");
    } else {
        push_arg(&mut args, "-f");
        push_owned(&mut args, format_selector_for_video(request));
        append_video_postprocess_args(&mut args, fmt);
    }
    let ghost s2 = strs(args);
    assert(s2 == s1 + (if is_audio_format(request.format@) {
        seq!["-x"@, "--audio-format"@, request.format@, "--audio-quality"@, "0"@]
    } else {
        seq!["-f"@, video_selector(request.format@, request.quality@)] + postprocess_args(request.format@)
    })) by {
        if audio {
            assert(s2 =~= s1 + seq!["-x"@, "--audio-format"@, request.format@, "--audio-quality"@, "0"@]);
        } else {
            assert(s2 =~= s1 + (seq!["-f"@, video_selector(request.format@, request.quality@)] + postprocess_args(request.format@)));
        }
    }
    push_arg(&mut args, "--newline");
    push_arg(&mut args, "--progress");
    push_arg(&mut args, "--progress-delta");
    push_arg(&mut args, "0.5");
    push_arg(&mut args, "--no-playlist");
    let ghost s3 = strs(args);
    assert(s3 =~= s2 + seq!["--newline"@, "--progress"@, "--progress-delta"@, "0.5"@, "--no-playlist"@]);
    append_twitter_syndication_args(&mut args, request.url.as_str(), use_twitter_syndication);
    let ghost s4 = strs(args);
    push_arg(&mut args, "-o");
    push_owned(&mut args, build_output_template(request));
    let ghost s5 = strs(args);
    assert(s5 =~= s4 + seq!["-o"@, output_template(request.output_dir@, opt_view(request.filename_override))]);
    append_final_output_record_args(&mut args, request.output_dir.as_str());
    let ghost s6 = strs(args);
    if let Some(config) = &request.cookie_config {
        append_cookie_args(&mut args, config);
    }
    let ghost s7 = strs(args);
    assert(s7 == s6 + (match request.cookie_config {
        Some(c) => cookie_args(c),
        None => Seq::empty(),
    })) by {
        if request.cookie_config is None {
            assert(s7 =~= s6 + Seq::<Seq<char>>::empty());
        }
    }
    push_arg(&mut args, request.url.as_str());
    assert(strs(args) == s7 + seq![request.url@]) by {
        assert(strs(args) =~= s7.push(request.url@));
    }
    args
}

/// The download arguments with no bundled runtime locations.
pub fn build_download_args(request: &DownloadRequest, use_twitter_syndication: bool) -> (args: Vec<
    String,
>)
    ensures
        strs(args) == download_args(
            *request,
            use_twitter_syndication,
            YtdlpCommandConfig { ffmpeg_dir: None, deno_path: None, plugin_dir: None },
        ),
{
    let runtime_config = YtdlpCommandConfig { ffmpeg_dir: None, deno_path: None, plugin_dir: None };
    build_download_args_with_runtime(request, use_twitter_syndication, &runtime_config)
}

/// Flags of a metadata-only run: one JSON document, either the selected
/// playlist item or a bounded flat listing.
pub open spec fn inspection_args(selection: Option<MediaSelection>) -> Seq<Seq<char>> {
    seq!["--dump-single-json"@, "--no-download"@] + match selection {
        Some(s) => seq![
            "--yes-playlist"@,
            "--no-flat-playlist"@,
            "--playlist-items"@,
            decimal(s.playlist_index as nat),
        ],
        None => seq![
            "--flat-playlist"@,
            "--lazy-playlist"@,
            "--playlist-end"@,
            decimal((MAX_PLAYLIST_ENTRIES + 1) as nat),
        ],
    }
}

pub fn append_inspection_args(args: &mut Vec<String>, selection: Option<&MediaSelection>)
    ensures
        strs(*final(args)) == strs(*old(args)) + inspection_args(
            match selection {
                Some(s) => Some(*s),
                None => None,
            },
        ),
{
    let ghost before = strs(*args);
    push_arg(args, "--dump-single-json");
    push_arg(args, "--no-download");
    match selection {
        Some(s) => {
            push_arg(args, "--yes-playlist");
            push_arg(args, "--no-flat-playlist");
            push_arg(args, "--playlist-items");
            push_owned(args, u64_to_string(s.playlist_index as u64));
        },
        None => {
            push_arg(args, "--flat-playlist");
            push_arg(args, "--lazy-playlist");
            push_arg(args, "--playlist-end");
            push_owned(args, u64_to_string((MAX_PLAYLIST_ENTRIES + 1) as u64));
        },
    }
    assert(strs(*args) =~= before + inspection_args(
        match selection {
            Some(s) => Some(*s),
            None => None,
        },
    ));
}

/// The complete argument list of a metadata inspection.
pub open spec fn inspection_command_args(
    url: Seq<char>,
    cookie_config: Option<CookieConfig>,
    compat: Option<Seq<char>>,
    selection: Option<MediaSelection>,
    use_twitter_syndication: bool,
    config: YtdlpCommandConfig,
) -> Seq<Seq<char>> {
    runtime_args(config, compat) + inspection_args(selection) + twitter_syndication_args(
        url,
        use_twitter_syndication,
    ) + (match cookie_config {
        Some(c) => cookie_args(c),
        None => Seq::empty(),
    }) + seq![url]
}

pub fn build_inspection_args(
    url: &str,
    cookie_config: Option<&CookieConfig>,
    compat_config_path: Option<&str>,
    selection: Option<&MediaSelection>,
    use_twitter_syndication: bool,
    runtime_config: &YtdlpCommandConfig,
) -> (args: Vec<String>)
    ensures
        strs(args) == inspection_command_args(
            url@,
            crate::downloader::validation::opt_cookie(cookie_config),
            crate::downloader::validation::opt_str_view(compat_config_path),
            match selection {
                Some(s) => Some(*s),
                None => None,
            },
            use_twitter_syndication,
            *runtime_config,
        ),
{
    let mut args: Vec<String> = Vec::new();
    assert(strs(args) =~= Seq::<Seq<char>>::empty());
    append_ytdlp_runtime_args(&mut args, runtime_config, compat_config_path);
    let ghost s1 = strs(args);
    append_inspection_args(&mut args, selection);
    let ghost s2 = strs(args);
    append_twitter_syndication_args(&mut args, url, use_twitter_syndication);
    let ghost s3 = strs(args);
    if let Some(config) = cookie_config {
        append_cookie_args(&mut args, config);
    }
    let ghost s4 = strs(args);
    push_arg(&mut args, url);
    assert(strs(args) =~= inspection_command_args(
        url@,
        crate::downloader::validation::opt_cookie(cookie_config),
        crate::downloader::validation::opt_str_view(compat_config_path),
        match selection {
            Some(s) => Some(*s),
            None => None,
        },
        use_twitter_syndication,
        *runtime_config,
    ));
    args
}

/// A download's arguments end with the URL, and the user's cookies are passed
/// just before it: an enabled cookie selection in `file` mode with a cookie
/// file passes exactly `--cookies` and that file, and one in `browser` mode
/// passes exactly `--cookies-from-browser` and that browser.
pub proof fn law_cookies_are_passed_just_before_the_url(
    r: DownloadRequest,
    use_twitter_syndication: bool,
    config: YtdlpCommandConfig,
)
    ensures
        ({
            let a = download_args(r, use_twitter_syndication, config);
            let n = a.len() as int;
            &&& n >= 1 && a[n - 1] == r.url@
            &&& match r.cookie_config {
                Some(c) => {
                    &&& (c.enabled && c.mode@ == "file"@ && c.cookie_file is Some) ==> (n >= 3 && a[n - 3]
                        == "--cookies"@ && a[n - 2] == c.cookie_file->0@)
                    &&& (c.enabled && c.mode@ == "browser"@) ==> (n >= 3 && a[n - 3]
                        == "--cookies-from-browser"@ && a[n - 2] == c.browser@)
                },
                None => true,
            }
        }),
{
    reveal_strlit("file");
    reveal_strlit("browser");
    assert("file"@.len() == 4 && "browser"@.len() == 7);
    let a = download_args(r, use_twitter_syndication, config);
    let cookies = match r.cookie_config {
        Some(c) => cookie_args(c),
        None => Seq::empty(),
    };
    let front = runtime_args(config, opt_string_view(r.compat_config_path)) + (if is_audio_format(r.format@) {
        seq!["-x"@, "--audio-format"@, r.format@, "--audio-quality"@, "0"@]
    } else {
        seq!["-f"@, video_selector(r.format@, r.quality@)] + postprocess_args(r.format@)
    }) + seq!["--newline"@, "--progress"@, "--progress-delta"@, "0.5"@, "--no-playlist"@]
        + twitter_syndication_args(r.url@, use_twitter_syndication) + seq![
        "-o"@,
        output_template(r.output_dir@, opt_view(r.filename_override)),
    ] + final_output_record_args(r.output_dir@);
    assert(a == front + cookies + seq![r.url@]);
    let n = a.len() as int;
    assert(a[n - 1] == r.url@);
    if cookies.len() == 2 {
        assert(a[n - 3] == cookies[0]);
        assert(a[n - 2] == cookies[1]);
    }
}

/// A cookie selection that is disabled, names no cookie file in `file` mode,
/// or has another mode adds nothing: the arguments are those of the same
/// request without cookies.
pub proof fn law_unused_cookie_selection_changes_nothing(
    r: DownloadRequest,
    use_twitter_syndication: bool,
    config: YtdlpCommandConfig,
)
    ensures
        (match r.cookie_config {
            Some(c) => !c.enabled || (c.mode@ == "file"@ && c.cookie_file is None) || (c.mode@ != "file"@
                && c.mode@ != "browser"@),
            None => true,
        }) ==> download_args(r, use_twitter_syndication, config) == download_args(
            DownloadRequest { cookie_config: None, ..r },
            use_twitter_syndication,
            config,
        ),
{
    if let Some(c) = r.cookie_config {
        assert(!c.enabled || (c.mode@ == "file"@ && c.cookie_file is None) || (c.mode@ != "file"@
            && c.mode@ != "browser"@) ==> cookie_args(c) == Seq::<Seq<char>>::empty());
    }
    let a = download_args(r, use_twitter_syndication, config);
    let b = download_args(DownloadRequest { cookie_config: None, ..r }, use_twitter_syndication, config);
    assert(a =~= b || !(match r.cookie_config {
        Some(c) => !c.enabled || (c.mode@ == "file"@ && c.cookie_file is None) || (c.mode@ != "file"@
            && c.mode@ != "browser"@),
        None => true,
    }));
}

} // verus!
