//! Finding and checking the file a finished download left in its staging
//! folder, from the output record the downloader wrote or, without one, from
//! the only media file there; and the limits on the published path.
use crate::artifact_contract::utf8_text;
use crate::downloader::command_args::{join_windows_path, windows_join, FINAL_OUTPUT_RECORD_NAME};
use crate::downloader::validation::MAX_ACTIONABLE_FIELD_BYTES;
use crate::models::MediaSelection;
use crate::text::{
    ascii_lower, chars_of, concat2, owned, slice_range, split_chars, split_on, str_byte_len, str_eq,
    string_from_chars, to_ascii_lower, trim, trimmed_whitespace, u64_to_string, decimal, utf8_len,
    views_of_chars, one_of, chars_eq, views_of_strings,
};
use vstd::prelude::*;
use vstd::utf8::{decode_utf8, valid_utf8};

verus! {

/// Largest output record accepted, in bytes.
pub const MAX_FINAL_OUTPUT_RECORD_BYTES: u64 = 65536;

/// Most ` (n)` alternatives tried for a taken output name.
pub const MAX_OUTPUT_SUFFIX: usize = 9999;

/// A failure to identify the staged output: a stable code and a message.
#[derive(Debug, Clone, PartialEq, Eq)]
pub struct StagedOutputError {
    pub code: String,
    pub message: String,
}

pub open spec fn staged_error(e: StagedOutputError, code: Seq<char>, message: Seq<char>) -> bool {
    e.code@ == code && e.message@ == message
}

fn staged_output_error(code: &str, message: &str) -> (e: StagedOutputError)
    ensures
        staged_error(e, code@, message@),
{
    StagedOutputError { code: owned(code), message: owned(message) }
}

pub const RECORD_INVALID: &'static str = "staging_output_record_invalid";

/// A published path may hold at most 4 KiB of UTF-8.
pub fn validate_publishable_output_path(path: &str) -> (res: Result<(), String>)
    ensures
        utf8_len(path@) > MAX_ACTIONABLE_FIELD_BYTES ==> (res matches Err(m) && m@
            == "Published output path exceeds the 4 KiB metadata limit."@),
        utf8_len(path@) <= MAX_ACTIONABLE_FIELD_BYTES ==> res is Ok,
{
    if str_byte_len(path) > MAX_ACTIONABLE_FIELD_BYTES {
        Err(owned("Published output path exceeds the 4 KiB metadata limit."))
    } else {
        Ok(())
    }
}

/// Path of the output record in a staging folder.
pub fn final_output_record_path(staging_dir: &str) -> (p: String)
    ensures
        p@ == windows_join(staging_dir@, FINAL_OUTPUT_RECORD_NAME@),
{
    let joined = join_windows_path(staging_dir, FINAL_OUTPUT_RECORD_NAME);
    string_from_chars(joined.as_slice())
}

/// The record must be a regular file, not a link or reparse point, within the
/// size limit; this is checked on the path and again on the opened file.
pub fn check_record_metadata(is_file: bool, is_link_or_reparse: bool, len: u64) -> (res: Result<
    (),
    StagedOutputError,
>)
    ensures
        (!is_file || is_link_or_reparse) ==> (res matches Err(e) && staged_error(
            e,
            RECORD_INVALID@,
            "Downloader output record was not a regular non-reparse file."@,
        )),
        (is_file && !is_link_or_reparse && len > MAX_FINAL_OUTPUT_RECORD_BYTES) ==> (res matches Err(e)
            && staged_error(e, RECORD_INVALID@, "Downloader output record exceeded the 65536-byte limit."@)),
        (is_file && !is_link_or_reparse && len <= MAX_FINAL_OUTPUT_RECORD_BYTES) ==> res is Ok,
{
    if !is_file || is_link_or_reparse {
        return Err(
            staged_output_error(RECORD_INVALID, "Downloader output record was not a regular non-reparse file."),
        );
    }
    if len > MAX_FINAL_OUTPUT_RECORD_BYTES {
        return Err(
            staged_output_error(RECORD_INVALID, "Downloader output record exceeded the 65536-byte limit."),
        );
    }
    Ok(())
}

/// The same check on the opened record file.
pub fn check_opened_record_metadata(is_file: bool, is_reparse: bool, len: u64) -> (res: Result<
    (),
    StagedOutputError,
>)
    ensures
        (!is_file || is_reparse || len > MAX_FINAL_OUTPUT_RECORD_BYTES) ==> (res matches Err(e)
            && staged_error(
            e,
            RECORD_INVALID@,
            "Downloader output record was not a regular non-reparse file within the 65536-byte limit."@,
        )),
        (is_file && !is_reparse && len <= MAX_FINAL_OUTPUT_RECORD_BYTES) ==> res is Ok,
{
    if !is_file || is_reparse || len > MAX_FINAL_OUTPUT_RECORD_BYTES {
        return Err(
            staged_output_error(
                RECORD_INVALID,
                "Downloader output record was not a regular non-reparse file within the 65536-byte limit.",
            ),
        );
    }
    Ok(())
}

/// The lines of a text as `str::lines` yields them: split at line feeds, a
/// carriage return before a line feed dropped, no empty piece after a final
/// line feed.
pub open spec fn text_lines(text: Seq<char>) -> Seq<Seq<char>> {
    let pieces = split_on(text, '\n');
    let n = pieces.len();
    let body = Seq::new(
        n,
        |i: int|
            if i < n - 1 && pieces[i].len() > 0 && pieces[i].last() == '\r' {
                pieces[i].drop_last()
            } else {
                pieces[i]
            },
    );
    if n > 0 && pieces[n - 1].len() == 0 {
        body.drop_last()
    } else {
        body
    }
}

/// Whether a line holds something besides whitespace.
pub open spec fn content_line() -> spec_fn(Seq<char>) -> bool {
    |l: Seq<char>| trim(l).len() > 0
}

/// The lines that hold something besides whitespace.
pub open spec fn content_lines(lines: Seq<Seq<char>>) -> Seq<Seq<char>> {
    lines.filter(content_line())
}

/// The single entry of an output record's bytes, or why there is none.
pub open spec fn record_entry(contents: Seq<u8>) -> Result<Seq<char>, Seq<char>> {
    if contents.len() > MAX_FINAL_OUTPUT_RECORD_BYTES {
        Err("Downloader output record exceeded the 65536-byte limit."@)
    } else if !valid_utf8(contents) {
        Err("Downloader output record was not valid UTF-8."@)
    } else {
        let entries = content_lines(text_lines(decode_utf8(contents)));
        if entries.len() == 0 {
            Err("Downloader output record was empty."@)
        } else if entries.len() > 1 {
            Err("Downloader output record contained multiple entries."@)
        } else {
            Ok(entries[0])
        }
    }
}

fn lines_of(text: &str) -> (lines: Vec<Vec<char>>)
    ensures
        views_of_chars(lines@) == text_lines(text@),
{
    let chars = chars_of(text);
    let pieces = split_chars(chars.as_slice(), '\n');
    let ghost ps = views_of_chars(pieces@);
    let n = pieces.len();
    let mut lines: Vec<Vec<char>> = Vec::new();
    let mut i: usize = 0;
    while i < n
        invariant
            i <= n,
            n == pieces@.len(),
            ps == views_of_chars(pieces@),
            ps == split_on(text@, '\n'),
            lines@.len() == i,
            forall|j: int|
                0 <= j < i ==> (#[trigger] lines@[j])@ == (if j < n - 1 && ps[j].len() > 0 && ps[j].last()
                    == '\r' {
                    ps[j].drop_last()
                } else {
                    ps[j]
                }),
        decreases n - i,
    {
        let p = &pieces[i];
        let m = p.len();
        let line = if i + 1 < n && m > 0 && p[m - 1] == '\r' {
            slice_range(p.as_slice(), 0, m - 1)
        } else {
            slice_range(p.as_slice(), 0, m)
        };
        proof {
            assert(ps[i as int] == p@);
            assert(p@.subrange(0, m - 1) =~= p@.drop_last());
            assert(p@.subrange(0, m as int) =~= p@);
        }
        lines.push(line);
        i += 1;
    }
    let ghost body = Seq::new(
        n as nat,
        |i: int|
            if i < n - 1 && ps[i].len() > 0 && ps[i].last() == '\r' {
                ps[i].drop_last()
            } else {
                ps[i]
            },
    );
    proof {
        assert(views_of_chars(lines@) =~= body);
    }
    if n > 0 && pieces[n - 1].len() == 0 {
        lines.pop();
        proof {
            assert(views_of_chars(lines@) =~= body.drop_last());
        }
    }
    lines
}

/// The one entry of an output record's bytes: within the size limit, valid
/// UTF-8, exactly one line that is not blank.
pub fn record_line(contents: &[u8]) -> (res: Result<String, StagedOutputError>)
    ensures
        match record_entry(contents@) {
            Ok(line) => res matches Ok(l) && l@ == line,
            Err(m) => res matches Err(e) && staged_error(e, RECORD_INVALID@, m),
        },
{
    if contents.len() as u64 > MAX_FINAL_OUTPUT_RECORD_BYTES {
        return Err(
            staged_output_error(RECORD_INVALID, "Downloader output record exceeded the 65536-byte limit."),
        );
    }
    let text = match utf8_text(contents) {
        Some(t) => t,
        None => {
            return Err(staged_output_error(RECORD_INVALID, "Downloader output record was not valid UTF-8."));
        },
    };
    let lines = lines_of(text.as_str());
    let ghost all = views_of_chars(lines@);
    assert(all == text_lines(decode_utf8(contents@)));
    let mut found: Option<Vec<char>> = None;
    let mut count: usize = 0;
    let mut i: usize = 0;
    while i < lines.len()
        invariant
            i <= lines@.len(),
            all == views_of_chars(lines@),
            all == text_lines(decode_utf8(contents@)),
            valid_utf8(contents@),
            contents@.len() <= MAX_FINAL_OUTPUT_RECORD_BYTES,
            count == content_lines(all.take(i as int)).len(),
            count <= 1,
            count == 0 ==> found is None,
            count == 1 ==> (found matches Some(f) && f@ == content_lines(all.take(i as int))[0]),
        decreases lines@.len() - i,
    {
        let trimmed = trimmed_whitespace(lines[i].as_slice());
        proof {
            assert(all[i as int] == lines@[i as int]@);
            assert(all.take(i + 1) =~= all.take(i as int).push(lines@[i as int]@));
            assert(content_line()(lines@[i as int]@) == (trimmed@.len() > 0));
            all.take(i as int).lemma_filter_push(lines@[i as int]@, content_line());
            all.lemma_filter_take_len(content_line(), i + 1);
        }
        if trimmed.len() > 0 {
            if count == 1 {
                return Err(
                    staged_output_error(
                        RECORD_INVALID,
                        "Downloader output record contained multiple entries.",
                    ),
                );
            }
            count = 1;
            found = Some(slice_range(lines[i].as_slice(), 0, lines[i].len()));
            proof {
                assert(lines@[i as int]@.subrange(0, lines@[i as int]@.len() as int) =~= lines@[i as int]@);
            }
        }
        i += 1;
    }
    proof {
        assert(all.take(lines@.len() as int) =~= all);
        assert(all == text_lines(decode_utf8(contents@)));
    }
    match found {
        Some(f) => Ok(string_from_chars(f.as_slice())),
        None => Err(staged_output_error(RECORD_INVALID, "Downloader output record was empty.")),
    }
}

/// Checks the fields of a parsed output record: schema version 1, a filepath
/// that is not blank, and, for a selected item, the selected identity.
pub open spec fn record_fields_error(
    schema_version: u8,
    filepath: Seq<char>,
    id: Option<Seq<char>>,
    extractor_key: Option<Seq<char>>,
    selection: Option<MediaSelection>,
) -> Option<(Seq<char>, Seq<char>)> {
    if schema_version != 1 {
        Some(
            (
                RECORD_INVALID@,
                "Downloader output record used unsupported schema version "@ + decimal(schema_version as nat)
                    + "."@,
            ),
        )
    } else if trim(filepath).len() == 0 {
        Some((RECORD_INVALID@, "Downloader output record did not contain a filepath."@))
    } else {
        match selection {
            Some(s) => if id != Some(s.entry_id@) || extractor_key != Some(s.extractor_key@) {
                Some(
                    (
                        "staging_output_identity_mismatch"@,
                        "Downloader output identity did not match the selected media."@,
                    ),
                )
            } else {
                None
            },
            None => None,
        }
    }
}

fn opt_eq(a: Option<&str>, b: &str) -> (r: bool)
    ensures
        r == (match a {
            Some(x) => Some(x@),
            None => None,
        } == Some(b@)),
{
    match a {
        Some(x) => str_eq(x, b),
        None => false,
    }
}

pub fn check_final_output_record(
    schema_version: u8,
    filepath: &str,
    id: Option<&str>,
    extractor_key: Option<&str>,
    selection: Option<&MediaSelection>,
) -> (res: Result<(), StagedOutputError>)
    ensures
        match record_fields_error(
            schema_version,
            filepath@,
            match id {
                Some(x) => Some(x@),
                None => None,
            },
            match extractor_key {
                Some(x) => Some(x@),
                None => None,
            },
            match selection {
                Some(s) => Some(*s),
                None => None,
            },
        ) {
            Some((code, message)) => res matches Err(e) && staged_error(e, code, message),
            None => res is Ok,
        },
{
    if schema_version != 1 {
        let n = u64_to_string(schema_version as u64);
        let head = concat2("Downloader output record used unsupported schema version ", n.as_str());
        let message = concat2(head.as_str(), ".");
        return Err(StagedOutputError { code: owned(RECORD_INVALID), message });
    }
    let chars = chars_of(filepath);
    let trimmed = trimmed_whitespace(chars.as_slice());
    if trimmed.len() == 0 {
        return Err(
            staged_output_error(RECORD_INVALID, "Downloader output record did not contain a filepath."),
        );
    }
    match selection {
        Some(s) => {
            if !opt_eq(id, s.entry_id.as_str()) || !opt_eq(extractor_key, s.extractor_key.as_str()) {
                return Err(
                    staged_output_error(
                        "staging_output_identity_mismatch",
                        "Downloader output identity did not match the selected media.",
                    ),
                );
            }
        },
        None => {},
    }
    Ok(())
}

/// Without an output record, a selected item is an error; otherwise the only
/// staged media file is looked for.
pub fn missing_record_decision(selection: Option<&MediaSelection>) -> (res: Result<(), StagedOutputError>)
    ensures
        selection is Some ==> (res matches Err(e) && staged_error(
            e,
            RECORD_INVALID@,
            "Selected media completed without an output identity record."@,
        )),
        selection is None ==> res is Ok,
{
    match selection {
        Some(_) => Err(
            staged_output_error(RECORD_INVALID, "Selected media completed without an output identity record."),
        ),
        None => Ok(()),
    }
}

/// Extensions of media files that a download may leave.
pub open spec fn staged_media_extensions() -> Seq<Seq<char>> {
    seq![
        "mp4"@,
        "mkv"@,
        "webm"@,
        "mov"@,
        "m4a"@,
        "mp3"@,
        "flac"@,
        "wav"@,
        "aac"@,
        "opus"@,
        "ogg"@,
        "ts"@,
    ]
}

/// Whether a file extension, in any ASCII case, is one of a staged media file.
pub fn is_staged_media_extension(extension: &str) -> (b: bool)
    ensures
        b == one_of(ascii_lower(extension@), staged_media_extensions()),
{
    let chars = chars_of(extension);
    let lower = to_ascii_lower(chars.as_slice());
    let names: [&str; 12] = ["mp4", "mkv", "webm", "mov", "m4a", "mp3", "flac", "wav", "aac", "opus", "ogg", "ts"];
    let mut i: usize = 0;
    proof {
        reveal_strlit("mp4");
        reveal_strlit("mkv");
        reveal_strlit("webm");
        reveal_strlit("mov");
        reveal_strlit("m4a");
        reveal_strlit("mp3");
        reveal_strlit("flac");
        reveal_strlit("wav");
        reveal_strlit("aac");
        reveal_strlit("opus");
        reveal_strlit("ogg");
        reveal_strlit("ts");
        assert(names@.map_values(|s: &str| s@) =~= staged_media_extensions());
    }
    while i < 12
        invariant
            i <= 12,
            lower@ == ascii_lower(extension@),
            names@.map_values(|s: &str| s@) == staged_media_extensions(),
            forall|j: int| 0 <= j < i ==> staged_media_extensions()[j] != ascii_lower(extension@),
        decreases 12 - i,
    {
        let name = chars_of(names[i]);
        if chars_eq(lower.as_slice(), name.as_slice()) {
            proof {
                assert(staged_media_extensions()[i as int] == names@[i as int]@);
            }
            return true;
        }
        proof {
            assert(staged_media_extensions()[i as int] == names@[i as int]@);
        }
        i += 1;
    }
    false
}

/// With no record, exactly one staged media file is accepted.
pub fn fallback_choice(count: usize) -> (res: Result<(), StagedOutputError>)
    ensures
        count == 0 ==> (res matches Err(e) && staged_error(
            e,
            "staging_failed"@,
            "Download completed but no staged media file was found."@,
        )),
        count == 1 ==> res is Ok,
        count > 1 ==> (res matches Err(e) && staged_error(
            e,
            "staging_output_ambiguous"@,
            "Download completed without an output record and left "@ + decimal(count as nat)
                + " staged media files."@,
        )),
{
    if count == 0 {
        return Err(
            staged_output_error("staging_failed", "Download completed but no staged media file was found."),
        );
    }
    if count == 1 {
        return Ok(());
    }
    let n = u64_to_string(count as u64);
    let head = concat2("Download completed without an output record and left ", n.as_str());
    Err(StagedOutputError { code: owned("staging_output_ambiguous"), message: concat2(head.as_str(), " staged media files.") })
}

/// `path` lies strictly inside `dir`, both given as their components:
/// `dir` is a proper prefix of `path` (`Path::starts_with` and not equal).
pub open spec fn strictly_inside(path: Seq<Seq<char>>, dir: Seq<Seq<char>>) -> bool {
    dir.len() < path.len() && forall|i: int| 0 <= i < dir.len() ==> #[trigger] path[i] == dir[i]
}

/// Whether the canonical path `path` lies strictly inside the canonical
/// folder `dir`; a downloader that reports the folder itself or anything
/// outside it has escaped its staging folder.
pub fn is_strictly_inside(path: &Vec<String>, dir: &Vec<String>) -> (b: bool)
    ensures
        b == strictly_inside(views_of_strings(path@), views_of_strings(dir@)),
{
    if dir.len() >= path.len() {
        return false;
    }
    let mut i: usize = 0;
    while i < dir.len()
        invariant
            dir@.len() < path@.len(),
            i <= dir@.len(),
            forall|k: int| 0 <= k < i ==> #[trigger] path@[k]@ == dir@[k]@,
        decreases dir@.len() - i,
    {
        if !str_eq(path[i].as_str(), dir[i].as_str()) {
            proof {
                assert(views_of_strings(path@)[i as int] != views_of_strings(dir@)[i as int]);
            }
            return false;
        }
        i += 1;
    }
    proof {
        assert forall|k: int| 0 <= k < dir@.len() implies #[trigger] views_of_strings(path@)[k]
            == views_of_strings(dir@)[k] by {
            assert(path@[k]@ == dir@[k]@);
        }
    }
    true
}

/// `child` is directly inside `parent`: its parent path is `parent`.
pub open spec fn direct_child(child: Seq<Seq<char>>, parent: Seq<Seq<char>>) -> bool {
    child.len() == parent.len() + 1 && strictly_inside(child, parent)
}

/// Whether the canonical path `child` sits directly in `parent`, as the
/// staging root must in the output folder and an operation folder in the
/// staging root.
pub fn is_direct_child(child: &Vec<String>, parent: &Vec<String>) -> (b: bool)
    ensures
        b == direct_child(views_of_strings(child@), views_of_strings(parent@)),
{
    child.len() > 0 && child.len() - 1 == parent.len() && is_strictly_inside(child, parent)
}

/// A staged file must be a regular file that is neither a link nor a reparse
/// point.
pub fn check_staged_file_metadata(is_file: bool, is_symlink: bool, is_reparse: bool) -> (res: Result<
    (),
    String,
>)
    ensures
        (!is_file || is_symlink) ==> (res matches Err(m) && m@
            == "Downloader output was not a regular non-reparse file."@),
        (is_file && !is_symlink && is_reparse) ==> (res matches Err(m) && m@
            == "Downloader output was a reparse point."@),
        (is_file && !is_symlink && !is_reparse) <==> res is Ok,
{
    if !is_file || is_symlink {
        return Err(owned("Downloader output was not a regular non-reparse file."));
    }
    if is_reparse {
        return Err(owned("Downloader output was a reparse point."));
    }
    Ok(())
}

} // verus!
