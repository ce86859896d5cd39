//! Output file naming: sanitising user-chosen names for Windows and building
//! the downloader's output template.
use crate::downloader::command_args::{join_windows_path, windows_join};
use crate::models::DownloadRequest;
use crate::text::{
    digit_char,
    ascii_lower, ascii_upper, char_len_utf16, chars_eq, chars_of, ends_with, ends_with_chars,
    extend_chars, extend_str, is_ascii_control, lemma_utf16_len_concat, lemma_utf16_len_push,
    one_of, replace_char, replace_char_with, slice_range, string_from_chars, to_ascii_lower,
    to_ascii_upper, trim, trim_space_dot, trimmed_space_dot, trimmed_whitespace, utf16_len,
    decimal, u64_to_string, is_space_or_dot, trim_by, trim_start_by, trim_end_by,
    lemma_trim_start_is_suffix, lemma_trim_end_is_prefix, is_unicode_whitespace, ascii_lower_char,
};
use vstd::prelude::*;

verus! {

/// UTF-16 length cap of a custom file name.
pub const MAX_CUSTOM_FILENAME_UTF16_UNITS: usize = 180;

/// Device names that Windows reserves regardless of extension.
pub open spec fn reserved_stems() -> Seq<Seq<char>> {
    seq![
        "CON"@, "PRN"@, "AUX"@, "NUL"@, "COM1"@, "COM2"@, "COM3"@, "COM4"@, "COM5"@, "COM6"@,
        "COM7"@, "COM8"@, "COM9"@, "LPT1"@, "LPT2"@, "LPT3"@, "LPT4"@, "LPT5"@, "LPT6"@, "LPT7"@,
        "LPT8"@, "LPT9"@,
    ]
}

fn reserved_stem_at(i: usize) -> (s: &'static str)
    requires
        i < 22,
    ensures
        s@ == reserved_stems()[i as int],
{
    match i {
        0 => "CON",
        1 => "PRN",
        2 => "AUX",
        3 => "NUL",
        4 => "COM1",
        5 => "COM2",
        6 => "COM3",
        7 => "COM4",
        8 => "COM5",
        9 => "COM6",
        10 => "COM7",
        11 => "COM8",
        12 => "COM9",
        13 => "LPT1",
        14 => "LPT2",
        15 => "LPT3",
        16 => "LPT4",
        17 => "LPT5",
        18 => "LPT6",
        19 => "LPT7",
        20 => "LPT8",
        _ => "LPT9",
    }
}

/// The stem names a reserved Windows device, ignoring ASCII case.
pub open spec fn reserved_filename_stem(value: Seq<char>) -> bool {
    one_of(ascii_upper(value), reserved_stems())
}

pub fn is_windows_reserved_filename_stem(value: &[char]) -> (res: bool)
    ensures
        res == reserved_filename_stem(value@),
{
    let upper = to_ascii_upper(value);
    let mut i: usize = 0;
    while i < 22
        invariant
            upper@ == ascii_upper(value@),
            i <= 22,
            forall|j: int| 0 <= j < i ==> reserved_stems()[j] != upper@,
        decreases 22 - i,
    {
        let candidate = chars_of(reserved_stem_at(i));
        if chars_eq(upper.as_slice(), candidate.as_slice()) {
            return true;
        }
        i += 1;
    }
    assert(reserved_stems().len() == 22);
    false
}

/// Prefix lengths never decrease in UTF-16 size.
pub proof fn lemma_utf16_len_take_mono(s: Seq<char>, i: int, j: int)
    requires
        0 <= i <= j <= s.len(),
    ensures
        utf16_len(s.take(i)) <= utf16_len(s.take(j)),
{
    let t = s.take(j);
    lemma_utf16_len_concat(t.take(i), t.skip(i));
    assert(t.take(i) + t.skip(i) =~= t);
    assert(t.take(i) =~= s.take(i));
}

/// `k` is the longest prefix of `s` within `max` UTF-16 units.
pub open spec fn is_fit16_point(s: Seq<char>, max: int, k: int) -> bool {
    &&& 0 <= k <= s.len()
    &&& utf16_len(s.take(k)) <= max
    &&& (k == s.len() || utf16_len(s.take(k + 1)) > max)
}

pub open spec fn fit16_point(s: Seq<char>, max: int) -> int {
    choose|k: int| is_fit16_point(s, max, k)
}

pub proof fn lemma_fit16_point_unique(s: Seq<char>, max: int, k1: int, k2: int)
    requires
        is_fit16_point(s, max, k1),
        is_fit16_point(s, max, k2),
    ensures
        k1 == k2,
{
    if k1 < k2 {
        lemma_utf16_len_take_mono(s, k1 + 1, k2);
    } else if k2 < k1 {
        lemma_utf16_len_take_mono(s, k2 + 1, k1);
    }
}

/// The longest prefix of `s` that fits in `max` UTF-16 code units.
pub open spec fn truncated_utf16(s: Seq<char>, max: nat) -> Seq<char> {
    s.take(fit16_point(s, max as int))
}

pub fn truncate_utf16(value: &[char], max_units: usize) -> (res: Vec<char>)
    ensures
        res@ == truncated_utf16(value@, max_units as nat),
        utf16_len(res@) <= max_units,
{
    let mut i: usize = 0;
    let mut used: usize = 0;
    let mut fits = true;
    while fits && i < value.len()
        invariant
            i <= value@.len(),
            used == utf16_len(value@.take(i as int)),
            used <= max_units,
            !fits ==> i < value@.len() && utf16_len(value@.take(i + 1)) > max_units,
        decreases value@.len() - i + (if fits {
            1int
        } else {
            0
        }),
    {
        let c = char_len_utf16(value[i]);
        proof {
            lemma_utf16_len_push(value@.take(i as int), value@[i as int]);
            assert(value@.take(i as int).push(value@[i as int]) =~= value@.take(i + 1));
        }
        if c > max_units - used {
            fits = false;
        } else {
            used = used + c;
            i = i + 1;
        }
    }
    proof {
        assert(is_fit16_point(value@, max_units as int, i as int));
        lemma_fit16_point_unique(
            value@,
            max_units as int,
            i as int,
            fit16_point(value@, max_units as int),
        );
    }
    let out = slice_range(value, 0, i);
    assert(out@ =~= value@.take(i as int));
    out
}

/// Characters that Windows forbids in file names become `_`.
pub open spec fn is_forbidden_filename_char(c: char) -> bool {
    is_ascii_control(c) || c == '<' || c == '>' || c == ':' || c == '"' || c == '/' || c == '\\'
        || c == '|' || c == '?' || c == '*'
}

pub open spec fn replace_forbidden(s: Seq<char>) -> Seq<char> {
    s.map_values(|c: char| if is_forbidden_filename_char(c) { '_' } else { c })
}

/// Index of the first `.`, or the length when there is none.
pub open spec fn dot_index(s: Seq<char>) -> nat
    decreases s.len(),
{
    if s.len() == 0 {
        0
    } else if s[0] == '.' {
        0
    } else {
        1 + dot_index(s.drop_first())
    }
}

/// A reserved device stem gets `_` appended before its first dot.
pub open spec fn mark_reserved_stem(s: Seq<char>) -> Seq<char> {
    let k = dot_index(s) as int;
    if reserved_filename_stem(s.take(k)) {
        s.take(k) + seq!['_'] + s.skip(k)
    } else {
        s
    }
}

/// A safe Windows file-name component, or `None` when nothing usable remains.
pub open spec fn sanitized_component(raw: Seq<char>) -> Option<Seq<char>> {
    let cleaned = trim_space_dot(replace_forbidden(trim(raw)));
    if cleaned.len() == 0 {
        None
    } else {
        let bounded = trim_space_dot(
            truncated_utf16(mark_reserved_stem(cleaned), MAX_CUSTOM_FILENAME_UTF16_UNITS as nat),
        );
        if bounded.len() == 0 {
            None
        } else {
            Some(bounded)
        }
    }
}

/// No character of `s` is one that Windows forbids in file names.
pub open spec fn free_of_forbidden(s: Seq<char>) -> bool {
    forall|i: int| 0 <= i < s.len() ==> !is_forbidden_filename_char(#[trigger] s[i])
}

/// Trimming spaces and dots keeps a contiguous part of the text whose ends
/// are neither.
proof fn lemma_trim_space_dot_is_part(s: Seq<char>)
    ensures
        exists|a: int, b: int| 0 <= a <= b <= s.len() && trim_space_dot(s) == s.subrange(a, b),
        trim_space_dot(s).len() > 0 ==> !is_space_or_dot(trim_space_dot(s)[0]) && !is_space_or_dot(
            trim_space_dot(s).last(),
        ),
{
    let p = |c: char| is_space_or_dot(c);
    lemma_trim_start_is_suffix(s, p);
    let t = trim_start_by(s, p);
    lemma_trim_end_is_prefix(t, p);
    let a = s.len() - t.len();
    let m = trim_end_by(t, p).len() as int;
    assert(trim_end_by(t, p) =~= s.subrange(a, a + m));
    assert(trim_space_dot(s) == trim_end_by(t, p));
    if m > 0 {
        assert(trim_end_by(t, p)[0] == t[0]);
    }
}

proof fn lemma_part_keeps(s: Seq<char>, a: int, b: int)
    requires
        0 <= a <= b <= s.len(),
    ensures
        free_of_forbidden(s) ==> free_of_forbidden(s.subrange(a, b)),
        utf16_len(s.subrange(a, b)) <= utf16_len(s),
{
    if free_of_forbidden(s) {
        assert forall|i: int| 0 <= i < b - a implies !is_forbidden_filename_char(
            #[trigger] s.subrange(a, b)[i],
        ) by {
            assert(s.subrange(a, b)[i] == s[a + i]);
        }
    }
    lemma_utf16_len_concat(s.take(a), s.subrange(a, b));
    lemma_utf16_len_concat(s.take(a) + s.subrange(a, b), s.skip(b));
    assert(s.take(a) + s.subrange(a, b) + s.skip(b) =~= s);
}

proof fn lemma_fit16_point_from(s: Seq<char>, max: int, j: int)
    requires
        0 <= j <= s.len(),
        utf16_len(s.take(j)) <= max,
    ensures
        exists|k: int| is_fit16_point(s, max, k),
    decreases s.len() - j,
{
    if j == s.len() {
        assert(is_fit16_point(s, max, j));
    } else if utf16_len(s.take(j + 1)) > max {
        assert(is_fit16_point(s, max, j));
    } else {
        lemma_fit16_point_from(s, max, j + 1);
    }
}

/// The truncation to `max` UTF-16 units is a prefix within the cap.
proof fn lemma_truncated_utf16_fits(s: Seq<char>, max: nat)
    ensures
        utf16_len(truncated_utf16(s, max)) <= max,
        truncated_utf16(s, max) == s.subrange(0, fit16_point(s, max as int)),
        0 <= fit16_point(s, max as int) <= s.len(),
{
    assert(s.take(0) =~= Seq::<char>::empty());
    lemma_fit16_point_from(s, max as int, 0);
    assert(is_fit16_point(s, max as int, fit16_point(s, max as int)));
    assert(s.take(fit16_point(s, max as int)) =~= s.subrange(0, fit16_point(s, max as int)));
}

proof fn lemma_replace_forbidden_free(s: Seq<char>)
    ensures
        free_of_forbidden(replace_forbidden(s)),
{
    assert forall|i: int| 0 <= i < replace_forbidden(s).len() implies !is_forbidden_filename_char(
        #[trigger] replace_forbidden(s)[i],
    ) by {
        assert(('_' as u32) == 0x5F);
    }
}

proof fn lemma_dot_index_within(s: Seq<char>)
    ensures
        dot_index(s) <= s.len(),
    decreases s.len(),
{
    if s.len() > 0 && s[0] != '.' {
        lemma_dot_index_within(s.drop_first());
    }
}

proof fn lemma_mark_reserved_stem_free(s: Seq<char>)
    requires
        free_of_forbidden(s),
    ensures
        free_of_forbidden(mark_reserved_stem(s)),
{
    let k = dot_index(s) as int;
    lemma_dot_index_within(s);
    if reserved_filename_stem(s.take(k)) {
        let m = mark_reserved_stem(s);
        assert forall|i: int| 0 <= i < m.len() implies !is_forbidden_filename_char(#[trigger] m[i]) by {
            if i < k {
                assert(m[i] == s[i]);
            } else if i == k {
                assert(m[i] == '_');
                assert(('_' as u32) == 0x5F);
            } else {
                assert(m[i] == s[i - 1]);
            }
        }
    }
}

/// Every name the sanitiser accepts is non-empty, holds no character that
/// Windows forbids in file names (every ASCII control character among them),
/// fits in [`MAX_CUSTOM_FILENAME_UTF16_UNITS`] UTF-16 units, and neither
/// starts nor ends with a space or a dot.
pub proof fn law_sanitized_components_are_safe(raw: Seq<char>)
    ensures
        sanitized_component(raw) matches Some(v) ==> {
            &&& v.len() > 0
            &&& free_of_forbidden(v)
            &&& utf16_len(v) <= MAX_CUSTOM_FILENAME_UTF16_UNITS
            &&& !is_space_or_dot(v[0])
            &&& !is_space_or_dot(v.last())
        },
{
    let replaced = replace_forbidden(trim(raw));
    lemma_replace_forbidden_free(trim(raw));
    let cleaned = trim_space_dot(replaced);
    lemma_trim_space_dot_is_part(replaced);
    let (a, b) = choose|a: int, b: int| 0 <= a <= b <= replaced.len() && cleaned == replaced.subrange(a, b);
    lemma_part_keeps(replaced, a, b);
    if cleaned.len() > 0 {
        lemma_mark_reserved_stem_free(cleaned);
        let marked = mark_reserved_stem(cleaned);
        let max = MAX_CUSTOM_FILENAME_UTF16_UNITS as nat;
        lemma_truncated_utf16_fits(marked, max);
        let cut = truncated_utf16(marked, max);
        lemma_part_keeps(marked, 0, fit16_point(marked, max as int));
        let bounded = trim_space_dot(cut);
        lemma_trim_space_dot_is_part(cut);
        let (c, d) = choose|c: int, d: int| 0 <= c <= d <= cut.len() && bounded == cut.subrange(c, d);
        lemma_part_keeps(cut, c, d);
    }
}

fn replace_forbidden_exec(s: &[char]) -> (res: Vec<char>)
    ensures
        res@ == replace_forbidden(s@),
{
    let mut out: Vec<char> = Vec::new();
    let mut i: usize = 0;
    while i < s.len()
        invariant
            i <= s@.len(),
            out@ == replace_forbidden(s@.take(i as int)),
        decreases s@.len() - i,
    {
        let c = s[i];
        let v = c as u32;
        let forbidden = v <= 0x1F || v == 0x7F || c == '<' || c == '>' || c == ':' || c == '"' || c
            == '/' || c == '\\' || c == '|' || c == '?' || c == '*';
        if forbidden {
            out.push('_');
        } else {
            out.push(c);
        }
        i += 1;
        assert(out@ =~= replace_forbidden(s@.take(i as int)));
    }
    assert(s@.take(s@.len() as int) =~= s@);
    out
}

fn dot_index_exec(s: &[char]) -> (k: usize)
    ensures
        k == dot_index(s@),
        k <= s@.len(),
{
    let mut k: usize = 0;
    assert(s@.skip(0) =~= s@);
    while k < s.len() && s[k] != '.'
        invariant
            k <= s@.len(),
            dot_index(s@) == k + dot_index(s@.skip(k as int)),
        decreases s@.len() - k,
    {
        proof {
            assert(s@.skip(k as int).drop_first() =~= s@.skip(k + 1));
        }
        k += 1;
    }
    proof {
        if k < s@.len() {
            assert(s@.skip(k as int)[0] == '.');
        }
        assert(dot_index(s@.skip(k as int)) == 0);
    }
    k
}

proof fn lemma_dot_index_start(s: Seq<char>)
    ensures
        dot_index(s) == 0 + dot_index(s.skip(0)),
{
    assert(s.skip(0) =~= s);
}

/// Sanitises one file-name component for Windows: forbidden characters become
/// `_`, surrounding spaces and dots are removed, reserved device stems are
/// marked, and the result is capped at 180 UTF-16 units.
pub fn sanitize_component_chars(raw: &[char]) -> (res: Option<Vec<char>>)
    ensures
        match res {
            Some(v) => sanitized_component(raw@) == Some(v@),
            None => sanitized_component(raw@) is None,
        },
{
    let trimmed = trimmed_whitespace(raw);
    let replaced = replace_forbidden_exec(trimmed.as_slice());
    let cleaned = trimmed_space_dot(replaced.as_slice());
    if cleaned.len() == 0 {
        return None;
    }
    proof {
        lemma_dot_index_start(cleaned@);
    }
    let stem_end = dot_index_exec(cleaned.as_slice());
    let stem = slice_range(cleaned.as_slice(), 0, stem_end);
    assert(stem@ =~= cleaned@.take(stem_end as int));
    let marked = if is_windows_reserved_filename_stem(stem.as_slice()) {
        let mut m = stem;
        m.push('_');
        let rest = slice_range(cleaned.as_slice(), stem_end, cleaned.len());
        extend_chars(&mut m, rest.as_slice());
        assert(m@ =~= cleaned@.take(stem_end as int) + seq!['_'] + cleaned@.skip(stem_end as int));
        m
    } else {
        cleaned
    };
    let bounded = truncate_utf16(marked.as_slice(), MAX_CUSTOM_FILENAME_UTF16_UNITS);
    let result = trimmed_space_dot(bounded.as_slice());
    if result.len() == 0 {
        return None;
    }
    Some(result)
}

/// Extensions that are removed from a custom name, in the order they are tried.
pub open spec fn override_extensions() -> Seq<Seq<char>> {
    seq!["mp4"@, "mkv"@, "webm"@, "mp3"@, "flac"@, "wav"@, "aac"@, "opus"@]
}

fn override_extension_at(i: usize) -> (s: &'static str)
    requires
        i < 8,
    ensures
        s@ == override_extensions()[i as int],
{
    match i {
        0 => "mp4",
        1 => "mkv",
        2 => "webm",
        3 => "mp3",
        4 => "flac",
        5 => "wav",
        6 => "aac",
        _ => "opus",
    }
}

/// `value` without the first listed extension (from index `i` on) that its
/// lower-cased form ends with as `.ext`.
pub open spec fn strip_known_extension_from(value: Seq<char>, i: nat) -> Seq<char>
    decreases 8 - i,
{
    if i >= 8 {
        value
    } else {
        let ext = override_extensions()[i as int];
        if ends_with(ascii_lower(value), seq!['.'] + ext) {
            value.take(value.len() - ext.len() - 1)
        } else {
            strip_known_extension_from(value, i + 1)
        }
    }
}

/// The normalised form of a user-chosen file name, or `None` if nothing usable remains.
pub open spec fn normalized_override(raw: Seq<char>) -> Option<Seq<char>> {
    sanitized_component(strip_known_extension_from(trim(raw), 0))
}

fn strip_known_extension(value: &[char]) -> (res: Vec<char>)
    ensures
        res@ == strip_known_extension_from(value@, 0),
{
    let lower = to_ascii_lower(value);
    let mut i: usize = 0;
    while i < 8
        invariant
            lower@ == ascii_lower(value@),
            i <= 8,
            strip_known_extension_from(value@, 0) == strip_known_extension_from(value@, i as nat),
        decreases 8 - i,
    {
        let mut dotted: Vec<char> = Vec::new();
        dotted.push('.');
        let ext = override_extension_at(i);
        extend_str(&mut dotted, ext);
        if ends_with_chars(lower.as_slice(), dotted.as_slice()) {
            let ext_len = dotted.len();
            let out = slice_range(value, 0, value.len() - ext_len);
            assert(out@ =~= value@.take(value@.len() - ext@.len() - 1));
            return out;
        }
        i += 1;
    }
    let out = slice_range(value, 0, value.len());
    assert(out@ =~= value@);
    out
}

/// Normalises a custom file name: trims it, drops one known media extension
/// and sanitises what remains.
pub fn normalize_override_chars(raw: &str) -> (res: Option<Vec<char>>)
    ensures
        match res {
            Some(v) => normalized_override(raw@) == Some(v@),
            None => normalized_override(raw@) is None,
        },
{
    let chars = chars_of(raw);
    let trimmed = trimmed_whitespace(chars.as_slice());
    let stripped = strip_known_extension(trimmed.as_slice());
    sanitize_component_chars(stripped.as_slice())
}

/// Sanitises one file-name component for Windows (see [`sanitized_component`]).
pub fn sanitize_filename_component(raw: &str) -> (res: Option<String>)
    ensures
        match res {
            Some(v) => sanitized_component(raw@) == Some(v@),
            None => sanitized_component(raw@) is None,
        },
{
    let chars = chars_of(raw);
    match sanitize_component_chars(chars.as_slice()) {
        Some(v) => Some(string_from_chars(v.as_slice())),
        None => None,
    }
}

/// Normalises a custom file name (see [`normalized_override`]).
pub fn normalize_filename_override(raw: &str) -> (res: Option<String>)
    ensures
        match res {
            Some(v) => normalized_override(raw@) == Some(v@),
            None => normalized_override(raw@) is None,
        },
{
    match normalize_override_chars(raw) {
        Some(v) => Some(string_from_chars(v.as_slice())),
        None => None,
    }
}

/// `%` doubled so the downloader treats it literally in a template.
pub open spec fn escape_template(s: Seq<char>) -> Seq<char> {
    replace_char(s, '%', "%%"@)
}

pub fn escape_output_template_literal(value: &[char]) -> (res: Vec<char>)
    ensures
        res@ == escape_template(value@),
{
    replace_char_with(value, '%', "%%")
}

/// The `-o` output template for a request.
pub open spec fn output_template(output_dir: Seq<char>, filename_override: Option<Seq<char>>) -> Seq<
    char,
> {
    let dir = escape_template(replace_char(output_dir, '\\', "/"@));
    match filename_override {
        Some(o) => match normalized_override(o) {
            Some(name) => dir + "/"@ + escape_template(name) + ".%(ext)s"@,
            None => dir + "/%(title)s [%(id)s].%(ext)s"@,
        },
        None => dir + "/%(title)s [%(id)s].%(ext)s"@,
    }
}

pub open spec fn opt_view(o: Option<String>) -> Option<Seq<char>> {
    match o {
        Some(s) => Some(s@),
        None => None,
    }
}

pub fn build_output_template(request: &DownloadRequest) -> (res: String)
    ensures
        res@ == output_template(request.output_dir@, opt_view(request.filename_override)),
{
    let dir_chars = chars_of(request.output_dir.as_str());
    let slashed = replace_char_with(dir_chars.as_slice(), '\\', "/");
    let mut out = escape_output_template_literal(slashed.as_slice());
    let normalized = match &request.filename_override {
        Some(o) => normalize_override_chars(o.as_str()),
        None => None,
    };
    match normalized {
        Some(name) => {
            extend_str(&mut out, "/");
            let escaped = escape_output_template_literal(name.as_slice());
            extend_chars(&mut out, escaped.as_slice());
            extend_str(&mut out, ".%(ext)s");
        },
        None => {
            extend_str(&mut out, "/%(title)s [%(id)s].%(ext)s");
        },
    }
    string_from_chars(out.as_slice())
}

/// A file stem made safe, or `download` when none is usable.
pub open spec fn stem_or_download(stem: Option<Seq<char>>) -> Seq<char> {
    match stem {
        Some(s) => match sanitized_component(s) {
            Some(c) => c,
            None => "download"@,
        },
        None => "download"@,
    }
}

fn stem_or_download_exec(stem: Option<&str>) -> (res: Vec<char>)
    ensures
        res@ == stem_or_download(match stem {
            Some(s) => Some(s@),
            None => None,
        }),
{
    let sanitized = match stem {
        Some(s) => {
            let chars = chars_of(s);
            sanitize_component_chars(chars.as_slice())
        },
        None => None,
    };
    match sanitized {
        Some(c) => c,
        None => chars_of("download"),
    }
}

pub open spec fn opt_str(o: Option<&str>) -> Option<Seq<char>> {
    match o {
        Some(s) => Some(s@),
        None => None,
    }
}

/// The normalised custom name of a request, if it has a usable one.
pub open spec fn override_name(filename_override: Option<Seq<char>>) -> Option<Seq<char>> {
    match filename_override {
        Some(o) => normalized_override(o),
        None => None,
    }
}

fn override_name_exec(request: &DownloadRequest) -> (res: Option<Vec<char>>)
    ensures
        match res {
            Some(v) => override_name(opt_view(request.filename_override)) == Some(v@),
            None => override_name(opt_view(request.filename_override)) is None,
        },
{
    match &request.filename_override {
        Some(o) => normalize_override_chars(o.as_str()),
        None => None,
    }
}

/// File name of the final WebM file: the custom name, else the intermediate
/// file's stem made safe, else `download`; always with `.webm`.
pub open spec fn webm_final_name(filename_override: Option<Seq<char>>, intermediate_stem: Option<Seq<char>>) -> Seq<
    char,
> {
    match override_name(filename_override) {
        Some(n) => n + ".webm"@,
        None => stem_or_download(intermediate_stem) + ".webm"@,
    }
}

/// Path of the final WebM file in the request's output folder, given the stem
/// of the intermediate file (`Path::file_stem` of it, where it has one).
pub fn build_webm_final_path(request: &DownloadRequest, intermediate_stem: Option<&str>) -> (res: String)
    ensures
        res@ == windows_join(
            request.output_dir@,
            webm_final_name(opt_view(request.filename_override), opt_str(intermediate_stem)),
        ),
{
    let mut name = match override_name_exec(request) {
        Some(n) => n,
        None => stem_or_download_exec(intermediate_stem),
    };
    extend_str(&mut name, ".webm");
    let file_name = string_from_chars(name.as_slice());
    let joined = join_windows_path(request.output_dir.as_str(), file_name.as_str());
    string_from_chars(joined.as_slice())
}

/// Path of the converted WebM file in the staging folder, named after the
/// final file's stem.
pub fn build_staged_webm_output_path(staging_dir: &str, final_stem: Option<&str>) -> (res: String)
    ensures
        res@ == windows_join(staging_dir@, stem_or_download(opt_str(final_stem)) + ".converted.webm"@),
{
    let mut name = stem_or_download_exec(final_stem);
    extend_str(&mut name, ".converted.webm");
    let file_name = string_from_chars(name.as_slice());
    let joined = join_windows_path(staging_dir, file_name.as_str());
    string_from_chars(joined.as_slice())
}

/// File name of a published download: the custom name with the staged file's
/// extension (the requested format when it has none), else the staged file's
/// own name; an error when neither exists.
pub open spec fn final_output_name(
    filename_override: Option<Seq<char>>,
    format: Seq<char>,
    staged_extension: Option<Seq<char>>,
    staged_file_name: Option<Seq<char>>,
) -> Result<Seq<char>, Seq<char>> {
    match override_name(filename_override) {
        Some(n) => {
            let ext = match staged_extension {
                Some(e) => if e.len() > 0 {
                    e
                } else {
                    format
                },
                None => format,
            };
            Ok(n + "."@ + ext)
        },
        None => match staged_file_name {
            Some(f) => Ok(f),
            None => Err("Downloaded file did not have a valid filename."@),
        },
    }
}

/// Path a staged download is published to in the request's output folder,
/// given the staged file's extension and file name (`Path::extension` and
/// `Path::file_name`).
pub fn build_final_output_path(
    request: &DownloadRequest,
    staged_extension: Option<&str>,
    staged_file_name: Option<&str>,
) -> (res: Result<String, String>)
    ensures
        match final_output_name(
            opt_view(request.filename_override),
            request.format@,
            opt_str(staged_extension),
            opt_str(staged_file_name),
        ) {
            Ok(n) => res matches Ok(p) && p@ == windows_join(request.output_dir@, n),
            Err(m) => res matches Err(e) && e@ == m,
        },
{
    let file_name: Vec<char> = match override_name_exec(request) {
        Some(n) => {
            let mut out = n;
            out.push('.');
            match staged_extension {
                Some(e) => {
                    if !e.is_empty() {
                        extend_str(&mut out, e);
                    } else {
                        extend_str(&mut out, request.format.as_str());
                    }
                },
                None => extend_str(&mut out, request.format.as_str()),
            }
            proof {
                let ghost ext = match opt_str(staged_extension) {
                    Some(e) => if e.len() > 0 {
                        e
                    } else {
                        request.format@
                    },
                    None => request.format@,
                };
                assert(out@ =~= n@ + "."@ + ext) by {
                    reveal_strlit(".");
                }
            }
            out
        },
        None => match staged_file_name {
            Some(f) => chars_of(f),
            None => {
                return Err("Downloaded file did not have a valid filename.".to_owned());
            },
        },
    };
    let name = string_from_chars(file_name.as_slice());
    let joined = join_windows_path(request.output_dir.as_str(), name.as_str());
    Ok(string_from_chars(joined.as_slice()))
}

/// File name of the `suffix`-th alternative of a path whose stem and extension
/// are given: `stem (n).ext`, or `stem (n)` without an extension.
pub open spec fn suffixed_name(stem: Option<Seq<char>>, extension: Option<Seq<char>>, suffix: nat) -> Seq<char> {
    let base = stem_or_download(stem) + " ("@ + decimal(suffix) + ")"@;
    match extension {
        Some(e) => if e.len() > 0 {
            base + "."@ + e
        } else {
            base
        },
        None => base,
    }
}

/// Decimal texts are never empty.
proof fn lemma_decimal_nonempty(n: nat)
    ensures
        decimal(n).len() >= 1,
    decreases n,
{
    if n >= 10 {
        lemma_decimal_nonempty(n / 10);
    }
}

/// Different numbers have different decimal texts.
proof fn lemma_decimal_injective(a: nat, b: nat)
    requires
        decimal(a) == decimal(b),
    ensures
        a == b,
    decreases a,
{
    if a < 10 && b < 10 {
        assert(decimal(a) =~= seq![digit_char(a)]);
        assert(decimal(b) =~= seq![digit_char(b)]);
        assert(seq![digit_char(a)][0] == digit_char(a));
        assert(seq![digit_char(b)][0] == digit_char(b));
        assert(decimal(a)[0] == decimal(b)[0]);
        assert(digit_char(a) as u32 == a + 48);
        assert(digit_char(b) as u32 == b + 48);
        assert(digit_char(a) == digit_char(b));
    } else if a < 10 {
        lemma_decimal_nonempty(b / 10);
        assert(decimal(b).len() >= 2);
    } else if b < 10 {
        lemma_decimal_nonempty(a / 10);
        assert(decimal(a).len() >= 2);
    } else {
        let da = decimal(a / 10);
        let db = decimal(b / 10);
        assert(decimal(a) == da.push(digit_char(a % 10)));
        assert(decimal(b) == db.push(digit_char(b % 10)));
        assert(decimal(a).last() == digit_char(a % 10));
        assert(decimal(b).last() == digit_char(b % 10));
        assert(digit_char(a % 10) as u32 == a % 10 + 48);
        assert(digit_char(b % 10) as u32 == b % 10 + 48);
        assert(decimal(a).drop_last() =~= da);
        assert(decimal(b).drop_last() =~= db);
        assert(digit_char(a % 10) == digit_char(b % 10));
        assert(a % 10 == b % 10);
        lemma_decimal_injective(a / 10, b / 10);
        assert(a == 10 * (a / 10) + a % 10);
        assert(b == 10 * (b / 10) + b % 10);
    }
}

/// The alternatives tried for a taken output name are all different names:
/// no two suffixes give the same file name, so trying them in turn never
/// retries a name.
pub proof fn law_alternative_names_are_distinct(
    stem: Option<Seq<char>>,
    extension: Option<Seq<char>>,
    a: nat,
    b: nat,
)
    requires
        a != b,
    ensures
        suffixed_name(stem, extension, a) != suffixed_name(stem, extension, b),
{
    let p = stem_or_download(stem) + " ("@;
    let tail = match extension {
        Some(e) => if e.len() > 0 {
            ")"@ + "."@ + e
        } else {
            ")"@
        },
        None => ")"@,
    };
    assert(suffixed_name(stem, extension, a) =~= p + decimal(a) + tail);
    assert(suffixed_name(stem, extension, b) =~= p + decimal(b) + tail);
    if suffixed_name(stem, extension, a) == suffixed_name(stem, extension, b) {
        let x = p + decimal(a) + tail;
        let y = p + decimal(b) + tail;
        assert(decimal(a).len() == decimal(b).len());
        assert(x.subrange(p.len() as int, (p.len() + decimal(a).len()) as int) =~= decimal(a));
        assert(y.subrange(p.len() as int, (p.len() + decimal(b).len()) as int) =~= decimal(b));
        lemma_decimal_injective(a, b);
    }
}

/// The path to try when `base_path` is taken: the first alternative is the
/// path itself; later ones put ` (n)` after the stem, in `directory`, which
/// is `base_path` without its file name (`base_path` itself when it has none).
pub fn suffixed_output_path(
    base_path: &str,
    directory: &str,
    stem: Option<&str>,
    extension: Option<&str>,
    suffix: usize,
) -> (res: String)
    ensures
        suffix <= 1 ==> res@ == base_path@,
        suffix > 1 ==> res@ == windows_join(
            directory@,
            suffixed_name(opt_str(stem), opt_str(extension), suffix as nat),
        ),
{
    if suffix <= 1 {
        return base_path.to_owned();
    }
    let mut name = stem_or_download_exec(stem);
    extend_str(&mut name, " (");
    let n = u64_to_string(suffix as u64);
    extend_str(&mut name, n.as_str());
    extend_str(&mut name, ")");
    let ghost base = name@;
    match extension {
        Some(e) => {
            if !e.is_empty() {
                extend_str(&mut name, ".");
                extend_str(&mut name, e);
                assert(name@ =~= base + "."@ + e@);
            }
        },
        None => {},
    }
    assert(name@ =~= suffixed_name(opt_str(stem), opt_str(extension), suffix as nat));
    let file_name = string_from_chars(name.as_slice());
    let joined = join_windows_path(directory, file_name.as_str());
    string_from_chars(joined.as_slice())
}

/// An output folder as it is shown to the user: a Windows verbatim prefix is
/// hidden for drive paths (`\\?\C:\x` is shown as `C:\x`) and UNC paths
/// (`\\?\UNC\server\share` as `\\server\share`); other verbatim paths, such
/// as volume GUID paths, are shown as they are.
pub open spec fn displayed_output_directory(path: Seq<char>) -> Seq<char> {
    let verbatim = path.len() >= 4 && path[0] == '\\' && path[1] == '\\' && path[2] == '?' && path[3] == '\\';
    if verbatim && path.len() >= 8 && path[4] == 'U' && path[5] == 'N' && path[6] == 'C' && path[7] == '\\' {
        seq!['\\', '\\'] + path.skip(8)
    } else if verbatim && path.len() >= 6 && (('a' <= path[4] <= 'z') || ('A' <= path[4] <= 'Z'))
        && path[5] == ':' {
        path.skip(4)
    } else {
        path
    }
}

pub fn display_output_directory(path: &str) -> (shown: String)
    ensures
        shown@ == displayed_output_directory(path@),
{
    let c = chars_of(path);
    let n = c.len();
    let verbatim = n >= 4 && c[0] == '\\' && c[1] == '\\' && c[2] == '?' && c[3] == '\\';
    if verbatim && n >= 8 && c[4] == 'U' && c[5] == 'N' && c[6] == 'C' && c[7] == '\\' {
        let mut out: Vec<char> = Vec::new();
        out.push('\\');
        out.push('\\');
        let rest = slice_range(c.as_slice(), 8, n);
        extend_chars(&mut out, rest.as_slice());
        proof {
            assert(out@ =~= seq!['\\', '\\'] + path@.skip(8));
        }
        return string_from_chars(out.as_slice());
    }
    if verbatim && n >= 6 && (('a' <= c[4] && c[4] <= 'z') || ('A' <= c[4] && c[4] <= 'Z')) && c[5] == ':' {
        let rest = slice_range(c.as_slice(), 4, n);
        proof {
            assert(rest@ =~= path@.skip(4));
        }
        return string_from_chars(rest.as_slice());
    }
    path.to_owned()
}

/// The media extensions a custom file name may carry: the eight output
/// formats, in lower case.
pub open spec fn media_extension(e: Seq<char>) -> bool {
    ||| e == "mp4"@
    ||| e == "mkv"@
    ||| e == "webm"@
    ||| e == "mp3"@
    ||| e == "flac"@
    ||| e == "wav"@
    ||| e == "aac"@
    ||| e == "opus"@
}

proof fn lemma_media_extension_shape(e: Seq<char>)
    requires
        media_extension(e),
    ensures
        3 <= e.len() <= 4,
        forall|i: int| 0 <= i < e.len() ==> (#[trigger] e[i]) != '.',
        ('a' <= e.last() && e.last() <= 'z') || ('0' <= e.last() && e.last() <= '9'),
        exists|m: int| 0 <= m < 8 && override_extensions()[m] == e,
{
    reveal_strlit("mp4");
    reveal_strlit("mkv");
    reveal_strlit("webm");
    reveal_strlit("mp3");
    reveal_strlit("flac");
    reveal_strlit("wav");
    reveal_strlit("aac");
    reveal_strlit("opus");
    let x = override_extensions();
    if e == "mp4"@ {
        assert(x[0] == e);
    } else if e == "mkv"@ {
        assert(x[1] == e);
    } else if e == "webm"@ {
        assert(x[2] == e);
    } else if e == "mp3"@ {
        assert(x[3] == e);
    } else if e == "flac"@ {
        assert(x[4] == e);
    } else if e == "wav"@ {
        assert(x[5] == e);
    } else if e == "aac"@ {
        assert(x[6] == e);
    } else {
        assert(x[7] == e);
    }
}

proof fn lemma_listed_extensions_are_media_extensions(j: int)
    requires
        0 <= j < 8,
    ensures
        media_extension(override_extensions()[j]),
{
}

proof fn lemma_other_extension_does_not_end(l: Seq<char>, e: Seq<char>, f: Seq<char>)
    requires
        media_extension(e),
        media_extension(f),
        e != f,
    ensures
        !ends_with(l + seq!['.'] + e, seq!['.'] + f),
{
    lemma_media_extension_shape(e);
    lemma_media_extension_shape(f);
    let s = l + seq!['.'] + e;
    let d = seq!['.'] + f;
    if ends_with(s, d) {
        let tail = s.skip(s.len() - d.len());
        assert(tail == d);
        if f.len() == e.len() {
            assert(tail =~= seq!['.'] + e);
            assert(f =~= d.drop_first());
            assert(e =~= tail.drop_first());
        } else if f.len() == e.len() + 1 {
            assert(tail[1] == s[s.len() - e.len() - 1]);
            assert(s[s.len() - e.len() - 1] == '.');
            assert(d[1] == f[0]);
        } else {
            assert(tail[0] == s[s.len() - e.len()]);
            assert(s[s.len() - e.len()] == e[0]);
            assert(d[0] == '.');
        }
    }
}

/// The first index from `j` on at which the extension list holds `e`.
spec fn first_extension_index(e: Seq<char>, j: nat) -> nat
    decreases 8 - j,
{
    if j >= 8 {
        8
    } else if override_extensions()[j as int] == e {
        j
    } else {
        first_extension_index(e, j + 1)
    }
}

proof fn lemma_first_extension_index(e: Seq<char>, j: nat, m: int)
    requires
        j <= m < 8,
        override_extensions()[m] == e,
    ensures
        first_extension_index(e, j) < 8,
        override_extensions()[first_extension_index(e, j) as int] == e,
        forall|k: int| j <= k < first_extension_index(e, j) ==> override_extensions()[k] != e,
    decreases 8 - j,
{
    if override_extensions()[j as int] != e {
        lemma_first_extension_index(e, j + 1, m);
    }
}

proof fn lemma_strip_skips(v: Seq<char>, i: nat, k: nat)
    requires
        i <= k <= 8,
        forall|j: int|
            i <= j < k ==> !ends_with(ascii_lower(v), seq!['.'] + #[trigger] override_extensions()[j]),
    ensures
        strip_known_extension_from(v, i) == strip_known_extension_from(v, k),
    decreases k - i,
{
    if i < k {
        assert(!ends_with(ascii_lower(v), seq!['.'] + override_extensions()[i as int]));
        lemma_strip_skips(v, i + 1, k);
    }
}

proof fn lemma_trim_start_concat(a: Seq<char>, b: Seq<char>, p: spec_fn(char) -> bool)
    requires
        b.len() > 0,
        !p(b[0]),
    ensures
        trim_start_by(a + b, p) == trim_start_by(a, p) + b,
    decreases a.len(),
{
    if a.len() == 0 {
        assert(a + b =~= b);
    } else {
        assert((a + b)[0] == a[0]);
        if p(a[0]) {
            assert((a + b).drop_first() =~= a.drop_first() + b);
            lemma_trim_start_concat(a.drop_first(), b, p);
        }
    }
}

proof fn lemma_trims_settle(n: Seq<char>, p: spec_fn(char) -> bool)
    ensures
        trim_start_by(trim_start_by(n, p), p) == trim_start_by(n, p),
        trim_end_by(trim_start_by(trim_end_by(trim_start_by(n, p), p), p), p) == trim_end_by(
            trim_start_by(n, p),
            p,
        ),
{
    let t = trim_start_by(n, p);
    lemma_trim_start_is_suffix(n, p);
    let e = trim_end_by(t, p);
    lemma_trim_end_is_prefix(t, p);
    if e.len() > 0 {
        assert(e[0] == t[0]);
    }
    assert(trim_start_by(e, p) == e);
    lemma_trim_end_is_prefix(e, p);
    if e.len() > 0 {
        assert(!p(e.last()));
    }
    assert(trim_end_by(e, p) == e);
}

/// A custom file name that ends with a media extension (in any ASCII case)
/// names the same file as the name without it: the extension is dropped, so
/// that the downloader adds the real one only once; a name without such an
/// extension is only sanitised. This holds for every name whose trimmed form
/// does not itself end with such an extension.
pub proof fn law_known_media_extension_is_dropped(n: Seq<char>, x: Seq<char>)
    requires
        media_extension(ascii_lower(x)),
        forall|e: Seq<char>| #[trigger] media_extension(e) ==> !ends_with(ascii_lower(trim(n)), seq!['.'] + e),
    ensures
        normalized_override(n + seq!['.'] + x) == normalized_override(n),
        normalized_override(n) == sanitized_component(n),
{
    let p = |c: char| is_unicode_whitespace(c);
    let e = ascii_lower(x);
    lemma_media_extension_shape(e);
    let b = seq!['.'] + x;
    let v = n + seq!['.'] + x;
    assert(v =~= n + b);
    // The text ends with a character of the extension, which is no whitespace.
    assert(x.len() == e.len());
    assert(e.last() == ascii_lower_char(x.last()));
    assert(!is_unicode_whitespace(x.last()));
    lemma_trim_start_concat(n, b, p);
    let t = trim_start_by(n, p);
    assert((t + b).last() == x.last());
    assert(trim_end_by(t + b, p) == t + b);
    assert(trim(v) == t + b);
    // Dropping the extension leaves the trimmed start of the name.
    let l = ascii_lower(t + b);
    assert(l =~= ascii_lower(t) + seq!['.'] + e);
    let m0 = choose|m: int| 0 <= m < 8 && override_extensions()[m] == e;
    lemma_first_extension_index(e, 0, m0);
    let m = first_extension_index(e, 0) as int;
    assert forall|j: int| 0 <= j < m implies !ends_with(l, seq!['.'] + #[trigger] override_extensions()[j]) by {
        lemma_listed_extensions_are_media_extensions(j);
        lemma_other_extension_does_not_end(ascii_lower(t), e, override_extensions()[j]);
    }
    lemma_strip_skips(t + b, 0, m as nat);
    assert(l.skip(l.len() - (e.len() + 1)) =~= seq!['.'] + e);
    assert((t + b).take((t + b).len() - e.len() - 1) =~= t);
    assert(strip_known_extension_from(t + b, 0) == t);
    // The name itself ends in no extension, so nothing is dropped from it.
    assert forall|j: int| 0 <= j < 8 implies !ends_with(
        ascii_lower(trim(n)),
        seq!['.'] + #[trigger] override_extensions()[j],
    ) by {
        lemma_listed_extensions_are_media_extensions(j);
    }
    lemma_strip_skips(trim(n), 0, 8);
    assert(strip_known_extension_from(trim(n), 0) == trim(n));
    // Sanitising trims first, and both texts trim to the same name.
    lemma_trims_settle(n, p);
    assert(trim(t) == trim(n));
    assert(trim(trim(n)) == trim(n));
    assert(sanitized_component(trim(n)) == sanitized_component(n));
}

} // verus!
