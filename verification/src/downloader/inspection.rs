//! What an inspection of a URL found, read from the downloader's metadata:
//! one video with its qualities, or the entries of a playlist with the URL or
//! the verified selection that replays each of them.
use crate::downloader::validation::{
    allowed_download_url, is_allowed_download_url, parse_url_parts, parsed_url,
};
use crate::models::{selection_error, selection_fields_error, MediaSelection};
use crate::text::{
    ascii_lower, chars_of, concat2, contains, contains_str, decimal, owned, str_eq, to_ascii_lower,
    trim, trimmed_whitespace, u64_to_string,
};
use vstd::prelude::*;

verus! {

/// Largest metadata document accepted from the downloader.
pub const MAX_INSPECTION_OUTPUT_BYTES: usize = 8388608;

/// Most playlist records read from one document.
pub const MAX_PLAYLIST_ENTRIES: usize = 1000;

/// The fields of a metadata object that describe one video.
#[derive(Debug, Clone, PartialEq, Eq)]
pub struct VideoDocument {
    /// Whether the value is a JSON object at all.
    pub is_object: bool,
    /// `_type`, when it is a string.
    pub kind: Option<String>,
    pub id: Option<String>,
    pub extractor_key: Option<String>,
    pub title: Option<String>,
    pub channel: Option<String>,
    pub thumbnail: Option<String>,
    pub acodec: Option<String>,
    /// The `height` of each format that gives one as an unsigned integer, in order.
    pub format_heights: Vec<u64>,
}

/// A flat playlist record.
#[derive(Debug, Clone, PartialEq, Eq)]
pub struct EntryRecord {
    pub kind: Option<String>,
    pub id: Option<String>,
    pub title: Option<String>,
    pub url: Option<String>,
    pub webpage_url: Option<String>,
    pub original_url: Option<String>,
    pub extractor_key: Option<String>,
    pub ie_key: Option<String>,
    pub playlist_index: Option<u32>,
    pub thumbnail: Option<String>,
    /// The `url` of each listed thumbnail, when the record lists them.
    pub thumbnails: Option<Vec<Option<String>>>,
    /// Whether the record carries a `formats` array.
    pub has_formats: bool,
}

/// One element of a playlist's `entries`.
#[derive(Debug, Clone, PartialEq, Eq)]
pub enum PlaylistSlot {
    Null,
    Record(EntryRecord),
    /// A record that could not be read, with the reason.
    Malformed(String),
}

/// One element of `entries`, read both as a video and as a playlist record.
#[derive(Debug, Clone, PartialEq, Eq)]
pub struct InspectionEntry {
    pub video: VideoDocument,
    pub slot: PlaylistSlot,
}

/// The metadata document of an inspection.
#[derive(Debug, Clone, PartialEq, Eq)]
pub struct InspectionDocument {
    pub root: VideoDocument,
    pub webpage_url: Option<String>,
    pub uploader: Option<String>,
    /// `entries`, when it is an array.
    pub entries: Option<Vec<InspectionEntry>>,
}

/// A video found by an inspection. `from_entry` tells which element of
/// `entries` it came from, when it did not come from the document itself.
#[derive(Debug, Clone, PartialEq, Eq)]
pub struct InspectedVideo {
    pub id: String,
    pub title: String,
    pub channel: Option<String>,
    pub thumbnail: Option<String>,
    pub url: String,
    pub available_qualities: Vec<String>,
    pub has_audio: bool,
    pub selection: Option<MediaSelection>,
    pub from_entry: Option<usize>,
}

/// A playlist entry found by an inspection, with the index of its record.
#[derive(Debug, Clone, PartialEq, Eq)]
pub struct InspectedEntry {
    pub source_index: usize,
    pub id: String,
    pub title: Option<String>,
    pub url: String,
    pub thumbnail: Option<String>,
    pub selection: Option<MediaSelection>,
}

#[derive(Debug, Clone, PartialEq, Eq)]
pub struct InspectedPlaylist {
    pub title: String,
    pub channel: Option<String>,
    pub entry_count: usize,
    pub truncated: bool,
    pub entries: Vec<InspectedEntry>,
}

#[derive(Debug, Clone, PartialEq, Eq)]
pub enum Inspection {
    Video(InspectedVideo),
    Playlist(InspectedPlaylist),
}

pub open spec fn ov(o: Option<String>) -> Option<Seq<char>> {
    match o {
        Some(s) => Some(s@),
        None => None,
    }
}

fn clone_opt(o: &Option<String>) -> (r: Option<String>)
    ensures
        ov(r) == ov(*o),
{
    match o {
        Some(s) => Some(s.clone()),
        None => None,
    }
}

fn opt_is(o: &Option<String>, text: &str) -> (b: bool)
    ensures
        b == (ov(*o) == Some(text@)),
{
    match o {
        Some(s) => str_eq(s.as_str(), text),
        None => false,
    }
}

/// Playlist and multi-video documents list entries.
pub open spec fn is_playlist_kind(kind: Option<Seq<char>>) -> bool {
    kind == Some("playlist"@) || kind == Some("multi_video"@)
}

fn is_playlist(doc: &VideoDocument) -> (b: bool)
    ensures
        b == is_playlist_kind(ov(doc.kind)),
{
    opt_is(&doc.kind, "playlist") || opt_is(&doc.kind, "multi_video")
}

/// A thumbnail URL is kept only when it parses as an `https` URL.
pub open spec fn https_thumbnail(raw: Option<Seq<char>>) -> Option<Seq<char>> {
    match raw {
        Some(v) => match parsed_url(v) {
            Some((scheme, _, _)) => if scheme == "https"@ {
                Some(v)
            } else {
                None
            },
            None => None,
        },
        None => None,
    }
}

fn thumbnail(raw: Option<&str>) -> (t: Option<String>)
    ensures
        ov(t) == https_thumbnail(match raw {
            Some(s) => Some(s@),
            None => None,
        }),
{
    match raw {
        Some(v) => match parse_url_parts(v) {
            Some((scheme, _, _)) => {
                if str_eq(scheme.as_str(), "https") {
                    Some(owned(v))
                } else {
                    None
                }
            },
            None => None,
        },
        None => None,
    }
}

/// Two URLs are the same when both parse to the same URL, or, when one does
/// not parse, when their texts are equal.
pub open spec fn same_url(left: Seq<char>, right: Seq<char>) -> bool {
    match (parsed_url(left), parsed_url(right)) {
        (Some((_, _, a)), Some((_, _, b))) => a == b,
        _ => left == right,
    }
}

fn same_url_exec(left: &str, right: &str) -> (b: bool)
    ensures
        b == same_url(left@, right@),
{
    match (parse_url_parts(left), parse_url_parts(right)) {
        (Some((_, _, a)), Some((_, _, b))) => str_eq(a.as_str(), b.as_str()),
        _ => str_eq(left, right),
    }
}

pub open spec fn opt_or(o: Option<Seq<char>>, d: Seq<char>) -> Seq<char> {
    match o {
        Some(s) => s,
        None => d,
    }
}

/// The distinct positive heights of `heights`, highest first.
pub open spec fn descending_heights(r: Seq<u64>, heights: Seq<u64>) -> bool {
    &&& forall|i: int, j: int| 0 <= i < j < r.len() ==> r[i] > r[j]
    &&& forall|i: int| 0 <= i < r.len() ==> r[i] > 0 && heights.contains(r[i])
    &&& forall|k: int| 0 <= k < heights.len() && heights[k] > 0 ==> r.contains(heights[k])
}

/// The quality name of a height: `720p` for 720.
pub open spec fn quality_name(h: u64) -> Seq<char> {
    decimal(h as nat) + "p"@
}

/// Why a metadata object cannot be used as the (selected) video, if it cannot.
pub open spec fn video_error(doc: VideoDocument, selection: Option<MediaSelection>) -> Option<Seq<char>> {
    let kind = ov(doc.kind);
    if !doc.is_object || is_playlist_kind(kind) || kind == Some("url"@) || kind == Some("url_transparent"@) {
        Some("The selected entry did not resolve to a single video."@)
    } else {
        match selection {
            Some(s) => if ov(doc.id) != Some(s.entry_id@) || ov(doc.extractor_key) != Some(
                s.extractor_key@,
            ) {
                Some("The selected playlist entry changed. Inspect the URL again before adding it."@)
            } else {
                None
            },
            None => None,
        }
    }
}

/// The video read from a usable metadata object.
pub open spec fn video_from(
    url: Seq<char>,
    doc: VideoDocument,
    selection: Option<MediaSelection>,
    from_entry: Option<usize>,
    v: InspectedVideo,
) -> bool {
    &&& v.id@ == opt_or(ov(doc.id), "unknown"@)
    &&& v.title@ == opt_or(ov(doc.title), "Unknown Title"@)
    &&& ov(v.channel) == ov(doc.channel)
    &&& ov(v.thumbnail) == https_thumbnail(ov(doc.thumbnail))
    &&& v.url@ == url
    &&& exists|hs: Seq<u64>|
        descending_heights(hs, doc.format_heights@) && v.available_qualities@.len() == hs.len() && forall|
            i: int,
        |
            0 <= i < hs.len() ==> (#[trigger] v.available_qualities@[i])@ == quality_name(hs[i])
    &&& v.has_audio == match ov(doc.acodec) {
        Some(c) => c != "none"@,
        None => true,
    }
    &&& v.selection == selection
    &&& v.from_entry == from_entry
}

fn highest_below(heights: &Vec<u64>, bound: Option<u64>) -> (r: Option<u64>)
    ensures
        match r {
            Some(h) => h > 0 && heights@.contains(h) && (bound matches Some(b) ==> h < b) && forall|k: int|
                0 <= k < heights@.len() && heights@[k] > 0 && (bound matches Some(b) ==> heights@[k] < b)
                    ==> heights@[k] <= h,
            None => forall|k: int|
                0 <= k < heights@.len() && heights@[k] > 0 ==> (bound matches Some(b) && heights@[k] >= b),
        },
{
    let mut best: Option<u64> = None;
    let mut i: usize = 0;
    while i < heights.len()
        invariant
            i <= heights@.len(),
            match best {
                Some(h) => h > 0 && heights@.contains(h) && (bound matches Some(b) ==> h < b) && forall|
                    k: int,
                |
                    0 <= k < i && heights@[k] > 0 && (bound matches Some(b) ==> heights@[k] < b) ==> heights@[k]
                        <= h,
                None => forall|k: int|
                    0 <= k < i && heights@[k] > 0 ==> (bound matches Some(b) && heights@[k] >= b),
            },
        decreases heights@.len() - i,
    {
        let h = heights[i];
        let below = match bound {
            Some(b) => h < b,
            None => true,
        };
        if h > 0 && below {
            let better = match best {
                Some(x) => h > x,
                None => true,
            };
            if better {
                best = Some(h);
                proof {
                    assert(heights@[i as int] == h);
                }
            }
        }
        i += 1;
    }
    best
}

/// The distinct positive heights, highest first.
fn sorted_heights(heights: &Vec<u64>) -> (r: Vec<u64>)
    ensures
        descending_heights(r@, heights@),
{
    let mut r: Vec<u64> = Vec::new();
    let mut bound: Option<u64> = None;
    loop
        invariant
            forall|i: int, j: int| 0 <= i < j < r@.len() ==> r@[i] > r@[j],
            forall|i: int| 0 <= i < r@.len() ==> r@[i] > 0 && heights@.contains(r@[i]),
            r@.len() == 0 <==> bound is None,
            bound matches Some(b) ==> r@.len() > 0 && b == r@.last(),
            forall|k: int|
                0 <= k < heights@.len() && heights@[k] > 0 && (bound matches Some(b) && heights@[k] >= b)
                    ==> r@.contains(heights@[k]),
        ensures
            descending_heights(r@, heights@),
        decreases (match bound {
            Some(b) => b as int,
            None => u64::MAX as int + 1,
        }),
    {
        match highest_below(heights, bound) {
            Some(h) => {
                let ghost before = r@;
                r.push(h);
                proof {
                    assert forall|k: int|
                        0 <= k < heights@.len() && heights@[k] > 0 && heights@[k] >= h implies r@.contains(
                        heights@[k],
                    ) by {
                        if heights@[k] == h {
                            assert(r@[r@.len() - 1] == h);
                        } else {
                            assert(heights@[k] > h);
                            if bound is None {
                                assert(heights@[k] <= h);
                            }
                            assert(before.contains(heights@[k]));
                            let q = choose|q: int| 0 <= q < before.len() && before[q] == heights@[k];
                            assert(r@[q] == heights@[k]);
                        }
                    }
                }
                bound = Some(h);
            },
            None => {
                proof {
                    assert forall|k: int| 0 <= k < heights@.len() && heights@[k] > 0 implies r@.contains(
                        heights@[k],
                    ) by {}
                }
                break;
            },
        }
    }
    r
}

fn quality_names(hs: &Vec<u64>) -> (q: Vec<String>)
    ensures
        q@.len() == hs@.len(),
        forall|i: int| 0 <= i < hs@.len() ==> (#[trigger] q@[i])@ == quality_name(hs@[i]),
{
    let mut q: Vec<String> = Vec::new();
    let mut i: usize = 0;
    while i < hs.len()
        invariant
            i <= hs@.len(),
            q@.len() == i,
            forall|j: int| 0 <= j < i ==> (#[trigger] q@[j])@ == quality_name(hs@[j]),
        decreases hs@.len() - i,
    {
        let n = u64_to_string(hs[i]);
        q.push(concat2(n.as_str(), "p"));
        i += 1;
    }
    q
}

fn or_default(o: &Option<String>, d: &str) -> (s: String)
    ensures
        s@ == opt_or(ov(*o), d@),
{
    match o {
        Some(x) => x.clone(),
        None => owned(d),
    }
}

fn clone_selection(s: &MediaSelection) -> (r: MediaSelection)
    ensures
        r.entry_id@ == s.entry_id@,
        r.extractor_key@ == s.extractor_key@,
        r.playlist_index == s.playlist_index,
{
    MediaSelection {
        entry_id: s.entry_id.clone(),
        extractor_key: s.extractor_key.clone(),
        playlist_index: s.playlist_index,
    }
}

pub open spec fn same_selection(a: Option<MediaSelection>, b: Option<MediaSelection>) -> bool {
    match (a, b) {
        (Some(x), Some(y)) => x.entry_id@ == y.entry_id@ && x.extractor_key@ == y.extractor_key@
            && x.playlist_index == y.playlist_index,
        (None, None) => true,
        _ => false,
    }
}

/// Reads one video from a metadata object, checking it against the selection
/// that asked for it.
pub fn video_info(url: &str, doc: &VideoDocument, selection: Option<&MediaSelection>, from_entry: Option<
    usize,
>) -> (res: Result<InspectedVideo, String>)
    ensures
        match video_error(
            *doc,
            match selection {
                Some(s) => Some(*s),
                None => None,
            },
        ) {
            Some(m) => res matches Err(e) && e@ == m,
            None => res matches Ok(v) && video_from(url@, *doc, None, from_entry, InspectedVideo { selection: None, ..v })
                && same_selection(
                v.selection,
                match selection {
                    Some(s) => Some(*s),
                    None => None,
                },
            ),
        },
{
    if !doc.is_object || is_playlist(doc) || opt_is(&doc.kind, "url") || opt_is(&doc.kind, "url_transparent") {
        return Err(owned("The selected entry did not resolve to a single video."));
    }
    match selection {
        Some(s) => {
            let same_id = match &doc.id {
                Some(i) => str_eq(i.as_str(), s.entry_id.as_str()),
                None => false,
            };
            let same_key = match &doc.extractor_key {
                Some(k) => str_eq(k.as_str(), s.extractor_key.as_str()),
                None => false,
            };
            if !same_id || !same_key {
                return Err(owned("The selected playlist entry changed. Inspect the URL again before adding it."));
            }
        },
        None => {},
    }
    let hs = sorted_heights(&doc.format_heights);
    let qualities = quality_names(&hs);
    let has_audio = match &doc.acodec {
        Some(c) => !str_eq(c.as_str(), "none"),
        None => true,
    };
    let thumb = match &doc.thumbnail {
        Some(t) => thumbnail(Some(t.as_str())),
        None => thumbnail(None),
    };
    let v = InspectedVideo {
        id: or_default(&doc.id, "unknown"),
        title: or_default(&doc.title, "Unknown Title"),
        channel: clone_opt(&doc.channel),
        thumbnail: thumb,
        url: owned(url),
        available_qualities: qualities,
        has_audio,
        selection: match selection {
            Some(s) => Some(clone_selection(s)),
            None => None,
        },
        from_entry,
    };
    proof {
        let w = InspectedVideo { selection: None, ..v };
        assert(descending_heights(hs@, doc.format_heights@));
        assert(w.available_qualities@.len() == hs@.len());
    }
    Ok(v)
}

/// The last listed thumbnail URL, if any is listed.
pub open spec fn last_listed_url(list: Seq<Option<String>>) -> Option<Seq<char>>
    decreases list.len(),
{
    if list.len() == 0 {
        None
    } else {
        match list.last() {
            Some(u) => Some(u@),
            None => last_listed_url(list.drop_last()),
        }
    }
}

/// The thumbnail candidate of a record: the last listed one, else its own.
pub open spec fn entry_thumbnail_raw(r: EntryRecord) -> Option<Seq<char>> {
    match r.thumbnails {
        Some(list) => match last_listed_url(list@) {
            Some(u) => Some(u),
            None => ov(r.thumbnail),
        },
        None => ov(r.thumbnail),
    }
}

/// A record's id, unless it is blank.
pub open spec fn entry_id(r: EntryRecord) -> Option<Seq<char>> {
    match ov(r.id) {
        Some(i) => if trim(i).len() > 0 {
            Some(i)
        } else {
            None
        },
        None => None,
    }
}

pub open spec fn entry_extractor(r: EntryRecord) -> Option<Seq<char>> {
    match ov(r.extractor_key) {
        Some(k) => Some(k),
        None => ov(r.ie_key),
    }
}

pub open spec fn allowed_opt(o: Option<Seq<char>>) -> Option<Seq<char>> {
    match o {
        Some(v) => if allowed_download_url(v) {
            Some(v)
        } else {
            None
        },
        None => None,
    }
}

/// The record's page: its webpage URL, else its original URL, when allowed.
pub open spec fn entry_webpage(r: EntryRecord) -> Option<Seq<char>> {
    match allowed_opt(ov(r.webpage_url)) {
        Some(w) => Some(w),
        None => allowed_opt(ov(r.original_url)),
    }
}

/// The record already resolved to a video: it says so, or it is untyped and
/// carries formats.
pub open spec fn resolved_video(r: EntryRecord) -> bool {
    ov(r.kind) == Some("video"@) || (r.kind is None && r.has_formats)
}

/// An embedded video that shares the playlist's page can only be replayed
/// through the playlist with a verified selection.
pub open spec fn needs_selection(r: EntryRecord, parent: Seq<char>) -> bool {
    resolved_video(r) && match entry_webpage(r) {
        None => true,
        Some(w) => same_url(w, parent),
    }
}

pub open spec fn is_youtube(extractor: Option<Seq<char>>) -> bool {
    match extractor {
        Some(k) => contains(ascii_lower(k), "youtube"@),
        None => false,
    }
}

/// The URL that replays a record on its own: its page when that differs from
/// the playlist, else its allowed URL when that differs, else a YouTube watch
/// URL built from its id.
pub open spec fn entry_url(r: EntryRecord, parent: Seq<char>) -> Option<Seq<char>> {
    let page = entry_webpage(r);
    if page is Some && !same_url(page->0, parent) {
        page
    } else if ov(r.url) is Some && allowed_download_url(ov(r.url)->0) && !same_url(ov(r.url)->0, parent) {
        ov(r.url)
    } else if is_youtube(entry_extractor(r)) && entry_id(r) is Some {
        Some("https://www.youtube.com/watch?v="@ + entry_id(r)->0)
    } else {
        None
    }
}

/// A playlist entry as a value.
pub struct EntryOut {
    pub id: Seq<char>,
    pub title: Option<Seq<char>>,
    pub url: Seq<char>,
    pub thumbnail: Option<Seq<char>>,
    pub selection: Option<(Seq<char>, Seq<char>, u32)>,
}

/// What a playlist record yields: an entry, nothing (no way to replay it), or
/// an error for an embedded video whose selection cannot be verified.
pub open spec fn entry_result(r: EntryRecord, parent: Seq<char>) -> Result<Option<EntryOut>, Seq<char>> {
    let thumb = https_thumbnail(entry_thumbnail_raw(r));
    let id = entry_id(r);
    if needs_selection(r, parent) {
        if id is None {
            Err("An embedded playlist video has no media identity."@)
        } else if entry_extractor(r) is None {
            Err("An embedded playlist video has no extractor identity."@)
        } else if r.playlist_index is None {
            Err("An embedded playlist video has no selection index."@)
        } else {
            match selection_fields_error(id->0, entry_extractor(r)->0, r.playlist_index->0) {
                Some(e) => Err(e),
                None => Ok(
                    Some(
                        EntryOut {
                            id: id->0,
                            title: ov(r.title),
                            url: parent,
                            thumbnail: thumb,
                            selection: Some((id->0, entry_extractor(r)->0, r.playlist_index->0)),
                        },
                    ),
                ),
            }
        }
    } else {
        match entry_url(r, parent) {
            None => Ok(None),
            Some(u) => Ok(
                Some(
                    EntryOut { id: opt_or(id, u), title: ov(r.title), url: u, thumbnail: thumb, selection: None },
                ),
            ),
        }
    }
}

pub open spec fn selection_model(s: Option<MediaSelection>) -> Option<(Seq<char>, Seq<char>, u32)> {
    match s {
        Some(x) => Some((x.entry_id@, x.extractor_key@, x.playlist_index)),
        None => None,
    }
}

pub open spec fn entry_view(e: InspectedEntry) -> EntryOut {
    EntryOut {
        id: e.id@,
        title: ov(e.title),
        url: e.url@,
        thumbnail: ov(e.thumbnail),
        selection: selection_model(e.selection),
    }
}

fn last_listed(list: &Vec<Option<String>>) -> (u: Option<String>)
    ensures
        ov(u) == last_listed_url(list@),
{
    let mut i: usize = list.len();
    proof {
        assert(list@.take(i as int) =~= list@);
    }
    while i > 0
        invariant
            i <= list@.len(),
            last_listed_url(list@) == last_listed_url(list@.take(i as int)),
        decreases i,
    {
        proof {
            assert(list@.take(i as int).drop_last() =~= list@.take(i - 1));
            assert(list@.take(i as int).last() == list@[i - 1]);
        }
        match &list[i - 1] {
            Some(u) => {
                return Some(u.clone());
            },
            None => {},
        }
        i -= 1;
    }
    proof {
        assert(list@.take(0) =~= Seq::<Option<String>>::empty());
    }
    None
}

fn allowed_clone(o: &Option<String>) -> (r: Option<String>)
    ensures
        ov(r) == allowed_opt(ov(*o)),
{
    match o {
        Some(v) => {
            if is_allowed_download_url(v.as_str()) {
                Some(v.clone())
            } else {
                None
            }
        },
        None => None,
    }
}

/// Reads one playlist record, with `parent_url` the playlist's own page and
/// `source_index` the record's place in the document.
pub fn entry_from_record(record: &EntryRecord, parent_url: &str, source_index: usize) -> (res: Result<
    Option<InspectedEntry>,
    String,
>)
    ensures
        match entry_result(*record, parent_url@) {
            Err(m) => res matches Err(e) && e@ == m,
            Ok(None) => res matches Ok(None),
            Ok(Some(out)) => res matches Ok(Some(e)) && entry_view(e) == out && e.source_index == source_index,
        },
{
    let raw = match &record.thumbnails {
        Some(list) => match last_listed(list) {
            Some(u) => Some(u),
            None => clone_opt(&record.thumbnail),
        },
        None => clone_opt(&record.thumbnail),
    };
    let thumb = match &raw {
        Some(t) => thumbnail(Some(t.as_str())),
        None => thumbnail(None),
    };
    let id: Option<String> = match &record.id {
        Some(i) => {
            let chars = chars_of(i.as_str());
            let t = trimmed_whitespace(chars.as_slice());
            if t.len() > 0 {
                Some(i.clone())
            } else {
                None
            }
        },
        None => None,
    };
    let extractor: Option<String> = match &record.extractor_key {
        Some(k) => Some(k.clone()),
        None => clone_opt(&record.ie_key),
    };
    let webpage: Option<String> = match allowed_clone(&record.webpage_url) {
        Some(w) => Some(w),
        None => allowed_clone(&record.original_url),
    };
    let resolved = opt_is(&record.kind, "video") || (record.kind.is_none() && record.has_formats);
    let needs = resolved && match &webpage {
        None => true,
        Some(w) => same_url_exec(w.as_str(), parent_url),
    };
    if needs {
        let entry_id = match id {
            Some(i) => i,
            None => {
                return Err(owned("An embedded playlist video has no media identity."));
            },
        };
        let key = match extractor {
            Some(k) => k,
            None => {
                return Err(owned("An embedded playlist video has no extractor identity."));
            },
        };
        let index = match record.playlist_index {
            Some(n) => n,
            None => {
                return Err(owned("An embedded playlist video has no selection index."));
            },
        };
        let selection = MediaSelection { entry_id: entry_id.clone(), extractor_key: key, playlist_index: index };
        match selection.validate() {
            Err(e) => {
                return Err(e);
            },
            Ok(()) => {},
        }
        return Ok(
            Some(
                InspectedEntry {
                    source_index,
                    id: entry_id,
                    title: clone_opt(&record.title),
                    url: owned(parent_url),
                    thumbnail: thumb,
                    selection: Some(selection),
                },
            ),
        );
    }
    let from_page = match &webpage {
        Some(w) => {
            if !same_url_exec(w.as_str(), parent_url) {
                Some(w.clone())
            } else {
                None
            }
        },
        None => None,
    };
    let url: Option<String> = match from_page {
        Some(w) => Some(w),
        None => {
            let from_url = match &record.url {
                Some(u) => {
                    if is_allowed_download_url(u.as_str()) && !same_url_exec(u.as_str(), parent_url) {
                        Some(u.clone())
                    } else {
                        None
                    }
                },
                None => None,
            };
            match from_url {
                Some(u) => Some(u),
                None => {
                    let youtube = match &extractor {
                        Some(k) => {
                            let chars = chars_of(k.as_str());
                            let lower = to_ascii_lower(chars.as_slice());
                            contains_str(lower.as_slice(), "youtube")
                        },
                        None => false,
                    };
                    match (&id, youtube) {
                        (Some(i), true) => Some(concat2("https://www.youtube.com/watch?v=", i.as_str())),
                        _ => None,
                    }
                },
            }
        },
    };
    match url {
        None => Ok(None),
        Some(u) => {
            let entry_id = match id {
                Some(i) => i,
                None => u.clone(),
            };
            Ok(
                Some(
                    InspectedEntry {
                        source_index,
                        id: entry_id,
                        title: clone_opt(&record.title),
                        url: u,
                        thumbnail: thumb,
                        selection: None,
                    },
                ),
            )
        },
    }
}

/// What makes two playlist entries the same: their URL and selected identity.
pub open spec fn identity(e: EntryOut) -> (Seq<char>, Option<(Seq<char>, Seq<char>)>) {
    (
        e.url,
        match e.selection {
            Some((a, b, _)) => Some((a, b)),
            None => None,
        },
    )
}

pub open spec fn has_identity(acc: Seq<EntryOut>, e: EntryOut) -> bool {
    exists|j: int| 0 <= j < acc.len() && identity(acc[j]) == identity(e)
}

/// The entries read from the first `k` elements of `entries`, the first of
/// each identity kept, or the first error met.
pub open spec fn scan_entries(slots: Seq<InspectionEntry>, parent: Seq<char>, k: int) -> Result<Seq<EntryOut>, Seq<char>>
    decreases k,
{
    if k <= 0 {
        Ok(Seq::empty())
    } else {
        match scan_entries(slots, parent, k - 1) {
            Err(e) => Err(e),
            Ok(acc) => match slots[k - 1].slot {
                PlaylistSlot::Null => Ok(acc),
                PlaylistSlot::Malformed(m) => Err("Failed to parse playlist entry: "@ + m@),
                PlaylistSlot::Record(r) => match entry_result(r, parent) {
                    Err(e) => Err(e),
                    Ok(None) => Ok(acc),
                    Ok(Some(o)) => if has_identity(acc, o) {
                        Ok(acc)
                    } else {
                        Ok(acc.push(o))
                    },
                },
            },
        }
    }
}

/// The result of reading one video matches what the metadata object holds.
pub open spec fn video_outcome(
    url: Seq<char>,
    doc: VideoDocument,
    selection: Option<MediaSelection>,
    from_entry: Option<usize>,
    res: Result<Inspection, String>,
) -> bool {
    match video_error(doc, selection) {
        Some(m) => res matches Err(e) && e@ == m,
        None => res matches Ok(Inspection::Video(v)) && video_from(
            url,
            doc,
            None,
            from_entry,
            InspectedVideo { selection: None, ..v },
        ) && same_selection(v.selection, selection),
    }
}

/// The page the playlist's entries are compared with.
pub open spec fn playlist_parent(doc: InspectionDocument, url: Seq<char>) -> Seq<char> {
    opt_or(allowed_opt(ov(doc.webpage_url)), url)
}

pub open spec fn scanned_len(n: nat) -> int {
    if n > MAX_PLAYLIST_ENTRIES {
        MAX_PLAYLIST_ENTRIES as int
    } else {
        n as int
    }
}

/// Once reading the entries has failed, reading more of them keeps the error.
proof fn lemma_scan_error_persists(slots: Seq<InspectionEntry>, parent: Seq<char>, k: int, j: int)
    requires
        0 <= k <= j,
        scan_entries(slots, parent, k) is Err,
    ensures
        scan_entries(slots, parent, j) == scan_entries(slots, parent, k),
    decreases j - k,
{
    if j > k {
        lemma_scan_error_persists(slots, parent, k, j - 1);
    }
}

/// No two entries share an identity.
pub open spec fn distinct_identities(acc: Seq<EntryOut>) -> bool {
    forall|a: int, b: int| 0 <= a < b < acc.len() ==> identity(#[trigger] acc[a]) != identity(#[trigger] acc[b])
}

proof fn lemma_scan_bounded_and_distinct(slots: Seq<InspectionEntry>, parent: Seq<char>, k: int)
    ensures
        scan_entries(slots, parent, k) matches Ok(acc) ==> acc.len() <= (if k < 0 {
            0
        } else {
            k
        }) && distinct_identities(acc),
    decreases k,
{
    if k > 0 {
        lemma_scan_bounded_and_distinct(slots, parent, k - 1);
        if let Ok(acc) = scan_entries(slots, parent, k - 1) {
            if let PlaylistSlot::Record(r) = slots[k - 1].slot {
                if let Ok(Some(o)) = entry_result(r, parent) {
                    if !has_identity(acc, o) {
                        let next = acc.push(o);
                        assert forall|a: int, b: int| 0 <= a < b < next.len() implies identity(
                            #[trigger] next[a],
                        ) != identity(#[trigger] next[b]) by {
                            if b == acc.len() {
                                assert(next[a] == acc[a]);
                                assert(next[b] == o);
                            } else {
                                assert(next[a] == acc[a]);
                                assert(next[b] == acc[b]);
                            }
                        }
                    }
                }
            }
        }
    }
}

/// A playlist read by an inspection holds at most [`MAX_PLAYLIST_ENTRIES`]
/// entries, and no two of them share a URL and selected identity.
pub proof fn law_playlists_are_bounded_and_unique(
    url: Seq<char>,
    doc: InspectionDocument,
    res: Result<Inspection, String>,
)
    requires
        inspection_outcome(url, doc, None, res),
    ensures
        res matches Ok(Inspection::Playlist(p)) ==> p.entries@.len() <= MAX_PLAYLIST_ENTRIES
            && distinct_identities(p.entries@.map_values(|e: InspectedEntry| entry_view(e))),
{
    if is_playlist_kind(ov(doc.root.kind)) {
        if let Some(list) = doc.entries {
            lemma_scan_bounded_and_distinct(list@, playlist_parent(doc, url), scanned_len(list@.len()));
            if let Ok(Inspection::Playlist(p)) = res {
                let found = p.entries@.map_values(|e: InspectedEntry| entry_view(e));
                assert(found.len() == p.entries@.len());
            }
        }
    }
}

/// The result of an inspection matches its metadata document.
pub open spec fn inspection_outcome(
    url: Seq<char>,
    doc: InspectionDocument,
    selection: Option<MediaSelection>,
    res: Result<Inspection, String>,
) -> bool {
    match selection {
        Some(s) => match selection_error(s) {
            Some(m) => res matches Err(e) && e@ == m,
            None => if is_playlist_kind(ov(doc.root.kind)) {
                match doc.entries {
                    None => res matches Err(e) && e@ == "Selected playlist metadata has no entries."@,
                    Some(list) => if list@.len() != 1 {
                        res matches Err(e) && e@
                            == "The selected playlist entry did not resolve to exactly one video."@
                    } else {
                        video_outcome(url, list@[0].video, selection, Some(0), res)
                    },
                }
            } else {
                video_outcome(url, doc.root, selection, None, res)
            },
        },
        None => if !is_playlist_kind(ov(doc.root.kind)) {
            video_outcome(url, doc.root, None, None, res)
        } else {
            match doc.entries {
                None => res matches Err(e) && e@ == "Failed to parse playlist entries"@,
                Some(list) => match scan_entries(list@, playlist_parent(doc, url), scanned_len(list@.len())) {
                    Err(m) => res matches Err(e) && e@ == m,
                    Ok(found) => if found.len() == 0 {
                        res matches Err(e) && e@ == "Failed to parse playlist entries"@
                    } else {
                        res matches Ok(Inspection::Playlist(p)) && p.title@ == opt_or(
                            ov(doc.root.title),
                            "Playlist"@,
                        ) && ov(p.channel) == (match ov(doc.uploader) {
                            Some(u) => Some(u),
                            None => ov(doc.root.channel),
                        }) && p.entry_count == found.len() && p.truncated == (list@.len()
                            > MAX_PLAYLIST_ENTRIES) && p.entries@.map_values(|e: InspectedEntry| entry_view(e))
                            == found
                    },
                },
            }
        },
    }
}

/// The metadata document is refused when it is larger than
/// [`MAX_INSPECTION_OUTPUT_BYTES`].
pub fn check_inspection_output(len: usize) -> (res: Result<(), String>)
    ensures
        len > MAX_INSPECTION_OUTPUT_BYTES ==> (res matches Err(e) && e@
            == "process_output_limit: inspection metadata exceeded its output limit"@),
        len <= MAX_INSPECTION_OUTPUT_BYTES ==> res is Ok,
{
    if len > MAX_INSPECTION_OUTPUT_BYTES {
        Err(owned("process_output_limit: inspection metadata exceeded its output limit"))
    } else {
        Ok(())
    }
}

fn same_identity(a: &InspectedEntry, b: &InspectedEntry) -> (r: bool)
    ensures
        r == (identity(entry_view(*a)) == identity(entry_view(*b))),
{
    if !str_eq(a.url.as_str(), b.url.as_str()) {
        return false;
    }
    match (&a.selection, &b.selection) {
        (Some(x), Some(y)) => str_eq(x.entry_id.as_str(), y.entry_id.as_str()) && str_eq(
            x.extractor_key.as_str(),
            y.extractor_key.as_str(),
        ),
        (None, None) => true,
        _ => false,
    }
}

fn seen_before(found: &Vec<InspectedEntry>, e: &InspectedEntry) -> (r: bool)
    ensures
        r == has_identity(found@.map_values(|x: InspectedEntry| entry_view(x)), entry_view(*e)),
{
    let ghost views = found@.map_values(|x: InspectedEntry| entry_view(x));
    let mut j: usize = 0;
    while j < found.len()
        invariant
            j <= found@.len(),
            views == found@.map_values(|x: InspectedEntry| entry_view(x)),
            forall|q: int| 0 <= q < j ==> identity(views[q]) != identity(entry_view(*e)),
        decreases found@.len() - j,
    {
        if same_identity(&found[j], e) {
            proof {
                assert(views[j as int] == entry_view(found@[j as int]));
            }
            return true;
        }
        j += 1;
    }
    false
}

/// Reads what an inspection found from its metadata document; `url` is the
/// inspected URL and `selection` the playlist item that was asked for, if any.
pub fn parse_inspection(url: &str, doc: &InspectionDocument, selection: Option<&MediaSelection>) -> (res: Result<
    Inspection,
    String,
>)
    ensures
        inspection_outcome(
            url@,
            *doc,
            match selection {
                Some(s) => Some(*s),
                None => None,
            },
            res,
        ),
{
    match selection {
        Some(s) => {
            match s.validate() {
                Err(e) => {
                    return Err(e);
                },
                Ok(()) => {},
            }
            if is_playlist(&doc.root) {
                let list = match &doc.entries {
                    Some(list) => list,
                    None => {
                        return Err(owned("Selected playlist metadata has no entries."));
                    },
                };
                if list.len() != 1 {
                    return Err(owned("The selected playlist entry did not resolve to exactly one video."));
                }
                return match video_info(url, &list[0].video, Some(s), Some(0)) {
                    Ok(v) => Ok(Inspection::Video(v)),
                    Err(e) => Err(e),
                };
            }
            return match video_info(url, &doc.root, Some(s), None) {
                Ok(v) => Ok(Inspection::Video(v)),
                Err(e) => Err(e),
            };
        },
        None => {},
    }
    if !is_playlist(&doc.root) {
        return match video_info(url, &doc.root, None, None) {
            Ok(v) => Ok(Inspection::Video(v)),
            Err(e) => Err(e),
        };
    }
    let list = match &doc.entries {
        Some(list) => list,
        None => {
            return Err(owned("Failed to parse playlist entries"));
        },
    };
    let parent: String = match allowed_clone(&doc.webpage_url) {
        Some(w) => w,
        None => owned(url),
    };
    let limit = if list.len() > MAX_PLAYLIST_ENTRIES {
        MAX_PLAYLIST_ENTRIES
    } else {
        list.len()
    };
    let ghost slots = list@;
    let ghost parent_view = parent@;
    assert(limit == scanned_len(list@.len()));
    assert(parent_view == playlist_parent(*doc, url@));
    let mut found: Vec<InspectedEntry> = Vec::new();
    let mut k: usize = 0;
    proof {
        assert(found@.map_values(|x: InspectedEntry| entry_view(x)) =~= Seq::<EntryOut>::empty());
    }
    while k < limit
        invariant
            k <= limit,
            limit <= list@.len(),
            slots == list@,
            parent_view == parent@,
            limit == scanned_len(list@.len()),
            parent_view == playlist_parent(*doc, url@),
            selection is None,
            is_playlist_kind(ov(doc.root.kind)),
            doc.entries == Some(*list),
            scan_entries(slots, parent_view, k as int) == Ok::<Seq<EntryOut>, Seq<char>>(
                found@.map_values(|x: InspectedEntry| entry_view(x)),
            ),
        decreases limit - k,
    {
        let ghost before = found@.map_values(|x: InspectedEntry| entry_view(x));
        match &list[k].slot {
            PlaylistSlot::Null => {},
            PlaylistSlot::Malformed(m) => {
                proof {
                    lemma_scan_error_persists(slots, parent_view, k + 1, limit as int);
                }
                return Err(concat2("Failed to parse playlist entry: ", m.as_str()));
            },
            PlaylistSlot::Record(r) => {
                match entry_from_record(r, parent.as_str(), k) {
                    Err(e) => {
                        proof {
                            lemma_scan_error_persists(slots, parent_view, k + 1, limit as int);
                        }
                        return Err(e);
                    },
                    Ok(None) => {},
                    Ok(Some(e)) => {
                        if !seen_before(&found, &e) {
                            found.push(e);
                            proof {
                                assert(found@.map_values(|x: InspectedEntry| entry_view(x)) =~= before.push(
                                    entry_view(found@.last()),
                                ));
                            }
                        }
                    },
                }
            },
        }
        k += 1;
    }
    if found.len() == 0 {
        return Err(owned("Failed to parse playlist entries"));
    }
    let title = or_default(&doc.root.title, "Playlist");
    let channel = match &doc.uploader {
        Some(u) => Some(u.clone()),
        None => clone_opt(&doc.root.channel),
    };
    let count = found.len();
    Ok(
        Inspection::Playlist(
            InspectedPlaylist {
                title,
                channel,
                entry_count: count,
                truncated: list.len() > MAX_PLAYLIST_ENTRIES,
                entries: found,
            },
        ),
    )
}

} // verus!
