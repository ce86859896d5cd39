use nuclear_core::downloader::inspection::{
    check_inspection_output, parse_inspection, EntryRecord, Inspection, InspectionDocument,
    InspectionEntry, PlaylistSlot, VideoDocument, MAX_INSPECTION_OUTPUT_BYTES,
};
use nuclear_core::models::MediaSelection;

const PARENT_URL: &str = "https://example.com/playlist";

fn selection(id: &str, key: &str, index: u32) -> MediaSelection {
    MediaSelection {
        entry_id: id.into(),
        extractor_key: key.into(),
        playlist_index: index,
    }
}

fn s(value: &str) -> Option<String> {
    Some(value.to_string())
}

fn video(kind: Option<String>, id: Option<String>, key: Option<String>) -> VideoDocument {
    VideoDocument {
        is_object: true,
        kind,
        id,
        extractor_key: key,
        title: None,
        channel: None,
        thumbnail: None,
        acodec: None,
        format_heights: vec![],
    }
}

fn record(kind: Option<String>, id: Option<String>) -> EntryRecord {
    EntryRecord {
        kind,
        id,
        title: None,
        url: None,
        webpage_url: None,
        original_url: None,
        extractor_key: None,
        ie_key: None,
        playlist_index: None,
        thumbnail: None,
        thumbnails: None,
        has_formats: false,
    }
}

fn entry(r: EntryRecord, heights: Vec<u64>) -> InspectionEntry {
    let mut v = video(r.kind.clone(), r.id.clone(), r.extractor_key.clone());
    v.title = r.title.clone();
    v.format_heights = heights;
    InspectionEntry {
        video: v,
        slot: PlaylistSlot::Record(r),
    }
}

fn null_entry() -> InspectionEntry {
    let mut v = video(None, None, None);
    v.is_object = false;
    InspectionEntry {
        video: v,
        slot: PlaylistSlot::Null,
    }
}

fn playlist_doc(kind: &str, entries: Vec<InspectionEntry>) -> InspectionDocument {
    InspectionDocument {
        root: video(s(kind), None, None),
        webpage_url: None,
        uploader: None,
        entries: Some(entries),
    }
}

fn parse(doc: &InspectionDocument, selection: Option<&MediaSelection>) -> Result<Inspection, String> {
    parse_inspection(PARENT_URL, doc, selection)
}

#[test]
fn playlist_entries_are_deduplicated_and_bounded_at_one_thousand() {
    let mut entries = Vec::new();
    for index in 0..1_001 {
        let mut r = record(s("url"), Some(format!("video-{index}")));
        r.url = Some(format!("https://example.com/video/{index}"));
        entries.push(entry(r, vec![]));
    }
    entries.insert(1, entries[0].clone());
    let mut doc = playlist_doc("playlist", entries);
    doc.root.title = s("Large");

    let Inspection::Playlist(playlist) = parse(&doc, None).unwrap() else {
        panic!("expected playlist");
    };
    assert_eq!(playlist.entries.len(), 999);
    assert_eq!(playlist.entry_count, 999);
    assert!(playlist.truncated);
    assert_eq!(playlist.entries[0].id, "video-0");
    assert_eq!(playlist.entries[998].id, "video-998");
}

#[test]
fn playlist_keeps_https_thumbnail_and_parent_metadata_hints() {
    let mut r = record(s("url"), s("abc123"));
    r.title = s("Example Clip");
    r.url = s("https://example.com/watch/abc123");
    r.thumbnail = s("http://example.com/thumb-low.jpg");
    r.thumbnails = Some(vec![
        s("http://example.com/thumb-low.jpg"),
        s("https://example.com/thumb-hi.jpg"),
    ]);
    let mut doc = playlist_doc("playlist", vec![entry(r, vec![])]);
    doc.root.title = s("Example Playlist");
    doc.uploader = s("Example Channel");

    let Inspection::Playlist(playlist) = parse(&doc, None).unwrap() else {
        panic!("expected playlist");
    };
    assert_eq!(playlist.title, "Example Playlist");
    assert_eq!(playlist.channel.as_deref(), Some("Example Channel"));
    assert_eq!(playlist.entries[0].title.as_deref(), Some("Example Clip"));
    assert_eq!(playlist.entries[0].source_index, 0);
    assert_eq!(
        playlist.entries[0].thumbnail.as_deref(),
        Some("https://example.com/thumb-hi.jpg")
    );
}

#[test]
fn youtube_entry_falls_back_to_watch_url_but_generic_missing_url_is_rejected() {
    let mut r = record(s("url"), s("fallback-id"));
    r.extractor_key = s("Youtube");
    let Inspection::Playlist(playlist) = parse(&playlist_doc("playlist", vec![entry(r, vec![])]), None).unwrap() else {
        panic!("expected playlist");
    };
    assert_eq!(
        playlist.entries[0].url,
        "https://www.youtube.com/watch?v=fallback-id"
    );

    let mut generic = record(s("url"), s("opaque-id"));
    generic.extractor_key = s("Generic");
    let error = parse(&playlist_doc("playlist", vec![entry(generic, vec![])]), None).unwrap_err();
    assert_eq!(error, "Failed to parse playlist entries");
}

#[test]
fn x_multi_video_children_sharing_parent_are_retained_with_ordinal_selectors() {
    let parent = "https://x.com/LLMenjoyer/status/2097804593132671192";
    let mut first = record(s("video"), s("2049184998117588992"));
    first.extractor_key = s("Twitter");
    first.webpage_url = s(parent);
    first.playlist_index = Some(1);
    first.has_formats = true;
    let mut second = record(s("video"), s("2097430424205295616"));
    second.extractor_key = s("Twitter");
    second.webpage_url = s(parent);
    second.playlist_index = Some(2);
    second.has_formats = true;
    let mut doc = playlist_doc("multi_video", vec![entry(first, vec![720]), entry(second, vec![1080])]);
    doc.webpage_url = s(parent);

    let Inspection::Playlist(playlist) = parse_inspection(parent, &doc, None).unwrap() else {
        panic!("expected playlist");
    };
    assert_eq!(playlist.entries.len(), 2);
    assert_eq!(playlist.entries[0].url, parent);
    assert_eq!(playlist.entries[1].url, parent);
    let first = playlist.entries[0].selection.as_ref().unwrap();
    assert_eq!(first.entry_id, "2049184998117588992");
    assert_eq!(first.extractor_key, "Twitter");
    assert_eq!(first.playlist_index, 1);
    let second = playlist.entries[1].selection.as_ref().unwrap();
    assert_eq!(second.entry_id, "2097430424205295616");
    assert_eq!(second.playlist_index, 2);
}

#[test]
fn shared_parent_embedded_video_requires_authoritative_playlist_index() {
    let mut r = record(s("video"), s("embedded"));
    r.extractor_key = s("Twitter");
    r.webpage_url = s(PARENT_URL);
    r.has_formats = true;
    let mut doc = playlist_doc("multi_video", vec![entry(r, vec![720])]);
    doc.webpage_url = s(PARENT_URL);
    let error = parse(&doc, None).unwrap_err();
    assert!(error.contains("selection index"), "{error}");
}

#[test]
fn shared_parent_flat_record_prefers_child_url_and_skips_one_without_it() {
    let mut child = record(s("url"), s("child"));
    child.webpage_url = s(PARENT_URL);
    child.url = s("https://example.com/watch/child");
    let mut missing = record(s("url"), s("missing"));
    missing.webpage_url = s(PARENT_URL);
    missing.extractor_key = s("Generic");
    let mut doc = playlist_doc("playlist", vec![entry(child, vec![]), entry(missing, vec![])]);
    doc.webpage_url = s(PARENT_URL);

    let Inspection::Playlist(playlist) = parse(&doc, None).unwrap() else {
        panic!("expected playlist");
    };
    assert_eq!(playlist.entries.len(), 1);
    assert_eq!(playlist.entries[0].id, "child");
    assert_eq!(playlist.entries[0].url, "https://example.com/watch/child");
    assert!(playlist.entries[0].selection.is_none());
}

#[test]
fn formats_bearing_record_without_type_uses_verified_selector() {
    let mut r = record(None, s("embedded"));
    r.extractor_key = s("Generic");
    r.webpage_url = s(PARENT_URL);
    r.playlist_index = Some(1);
    r.has_formats = true;
    let mut doc = playlist_doc("multi_video", vec![entry(r, vec![720])]);
    doc.webpage_url = s(PARENT_URL);

    let Inspection::Playlist(playlist) = parse(&doc, None).unwrap() else {
        panic!("expected playlist");
    };
    let selected = playlist.entries[0].selection.as_ref().unwrap();
    assert_eq!(selected.entry_id, "embedded");
    assert_eq!(selected.extractor_key, "Generic");
    assert_eq!(selected.playlist_index, 1);
}

#[test]
fn selected_single_wrapper_returns_exact_video_identity() {
    let selected = selection("wanted", "Twitter", 2);
    let mut r = record(s("video"), s("wanted"));
    r.extractor_key = s("Twitter");
    r.title = s("Selected");
    r.has_formats = true;
    let mut e = entry(r, vec![1080, 720]);
    e.video.acodec = s("aac");
    let Inspection::Video(video) = parse(&playlist_doc("playlist", vec![e]), Some(&selected)).unwrap() else {
        panic!("expected video");
    };
    assert_eq!(video.id, "wanted");
    assert_eq!(video.title, "Selected");
    assert_eq!(video.available_qualities, ["1080p", "720p"]);
    assert_eq!(video.selection.as_ref().unwrap().playlist_index, 2);
    assert_eq!(video.from_entry, Some(0));
    assert!(video.has_audio);
}

#[test]
fn selected_identity_rejects_wrong_id_or_extractor_key() {
    let selected = selection("wanted", "Twitter", 1);
    for (id, key) in [("wrong", "Twitter"), ("wanted", "Wrong")] {
        let mut r = record(s("video"), s(id));
        r.extractor_key = s(key);
        let error = parse(&playlist_doc("playlist", vec![entry(r, vec![])]), Some(&selected)).unwrap_err();
        assert_eq!(
            error,
            "The selected playlist entry changed. Inspect the URL again before adding it."
        );
    }
}

#[test]
fn selected_wrapper_rejects_zero_multiple_nested_and_null_entries() {
    let selected = selection("wanted", "Twitter", 1);
    let mut wanted = record(s("video"), s("wanted"));
    wanted.extractor_key = s("Twitter");
    let mut other = record(s("video"), s("other"));
    other.extractor_key = s("Twitter");
    let mut nested = record(s("playlist"), s("wanted"));
    nested.extractor_key = s("Twitter");
    let cases = [
        playlist_doc("playlist", vec![]),
        playlist_doc("playlist", vec![entry(wanted, vec![]), entry(other, vec![])]),
        playlist_doc("playlist", vec![entry(nested, vec![])]),
        playlist_doc("playlist", vec![null_entry()]),
    ];
    for doc in cases {
        assert!(parse(&doc, Some(&selected)).is_err(), "accepted {doc:?}");
    }
}

#[test]
fn ordinary_video_and_generic_flat_playlist_are_preserved() {
    let mut single = video(s("video"), s("single"), None);
    single.title = s("Single");
    let doc = InspectionDocument {
        root: single,
        webpage_url: None,
        uploader: None,
        entries: None,
    };
    let Inspection::Video(video) = parse(&doc, None).unwrap() else {
        panic!("expected video");
    };
    assert_eq!(video.id, "single");
    assert!(video.selection.is_none());

    let mut flat = record(s("url"), s("flat"));
    flat.extractor_key = s("Generic");
    flat.url = s("https://example.com/watch/flat");
    let Inspection::Playlist(playlist) = parse(&playlist_doc("playlist", vec![entry(flat, vec![])]), None).unwrap() else {
        panic!("expected playlist");
    };
    assert_eq!(playlist.entries[0].url, "https://example.com/watch/flat");
    assert!(playlist.entries[0].selection.is_none());
}

#[test]
fn oversized_metadata_is_refused_before_parsing() {
    assert!(check_inspection_output(MAX_INSPECTION_OUTPUT_BYTES).is_ok());
    assert!(check_inspection_output(MAX_INSPECTION_OUTPUT_BYTES + 1)
        .unwrap_err()
        .starts_with("process_output_limit:"));
}

#[test]
fn video_defaults_and_quality_order() {
    let mut doc_video = video(None, None, None);
    doc_video.format_heights = vec![360, 0, 1080, 720, 1080];
    doc_video.acodec = s("none");
    doc_video.thumbnail = s("http://example.com/t.jpg");
    let doc = InspectionDocument {
        root: doc_video,
        webpage_url: None,
        uploader: None,
        entries: None,
    };
    let Inspection::Video(video) = parse(&doc, None).unwrap() else {
        panic!("expected video");
    };
    assert_eq!(video.id, "unknown");
    assert_eq!(video.title, "Unknown Title");
    assert_eq!(video.available_qualities, ["1080p", "720p", "360p"]);
    assert!(!video.has_audio);
    assert!(video.thumbnail.is_none());
    assert_eq!(video.url, PARENT_URL);
}

#[test]
fn malformed_records_fail_the_playlist() {
    let doc = playlist_doc(
        "playlist",
        vec![InspectionEntry {
            video: video(None, None, None),
            slot: PlaylistSlot::Malformed("invalid type".into()),
        }],
    );
    assert_eq!(
        parse(&doc, None).unwrap_err(),
        "Failed to parse playlist entry: invalid type"
    );
}
