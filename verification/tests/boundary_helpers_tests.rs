use nuclear_core::downloader::command_args::{build_inspection_args, YtdlpCommandConfig};
use nuclear_core::downloader::errors::error_for_fetch;
use nuclear_core::downloader::naming::sanitize_filename_component;
use nuclear_core::downloader::publication::{
    check_opened_record_metadata, check_staged_file_metadata, is_direct_child, is_strictly_inside,
};
use nuclear_core::journal::{check_decrypted_size, check_encrypted_size};
use nuclear_core::models::{CookieConfig, QueueItemRecord, QueueItemState, APP_SCHEMA_VERSION};
use nuclear_core::outbox::estimate_queue_item_bytes;

fn parts(p: &[&str]) -> Vec<String> {
    p.iter().map(|s| s.to_string()).collect()
}

#[test]
fn staged_paths_must_stay_strictly_inside_the_stage() {
    let stage = parts(&["C:", "out", ".nuclear-staging", "op"]);
    assert!(is_strictly_inside(&parts(&["C:", "out", ".nuclear-staging", "op", "a.mp4"]), &stage));
    assert!(!is_strictly_inside(&stage, &stage));
    assert!(!is_strictly_inside(&parts(&["C:", "out", "a.mp4"]), &stage));
    assert!(!is_strictly_inside(&parts(&["C:", "out", ".nuclear-staging", "other", "a.mp4"]), &stage));
    assert!(is_direct_child(&parts(&["C:", "out", ".nuclear-staging"]), &parts(&["C:", "out"])));
    assert!(!is_direct_child(&parts(&["C:", "out", "x", "y"]), &parts(&["C:", "out"])));
}

#[test]
fn staged_files_and_records_must_be_plain_files() {
    assert!(check_staged_file_metadata(true, false, false).is_ok());
    assert_eq!(
        check_staged_file_metadata(true, true, false).unwrap_err(),
        "Downloader output was not a regular non-reparse file."
    );
    assert_eq!(
        check_staged_file_metadata(true, false, true).unwrap_err(),
        "Downloader output was a reparse point."
    );
    assert!(check_opened_record_metadata(true, false, 65536).is_ok());
    let e = check_opened_record_metadata(true, false, 65537).unwrap_err();
    assert_eq!(e.code, "staging_output_record_invalid");
}

#[test]
fn journal_size_limits() {
    assert!(check_decrypted_size(32 * 1024 * 1024).is_ok());
    assert_eq!(check_decrypted_size(32 * 1024 * 1024 + 1).unwrap_err().code, "journal_too_large");
    assert!(check_encrypted_size(40 * 1024 * 1024).is_ok());
    assert_eq!(check_encrypted_size(40 * 1024 * 1024 + 1).unwrap_err().code, "journal_too_large");
}

#[test]
fn fetch_errors_use_the_generic_format_message() {
    assert_eq!(
        error_for_fetch("ERROR: Requested format is not available", Some(1), "rt"),
        "The requested format is not available for this video. Choose another format or quality and retry."
    );
    assert_eq!(error_for_fetch("", Some(2), "rt"), "yt-dlp exited with code 2");
}

#[test]
fn filename_components_are_sanitized_or_refused() {
    assert_eq!(sanitize_filename_component("a:b?c").unwrap(), "a_b_c");
    assert!(sanitize_filename_component("   ").is_none());
}

#[test]
fn inspection_args_end_with_the_url() {
    let config = YtdlpCommandConfig { ffmpeg_dir: None, deno_path: None, plugin_dir: None };
    let cookies = CookieConfig {
        enabled: true,
        mode: "browser".into(),
        browser: "firefox".into(),
        cookie_file: None,
    };
    let args = build_inspection_args("https://example.com/v", Some(&cookies), None, None, false, &config);
    assert_eq!(args.first().map(String::as_str), Some("--ignore-config"));
    assert_eq!(args.last().map(String::as_str), Some("https://example.com/v"));
    assert!(args.windows(2).any(|pair| pair[0] == "--cookies-from-browser" && pair[1] == "firefox"));
}

#[test]
fn queue_item_size_estimate_counts_text_bytes() {
    let item = QueueItemRecord {
        schema_version: APP_SCHEMA_VERSION,
        id: "id".into(),
        source_url: "url".into(),
        title: "t".into(),
        available_qualities: vec!["720p".into(), "1080p".into()],
        has_audio: true,
        cookie_config: None,
        format: "mp4".into(),
        quality: "best".into(),
        output_dir: "d".into(),
        filename_override: Some("name".into()),
        compat_config_path: None,
        state: QueueItemState::Inert,
        latest_operation_id: None,
        created_at_ms: 0,
        updated_at_ms: 0,
        source_media_id: None,
        preparation: None,
        preparation_operation_id: None,
        selection: None,
    };
    assert_eq!(estimate_queue_item_bytes(&item), 192 + 2 + 3 + 1 + 9 + 3 + 4 + 1 + 4);
    assert_eq!(item.to_download_request().url, "url");
}

#[test]
fn sanitized_components_have_no_edge_dots_or_spaces() {
    assert_eq!(sanitize_filename_component(" .name. ").unwrap(), "name");
    assert_eq!(sanitize_filename_component("a\u{1}b").unwrap(), "a_b");
    let long = "x".repeat(400);
    let cut = sanitize_filename_component(&long).unwrap();
    assert!(cut.encode_utf16().count() <= 180);
    assert!(!cut.is_empty());
}
