use nuclear_core::downloader::command_args::{
    append_final_output_record_args, build_download_args, build_download_args_with_runtime,
    YtdlpCommandConfig, FINAL_OUTPUT_RECORD_NAME,
};
use nuclear_core::downloader::engine::{
    terminal_outcome_from_attempt, DownloadAttemptResult, DownloadOutcome,
};
use nuclear_core::downloader::errors::{
    build_error_message, classify_process_error, is_twitter_api_auth_error,
    is_twitter_missing_video_error, should_retry_with_twitter_syndication, DownloadErrorInfo,
};
use nuclear_core::downloader::naming::{
    build_final_output_path, build_output_template, build_staged_webm_output_path,
    build_webm_final_path, normalize_filename_override, suffixed_output_path,
};
use nuclear_core::downloader::validation::{
    is_x_or_twitter_url, validate_download_request, validate_fetch_request,
    MAX_ACTIONABLE_FIELD_BYTES,
};
use nuclear_core::models::{CookieConfig, DownloadRequest};

fn arg_value_after<'a>(args: &'a [String], flag: &str) -> Option<&'a str> {
    args.windows(2)
        .find(|pair| pair[0] == flag)
        .map(|pair| pair[1].as_str())
}

fn download_request(format: &str, quality: &str) -> DownloadRequest {
    DownloadRequest {
        url: "https://example.com/video".into(),
        quality: quality.into(),
        format: format.into(),
        output_dir: "C:\\Users\\Mr.W\\Downloads".into(),
        cookie_config: None,
        filename_override: None,
        compat_config_path: None,
        selection: None,
    }
}

fn deterministic_runtime_config() -> YtdlpCommandConfig {
    YtdlpCommandConfig {
        ffmpeg_dir: Some("C:\\NuclearRuntime".to_string()),
        deno_path: Some("C:\\NuclearRuntime\\deno.exe".to_string()),
        plugin_dir: Some("C:\\NuclearRuntime\\plugins".to_string()),
    }
}

fn check_terminal_outcome_preserves_published_filename() {
    let filename = r"C:\Users\Mr.W\Downloads\clip (2).mp4".to_string();

    let outcome = terminal_outcome_from_attempt(DownloadAttemptResult::Completed(Some(
        filename.clone(),
    )));

    assert_eq!(
        outcome,
        DownloadOutcome::Completed {
            filename: Some(filename)
        }
    );
}

fn check_terminal_outcome_preserves_structured_failure() {
    let error = DownloadErrorInfo {
        code: "publish_failed".to_string(),
        message: "Could not publish the download.".to_string(),
        detail: "The destination volume rejected the atomic move.".to_string(),
    };

    let outcome = terminal_outcome_from_attempt(DownloadAttemptResult::Error(error));

    assert_eq!(
        outcome,
        DownloadOutcome::Failed {
            code: "publish_failed".to_string(),
            message: "Could not publish the download.".to_string(),
            detail: "The destination volume rejected the atomic move.".to_string(),
        }
    );
}

#[test]
fn downloader_terminal_outcome_preserves_published_filename() {
    check_terminal_outcome_preserves_published_filename();
}

#[test]
fn engine_terminal_outcome_preserves_published_filename() {
    check_terminal_outcome_preserves_published_filename();
}

#[test]
fn downloader_terminal_outcome_preserves_structured_failure() {
    check_terminal_outcome_preserves_structured_failure();
}

#[test]
fn engine_terminal_outcome_preserves_structured_failure() {
    check_terminal_outcome_preserves_structured_failure();
}

#[test]
fn pending_syndication_retry_is_reported_as_failure() {
    assert_eq!(
        terminal_outcome_from_attempt(DownloadAttemptResult::RetryWithTwitterSyndication),
        DownloadOutcome::Failed {
            code: "download_failed".to_string(),
            message: "Download failed before retry could complete.".to_string(),
            detail: "Download failed before retry could complete.".to_string(),
        }
    );
    assert_eq!(
        terminal_outcome_from_attempt(DownloadAttemptResult::Cancelled),
        DownloadOutcome::Cancelled
    );
}

fn check_default_template() {
    let request = download_request("mp4", "best");
    assert_eq!(
        build_output_template(&request),
        "C:/Users/Mr.W/Downloads/%(title)s [%(id)s].%(ext)s"
    );
}

fn check_custom_template() {
    let mut request = download_request("mp4", "best");
    request.filename_override = Some("My custom clip".into());
    assert_eq!(
        build_output_template(&request),
        "C:/Users/Mr.W/Downloads/My custom clip.%(ext)s"
    );
}

fn check_sanitized_template() {
    let mut request = download_request("mp4", "best");
    request.output_dir = "C:\\Users\\Mr.W\\100%Downloads".into();
    request.filename_override = Some("CON: 100%?".into());
    assert_eq!(
        build_output_template(&request),
        "C:/Users/Mr.W/100%%Downloads/CON_ 100%%_.%(ext)s"
    );
}

fn check_normalized_overrides() {
    assert_eq!(
        normalize_filename_override("NUL.txt"),
        Some("NUL_.txt".into())
    );
    assert_eq!(normalize_filename_override("clip.MP4"), Some("clip".into()));

    let long_name = format!("{}😀", "a".repeat(179));
    let normalized = normalize_filename_override(&long_name).expect("name should remain valid");
    assert_eq!(normalized.encode_utf16().count(), 179);
}

#[test]
fn naming_uses_default_template_without_override() {
    check_default_template();
}

#[test]
fn downloader_uses_default_template_without_override() {
    check_default_template();
}

#[test]
fn naming_uses_custom_filename_override_when_present() {
    check_custom_template();
}

#[test]
fn downloader_uses_custom_filename_override_when_present() {
    check_custom_template();
}

#[test]
fn naming_sanitizes_invalid_filename_characters_and_percent_signs() {
    check_sanitized_template();
}

#[test]
fn downloader_sanitizes_invalid_filename_characters_and_percent_signs() {
    check_sanitized_template();
}

#[test]
fn naming_normalizes_reserved_extensions_and_utf16_length() {
    check_normalized_overrides();
}

#[test]
fn downloader_normalizes_reserved_extensions_and_utf16_length() {
    check_normalized_overrides();
}

#[test]
fn webm_final_path_uses_custom_filename_or_staged_stem() {
    let mut request = download_request("webm", "best");
    request.output_dir = r"C:\Users\Mr.W\Desktop".into();
    request.filename_override = Some("Clip: 100%?".into());

    assert_eq!(
        build_webm_final_path(&request, Some("ignored")),
        r"C:\Users\Mr.W\Desktop\Clip_ 100%_.webm"
    );

    request.filename_override = None;
    assert_eq!(
        build_webm_final_path(&request, Some("Title [abc123]")),
        r"C:\Users\Mr.W\Desktop\Title [abc123].webm"
    );
    assert_eq!(
        build_webm_final_path(&request, None),
        r"C:\Users\Mr.W\Desktop\download.webm"
    );
}

#[test]
fn staged_webm_output_is_named_after_the_final_stem() {
    assert_eq!(
        build_staged_webm_output_path(r"C:\Stage\op", Some("Clip")),
        r"C:\Stage\op\Clip.converted.webm"
    );
    assert_eq!(
        build_staged_webm_output_path(r"C:\Stage\op\", Some("   ")),
        r"C:\Stage\op\download.converted.webm"
    );
}

#[test]
fn final_output_path_keeps_the_staged_extension_for_custom_names() {
    let mut request = download_request("mp4", "best");
    request.filename_override = Some("Holiday".into());
    assert_eq!(
        build_final_output_path(&request, Some("mkv"), Some("ignored.mkv")).unwrap(),
        r"C:\Users\Mr.W\Downloads\Holiday.mkv"
    );
    assert_eq!(
        build_final_output_path(&request, Some(""), Some("ignored")).unwrap(),
        r"C:\Users\Mr.W\Downloads\Holiday.mp4"
    );
    request.filename_override = None;
    assert_eq!(
        build_final_output_path(&request, Some("mkv"), Some("Title [id].mkv")).unwrap(),
        r"C:\Users\Mr.W\Downloads\Title [id].mkv"
    );
    assert_eq!(
        build_final_output_path(&request, None, None).unwrap_err(),
        "Downloaded file did not have a valid filename."
    );
}

#[test]
fn suffixed_paths_count_alternatives_after_the_stem() {
    let base = r"C:\Out\clip.mp4";
    assert_eq!(suffixed_output_path(base, r"C:\Out", Some("clip"), Some("mp4"), 1), base);
    assert_eq!(
        suffixed_output_path(base, r"C:\Out", Some("clip"), Some("mp4"), 2),
        r"C:\Out\clip (2).mp4"
    );
    assert_eq!(
        suffixed_output_path(r"C:\Out\notes", r"C:\Out", Some("notes"), None, 12),
        r"C:\Out\notes (12)"
    );
}

fn check_mp4_best() {
    let request = download_request("mp4", "best");
    let args = build_download_args(&request, false);

    assert_eq!(
        arg_value_after(&args, "-f"),
        Some("bestvideo[ext=mp4][vcodec^=avc1]+bestaudio[ext=m4a]/bestvideo[ext=mp4]+bestaudio[ext=m4a]/best[ext=mp4]/best")
    );
    assert_eq!(arg_value_after(&args, "--merge-output-format"), Some("mp4"));
    assert_eq!(arg_value_after(&args, "--remux-video"), Some("mp4"));
    assert!(arg_value_after(&args, "--recode-video").is_none());
}

fn check_mp4_quality() {
    let request = download_request("mp4", "720p");

    let args = build_download_args(&request, false);

    assert_eq!(
        arg_value_after(&args, "-f"),
        Some("bestvideo[height<=720][ext=mp4][vcodec^=avc1]+bestaudio[ext=m4a]/bestvideo[height<=720][ext=mp4]+bestaudio[ext=m4a]/best[height<=720][ext=mp4]/best[height<=720]")
    );
    assert_eq!(arg_value_after(&args, "--merge-output-format"), Some("mp4"));
    assert_eq!(arg_value_after(&args, "--remux-video"), Some("mp4"));
    assert!(arg_value_after(&args, "--recode-video").is_none());
}

fn check_runtime_flags() {
    let mut request = download_request("mp4", "best");
    request.compat_config_path = Some("C:\\Users\\Mr.W\\yt-dlp-compat.conf".into());
    let runtime_config = deterministic_runtime_config();

    let args = build_download_args_with_runtime(&request, false, &runtime_config);

    assert!(args.iter().any(|arg| arg == "--ignore-config"));
    assert_eq!(
        arg_value_after(&args, "--config-locations"),
        Some("C:\\Users\\Mr.W\\yt-dlp-compat.conf")
    );
    assert!(args.iter().any(|arg| arg == "--no-plugin-dirs"));
    assert_eq!(
        arg_value_after(&args, "--plugin-dirs"),
        Some("C:\\NuclearRuntime\\plugins")
    );
    assert!(args.iter().any(|arg| arg == "--no-js-runtimes"));
    assert_eq!(
        arg_value_after(&args, "--js-runtimes"),
        Some("deno:C:\\NuclearRuntime\\deno.exe")
    );
    assert_eq!(
        arg_value_after(&args, "--ffmpeg-location"),
        Some("C:\\NuclearRuntime")
    );
    assert_eq!(
        arg_value_after(&args, "--print-to-file"),
        Some(r#"after_move:{"schema_version":1,"filepath":%(filepath)j}"#)
    );
    assert!(args.iter().any(|argument| {
        argument.ends_with("/.nuclear-final-output-v1.jsonl")
            && argument.starts_with("C:/Users/Mr.W/Downloads")
    }));
}

fn check_mkv_best() {
    let request = download_request("mkv", "best");

    let args = build_download_args(&request, false);

    assert_eq!(
        arg_value_after(&args, "-f"),
        Some("bestvideo+bestaudio/best")
    );
    assert_eq!(arg_value_after(&args, "--merge-output-format"), Some("mkv"));
    assert_eq!(arg_value_after(&args, "--remux-video"), Some("mkv"));
    assert!(arg_value_after(&args, "--recode-video").is_none());
}

fn check_mkv_quality() {
    let request = download_request("mkv", "720p");
    let args = build_download_args(&request, false);

    assert_eq!(
        arg_value_after(&args, "-f"),
        Some("bestvideo[height<=720]+bestaudio/best[height<=720]")
    );
    assert_eq!(arg_value_after(&args, "--merge-output-format"), Some("mkv"));
    assert_eq!(arg_value_after(&args, "--remux-video"), Some("mkv"));
}

fn check_webm_best() {
    let request = download_request("webm", "best");
    let args = build_download_args(&request, false);

    assert_eq!(
        arg_value_after(&args, "-f"),
        Some("bestvideo[ext=webm]+bestaudio[ext=webm]/best[ext=webm]/bestvideo+bestaudio/best")
    );
    assert_eq!(arg_value_after(&args, "--merge-output-format"), Some("mkv"));
    assert!(arg_value_after(&args, "--recode-video").is_none());
    assert!(arg_value_after(&args, "--remux-video").is_none());
}

fn check_webm_quality() {
    let request = download_request("webm", "720p");
    let args = build_download_args(&request, false);

    assert_eq!(
        arg_value_after(&args, "-f"),
        Some("bestvideo[height<=720][ext=webm]+bestaudio[ext=webm]/best[height<=720][ext=webm]/bestvideo[height<=720]+bestaudio/best[height<=720]")
    );
    assert_eq!(arg_value_after(&args, "--merge-output-format"), Some("mkv"));
    assert!(arg_value_after(&args, "--recode-video").is_none());
}

fn check_audio_outputs() {
    for format in ["mp3", "flac", "wav", "aac", "opus"] {
        let request = download_request(format, "best");
        let args = build_download_args(&request, false);

        assert!(args.iter().any(|arg| arg == "-x"));
        assert_eq!(arg_value_after(&args, "--audio-format"), Some(format));
        assert_eq!(arg_value_after(&args, "--audio-quality"), Some("0"));
        assert!(arg_value_after(&args, "--merge-output-format").is_none());
        assert!(arg_value_after(&args, "--recode-video").is_none());
        assert!(arg_value_after(&args, "--remux-video").is_none());
    }
}

fn check_capped_selectors() {
    for format in ["mp4", "mkv", "webm"] {
        let request = download_request(format, "720p");
        let args = build_download_args(&request, false);
        let selector = arg_value_after(&args, "-f").unwrap();

        assert!(selector
            .split('/')
            .all(|branch| branch.contains("height<=720")));
    }
}

#[test]
fn command_args_mp4_download_uses_compatible_selector_and_remuxes_final_video() {
    check_mp4_best();
}

#[test]
fn downloader_mp4_download_uses_compatible_selector_and_remuxes_final_video() {
    check_mp4_best();
}

#[test]
fn command_args_mp4_quality_download_keeps_requested_height_before_remux() {
    check_mp4_quality();
}

#[test]
fn downloader_mp4_quality_download_keeps_requested_height_before_remux() {
    check_mp4_quality();
}

#[test]
fn command_args_download_args_include_deterministic_runtime_flags() {
    check_runtime_flags();
}

#[test]
fn downloader_download_args_include_deterministic_runtime_flags() {
    check_runtime_flags();
}

#[test]
fn command_args_mkv_download_remuxes_final_video_to_mkv() {
    check_mkv_best();
}

#[test]
fn downloader_mkv_download_remuxes_final_video_to_mkv() {
    check_mkv_best();
}

#[test]
fn command_args_mkv_quality_download_keeps_requested_height_before_remux() {
    check_mkv_quality();
}

#[test]
fn downloader_mkv_quality_download_keeps_requested_height_before_remux() {
    check_mkv_quality();
}

#[test]
fn command_args_webm_download_prefers_webm_streams_and_leaves_conversion_to_ffmpeg() {
    check_webm_best();
}

#[test]
fn downloader_webm_download_prefers_webm_streams_and_leaves_conversion_to_ffmpeg() {
    check_webm_best();
}

#[test]
fn command_args_webm_quality_download_keeps_requested_height_before_ffmpeg_conversion() {
    check_webm_quality();
}

#[test]
fn downloader_webm_quality_download_keeps_requested_height_before_ffmpeg_conversion() {
    check_webm_quality();
}

#[test]
fn command_args_every_audio_output_uses_extract_audio_conversion() {
    check_audio_outputs();
}

#[test]
fn downloader_every_audio_output_uses_extract_audio_conversion() {
    check_audio_outputs();
}

#[test]
fn command_args_capped_video_selectors_never_contain_an_uncapped_fallback() {
    check_capped_selectors();
}

#[test]
fn downloader_capped_video_selectors_never_contain_an_uncapped_fallback() {
    check_capped_selectors();
}

#[test]
fn output_record_args_use_after_move_json_and_escape_percent_in_record_path() {
    let stage = r"C:\Downloads\100% Ready";
    let mut args = Vec::new();

    append_final_output_record_args(&mut args, stage);

    assert_eq!(args[0], "--print-to-file");
    assert_eq!(
        args[1],
        r#"after_move:{"schema_version":1,"filepath":%(filepath)j}"#
    );
    assert_eq!(
        args[2],
        format!("C:/Downloads/100%% Ready/{FINAL_OUTPUT_RECORD_NAME}")
    );
}

#[test]
fn twitter_syndication_adds_the_extractor_argument_for_x_urls() {
    let mut request = download_request("mp4", "best");
    request.url = "https://x.com/user/status/1".into();
    let plain = build_download_args(&request, false);
    let retried = build_download_args(&request, true);
    assert!(retried.len() > plain.len());
    assert!(retried.iter().any(|arg| arg.contains("twitter")));
    assert_eq!(plain.last(), Some(&request.url));
    assert_eq!(retried.last(), Some(&request.url));
}

fn check_youtube_classification() {
    let js = classify_process_error(
        "WARNING: [youtube] No supported JavaScript runtime could be found",
        Some(1),
        Some("mp4"),
        "",
    );
    assert_eq!(js.code, "youtube_missing_js_runtime");

    let bot = classify_process_error(
        "ERROR: [youtube] Sign in to confirm you're not a bot",
        Some(1),
        Some("mp4"),
        "",
    );
    assert_eq!(bot.code, "youtube_bot_verification");

    let format = classify_process_error(
        "ERROR: requested format is not available",
        Some(1),
        Some("mp4"),
        "",
    );
    assert_eq!(format.code, "format_unavailable");
    assert!(format.message.contains("MP4"));
}

fn check_drm_warning_skipped() {
    let stderr = "\
    [hls @ 000001] DRM protected stream detected, decoding will likely fail!\n\
    ERROR: unable to open segment 3\n\
    ffmpeg exited with code 1";

    assert_eq!(
        build_error_message(stderr, Some(1)),
        "ERROR: unable to open segment 3 | ffmpeg exited with code 1"
    );
}

fn check_drm_warning_kept() {
    let stderr = "[hls @ 000001] DRM protected stream detected, decoding will likely fail!";

    assert_eq!(
        build_error_message(stderr, Some(1)),
        "[hls @ 000001] DRM protected stream detected, decoding will likely fail!"
    );
}

fn check_x_hosts() {
    assert!(is_x_or_twitter_url("https://x.com/user/status/1"));
    assert!(is_x_or_twitter_url("https://twitter.com/user/status/1"));
    assert!(is_x_or_twitter_url(
        "https://mobile.twitter.com/user/status/1"
    ));
    assert!(!is_x_or_twitter_url("https://example.com/video"));
}

fn check_guest_auth() {
    assert!(is_twitter_api_auth_error(
        "ERROR: [twitter] 12345: Failed to query API: Bad guest token"
    ));
    assert!(should_retry_with_twitter_syndication(
        "https://x.com/user/status/1",
        "ERROR: [twitter] 12345: Failed to query API: Bad guest token"
    ));
    assert!(!should_retry_with_twitter_syndication(
        "https://example.com/video",
        "ERROR: [twitter] 12345: Failed to query API: Bad guest token"
    ));
}

fn check_missing_video_retry() {
    assert!(is_twitter_missing_video_error(
        "ERROR: [twitter] 12345: No video could be found in this post"
    ));
    assert!(should_retry_with_twitter_syndication(
        "https://x.com/user/status/1",
        "ERROR: [twitter] 12345: No video could be found in this post"
    ));
    assert!(should_retry_with_twitter_syndication(
        "https://x.com/user/status/1",
        "ERROR: requested format is not available"
    ));
    assert!(!should_retry_with_twitter_syndication(
        "https://example.com/video",
        "ERROR: requested format is not available"
    ));
}

#[test]
fn downloader_classifies_youtube_runtime_and_format_errors() {
    check_youtube_classification();
}

#[test]
fn errors_classifies_youtube_runtime_and_format_errors() {
    check_youtube_classification();
}

#[test]
fn downloader_build_error_message_skips_drm_warning_when_real_error_exists() {
    check_drm_warning_skipped();
}

#[test]
fn errors_build_error_message_skips_drm_warning_when_real_error_exists() {
    check_drm_warning_skipped();
}

#[test]
fn downloader_build_error_message_keeps_drm_warning_when_it_is_all_we_have() {
    check_drm_warning_kept();
}

#[test]
fn errors_build_error_message_keeps_drm_warning_when_it_is_all_we_have() {
    check_drm_warning_kept();
}

#[test]
fn downloader_identifies_x_and_twitter_hosts() {
    check_x_hosts();
}

#[test]
fn errors_identifies_x_and_twitter_hosts() {
    check_x_hosts();
}

#[test]
fn downloader_detects_twitter_guest_auth_failures() {
    check_guest_auth();
}

#[test]
fn errors_detects_twitter_guest_auth_failures() {
    check_guest_auth();
}

#[test]
fn downloader_retries_x_missing_video_errors_with_syndication() {
    check_missing_video_retry();
}

#[test]
fn errors_retries_x_missing_video_errors_with_syndication() {
    check_missing_video_retry();
}

#[test]
fn empty_stderr_reports_the_exit_code() {
    assert_eq!(build_error_message("", Some(3)), "yt-dlp exited with code 3");
}

fn check_non_http_rejected() {
    let mut request = download_request("mp4", "best");
    request.url = "file:///C:/Users/Mr.W/video.mp4".into();

    assert!(validate_download_request(&request, false, false).is_err());
}

fn check_invalid_format_rejected() {
    let request = download_request("avi", "best");

    assert!(validate_download_request(&request, false, false).is_err());
}

fn check_oversized_fields() {
    let oversized = "x".repeat(MAX_ACTIONABLE_FIELD_BYTES + 1);
    let mut request = download_request("mp4", "best");

    request.url = format!("https://example.com/{oversized}");
    assert!(validate_download_request(&request, false, false)
        .unwrap_err()
        .contains("URL exceeds the 4 KiB"));

    request.url = "https://example.com/video".to_string();
    request.output_dir.clone_from(&oversized);
    assert!(validate_download_request(&request, false, false)
        .unwrap_err()
        .contains("output folder exceeds the 4 KiB"));

    request.output_dir = "C:\\Downloads".to_string();
    request.filename_override = Some(oversized.clone());
    assert!(validate_download_request(&request, false, false)
        .unwrap_err()
        .contains("custom filename exceeds the 4 KiB"));

    request.filename_override = None;
    request.cookie_config = Some(CookieConfig {
        enabled: false,
        mode: oversized.clone(),
        browser: String::new(),
        cookie_file: None,
    });
    assert!(validate_download_request(&request, false, false)
        .unwrap_err()
        .contains("cookie mode exceeds the 4 KiB"));

    request.cookie_config = None;
    request.compat_config_path = Some(oversized);
    assert!(validate_download_request(&request, false, false)
        .unwrap_err()
        .contains("compatibility config path exceeds the 4 KiB"));
}

fn check_cookie_file_without_path() {
    let cookie_config = CookieConfig {
        enabled: true,
        mode: "file".into(),
        browser: "firefox".into(),
        cookie_file: Some("   ".into()),
    };

    assert!(
        validate_fetch_request("https://example.com/video", Some(&cookie_config), None, false, false)
            .is_err()
    );
}

#[test]
fn downloader_rejects_non_http_download_urls() {
    check_non_http_rejected();
}

#[test]
fn validation_rejects_non_http_download_urls() {
    check_non_http_rejected();
}

#[test]
fn downloader_rejects_invalid_output_format() {
    check_invalid_format_rejected();
}

#[test]
fn validation_rejects_invalid_output_format() {
    check_invalid_format_rejected();
}

#[test]
fn downloader_rejects_actionable_request_fields_over_four_kibibytes() {
    check_oversized_fields();
}

#[test]
fn validation_rejects_actionable_request_fields_over_four_kibibytes() {
    check_oversized_fields();
}

#[test]
fn downloader_rejects_cookie_file_mode_without_path() {
    check_cookie_file_without_path();
}

#[test]
fn validation_rejects_cookie_file_mode_without_path() {
    check_cookie_file_without_path();
}

#[test]
fn rejects_missing_cookie_file() {
    let missing_path = std::path::PathBuf::from(format!(
        "/nonexistent-nuclear-dir/nuclear-missing-cookie-{}.txt",
        std::time::SystemTime::now()
            .duration_since(std::time::UNIX_EPOCH)
            .unwrap()
            .as_nanos()
    ));

    let cookie_config = CookieConfig {
        enabled: true,
        mode: "file".into(),
        browser: "firefox".into(),
        cookie_file: Some(missing_path.to_string_lossy().to_string()),
    };
    let exists = missing_path.is_file();

    assert!(
        validate_fetch_request("https://example.com/video", Some(&cookie_config), None, exists, false)
            .is_err()
    );
}

#[test]
fn valid_requests_pass_validation() {
    let request = download_request("mp4", "1080p");
    assert!(validate_download_request(&request, false, false).is_ok());
    let mut custom = download_request("mp3", "best");
    custom.filename_override = Some("Song".into());
    assert!(validate_download_request(&custom, false, false).is_ok());
}

#[test]
fn rejects_unsupported_quality_and_blank_output_folder() {
    assert_eq!(
        validate_download_request(&download_request("mp4", "2k"), false, false).unwrap_err(),
        "Unsupported quality selection."
    );
    let mut request = download_request("mp4", "best");
    request.output_dir = "   ".into();
    assert_eq!(
        validate_download_request(&request, false, false).unwrap_err(),
        "Output folder is not set."
    );
    request.output_dir = "C:\\Downloads".into();
    request.filename_override = Some(" ... ".into());
    assert_eq!(
        validate_download_request(&request, false, false).unwrap_err(),
        "Custom filename must contain at least one valid character."
    );
}
