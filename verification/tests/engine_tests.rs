use nuclear_core::app_error::AppError;
use nuclear_core::downloader::engine::{
    attempt_outcome, conversion_outcome, follow_up, publish_outcome, webm_conversion_args,
    AttemptFollowUp, DownloadAttemptResult, DownloadOutcome, ProcessExit,
};
use nuclear_core::downloader::errors::DownloadErrorInfo;
use nuclear_core::downloader::validation::{
    check_output_directory_metadata, output_directory_input,
};
use nuclear_core::models::DownloadRequest;

fn request(url: &str, format: &str) -> DownloadRequest {
    DownloadRequest {
        url: url.into(),
        quality: "best".into(),
        format: format.into(),
        output_dir: "C:\\Downloads".into(),
        cookie_config: None,
        filename_override: None,
        compat_config_path: None,
        selection: None,
    }
}

fn exit(success: bool, code: Option<i32>, cancelled: bool, stderr: &str) -> ProcessExit {
    ProcessExit { success, code, cancelled, stderr: stderr.into() }
}

#[test]
fn cancelled_attempt_wins_over_success() {
    let r = attempt_outcome(&exit(true, Some(0), true, ""), &request("https://example.com/v", "mp4"), false, "rt");
    assert_eq!(r, DownloadAttemptResult::Cancelled);
}

#[test]
fn successful_attempt_completes_without_a_filename() {
    let r = attempt_outcome(&exit(true, Some(0), false, ""), &request("https://example.com/v", "mp4"), false, "rt");
    assert_eq!(r, DownloadAttemptResult::Completed(None));
}

#[test]
fn x_missing_video_asks_for_one_syndication_retry() {
    let req = request("https://x.com/user/status/1", "mp4");
    let stderr = "ERROR: [twitter] 1: No video could be found in this tweet";
    let first = attempt_outcome(&exit(false, Some(1), false, stderr), &req, false, "rt");
    assert_eq!(first, DownloadAttemptResult::RetryWithTwitterSyndication);
    let second = attempt_outcome(&exit(false, Some(1), false, stderr), &req, true, "rt");
    assert!(matches!(second, DownloadAttemptResult::Error(_)));
}

#[test]
fn failed_mp4_attempt_uses_the_mp4_format_hint() {
    let req = request("https://example.com/v", "mp4");
    let r = attempt_outcome(
        &exit(false, Some(1), false, "ERROR: Requested format is not available"),
        &req,
        false,
        "yt-dlp 1",
    );
    match r {
        DownloadAttemptResult::Error(e) => {
            assert_eq!(e.code, "format_unavailable");
            assert_eq!(
                e.message,
                "No compatible MP4 stream is available for this video. Choose MKV for best quality or WebM conversion and retry."
            );
            assert_eq!(e.detail, "ERROR: Requested format is not available\n\nRuntime: yt-dlp 1");
        }
        other => panic!("unexpected {other:?}"),
    }
}

#[test]
fn follow_up_publishes_retries_or_finishes() {
    assert_eq!(follow_up(DownloadAttemptResult::Completed(None)), AttemptFollowUp::Publish);
    assert_eq!(
        follow_up(DownloadAttemptResult::RetryWithTwitterSyndication),
        AttemptFollowUp::RetryWithSyndication
    );
    assert_eq!(
        follow_up(DownloadAttemptResult::Cancelled),
        AttemptFollowUp::Finish(DownloadOutcome::Cancelled)
    );
    let e = DownloadErrorInfo { code: "c".into(), message: "m".into(), detail: "d".into() };
    assert_eq!(
        follow_up(DownloadAttemptResult::Error(e)),
        AttemptFollowUp::Finish(DownloadOutcome::Failed {
            code: "c".into(),
            message: "m".into(),
            detail: "d".into()
        })
    );
}

#[test]
fn publish_outcome_reports_path_cancellation_or_failure() {
    assert_eq!(
        publish_outcome(Ok("C:\\Downloads\\a.mp4".into()), false),
        DownloadOutcome::Completed { filename: Some("C:\\Downloads\\a.mp4".into()) }
    );
    assert_eq!(publish_outcome(Err("busy".into()), true), DownloadOutcome::Cancelled);
    assert_eq!(
        publish_outcome(Err("busy".into()), false),
        DownloadOutcome::Failed {
            code: "publish_failed".into(),
            message: "busy".into(),
            detail: "busy".into()
        }
    );
}

#[test]
fn webm_conversion_arguments_are_exact() {
    let args = webm_conversion_args("in.mkv", "out.webm");
    let expected: Vec<&str> = vec![
        "-y", "-hide_banner", "-nostats", "-stats_period", "0.5", "-i", "in.mkv", "-map",
        "0:v:0", "-map", "0:a?", "-c:v", "libvpx-vp9", "-row-mt", "1", "-cpu-used", "4", "-crf",
        "32", "-b:v", "0", "-c:a", "libopus", "-b:a", "128k", "-f", "webm", "-progress",
        "pipe:1", "out.webm",
    ];
    assert_eq!(args, expected);
}

#[test]
fn conversion_outcome_cases() {
    assert_eq!(
        conversion_outcome(&exit(true, Some(0), true, ""), None, "rt"),
        DownloadAttemptResult::Cancelled
    );
    assert_eq!(
        conversion_outcome(&exit(true, Some(0), false, ""), Some((Ok("final.webm".into()), false)), "rt"),
        DownloadAttemptResult::Completed(Some("final.webm".into()))
    );
    assert_eq!(
        conversion_outcome(&exit(true, Some(0), false, ""), Some((Err("gone".into()), true)), "rt"),
        DownloadAttemptResult::Cancelled
    );
    assert_eq!(
        conversion_outcome(&exit(true, Some(0), false, ""), Some((Err("gone".into()), false)), "rt"),
        DownloadAttemptResult::Error(DownloadErrorInfo {
            code: "postprocess_failed".into(),
            message: "gone".into(),
            detail: "gone".into()
        })
    );
    match conversion_outcome(
        &exit(false, Some(1), false, "Requested format is not available"),
        None,
        "ffmpeg 7",
    ) {
        DownloadAttemptResult::Error(e) => {
            assert_eq!(e.code, "format_unavailable");
            assert_eq!(
                e.message,
                "The requested format is not available for this video. Choose another format or quality and retry."
            );
        }
        other => panic!("unexpected {other:?}"),
    }
}

#[test]
fn output_folder_input_is_trimmed_or_refused() {
    assert_eq!(output_directory_input("  C:\\Downloads \n").unwrap(), "C:\\Downloads");
    let blank = output_directory_input("   ").unwrap_err();
    assert_eq!(blank.code, "invalid_request");
    assert_eq!(blank.summary, "Output folder is not set.");
    let long = output_directory_input(&"a".repeat(4097)).unwrap_err();
    assert_eq!(long.code, "invalid_request");
    assert_eq!(long.summary, "The output folder exceeds the 4 KiB input limit.");
}

#[test]
fn output_folder_metadata_must_be_a_plain_directory() {
    assert!(check_output_directory_metadata(true, false, false).is_ok());
    let link = check_output_directory_metadata(true, true, false).unwrap_err();
    assert_eq!(link.code, "output_directory_unsafe");
    assert_eq!(link.summary, "The selected output folder must be a regular local directory.");
    let file = check_output_directory_metadata(false, false, false).unwrap_err();
    assert_eq!(file.code, "output_directory_unsafe");
    let reparse = check_output_directory_metadata(true, false, true).unwrap_err();
    assert_eq!(reparse.summary, "The selected output folder cannot be a reparse point.");
}

#[test]
fn app_error_outcome_keeps_code_summary_and_detail() {
    let e = AppError::new("output_directory_unavailable", "The selected output folder could not be created.")
        .with_detail("permission denied");
    assert_eq!(
        DownloadOutcome::from_app_error(e),
        DownloadOutcome::Failed {
            code: "output_directory_unavailable".into(),
            message: "The selected output folder could not be created.".into(),
            detail: "permission denied".into()
        }
    );
    let plain = AppError::invalid("Output folder is not set.");
    assert!(matches!(
        DownloadOutcome::from_app_error(plain),
        DownloadOutcome::Failed { detail, .. } if detail.is_empty()
    ));
}
