use nuclear_core::app_error::AppError;
use nuclear_core::downloader::engine::{
    download_step, end_outcome, DownloadAction, DownloadAttemptResult, DownloadEnd, DownloadEvent,
    DownloadOutcome, DownloadState,
};
use nuclear_core::downloader::publication::StagedOutputError;

fn run(format: &str, events: Vec<DownloadEvent>) -> (DownloadState, Vec<DownloadAction>) {
    let mut state = DownloadState::new(format);
    let mut actions = Vec::new();
    for event in events {
        let (next, action) = download_step(state, event);
        state = next;
        actions.push(action);
    }
    (state, actions)
}

fn started() -> Vec<DownloadEvent> {
    vec![
        DownloadEvent::Begin { cancelled: false },
        DownloadEvent::RequestChecked(Ok(())),
        DownloadEvent::FolderChecked(Ok(())),
        DownloadEvent::StagingReset(Ok(())),
    ]
}

fn finish_of(action: DownloadAction) -> DownloadOutcome {
    match action {
        DownloadAction::Finish(end) => end_outcome(end),
        other => panic!("expected a finish, got {other:?}"),
    }
}

fn failed(code: &str, message: &str) -> DownloadOutcome {
    DownloadOutcome::Failed {
        code: code.to_string(),
        message: message.to_string(),
        detail: message.to_string(),
    }
}

#[test]
fn a_cancelled_job_stops_before_any_check() {
    let (_, mut actions) = run("mp4", vec![DownloadEvent::Begin { cancelled: true }]);
    assert_eq!(finish_of(actions.remove(0)), DownloadOutcome::Cancelled);
}

#[test]
fn mp4_download_is_staged_named_published_then_cleaned_up() {
    let mut events = started();
    events.push(DownloadEvent::Attempted(DownloadAttemptResult::Completed(None)));
    events.push(DownloadEvent::StagedResolved(Ok(())));
    events.push(DownloadEvent::Named(Ok(())));
    events.push(DownloadEvent::Published(Ok("C:\\out\\clip.mp4".to_string()), false));
    events.push(DownloadEvent::CleanedUp);
    let (_, mut actions) = run("mp4", events);
    assert!(matches!(actions[0], DownloadAction::CheckRequest));
    assert!(matches!(actions[1], DownloadAction::CheckOutputFolder));
    assert!(matches!(actions[2], DownloadAction::ResetStaging { announce: true }));
    assert!(matches!(actions[3], DownloadAction::RunAttempt { use_twitter_syndication: false }));
    assert!(matches!(actions[4], DownloadAction::ResolveStaged));
    assert!(matches!(actions[5], DownloadAction::NameOutput));
    assert!(matches!(actions[6], DownloadAction::Publish));
    assert!(matches!(actions[7], DownloadAction::CleanUpStaging));
    assert_eq!(
        finish_of(actions.remove(8)),
        DownloadOutcome::Completed { filename: Some("C:\\out\\clip.mp4".to_string()) }
    );
}

#[test]
fn syndication_retry_runs_once_and_a_second_request_fails() {
    let mut events = started();
    events.push(DownloadEvent::Attempted(DownloadAttemptResult::RetryWithTwitterSyndication));
    events.push(DownloadEvent::CleanedUp);
    events.push(DownloadEvent::StagingReset(Ok(())));
    events.push(DownloadEvent::Attempted(DownloadAttemptResult::RetryWithTwitterSyndication));
    events.push(DownloadEvent::CleanedUp);
    let (_, mut actions) = run("mp4", events);
    assert!(matches!(actions[4], DownloadAction::CleanUpStaging));
    assert!(matches!(actions[5], DownloadAction::ResetStaging { announce: false }));
    assert!(matches!(actions[6], DownloadAction::RunAttempt { use_twitter_syndication: true }));
    assert!(matches!(actions[7], DownloadAction::CleanUpStaging));
    assert_eq!(
        finish_of(actions.remove(8)),
        failed("download_failed", "Download failed before retry could complete.")
    );
}

#[test]
fn webm_retry_resets_staging_without_cleanup() {
    let mut events = started();
    events.push(DownloadEvent::Attempted(DownloadAttemptResult::RetryWithTwitterSyndication));
    let (state, actions) = run("webm", events);
    assert!(state.use_twitter_syndication);
    assert!(matches!(actions[4], DownloadAction::ResetStaging { announce: false }));
}

#[test]
fn staging_failure_ends_without_cleanup() {
    let events = vec![
        DownloadEvent::Begin { cancelled: false },
        DownloadEvent::RequestChecked(Ok(())),
        DownloadEvent::FolderChecked(Ok(())),
        DownloadEvent::StagingReset(Err("disk full".to_string())),
    ];
    let (_, mut actions) = run("mp4", events);
    assert_eq!(finish_of(actions.remove(3)), failed("staging_failed", "disk full"));
}

#[test]
fn bad_final_name_is_invalid_filename_after_cleanup() {
    let mut events = started();
    events.push(DownloadEvent::Attempted(DownloadAttemptResult::Completed(None)));
    events.push(DownloadEvent::StagedResolved(Ok(())));
    events.push(DownloadEvent::Named(Err("bad name".to_string())));
    events.push(DownloadEvent::CleanedUp);
    let (_, mut actions) = run("mp4", events);
    assert!(matches!(actions[6], DownloadAction::CleanUpStaging));
    assert_eq!(finish_of(actions.remove(7)), failed("invalid_filename", "bad name"));
}

#[test]
fn webm_waits_for_a_conversion_slot() {
    let mut events = started();
    events.push(DownloadEvent::Attempted(DownloadAttemptResult::Completed(None)));
    events.push(DownloadEvent::StagedResolved(Ok(())));
    events.push(DownloadEvent::PermitNone);
    events.push(DownloadEvent::CleanedUp);
    let (_, mut actions) = run("webm", events);
    assert!(matches!(actions[5], DownloadAction::AwaitConversionPermit));
    assert_eq!(finish_of(actions.remove(7)), DownloadOutcome::Cancelled);

    let mut events = started();
    events.push(DownloadEvent::Attempted(DownloadAttemptResult::Completed(None)));
    events.push(DownloadEvent::StagedResolved(Ok(())));
    events.push(DownloadEvent::PermitFailed("closed".to_string()));
    events.push(DownloadEvent::CleanedUp);
    let (_, mut actions) = run("webm", events);
    assert_eq!(
        finish_of(actions.remove(7)),
        failed("conversion_scheduler_failed", "closed")
    );

    let mut events = started();
    events.push(DownloadEvent::Attempted(DownloadAttemptResult::Completed(None)));
    events.push(DownloadEvent::StagedResolved(Ok(())));
    events.push(DownloadEvent::PermitGranted);
    events.push(DownloadEvent::Converted(DownloadAttemptResult::Completed(Some("a.webm".to_string()))));
    events.push(DownloadEvent::CleanedUp);
    let (_, mut actions) = run("webm", events);
    assert!(matches!(actions[6], DownloadAction::Convert));
    assert!(matches!(actions[7], DownloadAction::CleanUpStaging));
    assert_eq!(
        finish_of(actions.remove(8)),
        DownloadOutcome::Completed { filename: Some("a.webm".to_string()) }
    );
}

#[test]
fn refused_request_folder_and_missing_output_keep_their_codes() {
    let (_, mut actions) = run(
        "mp4",
        vec![
            DownloadEvent::Begin { cancelled: false },
            DownloadEvent::RequestChecked(Err("no url".to_string())),
        ],
    );
    assert_eq!(finish_of(actions.remove(1)), failed("invalid_request", "no url"));

    let error = AppError::new("output_directory_unsafe", "Choose another folder.");
    let (_, mut actions) = run(
        "mp4",
        vec![
            DownloadEvent::Begin { cancelled: false },
            DownloadEvent::RequestChecked(Ok(())),
            DownloadEvent::FolderChecked(Err(error)),
        ],
    );
    assert_eq!(
        finish_of(actions.remove(2)),
        DownloadOutcome::Failed {
            code: "output_directory_unsafe".to_string(),
            message: "Choose another folder.".to_string(),
            detail: String::new(),
        }
    );

    let mut events = started();
    events.push(DownloadEvent::Attempted(DownloadAttemptResult::Completed(None)));
    events.push(DownloadEvent::StagedResolved(Err(StagedOutputError {
        code: "output_missing".to_string(),
        message: "No output.".to_string(),
    })));
    events.push(DownloadEvent::CleanedUp);
    let (_, mut actions) = run("mp4", events);
    assert_eq!(finish_of(actions.remove(6)), failed("output_missing", "No output."));
}

#[test]
fn events_out_of_order_change_nothing() {
    let (state, actions) = run("mp4", vec![DownloadEvent::CleanedUp]);
    assert!(matches!(actions[0], DownloadAction::Ignore));
    assert!(matches!(state.phase, nuclear_core::downloader::engine::DownloadPhase::Starting));
}

#[test]
fn correlation_ids_are_random_version_four_uuids() {
    let error = AppError::new("x", "y");
    assert_eq!(error.correlation_id.len(), 36);
    assert!(uuid::Uuid::parse_str(&error.correlation_id).is_ok());
    let id = nuclear_core::app_error::new_correlation_id().unwrap();
    assert_eq!(id.as_bytes()[14], b'4');
}
