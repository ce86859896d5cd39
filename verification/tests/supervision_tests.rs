use nuclear_core::downloader::supervision::{
    BoundedWait, BoundedWaitEvent, ReaderOutcome, StreamedWait, StreamedWaitEvent, WaitPhase,
};

#[test]
fn bounded_wait_returns_both_outputs_after_a_clean_exit() {
    let mut wait = BoundedWait::new();
    assert!(wait.step(BoundedWaitEvent::StdoutFinished(ReaderOutcome::Output(b"out".to_vec()))).outcome.is_none());
    let step = wait.step(BoundedWaitEvent::ChildExited);
    assert!(step.start_drain);
    let step = wait.step(BoundedWaitEvent::StderrFinished(ReaderOutcome::Output(b"err".to_vec())));
    assert_eq!(step.outcome, Some(Ok((b"out".to_vec(), b"err".to_vec()))));
    assert_eq!(wait.phase(), WaitPhase::Done);
}

#[test]
fn bounded_wait_timeout_reaps_and_fails() {
    let mut wait = BoundedWait::new();
    let step = wait.step(BoundedWaitEvent::TimedOut);
    assert!(step.reap);
    let step = wait.step(BoundedWaitEvent::Reaped(Ok(())));
    assert!(step.start_drain);
    wait.step(BoundedWaitEvent::StdoutFinished(ReaderOutcome::Output(vec![])));
    let step = wait.step(BoundedWaitEvent::StderrFinished(ReaderOutcome::Output(vec![])));
    assert_eq!(step.outcome, Some(Err("process_timeout: operation timed out".to_string())));
}

#[test]
fn bounded_wait_drain_deadline_fails_the_wait() {
    let mut wait = BoundedWait::new();
    wait.step(BoundedWaitEvent::ChildExited);
    let step = wait.step(BoundedWaitEvent::DrainTimedOut);
    assert!(step.terminate_processes);
    assert_eq!(
        step.outcome,
        Some(Err("process_drain_timeout: a descendant kept a process output pipe open".to_string()))
    );
}

#[test]
fn bounded_wait_keeps_the_first_reader_error() {
    let mut wait = BoundedWait::new();
    wait.step(BoundedWaitEvent::ChildExited);
    let step = wait.step(BoundedWaitEvent::StdoutFinished(ReaderOutcome::Failed("first".into())));
    assert!(step.terminate_processes);
    let step = wait.step(BoundedWaitEvent::StderrFinished(ReaderOutcome::Stopped));
    assert_eq!(step.outcome, Some(Err("first".to_string())));
}

#[test]
fn bounded_wait_failure_to_wait_is_reported() {
    let mut wait = BoundedWait::new();
    let step = wait.step(BoundedWaitEvent::WaitFailed("boom".into()));
    assert!(step.abort_readers && step.reap);
    assert_eq!(step.outcome, Some(Err("process_wait_failed: boom".to_string())));
}

#[test]
fn streamed_wait_hands_lines_to_one_callback_at_a_time() {
    let mut wait = StreamedWait::new();
    let step = wait.step("yt-dlp", StreamedWaitEvent::StdoutLine("a".into()));
    assert_eq!(step.start_callback, Some("a".to_string()));
    assert!(!wait.awaits_stdout());
    let step = wait.step("yt-dlp", StreamedWaitEvent::StdoutLine("b".into()));
    assert_eq!(step.start_callback, None);
    wait.step("yt-dlp", StreamedWaitEvent::CallbackFinished(Ok(())));
    assert!(wait.awaits_stdout());
    wait.step("yt-dlp", StreamedWaitEvent::StdoutEnded);
    wait.step("yt-dlp", StreamedWaitEvent::StderrFinished(Ok("tail".into())));
    let step = wait.step("yt-dlp", StreamedWaitEvent::ChildExited);
    assert_eq!(step.outcome, Some(Ok(("tail".to_string(), false))));
}

#[test]
fn streamed_wait_cancellation_stops_and_reports_cancelled() {
    let mut wait = StreamedWait::new();
    let step = wait.step("ffmpeg", StreamedWaitEvent::Cancelled);
    assert!(step.reap && step.abort_stdout && step.abort_stderr);
    let step = wait.step("ffmpeg", StreamedWaitEvent::Reaped(Ok(())));
    assert_eq!(step.outcome, Some(Ok((String::new(), true))));
}

#[test]
fn streamed_wait_callback_error_fails_the_wait() {
    let mut wait = StreamedWait::new();
    wait.step("yt-dlp", StreamedWaitEvent::StdoutLine("x".into()));
    let step = wait.step("yt-dlp", StreamedWaitEvent::CallbackFinished(Err("bad progress".into())));
    assert!(step.reap);
    let step = wait.step("yt-dlp", StreamedWaitEvent::Reaped(Ok(())));
    assert_eq!(step.outcome, Some(Err("bad progress".to_string())));
}

#[test]
fn streamed_wait_drain_timeout_names_the_stall() {
    let mut wait = StreamedWait::new();
    wait.step("yt-dlp", StreamedWaitEvent::ChildExited);
    let step = wait.step("yt-dlp", StreamedWaitEvent::DrainTimedOut);
    assert_eq!(
        step.outcome,
        Some(Err("process_drain_timeout: process output or progress callback did not finish".to_string()))
    );
}

#[test]
fn streamed_wait_failure_names_the_process() {
    let mut wait = StreamedWait::new();
    let step = wait.step("ffmpeg", StreamedWaitEvent::WaitFailed("gone".into()));
    assert_eq!(
        step.outcome,
        Some(Err("process_wait_failed: failed to wait for ffmpeg: gone".to_string()))
    );
}
