//! Terminal outcomes of a download job.
use crate::downloader::errors::{
    classify_process_error, error_summary, failure_code, failure_detail, failure_message, hint_is_mp4,
    retry_with_twitter_syndication, should_retry_with_twitter_syndication, simple_error,
    DownloadErrorInfo,
};
use crate::app_error::AppError;
use crate::downloader::command_args::strs;
use crate::downloader::publication::StagedOutputError;
use crate::models::DownloadRequest;
use crate::text::{ascii_lower, str_eq};
use vstd::prelude::*;

verus! {

/// How a download job ended.
#[derive(Debug, Clone, PartialEq, Eq)]
pub enum DownloadOutcome {
    Completed { filename: Option<String> },
    Cancelled,
    Failed { code: String, message: String, detail: String },
}

/// The result of one downloader attempt.
#[derive(Debug, Clone, PartialEq, Eq)]
pub enum DownloadAttemptResult {
    Completed(Option<String>),
    Cancelled,
    RetryWithTwitterSyndication,
    Error(DownloadErrorInfo),
}

impl DownloadOutcome {
    /// A failure outcome carrying the classified error unchanged.
    pub fn from_error(error: DownloadErrorInfo) -> (o: DownloadOutcome)
        ensures
            o == (DownloadOutcome::Failed {
                code: error.code,
                message: error.message,
                detail: error.detail,
            }),
    {
        DownloadOutcome::Failed { code: error.code, message: error.message, detail: error.detail }
    }

    /// A failure outcome from an application error: its code, its summary as
    /// the message, and its detail or an empty one.
    pub fn from_app_error(error: AppError) -> (o: DownloadOutcome)
        ensures
            o matches DownloadOutcome::Failed { code, message, detail } && code == error.code && message
                == error.summary && match error.detail {
                Some(d) => detail == d,
                None => detail@ == Seq::<char>::empty(),
            },
    {
        let detail = match error.detail {
            Some(d) => d,
            None => String::new(),
        };
        DownloadOutcome::Failed { code: error.code, message: error.summary, detail }
    }
}

/// The outcome recorded for an attempt that ends the job. A pending
/// syndication retry that never ran is reported as a generic failure.
pub fn terminal_outcome_from_attempt(result: DownloadAttemptResult) -> (o: DownloadOutcome)
    ensures
        match result {
            DownloadAttemptResult::Completed(filename) => o == (DownloadOutcome::Completed {
                filename,
            }),
            DownloadAttemptResult::Cancelled => o == DownloadOutcome::Cancelled,
            DownloadAttemptResult::Error(e) => o == (DownloadOutcome::Failed {
                code: e.code,
                message: e.message,
                detail: e.detail,
            }),
            DownloadAttemptResult::RetryWithTwitterSyndication => o matches DownloadOutcome::Failed {
                code,
                message,
                detail,
            } && code@ == "download_failed"@ && message@
                == "Download failed before retry could complete."@ && detail@
                == "Download failed before retry could complete."@,
        },
{
    match result {
        DownloadAttemptResult::Completed(filename) => DownloadOutcome::Completed { filename },
        DownloadAttemptResult::Cancelled => DownloadOutcome::Cancelled,
        DownloadAttemptResult::Error(error) => DownloadOutcome::from_error(error),
        DownloadAttemptResult::RetryWithTwitterSyndication => DownloadOutcome::from_error(
            simple_error("download_failed", "Download failed before retry could complete."),
        ),
    }
}

/// How a downloader process ended, as the attempt sees it.
pub struct ProcessExit {
    /// The process exited successfully.
    pub success: bool,
    /// Its exit code, when it has one.
    pub code: Option<i32>,
    /// Whether the job was cancelled while or after it ran.
    pub cancelled: bool,
    /// The tail of its stderr.
    pub stderr: String,
}

/// The result of one attempt from how its process ended: a cancellation wins,
/// then success; a failure that the syndication API may avoid asks for one
/// retry with it, unless this attempt already used it; any other failure is
/// classified.
pub open spec fn attempt_outcome_matches(
    exit: ProcessExit,
    url: Seq<char>,
    format: Seq<char>,
    use_twitter_syndication: bool,
    runtime_summary: Seq<char>,
    r: DownloadAttemptResult,
) -> bool {
    if exit.cancelled {
        r == DownloadAttemptResult::Cancelled
    } else if exit.success {
        r == DownloadAttemptResult::Completed(None)
    } else if !use_twitter_syndication && retry_with_twitter_syndication(url, exit.stderr@) {
        r == DownloadAttemptResult::RetryWithTwitterSyndication
    } else {
        r matches DownloadAttemptResult::Error(e) && ({
            let summary = error_summary(exit.stderr@, exit.code);
            let code = failure_code(ascii_lower(exit.stderr@));
            &&& e.code@ == code
            &&& e.message@ == failure_message(code, format == "mp4"@, summary)
            &&& e.detail@ == failure_detail(exit.stderr@, summary, runtime_summary)
        })
    }
}

/// Decides the result of one download attempt once its process has ended.
pub fn attempt_outcome(
    exit: &ProcessExit,
    request: &DownloadRequest,
    use_twitter_syndication: bool,
    runtime_summary: &str,
) -> (r: DownloadAttemptResult)
    ensures
        attempt_outcome_matches(
            *exit,
            request.url@,
            request.format@,
            use_twitter_syndication,
            runtime_summary@,
            r,
        ),
{
    if exit.cancelled {
        return DownloadAttemptResult::Cancelled;
    }
    if exit.success {
        return DownloadAttemptResult::Completed(None);
    }
    if !use_twitter_syndication && should_retry_with_twitter_syndication(
        request.url.as_str(),
        exit.stderr.as_str(),
    ) {
        return DownloadAttemptResult::RetryWithTwitterSyndication;
    }
    DownloadAttemptResult::Error(
        classify_process_error(
            exit.stderr.as_str(),
            exit.code,
            Some(request.format.as_str()),
            runtime_summary,
        ),
    )
}

/// An attempt that already used the syndication API never asks for another
/// retry, so a download runs at most two attempts.
pub proof fn law_syndication_is_retried_at_most_once(
    exit: ProcessExit,
    url: Seq<char>,
    format: Seq<char>,
    runtime_summary: Seq<char>,
    r: DownloadAttemptResult,
)
    requires
        attempt_outcome_matches(exit, url, format, true, runtime_summary, r),
    ensures
        !(r is RetryWithTwitterSyndication),
{
}

/// What the download does after an attempt.
#[derive(Debug, Clone, PartialEq, Eq)]
pub enum AttemptFollowUp {
    /// Find the staged output and publish it.
    Publish,
    /// Run the attempt again through the syndication API.
    RetryWithSyndication,
    /// Stop with this outcome.
    Finish(DownloadOutcome),
}

/// The follow-up of an attempt's result.
pub fn follow_up(result: DownloadAttemptResult) -> (f: AttemptFollowUp)
    ensures
        match result {
            DownloadAttemptResult::Completed(_) => f == AttemptFollowUp::Publish,
            DownloadAttemptResult::RetryWithTwitterSyndication => f == AttemptFollowUp::RetryWithSyndication,
            DownloadAttemptResult::Cancelled => f == AttemptFollowUp::Finish(DownloadOutcome::Cancelled),
            DownloadAttemptResult::Error(e) => f == AttemptFollowUp::Finish(
                DownloadOutcome::Failed { code: e.code, message: e.message, detail: e.detail },
            ),
        },
{
    match result {
        DownloadAttemptResult::Completed(_) => AttemptFollowUp::Publish,
        DownloadAttemptResult::RetryWithTwitterSyndication => AttemptFollowUp::RetryWithSyndication,
        DownloadAttemptResult::Cancelled => AttemptFollowUp::Finish(DownloadOutcome::Cancelled),
        DownloadAttemptResult::Error(e) => AttemptFollowUp::Finish(DownloadOutcome::from_error(e)),
    }
}

/// The outcome of publishing the staged file: its published path, or, when
/// publishing failed, a cancellation if the job was cancelled and otherwise a
/// `publish_failed` error.
pub fn publish_outcome(result: Result<String, String>, cancelled: bool) -> (o: DownloadOutcome)
    ensures
        match result {
            Ok(p) => o == DownloadOutcome::Completed { filename: Some(p) },
            Err(m) => if cancelled {
                o == DownloadOutcome::Cancelled
            } else {
                o matches DownloadOutcome::Failed { code, message, detail } && code@ == "publish_failed"@
                    && message@ == m@ && detail@ == m@
            },
        },
{
    match result {
        Ok(p) => DownloadOutcome::Completed { filename: Some(p) },
        Err(m) => {
            if cancelled {
                DownloadOutcome::Cancelled
            } else {
                DownloadOutcome::from_error(simple_error("publish_failed", m.as_str()))
            }
        },
    }
}

/// The ffmpeg arguments that convert the downloaded file to WebM (VP9 video,
/// Opus audio), reporting progress on stdout.
pub open spec fn webm_conversion_arg_list(input: Seq<char>, output: Seq<char>) -> Seq<Seq<char>> {
    seq!["-y"@, "-hide_banner"@, "-nostats"@, "-stats_period"@, "0.5"@, "-i"@, input]
        + seq![
        "-map"@,
        "0:v:0"@,
        "-map"@,
        "0:a?"@,
        "-c:v"@,
        "libvpx-vp9"@,
        "-row-mt"@,
        "1"@,
        "-cpu-used"@,
        "4"@,
        "-crf"@,
        "32"@,
        "-b:v"@,
        "0"@,
        "-c:a"@,
        "libopus"@,
        "-b:a"@,
        "128k"@,
        "-f"@,
        "webm"@,
        "-progress"@,
        "pipe:1"@,
        output,
    ]
}

fn push_all(args: &mut Vec<String>, items: &[&str])
    ensures
        strs(*final(args)) == strs(*old(args)) + items@.map_values(|s: &str| s@),
{
    let mut i: usize = 0;
    while i < items.len()
        invariant
            i <= items@.len(),
            strs(*args) == strs(*old(args)) + items@.take(i as int).map_values(|s: &str| s@),
        decreases items@.len() - i,
    {
        let ghost before = strs(*args);
        args.push(items[i].to_owned());
        proof {
            assert(items@.take(i + 1).map_values(|s: &str| s@) =~= items@.take(i as int).map_values(
                |s: &str| s@,
            ).push(items@[i as int]@));
            assert(strs(*args) =~= before.push(items@[i as int]@));
        }
        i += 1;
    }
    proof {
        assert(items@.take(items@.len() as int) =~= items@);
    }
}

/// The ffmpeg arguments of a WebM conversion from `input_path` to `staged_output`.
pub fn webm_conversion_args(input_path: &str, staged_output: &str) -> (args: Vec<String>)
    ensures
        strs(args) == webm_conversion_arg_list(input_path@, staged_output@),
{
    let mut args: Vec<String> = Vec::new();
    let head: [&str; 6] = ["-y", "-hide_banner", "-nostats", "-stats_period", "0.5", "-i"];
    proof {
        assert(head@.map_values(|s: &str| s@) =~= seq![
            "-y"@,
            "-hide_banner"@,
            "-nostats"@,
            "-stats_period"@,
            "0.5"@,
            "-i"@,
        ]);
    }
    push_all(&mut args, &head);
    let ghost after_head = strs(args);
    args.push(input_path.to_owned());
    assert(strs(args) =~= after_head.push(input_path@));
    let ghost after_input = strs(args);
    let tail: [&str; 22] = [
        "-map",
        "0:v:0",
        "-map",
        "0:a?",
        "-c:v",
        "libvpx-vp9",
        "-row-mt",
        "1",
        "-cpu-used",
        "4",
        "-crf",
        "32",
        "-b:v",
        "0",
        "-c:a",
        "libopus",
        "-b:a",
        "128k",
        "-f",
        "webm",
        "-progress",
        "pipe:1",
    ];
    proof {
        assert(tail@.map_values(|s: &str| s@) =~= seq![
            "-map"@,
            "0:v:0"@,
            "-map"@,
            "0:a?"@,
            "-c:v"@,
            "libvpx-vp9"@,
            "-row-mt"@,
            "1"@,
            "-cpu-used"@,
            "4"@,
            "-crf"@,
            "32"@,
            "-b:v"@,
            "0"@,
            "-c:a"@,
            "libopus"@,
            "-b:a"@,
            "128k"@,
            "-f"@,
            "webm"@,
            "-progress"@,
            "pipe:1"@,
        ]);
    }
    push_all(&mut args, &tail);
    let ghost after_tail = strs(args);
    args.push(staged_output.to_owned());
    assert(strs(args) =~= after_tail.push(staged_output@));
    proof {
        assert(strs(args) =~= webm_conversion_arg_list(input_path@, staged_output@));
    }
    args
}

/// The result of the WebM conversion step: a cancellation wins; a successful
/// conversion is published (`published` is what publishing gave, and whether
/// the job was cancelled meanwhile); a failed one is classified as a WebM
/// failure.
pub fn conversion_outcome(
    exit: &ProcessExit,
    published: Option<(Result<String, String>, bool)>,
    runtime_summary: &str,
) -> (r: DownloadAttemptResult)
    requires
        exit.success && !exit.cancelled ==> published is Some,
    ensures
        exit.cancelled ==> r == DownloadAttemptResult::Cancelled,
        !exit.cancelled && exit.success ==> match published {
            Some((Ok(p), _)) => r == DownloadAttemptResult::Completed(Some(p)),
            Some((Err(m), cancelled)) => if cancelled {
                r == DownloadAttemptResult::Cancelled
            } else {
                r matches DownloadAttemptResult::Error(e) && e.code@ == "postprocess_failed"@ && e.message@
                    == m@ && e.detail@ == m@
            },
            None => false,
        },
        !exit.cancelled && !exit.success ==> (r matches DownloadAttemptResult::Error(e) && ({
            let summary = error_summary(exit.stderr@, exit.code);
            let code = failure_code(ascii_lower(exit.stderr@));
            &&& e.code@ == code
            &&& e.message@ == failure_message(code, false, summary)
            &&& e.detail@ == failure_detail(exit.stderr@, summary, runtime_summary@)
        })),
{
    if exit.cancelled {
        return DownloadAttemptResult::Cancelled;
    }
    if exit.success {
        return match published {
            Some((Ok(p), _)) => DownloadAttemptResult::Completed(Some(p)),
            Some((Err(m), cancelled)) => {
                if cancelled {
                    DownloadAttemptResult::Cancelled
                } else {
                    DownloadAttemptResult::Error(simple_error("postprocess_failed", m.as_str()))
                }
            },
            None => DownloadAttemptResult::Cancelled,
        };
    }
    proof {
        reveal_strlit("webm");
        reveal_strlit("mp4");
        assert("webm"@.len() == 4);
        assert("mp4"@.len() == 3);
        assert("webm"@ != "mp4"@);
        assert(!hint_is_mp4(Some("webm")));
    }
    DownloadAttemptResult::Error(
        classify_process_error(exit.stderr.as_str(), exit.code, Some("webm"), runtime_summary),
    )
}


/// How a download job ends, before it becomes a [`DownloadOutcome`] (see
/// [`end_outcome`]).
#[derive(Debug)]
pub enum DownloadEnd {
    /// The job was cancelled, before it started or while waiting for a
    /// conversion slot.
    Cancelled,
    /// The request was refused (`invalid_request`).
    InvalidRequest(String),
    /// The output folder was refused.
    OutputFolder(AppError),
    /// The staging folder could not be prepared (`staging_failed`).
    StagingFailed(String),
    /// The attempt or the conversion ended the job with this result.
    Attempt(DownloadAttemptResult),
    /// The staged output could not be found: its error code and message.
    StagedOutput(StagedOutputError),
    /// The final file name was refused (`invalid_filename`).
    InvalidFilename(String),
    /// Publishing finished: its result, and whether the job was cancelled.
    Published(Result<String, String>, bool),
    /// The conversion slot could not be acquired (`conversion_scheduler_failed`).
    SchedulerFailed(String),
}

/// Where a download job stands.
#[derive(Debug)]
pub enum DownloadPhase {
    /// Nothing done yet.
    Starting,
    /// Waiting for the request check.
    CheckingRequest,
    /// Waiting for the output-folder check.
    CheckingFolder,
    /// Waiting for the staging folder to be reset.
    ResettingStaging,
    /// Waiting for a downloader attempt.
    Attempting,
    /// Waiting for the staged output to be found.
    ResolvingStaged,
    /// Waiting for the final file name (MP4 and other formats).
    NamingOutput,
    /// Waiting for the staged file to be published.
    Publishing,
    /// Waiting for a conversion slot (WebM).
    AwaitingPermit,
    /// Waiting for the conversion (WebM).
    Converting,
    /// Waiting for the staging folder to be removed; then the job ends with
    /// the held end, or, with none, retries through the syndication API.
    CleaningUp(Option<DownloadEnd>),
    /// The job has ended.
    Finished,
}

/// The state of a download job.
#[derive(Debug)]
pub struct DownloadState {
    /// The request asks for WebM, which is converted after downloading.
    pub webm: bool,
    /// Attempts go through the syndication API.
    pub use_twitter_syndication: bool,
    pub phase: DownloadPhase,
}

/// What the caller reports to the download job.
#[derive(Debug)]
pub enum DownloadEvent {
    /// The job starts; whether it was already cancelled.
    Begin { cancelled: bool },
    /// The request check's result.
    RequestChecked(Result<(), String>),
    /// The output-folder check's result.
    FolderChecked(Result<(), AppError>),
    /// The staging folder's reset result.
    StagingReset(Result<(), String>),
    /// The downloader attempt's result.
    Attempted(DownloadAttemptResult),
    /// Whether the staged output was found.
    StagedResolved(Result<(), StagedOutputError>),
    /// Whether a final file name could be built.
    Named(Result<(), String>),
    /// Publishing's result, and whether the job was cancelled meanwhile.
    Published(Result<String, String>, bool),
    /// A conversion slot was granted.
    PermitGranted,
    /// The job was cancelled while waiting for a conversion slot.
    PermitNone,
    /// The conversion scheduler failed.
    PermitFailed(String),
    /// The conversion's result.
    Converted(DownloadAttemptResult),
    /// The staging folder was removed (failures there are only warnings).
    CleanedUp,
}

/// What the caller does next.
#[derive(Debug)]
pub enum DownloadAction {
    /// Check the request.
    CheckRequest,
    /// Check the output folder.
    CheckOutputFolder,
    /// Reset the staging folder; when `announce` is set, first report that
    /// downloading has started.
    ResetStaging { announce: bool },
    /// Run one downloader attempt into the staging folder.
    RunAttempt { use_twitter_syndication: bool },
    /// Find the staged output.
    ResolveStaged,
    /// Build the final file name.
    NameOutput,
    /// Report post-processing, then publish the staged file.
    Publish,
    /// Report that the conversion waits, then wait for a conversion slot.
    AwaitConversionPermit,
    /// Convert the staged file to WebM and publish it.
    Convert,
    /// Remove the staging folder.
    CleanUpStaging,
    /// Stop, releasing any conversion slot, with this end.
    Finish(DownloadEnd),
    /// The event does not belong to this phase; nothing changes.
    Ignore,
}

/// A download job's state on `state` and its next action after `event`.
///
/// The job first checks for cancellation, the request and the output folder.
/// Each attempt resets the staging folder first; a failed reset ends the job
/// without cleanup. An attempt that asks for the syndication API is retried
/// once through it (MP4 removes the staging folder first, WebM resets it
/// directly); a second such request ends the job. A completed attempt leads
/// to finding the staged output, then, for MP4, naming and publishing it, and
/// for WebM, waiting for a conversion slot and converting. Every end after
/// the staging folder was reset removes it first.
pub open spec fn download_next(s: DownloadState, e: DownloadEvent) -> (DownloadState, DownloadAction) {
    let webm = s.webm;
    let synd = s.use_twitter_syndication;
    let at = |p: DownloadPhase| DownloadState { webm, use_twitter_syndication: synd, phase: p };
    let clean = |end: DownloadEnd|
        (at(DownloadPhase::CleaningUp(Some(end))), DownloadAction::CleanUpStaging);
    let finish = |end: DownloadEnd| (at(DownloadPhase::Finished), DownloadAction::Finish(end));
    match s.phase {
        DownloadPhase::Starting => match e {
            DownloadEvent::Begin { cancelled } => if cancelled {
                finish(DownloadEnd::Cancelled)
            } else {
                (at(DownloadPhase::CheckingRequest), DownloadAction::CheckRequest)
            },
            _ => (s, DownloadAction::Ignore),
        },
        DownloadPhase::CheckingRequest => match e {
            DownloadEvent::RequestChecked(Err(m)) => finish(DownloadEnd::InvalidRequest(m)),
            DownloadEvent::RequestChecked(Ok(())) => (
                at(DownloadPhase::CheckingFolder),
                DownloadAction::CheckOutputFolder,
            ),
            _ => (s, DownloadAction::Ignore),
        },
        DownloadPhase::CheckingFolder => match e {
            DownloadEvent::FolderChecked(Err(err)) => finish(DownloadEnd::OutputFolder(err)),
            DownloadEvent::FolderChecked(Ok(())) => (
                at(DownloadPhase::ResettingStaging),
                DownloadAction::ResetStaging { announce: true },
            ),
            _ => (s, DownloadAction::Ignore),
        },
        DownloadPhase::ResettingStaging => match e {
            DownloadEvent::StagingReset(Err(m)) => finish(DownloadEnd::StagingFailed(m)),
            DownloadEvent::StagingReset(Ok(())) => (
                at(DownloadPhase::Attempting),
                DownloadAction::RunAttempt { use_twitter_syndication: synd },
            ),
            _ => (s, DownloadAction::Ignore),
        },
        DownloadPhase::Attempting => match e {
            DownloadEvent::Attempted(r) => match r {
                DownloadAttemptResult::Completed(_) => (
                    at(DownloadPhase::ResolvingStaged),
                    DownloadAction::ResolveStaged,
                ),
                DownloadAttemptResult::RetryWithTwitterSyndication => if synd {
                    clean(DownloadEnd::Attempt(DownloadAttemptResult::RetryWithTwitterSyndication))
                } else if webm {
                    (
                        DownloadState {
                            webm,
                            use_twitter_syndication: true,
                            phase: DownloadPhase::ResettingStaging,
                        },
                        DownloadAction::ResetStaging { announce: false },
                    )
                } else {
                    (
                        DownloadState {
                            webm,
                            use_twitter_syndication: true,
                            phase: DownloadPhase::CleaningUp(None),
                        },
                        DownloadAction::CleanUpStaging,
                    )
                },
                other => clean(DownloadEnd::Attempt(other)),
            },
            _ => (s, DownloadAction::Ignore),
        },
        DownloadPhase::ResolvingStaged => match e {
            DownloadEvent::StagedResolved(Err(info)) => clean(DownloadEnd::StagedOutput(info)),
            DownloadEvent::StagedResolved(Ok(())) => if webm {
                (at(DownloadPhase::AwaitingPermit), DownloadAction::AwaitConversionPermit)
            } else {
                (at(DownloadPhase::NamingOutput), DownloadAction::NameOutput)
            },
            _ => (s, DownloadAction::Ignore),
        },
        DownloadPhase::NamingOutput => match e {
            DownloadEvent::Named(Err(m)) => clean(DownloadEnd::InvalidFilename(m)),
            DownloadEvent::Named(Ok(())) => (at(DownloadPhase::Publishing), DownloadAction::Publish),
            _ => (s, DownloadAction::Ignore),
        },
        DownloadPhase::Publishing => match e {
            DownloadEvent::Published(res, cancelled) => clean(DownloadEnd::Published(res, cancelled)),
            _ => (s, DownloadAction::Ignore),
        },
        DownloadPhase::AwaitingPermit => match e {
            DownloadEvent::PermitGranted => (at(DownloadPhase::Converting), DownloadAction::Convert),
            DownloadEvent::PermitNone => clean(DownloadEnd::Cancelled),
            DownloadEvent::PermitFailed(m) => clean(DownloadEnd::SchedulerFailed(m)),
            _ => (s, DownloadAction::Ignore),
        },
        DownloadPhase::Converting => match e {
            DownloadEvent::Converted(r) => clean(DownloadEnd::Attempt(r)),
            _ => (s, DownloadAction::Ignore),
        },
        DownloadPhase::CleaningUp(next) => match e {
            DownloadEvent::CleanedUp => match next {
                Some(end) => finish(end),
                None => (
                    DownloadState {
                        webm,
                        use_twitter_syndication: true,
                        phase: DownloadPhase::ResettingStaging,
                    },
                    DownloadAction::ResetStaging { announce: false },
                ),
            },
            _ => (s, DownloadAction::Ignore),
        },
        DownloadPhase::Finished => (s, DownloadAction::Ignore),
    }
}

impl DownloadState {
    /// A job that has not started, for a request whose format is `format`.
    pub fn new(format: &str) -> (s: DownloadState)
        ensures
            s.webm == (format@ == "webm"@),
            !s.use_twitter_syndication,
            s.phase is Starting,
    {
        DownloadState {
            webm: str_eq(format, "webm"),
            use_twitter_syndication: false,
            phase: DownloadPhase::Starting,
        }
    }
}

fn moved(webm: bool, synd: bool, phase: DownloadPhase) -> (s: DownloadState)
    ensures
        s == (DownloadState { webm, use_twitter_syndication: synd, phase }),
{
    DownloadState { webm, use_twitter_syndication: synd, phase }
}

/// Advances a download job by one event (see [`download_next`]).
pub fn download_step(state: DownloadState, event: DownloadEvent) -> (r: (DownloadState, DownloadAction))
    ensures
        r == download_next(state, event),
{
    let webm = state.webm;
    let synd = state.use_twitter_syndication;
    match state.phase {
        DownloadPhase::Starting => match event {
            DownloadEvent::Begin { cancelled } => if cancelled {
                (moved(webm, synd, DownloadPhase::Finished), DownloadAction::Finish(DownloadEnd::Cancelled))
            } else {
                (moved(webm, synd, DownloadPhase::CheckingRequest), DownloadAction::CheckRequest)
            },
            _ => (moved(webm, synd, DownloadPhase::Starting), DownloadAction::Ignore),
        },
        DownloadPhase::CheckingRequest => match event {
            DownloadEvent::RequestChecked(Err(m)) => (
                moved(webm, synd, DownloadPhase::Finished),
                DownloadAction::Finish(DownloadEnd::InvalidRequest(m)),
            ),
            DownloadEvent::RequestChecked(Ok(())) => (
                moved(webm, synd, DownloadPhase::CheckingFolder),
                DownloadAction::CheckOutputFolder,
            ),
            _ => (moved(webm, synd, DownloadPhase::CheckingRequest), DownloadAction::Ignore),
        },
        DownloadPhase::CheckingFolder => match event {
            DownloadEvent::FolderChecked(Err(err)) => (
                moved(webm, synd, DownloadPhase::Finished),
                DownloadAction::Finish(DownloadEnd::OutputFolder(err)),
            ),
            DownloadEvent::FolderChecked(Ok(())) => (
                moved(webm, synd, DownloadPhase::ResettingStaging),
                DownloadAction::ResetStaging { announce: true },
            ),
            _ => (moved(webm, synd, DownloadPhase::CheckingFolder), DownloadAction::Ignore),
        },
        DownloadPhase::ResettingStaging => match event {
            DownloadEvent::StagingReset(Err(m)) => (
                moved(webm, synd, DownloadPhase::Finished),
                DownloadAction::Finish(DownloadEnd::StagingFailed(m)),
            ),
            DownloadEvent::StagingReset(Ok(())) => (
                moved(webm, synd, DownloadPhase::Attempting),
                DownloadAction::RunAttempt { use_twitter_syndication: synd },
            ),
            _ => (moved(webm, synd, DownloadPhase::ResettingStaging), DownloadAction::Ignore),
        },
        DownloadPhase::Attempting => match event {
            DownloadEvent::Attempted(r) => match r {
                DownloadAttemptResult::Completed(_) => (
                    moved(webm, synd, DownloadPhase::ResolvingStaged),
                    DownloadAction::ResolveStaged,
                ),
                DownloadAttemptResult::RetryWithTwitterSyndication => if synd {
                    (
                        moved(
                            webm,
                            synd,
                            DownloadPhase::CleaningUp(
                                Some(DownloadEnd::Attempt(DownloadAttemptResult::RetryWithTwitterSyndication)),
                            ),
                        ),
                        DownloadAction::CleanUpStaging,
                    )
                } else if webm {
                    (
                        moved(webm, true, DownloadPhase::ResettingStaging),
                        DownloadAction::ResetStaging { announce: false },
                    )
                } else {
                    (moved(webm, true, DownloadPhase::CleaningUp(None)), DownloadAction::CleanUpStaging)
                },
                other => (
                    moved(webm, synd, DownloadPhase::CleaningUp(Some(DownloadEnd::Attempt(other)))),
                    DownloadAction::CleanUpStaging,
                ),
            },
            _ => (moved(webm, synd, DownloadPhase::Attempting), DownloadAction::Ignore),
        },
        DownloadPhase::ResolvingStaged => match event {
            DownloadEvent::StagedResolved(Err(info)) => (
                moved(webm, synd, DownloadPhase::CleaningUp(Some(DownloadEnd::StagedOutput(info)))),
                DownloadAction::CleanUpStaging,
            ),
            DownloadEvent::StagedResolved(Ok(())) => if webm {
                (moved(webm, synd, DownloadPhase::AwaitingPermit), DownloadAction::AwaitConversionPermit)
            } else {
                (moved(webm, synd, DownloadPhase::NamingOutput), DownloadAction::NameOutput)
            },
            _ => (moved(webm, synd, DownloadPhase::ResolvingStaged), DownloadAction::Ignore),
        },
        DownloadPhase::NamingOutput => match event {
            DownloadEvent::Named(Err(m)) => (
                moved(webm, synd, DownloadPhase::CleaningUp(Some(DownloadEnd::InvalidFilename(m)))),
                DownloadAction::CleanUpStaging,
            ),
            DownloadEvent::Named(Ok(())) => (
                moved(webm, synd, DownloadPhase::Publishing),
                DownloadAction::Publish,
            ),
            _ => (moved(webm, synd, DownloadPhase::NamingOutput), DownloadAction::Ignore),
        },
        DownloadPhase::Publishing => match event {
            DownloadEvent::Published(res, cancelled) => (
                moved(
                    webm,
                    synd,
                    DownloadPhase::CleaningUp(Some(DownloadEnd::Published(res, cancelled))),
                ),
                DownloadAction::CleanUpStaging,
            ),
            _ => (moved(webm, synd, DownloadPhase::Publishing), DownloadAction::Ignore),
        },
        DownloadPhase::AwaitingPermit => match event {
            DownloadEvent::PermitGranted => (
                moved(webm, synd, DownloadPhase::Converting),
                DownloadAction::Convert,
            ),
            DownloadEvent::PermitNone => (
                moved(webm, synd, DownloadPhase::CleaningUp(Some(DownloadEnd::Cancelled))),
                DownloadAction::CleanUpStaging,
            ),
            DownloadEvent::PermitFailed(m) => (
                moved(webm, synd, DownloadPhase::CleaningUp(Some(DownloadEnd::SchedulerFailed(m)))),
                DownloadAction::CleanUpStaging,
            ),
            _ => (moved(webm, synd, DownloadPhase::AwaitingPermit), DownloadAction::Ignore),
        },
        DownloadPhase::Converting => match event {
            DownloadEvent::Converted(r) => (
                moved(webm, synd, DownloadPhase::CleaningUp(Some(DownloadEnd::Attempt(r)))),
                DownloadAction::CleanUpStaging,
            ),
            _ => (moved(webm, synd, DownloadPhase::Converting), DownloadAction::Ignore),
        },
        DownloadPhase::CleaningUp(next) => match event {
            DownloadEvent::CleanedUp => match next {
                Some(end) => (moved(webm, synd, DownloadPhase::Finished), DownloadAction::Finish(end)),
                None => (
                    moved(webm, true, DownloadPhase::ResettingStaging),
                    DownloadAction::ResetStaging { announce: false },
                ),
            },
            _ => (moved(webm, synd, DownloadPhase::CleaningUp(next)), DownloadAction::Ignore),
        },
        DownloadPhase::Finished => (moved(webm, synd, DownloadPhase::Finished), DownloadAction::Ignore),
    }
}


/// A failure outcome whose message and detail are both `m`.
pub open spec fn failed_with(o: DownloadOutcome, code: Seq<char>, m: Seq<char>) -> bool {
    o matches DownloadOutcome::Failed { code: c, message, detail } && c@ == code && message@ == m
        && detail@ == m
}

/// The outcome that ends a download job, as the original reports it.
pub open spec fn end_outcome_matches(end: DownloadEnd, o: DownloadOutcome) -> bool {
    match end {
        DownloadEnd::Cancelled => o == DownloadOutcome::Cancelled,
        DownloadEnd::InvalidRequest(m) => failed_with(o, "invalid_request"@, m@),
        DownloadEnd::OutputFolder(e) => o matches DownloadOutcome::Failed { code, message, detail }
            && code == e.code && message == e.summary && match e.detail {
            Some(d) => detail == d,
            None => detail@ == Seq::<char>::empty(),
        },
        DownloadEnd::StagingFailed(m) => failed_with(o, "staging_failed"@, m@),
        DownloadEnd::Attempt(r) => match r {
            DownloadAttemptResult::Completed(filename) => o == (DownloadOutcome::Completed { filename }),
            DownloadAttemptResult::Cancelled => o == DownloadOutcome::Cancelled,
            DownloadAttemptResult::Error(e) => o == (DownloadOutcome::Failed {
                code: e.code,
                message: e.message,
                detail: e.detail,
            }),
            DownloadAttemptResult::RetryWithTwitterSyndication => failed_with(
                o,
                "download_failed"@,
                "Download failed before retry could complete."@,
            ),
        },
        DownloadEnd::StagedOutput(info) => failed_with(o, info.code@, info.message@),
        DownloadEnd::InvalidFilename(m) => failed_with(o, "invalid_filename"@, m@),
        DownloadEnd::Published(res, cancelled) => match res {
            Ok(p) => o == DownloadOutcome::Completed { filename: Some(p) },
            Err(m) => if cancelled {
                o == DownloadOutcome::Cancelled
            } else {
                failed_with(o, "publish_failed"@, m@)
            },
        },
        DownloadEnd::SchedulerFailed(m) => failed_with(o, "conversion_scheduler_failed"@, m@),
    }
}

/// The outcome of a download job that ended with `end`.
pub fn end_outcome(end: DownloadEnd) -> (o: DownloadOutcome)
    ensures
        end_outcome_matches(end, o),
{
    match end {
        DownloadEnd::Cancelled => DownloadOutcome::Cancelled,
        DownloadEnd::InvalidRequest(m) => DownloadOutcome::from_error(
            simple_error("invalid_request", m.as_str()),
        ),
        DownloadEnd::OutputFolder(e) => DownloadOutcome::from_app_error(e),
        DownloadEnd::StagingFailed(m) => DownloadOutcome::from_error(
            simple_error("staging_failed", m.as_str()),
        ),
        DownloadEnd::Attempt(r) => terminal_outcome_from_attempt(r),
        DownloadEnd::StagedOutput(info) => DownloadOutcome::from_error(
            simple_error(info.code.as_str(), info.message.as_str()),
        ),
        DownloadEnd::InvalidFilename(m) => DownloadOutcome::from_error(
            simple_error("invalid_filename", m.as_str()),
        ),
        DownloadEnd::Published(res, cancelled) => publish_outcome(res, cancelled),
        DownloadEnd::SchedulerFailed(m) => DownloadOutcome::from_error(
            simple_error("conversion_scheduler_failed", m.as_str()),
        ),
    }
}

/// How many more downloader attempts a job in state `s` can still run: two
/// before the first, one while the syndication retry is still open, none
/// after an attempt through the syndication API.
pub open spec fn attempts_left(s: DownloadState) -> nat {
    match s.phase {
        DownloadPhase::Finished => 0,
        DownloadPhase::CleaningUp(None) => 1,
        DownloadPhase::Starting | DownloadPhase::CheckingRequest | DownloadPhase::CheckingFolder
        | DownloadPhase::ResettingStaging => if s.use_twitter_syndication {
            1
        } else {
            2
        },
        _ => if s.use_twitter_syndication {
            0
        } else {
            1
        },
    }
}

/// How many more attempts through the syndication API a job in state `s`
/// can still run.
pub open spec fn syndication_attempts_left(s: DownloadState) -> nat {
    match s.phase {
        DownloadPhase::Finished => 0,
        DownloadPhase::Starting | DownloadPhase::CheckingRequest | DownloadPhase::CheckingFolder
        | DownloadPhase::ResettingStaging | DownloadPhase::CleaningUp(None) => 1,
        _ => if s.use_twitter_syndication {
            0
        } else {
            1
        },
    }
}

/// The states and actions a job passes through for a series of events.
pub open spec fn download_run(s: DownloadState, events: Seq<DownloadEvent>) -> Seq<DownloadAction>
    decreases events.len(),
{
    if events.len() == 0 {
        Seq::empty()
    } else {
        let (n, a) = download_next(s, events[0]);
        seq![a] + download_run(n, events.drop_first())
    }
}

/// The number of attempts among `actions`, and of those through the
/// syndication API.
pub open spec fn attempts_in(actions: Seq<DownloadAction>, syndication_only: bool) -> nat
    decreases actions.len(),
{
    if actions.len() == 0 {
        0
    } else {
        let here: nat = match actions[0] {
            DownloadAction::RunAttempt { use_twitter_syndication } => if !syndication_only
                || use_twitter_syndication {
                1
            } else {
                0
            },
            _ => 0,
        };
        here + attempts_in(actions.drop_first(), syndication_only)
    }
}

proof fn lemma_step_budget(s: DownloadState, e: DownloadEvent)
    ensures
        ({
            let (n, a) = download_next(s, e);
            &&& attempts_in(seq![a], false) + attempts_left(n) <= attempts_left(s)
            &&& attempts_in(seq![a], true) + syndication_attempts_left(n) <= syndication_attempts_left(s)
        }),
{
    let (n, a) = download_next(s, e);
    assert(seq![a].drop_first() =~= Seq::<DownloadAction>::empty());
    assert(attempts_in(seq![a].drop_first(), false) == 0);
    assert(attempts_in(seq![a].drop_first(), true) == 0);
    assert(seq![a][0] == a);
    match a {
        DownloadAction::RunAttempt { use_twitter_syndication } => {
            assert(s.phase is ResettingStaging);
            assert(use_twitter_syndication == s.use_twitter_syndication);
        },
        _ => {
            assert(attempts_in(seq![a], false) == 0);
            assert(attempts_in(seq![a], true) == 0);
        },
    }
}

proof fn lemma_run_budget(s: DownloadState, events: Seq<DownloadEvent>)
    ensures
        attempts_in(download_run(s, events), false) <= attempts_left(s),
        attempts_in(download_run(s, events), true) <= syndication_attempts_left(s),
    decreases events.len(),
{
    if events.len() > 0 {
        let (n, a) = download_next(s, events[0]);
        lemma_step_budget(s, events[0]);
        lemma_run_budget(n, events.drop_first());
        let rest = download_run(n, events.drop_first());
        assert((seq![a] + rest).drop_first() =~= rest);
        assert(seq![a].drop_first() =~= Seq::<DownloadAction>::empty());
    }
}

/// Whatever events a download job receives, it runs at most two downloader
/// attempts, and at most one of them through the syndication API: the
/// syndication retry happens at most once.
pub proof fn law_download_retries_syndication_at_most_once(format: Seq<char>, events: Seq<DownloadEvent>)
    ensures
        ({
            let start = DownloadState {
                webm: format == "webm"@,
                use_twitter_syndication: false,
                phase: DownloadPhase::Starting,
            };
            &&& attempts_in(download_run(start, events), false) <= 2
            &&& attempts_in(download_run(start, events), true) <= 1
        }),
{
    let start = DownloadState {
        webm: format == "webm"@,
        use_twitter_syndication: false,
        phase: DownloadPhase::Starting,
    };
    lemma_run_budget(start, events);
}

/// A download job finishes only after removing its staging folder, except
/// when it ends at the start (cancelled, or its request or output folder
/// refused) or when resetting the staging folder fails; publishing and
/// converting always come before that cleanup.
pub proof fn law_download_cleans_up_before_finishing(s: DownloadState, e: DownloadEvent)
    ensures
        ({
            let (n, a) = download_next(s, e);
            &&& a is Finish ==> (s.phase is CleaningUp && e is CleanedUp) || s.phase is Starting
                || s.phase is CheckingRequest || s.phase is CheckingFolder || s.phase is ResettingStaging
            &&& (a is Publish || a is Convert) ==> !(s.phase is CleaningUp) && !(n.phase is CleaningUp)
                && !(n.phase is Finished)
        }),
{
}

} // verus!
