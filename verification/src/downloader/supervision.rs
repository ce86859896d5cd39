//! Decisions of the waits that supervise a child process. The waiting itself
//! (the child, its output readers, cancellation and deadlines) happens in the
//! caller, which reports each thing that happened as an event and carries out
//! the step that comes back.
use crate::text::concat2;
use vstd::prelude::*;

verus! {

pub const STDOUT_READER_STOPPED: &'static str =
    "process_output_failed: stdout reader stopped unexpectedly";

pub const STDERR_READER_STOPPED: &'static str =
    "process_output_failed: stderr reader stopped unexpectedly";

pub const PROCESS_CANCELLED: &'static str = "process_cancelled: operation was cancelled";

pub const PROCESS_CANCELLED_DURING_DRAIN: &'static str =
    "process_cancelled: operation was cancelled during output drain";

pub const PROCESS_TIMED_OUT: &'static str = "process_timeout: operation timed out";

pub const PROCESS_DRAIN_TIMED_OUT: &'static str =
    "process_drain_timeout: a descendant kept a process output pipe open";

/// Where a bounded wait stands.
#[derive(Clone, Copy, Debug, PartialEq, Eq, Structural)]
pub enum WaitPhase {
    /// The child runs; output is read.
    Running,
    /// The child is being terminated and reaped after an error.
    Reaping,
    /// The child has exited; the output readers are drained.
    Draining,
    /// The wait has returned.
    Done,
}

/// How an output reader ended: with the bytes it read, with its own error,
/// or without finishing (its task stopped).
pub enum ReaderOutcome {
    Output(Vec<u8>),
    Failed(String),
    Stopped,
}

/// What happened while waiting for a child whose whole output is collected.
pub enum BoundedWaitEvent {
    /// The child exited.
    ChildExited,
    /// Waiting for the child failed; the text of the failure.
    WaitFailed(String),
    StdoutFinished(ReaderOutcome),
    StderrFinished(ReaderOutcome),
    /// The job was cancelled.
    Cancelled,
    /// The overall deadline passed.
    TimedOut,
    /// Terminating and reaping the child finished, or failed with a message.
    Reaped(Result<(), String>),
    /// The deadline for draining the output passed.
    DrainTimedOut,
}

/// What the caller does next, in this order: terminate the job's processes,
/// abort the readers that are still running, terminate and reap the child
/// (and report [`BoundedWaitEvent::Reaped`]), start the drain deadline, and
/// return the outcome when there is one.
pub struct BoundedWaitStep {
    pub terminate_processes: bool,
    pub abort_readers: bool,
    pub reap: bool,
    pub start_drain: bool,
    pub outcome: Option<Result<(Vec<u8>, Vec<u8>), String>>,
}

pub struct BoundedWaitModel {
    pub phase: WaitPhase,
    pub stdout: Option<Seq<u8>>,
    pub stderr: Option<Seq<u8>>,
    pub error: Option<Seq<char>>,
}

pub struct StepModel {
    pub terminate_processes: bool,
    pub abort_readers: bool,
    pub reap: bool,
    pub start_drain: bool,
    pub outcome: Option<Result<(Seq<u8>, Seq<u8>), Seq<char>>>,
}

pub open spec fn step_view(s: BoundedWaitStep) -> StepModel {
    StepModel {
        terminate_processes: s.terminate_processes,
        abort_readers: s.abort_readers,
        reap: s.reap,
        start_drain: s.start_drain,
        outcome: match s.outcome {
            Some(Ok((o, e))) => Some(Ok((o@, e@))),
            Some(Err(m)) => Some(Err(m@)),
            None => None,
        },
    }
}

pub open spec fn quiet() -> StepModel {
    StepModel { terminate_processes: false, abort_readers: false, reap: false, start_drain: false, outcome: None }
}

/// The bytes a reader leaves, and the error it reports, if any.
pub open spec fn reader_bytes(r: ReaderOutcome) -> Seq<u8> {
    match r {
        ReaderOutcome::Output(v) => v@,
        _ => Seq::empty(),
    }
}

pub open spec fn reader_error(r: ReaderOutcome, stopped: Seq<char>) -> Option<Seq<char>> {
    match r {
        ReaderOutcome::Output(_) => None,
        ReaderOutcome::Failed(m) => Some(m@),
        ReaderOutcome::Stopped => Some(stopped),
    }
}

pub open spec fn keep_first(error: Option<Seq<char>>, new: Seq<char>) -> Option<Seq<char>> {
    match error {
        Some(e) => Some(e),
        None => Some(new),
    }
}

/// What a finished drain returns: the first error recorded, else both outputs.
pub open spec fn drained_outcome(m: BoundedWaitModel) -> Option<Result<(Seq<u8>, Seq<u8>), Seq<char>>> {
    if m.stdout is Some && m.stderr is Some {
        match m.error {
            Some(e) => Some(Err(e)),
            None => Some(Ok((m.stdout->0, m.stderr->0))),
        }
    } else {
        None
    }
}

/// Entering the drain: it ends at once when both readers have finished.
pub open spec fn enter_drain(m: BoundedWaitModel) -> (BoundedWaitModel, StepModel) {
    let o = drained_outcome(m);
    (
        BoundedWaitModel {
            phase: if o is Some {
                WaitPhase::Done
            } else {
                WaitPhase::Draining
            },
            ..m
        },
        StepModel { start_drain: o is None, outcome: o, ..quiet() },
    )
}

/// A reader that ends while the child runs: its bytes are kept; its error
/// stops the child.
pub open spec fn running_reader(m: BoundedWaitModel, r: ReaderOutcome, is_stdout: bool) -> (BoundedWaitModel, StepModel) {
    let stopped = if is_stdout {
        STDOUT_READER_STOPPED@
    } else {
        STDERR_READER_STOPPED@
    };
    let m1 = if is_stdout {
        BoundedWaitModel { stdout: Some(reader_bytes(r)), ..m }
    } else {
        BoundedWaitModel { stderr: Some(reader_bytes(r)), ..m }
    };
    match reader_error(r, stopped) {
        None => (m1, quiet()),
        Some(e) => (
            BoundedWaitModel { phase: WaitPhase::Reaping, error: Some(e), ..m1 },
            StepModel { reap: true, ..quiet() },
        ),
    }
}

/// A reader that ends during the drain: its error is kept unless one was
/// recorded before, and the job's processes are terminated.
pub open spec fn draining_reader(m: BoundedWaitModel, r: ReaderOutcome, is_stdout: bool) -> (BoundedWaitModel, StepModel) {
    let stopped = if is_stdout {
        STDOUT_READER_STOPPED@
    } else {
        STDERR_READER_STOPPED@
    };
    let m1 = if is_stdout {
        BoundedWaitModel { stdout: Some(reader_bytes(r)), ..m }
    } else {
        BoundedWaitModel { stderr: Some(reader_bytes(r)), ..m }
    };
    let (m2, terminate) = match reader_error(r, stopped) {
        None => (m1, false),
        Some(e) => (BoundedWaitModel { error: keep_first(m.error, e), ..m1 }, true),
    };
    let o = drained_outcome(m2);
    (
        BoundedWaitModel {
            phase: if o is Some {
                WaitPhase::Done
            } else {
                WaitPhase::Draining
            },
            ..m2
        },
        StepModel { terminate_processes: terminate, outcome: o, ..quiet() },
    )
}

/// The wait's answer to one event.
pub open spec fn bounded_wait_step(m: BoundedWaitModel, event: BoundedWaitEvent) -> (BoundedWaitModel, StepModel) {
    match m.phase {
        WaitPhase::Running => match event {
            BoundedWaitEvent::ChildExited => enter_drain(m),
            BoundedWaitEvent::WaitFailed(msg) => (
                BoundedWaitModel { phase: WaitPhase::Done, ..m },
                StepModel {
                    terminate_processes: true,
                    abort_readers: true,
                    reap: true,
                    start_drain: false,
                    outcome: Some(Err("process_wait_failed: "@ + msg@)),
                },
            ),
            BoundedWaitEvent::StdoutFinished(r) => if m.stdout is None {
                running_reader(m, r, true)
            } else {
                (m, quiet())
            },
            BoundedWaitEvent::StderrFinished(r) => if m.stderr is None {
                running_reader(m, r, false)
            } else {
                (m, quiet())
            },
            BoundedWaitEvent::Cancelled => (
                BoundedWaitModel { phase: WaitPhase::Reaping, error: Some(PROCESS_CANCELLED@), ..m },
                StepModel { reap: true, ..quiet() },
            ),
            BoundedWaitEvent::TimedOut => (
                BoundedWaitModel { phase: WaitPhase::Reaping, error: Some(PROCESS_TIMED_OUT@), ..m },
                StepModel { reap: true, ..quiet() },
            ),
            _ => (m, quiet()),
        },
        WaitPhase::Reaping => match event {
            BoundedWaitEvent::Reaped(Ok(())) => enter_drain(m),
            BoundedWaitEvent::Reaped(Err(msg)) => (
                BoundedWaitModel { phase: WaitPhase::Done, ..m },
                StepModel { outcome: Some(Err(msg@)), ..quiet() },
            ),
            _ => (m, quiet()),
        },
        WaitPhase::Draining => match event {
            BoundedWaitEvent::StdoutFinished(r) => if m.stdout is None {
                draining_reader(m, r, true)
            } else {
                (m, quiet())
            },
            BoundedWaitEvent::StderrFinished(r) => if m.stderr is None {
                draining_reader(m, r, false)
            } else {
                (m, quiet())
            },
            BoundedWaitEvent::Cancelled => if m.error is None {
                (
                    BoundedWaitModel { error: Some(PROCESS_CANCELLED_DURING_DRAIN@), ..m },
                    StepModel { terminate_processes: true, ..quiet() },
                )
            } else {
                (m, quiet())
            },
            BoundedWaitEvent::DrainTimedOut => (
                BoundedWaitModel { phase: WaitPhase::Done, ..m },
                StepModel {
                    terminate_processes: true,
                    abort_readers: true,
                    reap: false,
                    start_drain: false,
                    outcome: Some(Err(PROCESS_DRAIN_TIMED_OUT@)),
                },
            ),
            _ => (m, quiet()),
        },
        WaitPhase::Done => (m, quiet()),
    }
}

/// Reachable states: no error while the child runs normally, and an error
/// recorded whenever the child is being reaped.
pub open spec fn bounded_wait_wf(m: BoundedWaitModel) -> bool {
    &&& m.phase is Running ==> m.error is None
    &&& m.phase is Reaping ==> m.error is Some
}

/// The decisions of a wait for a child whose whole output is collected within
/// limits, under a deadline, with a drain period after the child exits.
pub struct BoundedWait {
    phase: WaitPhase,
    stdout: Option<Vec<u8>>,
    stderr: Option<Vec<u8>>,
    error: Option<String>,
}

impl View for BoundedWait {
    type V = BoundedWaitModel;

    closed spec fn view(&self) -> BoundedWaitModel {
        BoundedWaitModel {
            phase: self.phase,
            stdout: match self.stdout {
                Some(v) => Some(v@),
                None => None,
            },
            stderr: match self.stderr {
                Some(v) => Some(v@),
                None => None,
            },
            error: match self.error {
                Some(e) => Some(e@),
                None => None,
            },
        }
    }
}

fn quiet_step() -> (s: BoundedWaitStep)
    ensures
        step_view(s) == quiet(),
{
    BoundedWaitStep { terminate_processes: false, abort_readers: false, reap: false, start_drain: false, outcome: None }
}

fn reader_parts(r: ReaderOutcome, stopped: &str) -> (res: (Vec<u8>, Option<String>))
    ensures
        res.0@ == reader_bytes(r),
        match reader_error(r, stopped@) {
            Some(e) => res.1 matches Some(m) && m@ == e,
            None => res.1 is None,
        },
{
    match r {
        ReaderOutcome::Output(v) => (v, None),
        ReaderOutcome::Failed(m) => (Vec::new(), Some(m)),
        ReaderOutcome::Stopped => (Vec::new(), Some(stopped.to_owned())),
    }
}

impl BoundedWait {
    /// A wait for a child that has just been started.
    pub fn new() -> (w: BoundedWait)
        ensures
            w@ == (BoundedWaitModel { phase: WaitPhase::Running, stdout: None, stderr: None, error: None }),
            bounded_wait_wf(w@),
    {
        BoundedWait { phase: WaitPhase::Running, stdout: None, stderr: None, error: None }
    }

    pub fn phase(&self) -> (p: WaitPhase)
        ensures
            p == self@.phase,
    {
        self.phase
    }

    /// Whether the stdout reader is still awaited.
    pub fn awaits_stdout(&self) -> (b: bool)
        ensures
            b == (self@.stdout is None),
    {
        self.stdout.is_none()
    }

    /// Whether the stderr reader is still awaited.
    pub fn awaits_stderr(&self) -> (b: bool)
        ensures
            b == (self@.stderr is None),
    {
        self.stderr.is_none()
    }

    /// Whether a cancellation is still listened for.
    pub fn listens_for_cancel(&self) -> (b: bool)
        ensures
            b == (self@.phase is Running || (self@.phase is Draining && self@.error is None)),
    {
        match self.phase {
            WaitPhase::Running => true,
            WaitPhase::Draining => self.error.is_none(),
            _ => false,
        }
    }

    fn take_outcome(&mut self) -> (o: Option<Result<(Vec<u8>, Vec<u8>), String>>)
        ensures
            ({
                let d = drained_outcome(old(self)@);
                &&& match (o, d) {
                    (Some(Ok((a, b))), Some(Ok((x, y)))) => a@ == x && b@ == y,
                    (Some(Err(a)), Some(Err(x))) => a@ == x,
                    (None, None) => true,
                    _ => false,
                }
                &&& final(self)@ == (BoundedWaitModel {
                    phase: if d is Some {
                        WaitPhase::Done
                    } else {
                        WaitPhase::Draining
                    },
                    ..old(self)@
                })
            }),
    {
        if self.stdout.is_some() && self.stderr.is_some() {
            self.phase = WaitPhase::Done;
            match &self.error {
                Some(e) => Some(Err(e.clone())),
                None => {
                    let o = match &self.stdout {
                        Some(v) => v.clone(),
                        None => Vec::new(),
                    };
                    let e = match &self.stderr {
                        Some(v) => v.clone(),
                        None => Vec::new(),
                    };
                    Some(Ok((o, e)))
                },
            }
        } else {
            self.phase = WaitPhase::Draining;
            None
        }
    }

    fn enter_drain_exec(&mut self) -> (s: BoundedWaitStep)
        ensures
            (final(self)@, step_view(s)) == enter_drain(old(self)@),
    {
        let outcome = self.take_outcome();
        let start = outcome.is_none();
        BoundedWaitStep { terminate_processes: false, abort_readers: false, reap: false, start_drain: start, outcome }
    }

    /// Decides what to do about one event.
    pub fn step(&mut self, event: BoundedWaitEvent) -> (s: BoundedWaitStep)
        ensures
            (final(self)@, step_view(s)) == bounded_wait_step(old(self)@, event),
            bounded_wait_wf(old(self)@) ==> bounded_wait_wf(final(self)@),
    {
        match self.phase {
            WaitPhase::Running => match event {
                BoundedWaitEvent::ChildExited => self.enter_drain_exec(),
                BoundedWaitEvent::WaitFailed(msg) => {
                    self.phase = WaitPhase::Done;
                    BoundedWaitStep {
                        terminate_processes: true,
                        abort_readers: true,
                        reap: true,
                        start_drain: false,
                        outcome: Some(Err(concat2("process_wait_failed: ", msg.as_str()))),
                    }
                },
                BoundedWaitEvent::StdoutFinished(r) => {
                    if self.stdout.is_some() {
                        return quiet_step();
                    }
                    let (bytes, err) = reader_parts(r, STDOUT_READER_STOPPED);
                    self.stdout = Some(bytes);
                    match err {
                        None => quiet_step(),
                        Some(e) => {
                            self.phase = WaitPhase::Reaping;
                            self.error = Some(e);
                            BoundedWaitStep { reap: true, ..quiet_step() }
                        },
                    }
                },
                BoundedWaitEvent::StderrFinished(r) => {
                    if self.stderr.is_some() {
                        return quiet_step();
                    }
                    let (bytes, err) = reader_parts(r, STDERR_READER_STOPPED);
                    self.stderr = Some(bytes);
                    match err {
                        None => quiet_step(),
                        Some(e) => {
                            self.phase = WaitPhase::Reaping;
                            self.error = Some(e);
                            BoundedWaitStep { reap: true, ..quiet_step() }
                        },
                    }
                },
                BoundedWaitEvent::Cancelled => {
                    self.phase = WaitPhase::Reaping;
                    self.error = Some(PROCESS_CANCELLED.to_owned());
                    BoundedWaitStep { reap: true, ..quiet_step() }
                },
                BoundedWaitEvent::TimedOut => {
                    self.phase = WaitPhase::Reaping;
                    self.error = Some(PROCESS_TIMED_OUT.to_owned());
                    BoundedWaitStep { reap: true, ..quiet_step() }
                },
                _ => quiet_step(),
            },
            WaitPhase::Reaping => match event {
                BoundedWaitEvent::Reaped(Ok(())) => self.enter_drain_exec(),
                BoundedWaitEvent::Reaped(Err(msg)) => {
                    self.phase = WaitPhase::Done;
                    BoundedWaitStep { outcome: Some(Err(msg)), ..quiet_step() }
                },
                _ => quiet_step(),
            },
            WaitPhase::Draining => match event {
                BoundedWaitEvent::StdoutFinished(r) => {
                    if self.stdout.is_some() {
                        return quiet_step();
                    }
                    let (bytes, err) = reader_parts(r, STDOUT_READER_STOPPED);
                    self.stdout = Some(bytes);
                    let terminate = match err {
                        None => false,
                        Some(e) => {
                            if self.error.is_none() {
                                self.error = Some(e);
                            }
                            true
                        },
                    };
                    let outcome = self.take_outcome();
                    BoundedWaitStep { terminate_processes: terminate, outcome, ..quiet_step() }
                },
                BoundedWaitEvent::StderrFinished(r) => {
                    if self.stderr.is_some() {
                        return quiet_step();
                    }
                    let (bytes, err) = reader_parts(r, STDERR_READER_STOPPED);
                    self.stderr = Some(bytes);
                    let terminate = match err {
                        None => false,
                        Some(e) => {
                            if self.error.is_none() {
                                self.error = Some(e);
                            }
                            true
                        },
                    };
                    let outcome = self.take_outcome();
                    BoundedWaitStep { terminate_processes: terminate, outcome, ..quiet_step() }
                },
                BoundedWaitEvent::Cancelled => {
                    if self.error.is_none() {
                        self.error = Some(PROCESS_CANCELLED_DURING_DRAIN.to_owned());
                        BoundedWaitStep { terminate_processes: true, ..quiet_step() }
                    } else {
                        quiet_step()
                    }
                },
                BoundedWaitEvent::DrainTimedOut => {
                    self.phase = WaitPhase::Done;
                    BoundedWaitStep {
                        terminate_processes: true,
                        abort_readers: true,
                        reap: false,
                        start_drain: false,
                        outcome: Some(Err(PROCESS_DRAIN_TIMED_OUT.to_owned())),
                    }
                },
                _ => quiet_step(),
            },
            WaitPhase::Done => quiet_step(),
        }
    }
}

/// Once the wait records an error, it never answers with output: the error
/// stays recorded, or the wait ends with an error.
pub proof fn law_recorded_error_is_never_lost(m: BoundedWaitModel, event: BoundedWaitEvent)
    requires
        bounded_wait_wf(m),
        m.error is Some,
        !(m.phase is Done),
    ensures
        ({
            let (m1, s) = bounded_wait_step(m, event);
            &&& m1.error == m.error
            &&& !(s.outcome matches Some(Ok(_)))
        }),
{
}

/// The wait answers with output only once both readers finished without an
/// error, and then with exactly what they read.
pub proof fn law_output_only_when_both_readers_finished(m: BoundedWaitModel, event: BoundedWaitEvent)
    ensures
        ({
            let (m1, s) = bounded_wait_step(m, event);
            s.outcome matches Some(Ok((o, e))) ==> m1.error is None && m1.stdout == Some(o) && m1.stderr
                == Some(e) && m1.phase is Done
        }),
{
}

/// The drain deadline always ends a wait that is draining, with an error.
pub proof fn law_drain_deadline_ends_the_wait(m: BoundedWaitModel)
    requires
        m.phase is Draining,
    ensures
        ({
            let (m1, s) = bounded_wait_step(m, BoundedWaitEvent::DrainTimedOut);
            m1.phase is Done && s.outcome == Some(
                Err::<(Seq<u8>, Seq<u8>), Seq<char>>(PROCESS_DRAIN_TIMED_OUT@),
            ) && s.terminate_processes
        }),
{
}

/// A cancellation or the deadline while the child runs stops it and makes the
/// wait fail with that reason, whatever the readers report afterwards.
pub proof fn law_cancel_or_timeout_fails_the_wait(m: BoundedWaitModel, cancelled: bool)
    requires
        m.phase is Running,
    ensures
        ({
            let event = if cancelled {
                BoundedWaitEvent::Cancelled
            } else {
                BoundedWaitEvent::TimedOut
            };
            let (m1, s) = bounded_wait_step(m, event);
            &&& s.reap
            &&& m1.phase is Reaping
            &&& m1.error == Some(
                if cancelled {
                    PROCESS_CANCELLED@
                } else {
                    PROCESS_TIMED_OUT@
                },
            )
        }),
{
}

/// What happened while waiting for a child whose stdout lines are handed to a
/// callback one at a time.
pub enum StreamedWaitEvent {
    /// The pending line callback finished.
    CallbackFinished(Result<(), String>),
    ChildExited,
    /// Waiting for the child failed; the text of the failure.
    WaitFailed(String),
    StdoutLine(String),
    StdoutEnded,
    /// The stdout reader failed with a message.
    StdoutFailed(String),
    /// The stdout reader went away without a last event.
    StdoutClosed,
    /// The stderr tail reader finished with the tail or an error.
    StderrFinished(Result<String, String>),
    Cancelled,
    Reaped(Result<(), String>),
    DrainTimedOut,
}

/// What the caller does next, in this order: drop the pending callback, stop
/// (or, with `join_stdout`, await) the stdout reader, abort the stderr reader,
/// terminate the job's processes, terminate and reap the child (then report
/// [`StreamedWaitEvent::Reaped`]), start the drain deadline, start the
/// callback for a line, and return the outcome when there is one: the stderr
/// tail and whether the job was cancelled, or an error.
pub struct StreamedWaitStep {
    pub drop_callback: bool,
    pub abort_stdout: bool,
    pub join_stdout: bool,
    pub abort_stderr: bool,
    pub terminate_processes: bool,
    pub reap: bool,
    pub start_drain: bool,
    pub start_callback: Option<String>,
    pub outcome: Option<Result<(String, bool), String>>,
}

pub struct StreamedWaitModel {
    pub phase: WaitPhase,
    pub stdout_open: bool,
    pub callback_pending: bool,
    pub stderr: Option<Seq<char>>,
    pub error: Option<Seq<char>>,
    pub cancelled: bool,
}

pub struct StreamedStepModel {
    pub drop_callback: bool,
    pub abort_stdout: bool,
    pub join_stdout: bool,
    pub abort_stderr: bool,
    pub terminate_processes: bool,
    pub reap: bool,
    pub start_drain: bool,
    pub start_callback: Option<Seq<char>>,
    pub outcome: Option<Result<(Seq<char>, bool), Seq<char>>>,
}

pub open spec fn streamed_step_view(s: StreamedWaitStep) -> StreamedStepModel {
    StreamedStepModel {
        drop_callback: s.drop_callback,
        abort_stdout: s.abort_stdout,
        join_stdout: s.join_stdout,
        abort_stderr: s.abort_stderr,
        terminate_processes: s.terminate_processes,
        reap: s.reap,
        start_drain: s.start_drain,
        start_callback: match s.start_callback {
            Some(l) => Some(l@),
            None => None,
        },
        outcome: match s.outcome {
            Some(Ok((t, c))) => Some(Ok((t@, c))),
            Some(Err(m)) => Some(Err(m@)),
            None => None,
        },
    }
}

pub open spec fn streamed_quiet() -> StreamedStepModel {
    StreamedStepModel {
        drop_callback: false,
        abort_stdout: false,
        join_stdout: false,
        abort_stderr: false,
        terminate_processes: false,
        reap: false,
        start_drain: false,
        start_callback: None,
        outcome: None,
    }
}

/// Whether the drain still waits for something.
pub open spec fn drain_pending(m: StreamedWaitModel) -> bool {
    m.stdout_open || m.stderr is None || m.callback_pending
}

/// What a finished streamed wait returns.
pub open spec fn streamed_outcome(m: StreamedWaitModel) -> Result<(Seq<char>, bool), Seq<char>> {
    match m.error {
        Some(e) => Err(e),
        None => Ok(
            (
                match m.stderr {
                    Some(t) => t,
                    None => Seq::empty(),
                },
                m.cancelled,
            ),
        ),
    }
}

/// Moves to the drain, or ends the wait when nothing is left to drain.
pub open spec fn streamed_settle(m: StreamedWaitModel, step: StreamedStepModel) -> (StreamedWaitModel, StreamedStepModel) {
    if drain_pending(m) {
        (m, step)
    } else {
        (StreamedWaitModel { phase: WaitPhase::Done, ..m }, StreamedStepModel { outcome: Some(streamed_outcome(m)), ..step })
    }
}

/// Entering the drain once the child has exited or been reaped.
pub open spec fn streamed_enter_drain(m: StreamedWaitModel) -> (StreamedWaitModel, StreamedStepModel) {
    if drain_pending(m) {
        (StreamedWaitModel { phase: WaitPhase::Draining, ..m }, StreamedStepModel { start_drain: true, ..streamed_quiet() })
    } else {
        (StreamedWaitModel { phase: WaitPhase::Done, ..m }, StreamedStepModel { outcome: Some(streamed_outcome(m)), ..streamed_quiet() })
    }
}

/// Stopping the child after an error while it runs: the readers stop and the
/// child is reaped.
pub open spec fn streamed_stop(m: StreamedWaitModel, error: Option<Seq<char>>, join_stdout: bool) -> (StreamedWaitModel, StreamedStepModel) {
    (
        StreamedWaitModel {
            phase: WaitPhase::Reaping,
            stdout_open: false,
            callback_pending: false,
            stderr: Some(Seq::empty()),
            error: match error {
                Some(e) => Some(e),
                None => m.error,
            },
            ..m
        },
        StreamedStepModel {
            drop_callback: m.callback_pending,
            abort_stdout: !join_stdout,
            join_stdout,
            abort_stderr: true,
            reap: true,
            ..streamed_quiet()
        },
    )
}

/// The streamed wait's answer to one event.
pub open spec fn streamed_wait_step(m: StreamedWaitModel, process_name: Seq<char>, event: StreamedWaitEvent) -> (
    StreamedWaitModel,
    StreamedStepModel,
) {
    match m.phase {
        WaitPhase::Running => match event {
            StreamedWaitEvent::CallbackFinished(r) => if !m.callback_pending {
                (m, streamed_quiet())
            } else {
                match r {
                    Ok(()) => (StreamedWaitModel { callback_pending: false, ..m }, streamed_quiet()),
                    Err(e) => streamed_stop(StreamedWaitModel { callback_pending: false, ..m }, Some(e@), false),
                }
            },
            StreamedWaitEvent::ChildExited => streamed_enter_drain(m),
            StreamedWaitEvent::WaitFailed(msg) => (
                StreamedWaitModel { phase: WaitPhase::Done, callback_pending: false, ..m },
                StreamedStepModel {
                    drop_callback: m.callback_pending,
                    abort_stdout: true,
                    abort_stderr: true,
                    reap: true,
                    outcome: Some(
                        Err("process_wait_failed: failed to wait for "@ + process_name + ": "@ + msg@),
                    ),
                    ..streamed_quiet()
                },
            ),
            StreamedWaitEvent::StdoutLine(line) => if m.stdout_open && !m.callback_pending {
                (
                    StreamedWaitModel { callback_pending: true, ..m },
                    StreamedStepModel { start_callback: Some(line@), ..streamed_quiet() },
                )
            } else {
                (m, streamed_quiet())
            },
            StreamedWaitEvent::StdoutEnded => if m.stdout_open && !m.callback_pending {
                (StreamedWaitModel { stdout_open: false, ..m }, streamed_quiet())
            } else {
                (m, streamed_quiet())
            },
            StreamedWaitEvent::StdoutFailed(e) => if m.stdout_open && !m.callback_pending {
                streamed_stop(m, Some(e@), true)
            } else {
                (m, streamed_quiet())
            },
            StreamedWaitEvent::StdoutClosed => if m.stdout_open && !m.callback_pending {
                streamed_stop(m, Some(STDOUT_READER_STOPPED@), true)
            } else {
                (m, streamed_quiet())
            },
            StreamedWaitEvent::StderrFinished(r) => if m.stderr is Some {
                (m, streamed_quiet())
            } else {
                match r {
                    Ok(t) => (StreamedWaitModel { stderr: Some(t@), ..m }, streamed_quiet()),
                    Err(e) => streamed_stop(m, Some(e@), false),
                }
            },
            StreamedWaitEvent::Cancelled => streamed_stop(StreamedWaitModel { cancelled: true, ..m }, None, false),
            _ => (m, streamed_quiet()),
        },
        WaitPhase::Reaping => match event {
            StreamedWaitEvent::Reaped(Ok(())) => streamed_enter_drain(m),
            StreamedWaitEvent::Reaped(Err(msg)) => (
                StreamedWaitModel { phase: WaitPhase::Done, ..m },
                StreamedStepModel { outcome: Some(Err(msg@)), ..streamed_quiet() },
            ),
            _ => (m, streamed_quiet()),
        },
        WaitPhase::Draining => match event {
            StreamedWaitEvent::CallbackFinished(r) => if !m.callback_pending {
                (m, streamed_quiet())
            } else {
                match r {
                    Ok(()) => streamed_settle(StreamedWaitModel { callback_pending: false, ..m }, streamed_quiet()),
                    Err(e) => streamed_settle(
                        StreamedWaitModel { callback_pending: false, error: keep_first(m.error, e@), ..m },
                        StreamedStepModel { terminate_processes: true, ..streamed_quiet() },
                    ),
                }
            },
            StreamedWaitEvent::StdoutLine(line) => if m.stdout_open && !m.callback_pending {
                if m.error is None && !m.cancelled {
                    (
                        StreamedWaitModel { callback_pending: true, ..m },
                        StreamedStepModel { start_callback: Some(line@), ..streamed_quiet() },
                    )
                } else {
                    (m, streamed_quiet())
                }
            } else {
                (m, streamed_quiet())
            },
            StreamedWaitEvent::StdoutEnded => if m.stdout_open && !m.callback_pending {
                streamed_settle(StreamedWaitModel { stdout_open: false, ..m }, streamed_quiet())
            } else {
                (m, streamed_quiet())
            },
            StreamedWaitEvent::StdoutFailed(e) => if m.stdout_open && !m.callback_pending {
                streamed_settle(
                    StreamedWaitModel { stdout_open: false, error: keep_first(m.error, e@), ..m },
                    StreamedStepModel { terminate_processes: true, ..streamed_quiet() },
                )
            } else {
                (m, streamed_quiet())
            },
            StreamedWaitEvent::StdoutClosed => if m.stdout_open && !m.callback_pending {
                streamed_settle(
                    StreamedWaitModel {
                        stdout_open: false,
                        error: keep_first(m.error, STDOUT_READER_STOPPED@),
                        ..m
                    },
                    StreamedStepModel { terminate_processes: true, ..streamed_quiet() },
                )
            } else {
                (m, streamed_quiet())
            },
            StreamedWaitEvent::StderrFinished(r) => if m.stderr is Some {
                (m, streamed_quiet())
            } else {
                match r {
                    Ok(t) => streamed_settle(StreamedWaitModel { stderr: Some(t@), ..m }, streamed_quiet()),
                    Err(e) => streamed_settle(
                        StreamedWaitModel { stderr: Some(Seq::empty()), error: keep_first(m.error, e@), ..m },
                        StreamedStepModel { terminate_processes: true, ..streamed_quiet() },
                    ),
                }
            },
            StreamedWaitEvent::Cancelled => if !m.cancelled {
                streamed_settle(
                    StreamedWaitModel { cancelled: true, callback_pending: false, ..m },
                    StreamedStepModel {
                        drop_callback: m.callback_pending,
                        terminate_processes: true,
                        ..streamed_quiet()
                    },
                )
            } else {
                (m, streamed_quiet())
            },
            StreamedWaitEvent::DrainTimedOut => {
                let m1 = StreamedWaitModel {
                    phase: WaitPhase::Done,
                    stdout_open: false,
                    callback_pending: false,
                    stderr: match m.stderr {
                        Some(t) => Some(t),
                        None => Some(Seq::empty()),
                    },
                    error: if m.cancelled {
                        m.error
                    } else {
                        keep_first(m.error, PROCESS_DRAIN_STALLED@)
                    },
                    ..m
                };
                (
                    m1,
                    StreamedStepModel {
                        drop_callback: m.callback_pending,
                        abort_stdout: true,
                        abort_stderr: m.stderr is None,
                        terminate_processes: true,
                        outcome: Some(streamed_outcome(m1)),
                        ..streamed_quiet()
                    },
                )
            },
            _ => (m, streamed_quiet()),
        },
        WaitPhase::Done => (m, streamed_quiet()),
    }
}

pub const PROCESS_DRAIN_STALLED: &'static str =
    "process_drain_timeout: process output or progress callback did not finish";

/// Reachable states of a streamed wait: nothing recorded while the child runs
/// normally, the readers stopped while it is reaped, and no callback started
/// once the stdout reader is done.
pub open spec fn streamed_wait_wf(m: StreamedWaitModel) -> bool {
    &&& m.phase is Running ==> m.error is None && !m.cancelled
    &&& m.phase is Reaping ==> !m.stdout_open && !m.callback_pending && m.stderr is Some && (m.error is Some
        || m.cancelled)
}

/// The decisions of a wait for a child whose stdout lines feed a progress
/// callback, one line at a time, with a drain period after the child exits.
pub struct StreamedWait {
    phase: WaitPhase,
    stdout_open: bool,
    callback_pending: bool,
    stderr: Option<String>,
    error: Option<String>,
    cancelled: bool,
}

impl View for StreamedWait {
    type V = StreamedWaitModel;

    closed spec fn view(&self) -> StreamedWaitModel {
        StreamedWaitModel {
            phase: self.phase,
            stdout_open: self.stdout_open,
            callback_pending: self.callback_pending,
            stderr: match self.stderr {
                Some(t) => Some(t@),
                None => None,
            },
            error: match self.error {
                Some(e) => Some(e@),
                None => None,
            },
            cancelled: self.cancelled,
        }
    }
}

fn streamed_quiet_step() -> (s: StreamedWaitStep)
    ensures
        streamed_step_view(s) == streamed_quiet(),
{
    StreamedWaitStep {
        drop_callback: false,
        abort_stdout: false,
        join_stdout: false,
        abort_stderr: false,
        terminate_processes: false,
        reap: false,
        start_drain: false,
        start_callback: None,
        outcome: None,
    }
}

fn clone_opt(o: &Option<String>) -> (r: Option<String>)
    ensures
        match (r, *o) {
            (Some(a), Some(b)) => a@ == b@,
            (None, None) => true,
            _ => false,
        },
{
    match o {
        Some(s) => Some(s.clone()),
        None => None,
    }
}

impl StreamedWait {
    /// A wait for a child that has just been started.
    pub fn new() -> (w: StreamedWait)
        ensures
            w@ == (StreamedWaitModel {
                phase: WaitPhase::Running,
                stdout_open: true,
                callback_pending: false,
                stderr: None,
                error: None,
                cancelled: false,
            }),
            streamed_wait_wf(w@),
    {
        StreamedWait {
            phase: WaitPhase::Running,
            stdout_open: true,
            callback_pending: false,
            stderr: None,
            error: None,
            cancelled: false,
        }
    }

    pub fn phase(&self) -> (p: WaitPhase)
        ensures
            p == self@.phase,
    {
        self.phase
    }

    /// Whether a stdout event is awaited now.
    pub fn awaits_stdout(&self) -> (b: bool)
        ensures
            b == (self@.stdout_open && !self@.callback_pending),
    {
        self.stdout_open && !self.callback_pending
    }

    /// Whether a callback is pending.
    pub fn awaits_callback(&self) -> (b: bool)
        ensures
            b == self@.callback_pending,
    {
        self.callback_pending
    }

    /// Whether the stderr reader is still awaited.
    pub fn awaits_stderr(&self) -> (b: bool)
        ensures
            b == (self@.stderr is None),
    {
        self.stderr.is_none()
    }

    /// Whether a cancellation is still listened for.
    pub fn listens_for_cancel(&self) -> (b: bool)
        ensures
            b == (self@.phase is Running || (self@.phase is Draining && !self@.cancelled)),
    {
        match self.phase {
            WaitPhase::Running => true,
            WaitPhase::Draining => !self.cancelled,
            _ => false,
        }
    }

    fn outcome_now(&self) -> (o: Result<(String, bool), String>)
        ensures
            match (o, streamed_outcome(self@)) {
                (Ok((t, c)), Ok((x, d))) => t@ == x && c == d,
                (Err(a), Err(b)) => a@ == b,
                _ => false,
            },
    {
        match &self.error {
            Some(e) => Err(e.clone()),
            None => {
                let t = match &self.stderr {
                    Some(t) => t.clone(),
                    None => String::new(),
                };
                Ok((t, self.cancelled))
            },
        }
    }

    fn settle(&mut self, step: StreamedWaitStep) -> (s: StreamedWaitStep)
        requires
            step.outcome is None,
        ensures
            (final(self)@, streamed_step_view(s)) == streamed_settle(old(self)@, streamed_step_view(step)),
    {
        if self.stdout_open || self.stderr.is_none() || self.callback_pending {
            step
        } else {
            self.phase = WaitPhase::Done;
            let o = self.outcome_now();
            StreamedWaitStep { outcome: Some(o), ..step }
        }
    }

    fn enter_drain(&mut self) -> (s: StreamedWaitStep)
        ensures
            (final(self)@, streamed_step_view(s)) == streamed_enter_drain(old(self)@),
    {
        if self.stdout_open || self.stderr.is_none() || self.callback_pending {
            self.phase = WaitPhase::Draining;
            StreamedWaitStep { start_drain: true, ..streamed_quiet_step() }
        } else {
            self.phase = WaitPhase::Done;
            let o = self.outcome_now();
            StreamedWaitStep { outcome: Some(o), ..streamed_quiet_step() }
        }
    }

    fn stop(&mut self, error: Option<String>, join_stdout: bool) -> (s: StreamedWaitStep)
        ensures
            (final(self)@, streamed_step_view(s)) == streamed_stop(
                old(self)@,
                match error {
                    Some(e) => Some(e@),
                    None => None,
                },
                join_stdout,
            ),
    {
        let drop = self.callback_pending;
        self.phase = WaitPhase::Reaping;
        self.stdout_open = false;
        self.callback_pending = false;
        self.stderr = Some(String::new());
        match error {
            Some(e) => {
                self.error = Some(e);
            },
            None => {},
        }
        StreamedWaitStep {
            drop_callback: drop,
            abort_stdout: !join_stdout,
            join_stdout,
            abort_stderr: true,
            reap: true,
            ..streamed_quiet_step()
        }
    }

    fn record_first(&mut self, e: String)
        ensures
            final(self)@ == (StreamedWaitModel { error: keep_first(old(self)@.error, e@), ..old(self)@ }),
    {
        if self.error.is_none() {
            self.error = Some(e);
        }
    }

    /// Decides what to do about one event of the wait for `process_name`.
    pub fn step(&mut self, process_name: &str, event: StreamedWaitEvent) -> (s: StreamedWaitStep)
        ensures
            (final(self)@, streamed_step_view(s)) == streamed_wait_step(old(self)@, process_name@, event),
            streamed_wait_wf(old(self)@) ==> streamed_wait_wf(final(self)@),
    {
        match self.phase {
            WaitPhase::Running => match event {
                StreamedWaitEvent::CallbackFinished(r) => {
                    if !self.callback_pending {
                        return streamed_quiet_step();
                    }
                    self.callback_pending = false;
                    match r {
                        Ok(()) => streamed_quiet_step(),
                        Err(e) => self.stop(Some(e), false),
                    }
                },
                StreamedWaitEvent::ChildExited => self.enter_drain(),
                StreamedWaitEvent::WaitFailed(msg) => {
                    let drop = self.callback_pending;
                    self.phase = WaitPhase::Done;
                    self.callback_pending = false;
                    let head = crate::text::concat3(
                        "process_wait_failed: failed to wait for ",
                        process_name,
                        ": ",
                    );
                    StreamedWaitStep {
                        drop_callback: drop,
                        abort_stdout: true,
                        abort_stderr: true,
                        reap: true,
                        outcome: Some(Err(concat2(head.as_str(), msg.as_str()))),
                        ..streamed_quiet_step()
                    }
                },
                StreamedWaitEvent::StdoutLine(line) => {
                    if self.stdout_open && !self.callback_pending {
                        self.callback_pending = true;
                        StreamedWaitStep { start_callback: Some(line), ..streamed_quiet_step() }
                    } else {
                        streamed_quiet_step()
                    }
                },
                StreamedWaitEvent::StdoutEnded => {
                    if self.stdout_open && !self.callback_pending {
                        self.stdout_open = false;
                    }
                    streamed_quiet_step()
                },
                StreamedWaitEvent::StdoutFailed(e) => {
                    if self.stdout_open && !self.callback_pending {
                        self.stop(Some(e), true)
                    } else {
                        streamed_quiet_step()
                    }
                },
                StreamedWaitEvent::StdoutClosed => {
                    if self.stdout_open && !self.callback_pending {
                        self.stop(Some(STDOUT_READER_STOPPED.to_owned()), true)
                    } else {
                        streamed_quiet_step()
                    }
                },
                StreamedWaitEvent::StderrFinished(r) => {
                    if self.stderr.is_some() {
                        return streamed_quiet_step();
                    }
                    match r {
                        Ok(t) => {
                            self.stderr = Some(t);
                            streamed_quiet_step()
                        },
                        Err(e) => self.stop(Some(e), false),
                    }
                },
                StreamedWaitEvent::Cancelled => {
                    self.cancelled = true;
                    self.stop(None, false)
                },
                _ => streamed_quiet_step(),
            },
            WaitPhase::Reaping => match event {
                StreamedWaitEvent::Reaped(Ok(())) => self.enter_drain(),
                StreamedWaitEvent::Reaped(Err(msg)) => {
                    self.phase = WaitPhase::Done;
                    StreamedWaitStep { outcome: Some(Err(msg)), ..streamed_quiet_step() }
                },
                _ => streamed_quiet_step(),
            },
            WaitPhase::Draining => match event {
                StreamedWaitEvent::CallbackFinished(r) => {
                    if !self.callback_pending {
                        return streamed_quiet_step();
                    }
                    self.callback_pending = false;
                    match r {
                        Ok(()) => self.settle(streamed_quiet_step()),
                        Err(e) => {
                            self.record_first(e);
                            self.settle(StreamedWaitStep { terminate_processes: true, ..streamed_quiet_step() })
                        },
                    }
                },
                StreamedWaitEvent::StdoutLine(line) => {
                    if self.stdout_open && !self.callback_pending && self.error.is_none() && !self.cancelled {
                        self.callback_pending = true;
                        StreamedWaitStep { start_callback: Some(line), ..streamed_quiet_step() }
                    } else {
                        streamed_quiet_step()
                    }
                },
                StreamedWaitEvent::StdoutEnded => {
                    if self.stdout_open && !self.callback_pending {
                        self.stdout_open = false;
                        self.settle(streamed_quiet_step())
                    } else {
                        streamed_quiet_step()
                    }
                },
                StreamedWaitEvent::StdoutFailed(e) => {
                    if self.stdout_open && !self.callback_pending {
                        self.stdout_open = false;
                        self.record_first(e);
                        self.settle(StreamedWaitStep { terminate_processes: true, ..streamed_quiet_step() })
                    } else {
                        streamed_quiet_step()
                    }
                },
                StreamedWaitEvent::StdoutClosed => {
                    if self.stdout_open && !self.callback_pending {
                        self.stdout_open = false;
                        self.record_first(STDOUT_READER_STOPPED.to_owned());
                        self.settle(StreamedWaitStep { terminate_processes: true, ..streamed_quiet_step() })
                    } else {
                        streamed_quiet_step()
                    }
                },
                StreamedWaitEvent::StderrFinished(r) => {
                    if self.stderr.is_some() {
                        return streamed_quiet_step();
                    }
                    match r {
                        Ok(t) => {
                            self.stderr = Some(t);
                            self.settle(streamed_quiet_step())
                        },
                        Err(e) => {
                            self.stderr = Some(String::new());
                            self.record_first(e);
                            self.settle(StreamedWaitStep { terminate_processes: true, ..streamed_quiet_step() })
                        },
                    }
                },
                StreamedWaitEvent::Cancelled => {
                    if self.cancelled {
                        return streamed_quiet_step();
                    }
                    let drop = self.callback_pending;
                    self.cancelled = true;
                    self.callback_pending = false;
                    self.settle(
                        StreamedWaitStep { drop_callback: drop, terminate_processes: true, ..streamed_quiet_step() },
                    )
                },
                StreamedWaitEvent::DrainTimedOut => {
                    let drop = self.callback_pending;
                    let abort_stderr = self.stderr.is_none();
                    self.phase = WaitPhase::Done;
                    self.stdout_open = false;
                    self.callback_pending = false;
                    if abort_stderr {
                        self.stderr = Some(String::new());
                    }
                    if !self.cancelled {
                        self.record_first(PROCESS_DRAIN_STALLED.to_owned());
                    }
                    let o = self.outcome_now();
                    StreamedWaitStep {
                        drop_callback: drop,
                        abort_stdout: true,
                        abort_stderr,
                        terminate_processes: true,
                        outcome: Some(o),
                        ..streamed_quiet_step()
                    }
                },
                _ => streamed_quiet_step(),
            },
            WaitPhase::Done => streamed_quiet_step(),
        }
    }
}

/// Lines reach the callback one at a time: a callback starts only when none
/// is pending, and never after an error or a cancellation has been recorded.
pub proof fn law_one_callback_at_a_time(m: StreamedWaitModel, process_name: Seq<char>, event: StreamedWaitEvent)
    requires
        streamed_wait_wf(m),
    ensures
        ({
            let (m1, s) = streamed_wait_step(m, process_name, event);
            s.start_callback is Some ==> !m.callback_pending && m1.callback_pending && m.error is None
                && !m.cancelled
        }),
{
}

/// A recorded error is never replaced or lost: it stays recorded, or the wait
/// ends with it (or with the reaping failure that ended the wait first).
pub proof fn law_streamed_error_is_kept(m: StreamedWaitModel, process_name: Seq<char>, event: StreamedWaitEvent)
    requires
        streamed_wait_wf(m),
        m.error is Some,
        !(m.phase is Done),
    ensures
        ({
            let (m1, s) = streamed_wait_step(m, process_name, event);
            &&& m1.error == m.error
            &&& !(s.outcome matches Some(Ok(_)))
        }),
{
}

/// The drain deadline always ends a draining wait; it fails unless the job
/// was cancelled with nothing else going wrong.
pub proof fn law_streamed_drain_deadline_ends_the_wait(m: StreamedWaitModel, process_name: Seq<char>)
    requires
        m.phase is Draining,
    ensures
        ({
            let (m1, s) = streamed_wait_step(m, process_name, StreamedWaitEvent::DrainTimedOut);
            &&& m1.phase is Done
            &&& s.terminate_processes
            &&& s.outcome is Some
            &&& (!m.cancelled ==> s.outcome matches Some(Err(_)))
        }),
{
}

} // verus!
