//! The admission state machine that decides when new work may start, when
//! maintenance and cancel-all may run, and how shutdown and an installer
//! handoff close the application to new work.
use crate::app_error::AppError;
use crate::text::{
    chars_eq, chars_of, lemma_views_of_strings_push, lemma_views_of_strings_take, str_eq,
    views_of_strings,
};
use vstd::prelude::*;

verus! {

/// Largest number of registered jobs.
pub const MAX_REGISTERED_JOBS: usize = 1000;

/// The admission phase of the application.
#[derive(Clone, Copy, Debug, PartialEq, Eq, Structural)]
pub enum LifecycleMode {
    Starting,
    Accepting,
    /// Maintenance holds admission closed under the given epoch.
    Paused(u64),
    /// Cancel-all is draining jobs under the given epoch.
    Draining(u64),
    ShuttingDown,
}

/// Why a lifecycle request was refused.
#[derive(Clone, Copy, Debug, PartialEq, Eq, Structural)]
pub enum LifecycleRefusal {
    NoOperations,
    ShuttingDown,
    ShuttingDownTyped,
    UpdateReady,
    AdmissionPaused,
    QueueFull,
    BatchMismatch,
    DuplicateBatchId,
    NotAccepting,
    AlreadyActive,
    WorkersMissing,
    StartupResolved,
    MaintenanceActive,
    JobsActive,
    StartupInProgress,
    CancelDuringMaintenance,
    CancelInProgress,
    JobNotFound,
}

impl LifecycleRefusal {
    /// The error code reported for this refusal.
    pub open spec fn code(self) -> Seq<char> {
        match self {
            LifecycleRefusal::NoOperations => "invalid_request"@,
            LifecycleRefusal::ShuttingDownTyped => "shutting_down"@,
            LifecycleRefusal::BatchMismatch | LifecycleRefusal::WorkersMissing => "internal_error"@,
            LifecycleRefusal::DuplicateBatchId => "invalid_request"@,
            LifecycleRefusal::JobNotFound => "not_found"@,
            _ => "busy"@,
        }
    }

    /// The summary reported for this refusal.
    pub open spec fn summary(self) -> Seq<char> {
        match self {
            LifecycleRefusal::NoOperations => "At least one operation must be admitted."@,
            LifecycleRefusal::ShuttingDown => "The application is shutting down."@,
            LifecycleRefusal::ShuttingDownTyped => "The application is shutting down."@,
            LifecycleRefusal::UpdateReady => "An application update is ready to launch."@,
            LifecycleRefusal::AdmissionPaused =>
                "New work is paused during startup, maintenance, cancellation, or shutdown."@,
            LifecycleRefusal::QueueFull => "The operation queue is limited to 1,000 items."@,
            LifecycleRefusal::BatchMismatch =>
                "The durable operation batch did not match its job reservation."@,
            LifecycleRefusal::DuplicateBatchId => "An operation ID was registered more than once."@,
            LifecycleRefusal::NotAccepting => "New work is no longer being accepted."@,
            LifecycleRefusal::AlreadyActive => "An operation with this ID is already active."@,
            LifecycleRefusal::WorkersMissing =>
                "The fixed download worker pool was not fully published."@,
            LifecycleRefusal::StartupResolved =>
                "Application startup admission was already resolved."@,
            LifecycleRefusal::MaintenanceActive => "Downloader maintenance is already in progress."@,
            LifecycleRefusal::JobsActive =>
                "Finish or cancel active operations before installing updates."@,
            LifecycleRefusal::StartupInProgress => "Application startup is still in progress."@,
            LifecycleRefusal::CancelDuringMaintenance =>
                "Cancellation cannot start while update maintenance is active."@,
            LifecycleRefusal::CancelInProgress => "Cancellation is already in progress."@,
            LifecycleRefusal::JobNotFound => "The requested operation job was not found."@,
        }
    }

    /// The error reported to the caller for this refusal.
    pub fn to_app_error(self) -> (e: AppError)
        ensures
            e.code@ == self.code(),
            e.summary@ == crate::app_error::safe_text_of(
                self.summary(),
                crate::app_error::MAX_ERROR_SUMMARY_BYTES as nat,
            ),
    {
        match self {
            LifecycleRefusal::NoOperations => AppError::invalid(
                "At least one operation must be admitted.",
            ),
            LifecycleRefusal::ShuttingDown => AppError::busy("The application is shutting down."),
            LifecycleRefusal::ShuttingDownTyped => AppError::new(
                "shutting_down",
                "The application is shutting down.",
            ),
            LifecycleRefusal::UpdateReady => AppError::busy(
                "An application update is ready to launch.",
            ),
            LifecycleRefusal::AdmissionPaused => AppError::busy(
                "New work is paused during startup, maintenance, cancellation, or shutdown.",
            ),
            LifecycleRefusal::QueueFull => AppError::busy(
                "The operation queue is limited to 1,000 items.",
            ),
            LifecycleRefusal::BatchMismatch => AppError::internal(
                "The durable operation batch did not match its job reservation.",
            ),
            LifecycleRefusal::DuplicateBatchId => AppError::invalid(
                "An operation ID was registered more than once.",
            ),
            LifecycleRefusal::NotAccepting => AppError::busy(
                "New work is no longer being accepted.",
            ),
            LifecycleRefusal::AlreadyActive => AppError::busy(
                "An operation with this ID is already active.",
            ),
            LifecycleRefusal::WorkersMissing => AppError::internal(
                "The fixed download worker pool was not fully published.",
            ),
            LifecycleRefusal::StartupResolved => AppError::busy(
                "Application startup admission was already resolved.",
            ),
            LifecycleRefusal::MaintenanceActive => AppError::busy(
                "Downloader maintenance is already in progress.",
            ),
            LifecycleRefusal::JobsActive => AppError::busy(
                "Finish or cancel active operations before installing updates.",
            ),
            LifecycleRefusal::StartupInProgress => AppError::busy(
                "Application startup is still in progress.",
            ),
            LifecycleRefusal::CancelDuringMaintenance => AppError::busy(
                "Cancellation cannot start while update maintenance is active.",
            ),
            LifecycleRefusal::CancelInProgress => AppError::busy(
                "Cancellation is already in progress.",
            ),
            LifecycleRefusal::JobNotFound => {
                let e = AppError::not_found("operation job");
                proof {
                    reveal_strlit("The requested ");
                    reveal_strlit("operation job");
                    reveal_strlit(" was not found.");
                    reveal_strlit("The requested operation job was not found.");
                    assert("The requested "@ + "operation job"@ + " was not found."@
                        =~= "The requested operation job was not found."@);
                }
                e
            },
        }
    }
}

/// What a waiting worker should do next.
#[derive(Clone, Copy, Debug, PartialEq, Eq, Structural)]
pub enum WorkerClaimDecision {
    /// Work may be claimed now.
    Claim,
    /// The worker should stop for good.
    Stop,
    /// The worker should wait for the next mode change.
    Wait,
}

/// Progress of a cancel-all drain.
#[derive(Clone, Copy, Debug, PartialEq, Eq, Structural)]
pub enum DrainPoll {
    Idle,
    Pending,
    SupersededByShutdown,
}

/// Abstract state of the admission gate.
pub struct AdmissionModel {
    pub mode: LifecycleMode,
    pub jobs: Seq<Seq<char>>,
    pub next_epoch: u64,
    pub shutdown_started: bool,
    pub installer_committed: bool,
    pub expected_workers: nat,
}

/// The epoch after `g`; epoch 0 is never issued.
pub open spec fn next_gen(g: u64) -> u64 {
    if g == u64::MAX {
        1
    } else {
        (g + 1) as u64
    }
}

pub open spec fn distinct(s: Seq<Seq<char>>) -> bool {
    forall|i: int, j: int| 0 <= i < s.len() && 0 <= j < s.len() && i != j ==> s[i] != s[j]
}

pub open spec fn mode_epoch_valid(mode: LifecycleMode) -> bool {
    match mode {
        LifecycleMode::Paused(g) => g >= 1,
        LifecycleMode::Draining(g) => g >= 1,
        _ => true,
    }
}

/// Invariant of every reachable admission state.
pub open spec fn model_wf(m: AdmissionModel) -> bool {
    &&& distinct(m.jobs)
    &&& m.next_epoch >= 1
    &&& mode_epoch_valid(m.mode)
    &&& (m.shutdown_started <==> m.mode is ShuttingDown)
    &&& m.expected_workers >= 1
}

pub open spec fn with_mode(m: AdmissionModel, mode: LifecycleMode) -> AdmissionModel {
    AdmissionModel { mode, ..m }
}

/// Opening admission once startup recovery and the worker pool are in place.
pub open spec fn open_result(m: AdmissionModel, workers: nat) -> Result<
    AdmissionModel,
    LifecycleRefusal,
> {
    if m.installer_committed {
        Err(LifecycleRefusal::UpdateReady)
    } else if workers != m.expected_workers {
        Err(LifecycleRefusal::WorkersMissing)
    } else if !(m.mode is Starting) {
        Err(LifecycleRefusal::StartupResolved)
    } else if m.shutdown_started {
        Err(LifecycleRefusal::ShuttingDown)
    } else {
        Ok(with_mode(m, LifecycleMode::Accepting))
    }
}

/// Whether `count` new jobs may be reserved now; `None` when they may.
pub open spec fn admission_refusal(m: AdmissionModel, count: nat) -> Option<LifecycleRefusal> {
    if count == 0 {
        Some(LifecycleRefusal::NoOperations)
    } else if m.shutdown_started {
        Some(LifecycleRefusal::ShuttingDown)
    } else if m.installer_committed {
        Some(LifecycleRefusal::UpdateReady)
    } else if !(m.mode is Accepting) {
        Some(LifecycleRefusal::AdmissionPaused)
    } else if m.jobs.len() + count > MAX_REGISTERED_JOBS {
        Some(LifecycleRefusal::QueueFull)
    } else {
        None
    }
}

/// Publishing a reserved batch of job ids.
pub open spec fn publish_result(m: AdmissionModel, reserved: nat, ids: Seq<Seq<char>>) -> Result<
    AdmissionModel,
    LifecycleRefusal,
> {
    if ids.len() != reserved {
        Err(LifecycleRefusal::BatchMismatch)
    } else if !distinct(ids) {
        Err(LifecycleRefusal::DuplicateBatchId)
    } else if m.mode is ShuttingDown {
        Err(LifecycleRefusal::ShuttingDownTyped)
    } else if m.installer_committed {
        Err(LifecycleRefusal::UpdateReady)
    } else if !(m.mode is Accepting) {
        Err(LifecycleRefusal::NotAccepting)
    } else if exists|i: int| 0 <= i < ids.len() && m.jobs.contains(ids[i]) {
        Err(LifecycleRefusal::AlreadyActive)
    } else {
        Ok(AdmissionModel { jobs: m.jobs + ids, ..m })
    }
}

pub open spec fn worker_claim(m: AdmissionModel) -> WorkerClaimDecision {
    if m.installer_committed {
        WorkerClaimDecision::Stop
    } else {
        match m.mode {
            LifecycleMode::Accepting => WorkerClaimDecision::Claim,
            LifecycleMode::ShuttingDown => WorkerClaimDecision::Stop,
            _ => WorkerClaimDecision::Wait,
        }
    }
}

/// Looking up a job for a claimed worker: `Ok(true)` means it must be
/// cancelled at once because shutdown has begun.
pub open spec fn registered_job_result(m: AdmissionModel, id: Seq<char>) -> Result<
    bool,
    LifecycleRefusal,
> {
    if m.installer_committed {
        Err(LifecycleRefusal::UpdateReady)
    } else if !(m.mode is Accepting || m.mode is ShuttingDown) {
        Err(LifecycleRefusal::NotAccepting)
    } else if !m.jobs.contains(id) {
        Err(LifecycleRefusal::JobNotFound)
    } else {
        Ok(m.mode is ShuttingDown)
    }
}

/// `jobs` with every occurrence of `id` removed, order kept.
pub open spec fn without_job(jobs: Seq<Seq<char>>, id: Seq<char>) -> Seq<Seq<char>>
    decreases jobs.len(),
{
    if jobs.len() == 0 {
        jobs
    } else if jobs.last() == id {
        without_job(jobs.drop_last(), id)
    } else {
        without_job(jobs.drop_last(), id).push(jobs.last())
    }
}

pub open spec fn maintenance_result(m: AdmissionModel) -> Result<
    (AdmissionModel, u64),
    LifecycleRefusal,
> {
    if m.installer_committed {
        Err(LifecycleRefusal::UpdateReady)
    } else if !(m.mode is Accepting) {
        Err(LifecycleRefusal::MaintenanceActive)
    } else if m.jobs.len() != 0 {
        Err(LifecycleRefusal::JobsActive)
    } else {
        Ok(
            (
                AdmissionModel {
                    mode: LifecycleMode::Paused(m.next_epoch),
                    next_epoch: next_gen(m.next_epoch),
                    ..m
                },
                m.next_epoch,
            ),
        )
    }
}

/// Releasing a maintenance lease reopens admission only for its own epoch.
pub open spec fn release_result(m: AdmissionModel, epoch: u64) -> AdmissionModel {
    if m.mode == LifecycleMode::Paused(epoch) && !m.installer_committed {
        with_mode(m, LifecycleMode::Accepting)
    } else {
        m
    }
}

pub open spec fn cancel_all_result(m: AdmissionModel) -> Result<
    (AdmissionModel, u64),
    LifecycleRefusal,
> {
    match m.mode {
        LifecycleMode::ShuttingDown => Err(LifecycleRefusal::ShuttingDown),
        LifecycleMode::Starting => Err(LifecycleRefusal::StartupInProgress),
        LifecycleMode::Paused(_) => Err(LifecycleRefusal::CancelDuringMaintenance),
        LifecycleMode::Draining(_) => Err(LifecycleRefusal::CancelInProgress),
        LifecycleMode::Accepting => Ok(
            (
                AdmissionModel {
                    mode: LifecycleMode::Draining(m.next_epoch),
                    next_epoch: next_gen(m.next_epoch),
                    ..m
                },
                m.next_epoch,
            ),
        ),
    }
}

pub open spec fn drain_poll(m: AdmissionModel, ticket: u64) -> DrainPoll {
    if m.mode == LifecycleMode::Draining(ticket) {
        if m.jobs.len() == 0 {
            DrainPoll::Idle
        } else {
            DrainPoll::Pending
        }
    } else {
        DrainPoll::SupersededByShutdown
    }
}

pub open spec fn can_resume(m: AdmissionModel, ticket: u64) -> bool {
    m.mode == LifecycleMode::Draining(ticket) && m.jobs.len() == 0 && !m.installer_committed
}

pub open spec fn resume_result(m: AdmissionModel, ticket: u64) -> AdmissionModel {
    if can_resume(m, ticket) {
        with_mode(m, LifecycleMode::Accepting)
    } else {
        m
    }
}

pub open spec fn shutdown_result(m: AdmissionModel) -> AdmissionModel {
    AdmissionModel { mode: LifecycleMode::ShuttingDown, shutdown_started: true, ..m }
}

pub open spec fn handoff_result(m: AdmissionModel) -> AdmissionModel {
    AdmissionModel { installer_committed: true, ..m }
}

/// The admission gate: its mode, the registered job ids and the flags that
/// shutdown and an installer handoff set.
pub struct AdmissionState {
    mode: LifecycleMode,
    jobs: Vec<String>,
    next_epoch: u64,
    shutdown_started: bool,
    installer_committed: bool,
    expected_workers: usize,
}

impl View for AdmissionState {
    type V = AdmissionModel;

    closed spec fn view(&self) -> AdmissionModel {
        AdmissionModel {
            mode: self.mode,
            jobs: views_of_strings(self.jobs@),
            next_epoch: self.next_epoch,
            shutdown_started: self.shutdown_started,
            installer_committed: self.installer_committed,
            expected_workers: self.expected_workers as nat,
        }
    }
}

pub open spec fn ok_model(r: Result<AdmissionModel, LifecycleRefusal>, old: AdmissionModel) -> AdmissionModel {
    match r {
        Ok(m) => m,
        Err(_) => old,
    }
}

impl AdmissionState {
    /// Invariant kept by every method.
    pub open spec fn wf(&self) -> bool {
        model_wf(self@)
    }

    /// A gate in the starting phase whose worker pool has `max_downloads`
    /// workers (at least one).
    pub fn new(max_downloads: usize) -> (s: AdmissionState)
        ensures
            s.wf(),
            s@.mode == LifecycleMode::Starting,
            s@.jobs.len() == 0,
            s@.next_epoch == 1,
            !s@.shutdown_started,
            !s@.installer_committed,
            s@.expected_workers == (if max_downloads == 0 {
                1
            } else {
                max_downloads as nat
            }),
    {
        let s = AdmissionState {
            mode: LifecycleMode::Starting,
            jobs: Vec::new(),
            next_epoch: 1,
            shutdown_started: false,
            installer_committed: false,
            expected_workers: if max_downloads == 0 {
                1
            } else {
                max_downloads
            },
        };
        assert(s@.jobs =~= Seq::<Seq<char>>::empty());
        s
    }

    pub fn mode(&self) -> (m: LifecycleMode)
        ensures
            m == self@.mode,
    {
        self.mode
    }

    pub fn is_installer_committed(&self) -> (b: bool)
        ensures
            b == self@.installer_committed,
    {
        self.installer_committed
    }

    pub fn is_shutdown_started(&self) -> (b: bool)
        ensures
            b == self@.shutdown_started,
    {
        self.shutdown_started
    }

    pub fn expected_workers(&self) -> (n: usize)
        ensures
            n == self@.expected_workers,
    {
        self.expected_workers
    }

    pub fn active_count(&self) -> (n: usize)
        ensures
            n == self@.jobs.len(),
    {
        self.jobs.len()
    }

    /// The registered job ids, in registration order.
    pub fn active_ids(&self) -> (ids: Vec<String>)
        ensures
            views_of_strings(ids@) == self@.jobs,
    {
        let mut out: Vec<String> = Vec::new();
        let mut i: usize = 0;
        while i < self.jobs.len()
            invariant
                i <= self.jobs@.len(),
                views_of_strings(out@) == views_of_strings(self.jobs@).take(
                    i as int,
                ),
            decreases self.jobs@.len() - i,
        {
            let c = self.jobs[i].clone();
            let ghost before = out@;
            out.push(c);
            proof {
                lemma_views_of_strings_push(before, c);
                lemma_views_of_strings_take(self.jobs@, i as int);
            }
            i += 1;
        }
        assert(views_of_strings(self.jobs@).take(self.jobs@.len() as int)
            =~= views_of_strings(self.jobs@));
        out
    }

    fn index_of(&self, id: &str) -> (res: Option<usize>)
        ensures
            match res {
                Some(i) => i < self@.jobs.len() && self@.jobs[i as int] == id@,
                None => !self@.jobs.contains(id@),
            },
    {
        let target = chars_of(id);
        let mut i: usize = 0;
        while i < self.jobs.len()
            invariant
                i <= self.jobs@.len(),
                target@ == id@,
                forall|j: int| 0 <= j < i ==> self.jobs@[j]@ != id@,
            decreases self.jobs@.len() - i,
        {
            let c = chars_of(self.jobs[i].as_str());
            if chars_eq(c.as_slice(), target.as_slice()) {
                return Some(i);
            }
            i += 1;
        }
        proof {
            if self@.jobs.contains(id@) {
                let k = choose|k: int| 0 <= k < self@.jobs.len() && self@.jobs[k] == id@;
                assert(self.jobs@[k]@ == id@);
            }
        }
        None
    }

    /// Whether a job with this id is registered.
    pub fn contains_job(&self, id: &str) -> (b: bool)
        ensures
            b == self@.jobs.contains(id@),
    {
        self.index_of(id).is_some()
    }

    /// Opens admission after startup recovery, given how many workers are running.
    pub fn open_after_startup(&mut self, workers: usize) -> (res: Result<(), LifecycleRefusal>)
        requires
            old(self).wf(),
        ensures
            final(self).wf(),
            match open_result(old(self)@, workers as nat) {
                Ok(m) => res is Ok && final(self)@ == m,
                Err(r) => res == Err::<(), LifecycleRefusal>(r) && final(self)@ == old(self)@,
            },
    {
        if self.installer_committed {
            return Err(LifecycleRefusal::UpdateReady);
        }
        if workers != self.expected_workers {
            return Err(LifecycleRefusal::WorkersMissing);
        }
        match self.mode {
            LifecycleMode::Starting => {},
            _ => return Err(LifecycleRefusal::StartupResolved),
        }
        if self.shutdown_started {
            return Err(LifecycleRefusal::ShuttingDown);
        }
        self.mode = LifecycleMode::Accepting;
        Ok(())
    }

    /// Whether `count` new jobs may be reserved now.
    pub fn check_admission(&self, count: usize) -> (res: Result<(), LifecycleRefusal>)
        requires
            self.wf(),
        ensures
            match admission_refusal(self@, count as nat) {
                Some(r) => res == Err::<(), LifecycleRefusal>(r),
                None => res is Ok,
            },
    {
        if count == 0 {
            return Err(LifecycleRefusal::NoOperations);
        }
        if self.shutdown_started {
            return Err(LifecycleRefusal::ShuttingDown);
        }
        if self.installer_committed {
            return Err(LifecycleRefusal::UpdateReady);
        }
        match self.mode {
            LifecycleMode::Accepting => {},
            _ => return Err(LifecycleRefusal::AdmissionPaused),
        }
        if count > MAX_REGISTERED_JOBS || self.jobs.len() > MAX_REGISTERED_JOBS - count {
            return Err(LifecycleRefusal::QueueFull);
        }
        Ok(())
    }

    /// Registers a reserved batch of job ids.
    pub fn publish(&mut self, reserved: usize, ids: &Vec<String>) -> (res: Result<
        (),
        LifecycleRefusal,
    >)
        requires
            old(self).wf(),
        ensures
            final(self).wf(),
            match publish_result(old(self)@, reserved as nat, views_of_strings(ids@)) {
                Ok(m) => res is Ok && final(self)@ == m,
                Err(r) => res == Err::<(), LifecycleRefusal>(r) && final(self)@ == old(self)@,
            },
    {
        let ghost idv = views_of_strings(ids@);
        if ids.len() != reserved {
            return Err(LifecycleRefusal::BatchMismatch);
        }
        let mut i: usize = 0;
        while i < ids.len()
            invariant
                i <= ids@.len(),
                *self == *old(self),
                self.wf(),
                reserved == ids@.len(),
                idv == views_of_strings(ids@),
                forall|a: int, b: int| 0 <= a < i && 0 <= b < ids@.len() && a != b ==> idv[a] != idv[b],
            decreases ids@.len() - i,
        {
            let mut j: usize = 0;
            while j < ids.len()
                invariant
                    i < ids@.len(),
                    *self == *old(self),
                    self.wf(),
                    reserved == ids@.len(),
                    j <= ids@.len(),
                    idv == views_of_strings(ids@),
                    forall|a: int, b: int| 0 <= a < i && 0 <= b < ids@.len() && a != b ==> idv[a] != idv[b],
                    forall|b: int| 0 <= b < j && b != i ==> idv[i as int] != idv[b],
                decreases ids@.len() - j,
            {
                if j != i && str_eq(ids[i].as_str(), ids[j].as_str()) {
                    assert(idv[i as int] == ids@[i as int]@);
                    assert(idv[j as int] == ids@[j as int]@);
                    assert(!distinct(idv));
                    return Err(LifecycleRefusal::DuplicateBatchId);
                }
                j += 1;
            }
            i += 1;
        }
        assert(distinct(idv));
        match self.mode {
            LifecycleMode::ShuttingDown => return Err(LifecycleRefusal::ShuttingDownTyped),
            _ => {},
        }
        if self.installer_committed {
            return Err(LifecycleRefusal::UpdateReady);
        }
        match self.mode {
            LifecycleMode::Accepting => {},
            _ => return Err(LifecycleRefusal::NotAccepting),
        }
        let mut k: usize = 0;
        while k < ids.len()
            invariant
                k <= ids@.len(),
                *self == *old(self),
                self.wf(),
                old(self)@.mode is Accepting,
                !old(self)@.installer_committed,
                distinct(idv),
                reserved == ids@.len(),
                idv == views_of_strings(ids@),
                forall|a: int| 0 <= a < k ==> !self@.jobs.contains(#[trigger] idv[a]),
            decreases ids@.len() - k,
        {
            if self.contains_job(ids[k].as_str()) {
                assert(idv[k as int] == ids@[k as int]@);
                assert(self@.jobs.contains(idv[k as int]));
                return Err(LifecycleRefusal::AlreadyActive);
            }
            k += 1;
        }
        let ghost old_jobs = self@.jobs;
        let mut m: usize = 0;
        while m < ids.len()
            invariant
                m <= ids@.len(),
                idv == views_of_strings(ids@),
                views_of_strings(self.jobs@) == old_jobs + idv.take(m as int),
                self.mode == old(self).mode,
                self.next_epoch == old(self).next_epoch,
                self.shutdown_started == old(self).shutdown_started,
                self.installer_committed == old(self).installer_committed,
                self.expected_workers == old(self).expected_workers,
            decreases ids@.len() - m,
        {
            let c = ids[m].clone();
            let ghost before = self.jobs@;
            self.jobs.push(c);
            proof {
                lemma_views_of_strings_push(before, c);
                lemma_views_of_strings_take(ids@, m as int);
                assert(old_jobs + idv.take(m + 1) =~= (old_jobs + idv.take(m as int)).push(c@));
            }
            m += 1;
        }
        assert(idv.take(ids@.len() as int) =~= idv);
        proof {
            let nj = old_jobs + idv;
            assert forall|a: int, b: int| 0 <= a < nj.len() && 0 <= b < nj.len() && a != b implies nj[a] != nj[b] by {
                if a < old_jobs.len() && b >= old_jobs.len() {
                    assert(!old_jobs.contains(idv[b - old_jobs.len()]));
                } else if b < old_jobs.len() && a >= old_jobs.len() {
                    assert(!old_jobs.contains(idv[a - old_jobs.len()]));
                }
            }
        }
        Ok(())
    }

    /// What a waiting worker should do.
    pub fn worker_claim(&self) -> (d: WorkerClaimDecision)
        ensures
            d == worker_claim(self@),
    {
        if self.installer_committed {
            return WorkerClaimDecision::Stop;
        }
        match self.mode {
            LifecycleMode::Accepting => WorkerClaimDecision::Claim,
            LifecycleMode::ShuttingDown => WorkerClaimDecision::Stop,
            _ => WorkerClaimDecision::Wait,
        }
    }

    /// Looks up a job for a claimed worker; `Ok(true)` asks to cancel it at once.
    pub fn registered_job(&self, id: &str) -> (res: Result<bool, LifecycleRefusal>)
        ensures
            res == registered_job_result(self@, id@),
    {
        if self.installer_committed {
            return Err(LifecycleRefusal::UpdateReady);
        }
        match self.mode {
            LifecycleMode::Accepting | LifecycleMode::ShuttingDown => {},
            _ => return Err(LifecycleRefusal::NotAccepting),
        }
        if !self.contains_job(id) {
            return Err(LifecycleRefusal::JobNotFound);
        }
        match self.mode {
            LifecycleMode::ShuttingDown => Ok(true),
            _ => Ok(false),
        }
    }

    /// Unregisters a finished job; reports whether it was registered.
    pub fn finish(&mut self, id: &str) -> (removed: bool)
        requires
            old(self).wf(),
        ensures
            final(self).wf(),
            removed == old(self)@.jobs.contains(id@),
            final(self)@.jobs == without_job(old(self)@.jobs, id@),
            final(self)@.mode == old(self)@.mode,
            final(self)@.next_epoch == old(self)@.next_epoch,
            final(self)@.shutdown_started == old(self)@.shutdown_started,
            final(self)@.installer_committed == old(self)@.installer_committed,
            final(self)@.expected_workers == old(self)@.expected_workers,
    {
        match self.index_of(id) {
            None => {
                proof {
                    let jobs = old(self)@.jobs;
                    assert(without_job(jobs, id@) =~= jobs) by {
                        lemma_filter_keeps_all(jobs, id@);
                    }
                }
                false
            },
            Some(i) => {
                let ghost before = self@.jobs;
                self.jobs.remove(i);
                proof {
                    assert(self@.jobs =~= before.remove(i as int));
                    lemma_remove_distinct_is_filter(before, i as int, id@);
                }
                true
            },
        }
    }

    /// Pauses admission for maintenance, returning the lease epoch.
    pub fn acquire_maintenance(&mut self) -> (res: Result<u64, LifecycleRefusal>)
        requires
            old(self).wf(),
        ensures
            final(self).wf(),
            match maintenance_result(old(self)@) {
                Ok((m, g)) => res == Ok::<u64, LifecycleRefusal>(g) && final(self)@ == m,
                Err(r) => res == Err::<u64, LifecycleRefusal>(r) && final(self)@ == old(self)@,
            },
    {
        if self.installer_committed {
            return Err(LifecycleRefusal::UpdateReady);
        }
        match self.mode {
            LifecycleMode::Accepting => {},
            _ => return Err(LifecycleRefusal::MaintenanceActive),
        }
        if self.jobs.len() != 0 {
            return Err(LifecycleRefusal::JobsActive);
        }
        let epoch = self.next_epoch;
        self.next_epoch = if epoch == u64::MAX {
            1
        } else {
            epoch + 1
        };
        self.mode = LifecycleMode::Paused(epoch);
        Ok(epoch)
    }

    /// Ends a maintenance lease; only the lease's own epoch reopens admission.
    pub fn release_maintenance(&mut self, epoch: u64)
        requires
            old(self).wf(),
        ensures
            final(self).wf(),
            final(self)@ == release_result(old(self)@, epoch),
    {
        let same = match self.mode {
            LifecycleMode::Paused(g) => g == epoch,
            _ => false,
        };
        if same && !self.installer_committed {
            self.mode = LifecycleMode::Accepting;
        }
    }

    /// Starts cancel-all: admission drains under a fresh epoch. The
    /// caller cancels every job listed by [`Self::active_ids`] beforehand.
    pub fn begin_cancel_all(&mut self) -> (res: Result<u64, LifecycleRefusal>)
        requires
            old(self).wf(),
        ensures
            final(self).wf(),
            match cancel_all_result(old(self)@) {
                Ok((m, g)) => res == Ok::<u64, LifecycleRefusal>(g) && final(self)@ == m,
                Err(r) => res == Err::<u64, LifecycleRefusal>(r) && final(self)@ == old(self)@,
            },
    {
        match self.mode {
            LifecycleMode::ShuttingDown => return Err(LifecycleRefusal::ShuttingDown),
            LifecycleMode::Starting => return Err(LifecycleRefusal::StartupInProgress),
            LifecycleMode::Paused(_) => return Err(LifecycleRefusal::CancelDuringMaintenance),
            LifecycleMode::Draining(_) => return Err(LifecycleRefusal::CancelInProgress),
            LifecycleMode::Accepting => {},
        }
        let epoch = self.next_epoch;
        self.next_epoch = if epoch == u64::MAX {
            1
        } else {
            epoch + 1
        };
        self.mode = LifecycleMode::Draining(epoch);
        Ok(epoch)
    }

    /// Whether the drain with this ticket has finished, is still waiting, or was superseded.
    pub fn drain_poll(&self, ticket: u64) -> (p: DrainPoll)
        ensures
            p == drain_poll(self@, ticket),
    {
        match self.mode {
            LifecycleMode::Draining(g) => if g == ticket {
                if self.jobs.len() == 0 {
                    DrainPoll::Idle
                } else {
                    DrainPoll::Pending
                }
            } else {
                DrainPoll::SupersededByShutdown
            },
            _ => DrainPoll::SupersededByShutdown,
        }
    }

    /// Whether admission is still draining under this ticket.
    pub fn owns_drain(&self, ticket: u64) -> (b: bool)
        ensures
            b == (self@.mode == LifecycleMode::Draining(ticket)),
    {
        match self.mode {
            LifecycleMode::Draining(g) => g == ticket,
            _ => false,
        }
    }

    /// Reopens admission after an idle drain of the same epoch.
    pub fn resume_after_drain(&mut self, ticket: u64) -> (resumed: bool)
        requires
            old(self).wf(),
        ensures
            final(self).wf(),
            resumed == can_resume(old(self)@, ticket),
            final(self)@ == resume_result(old(self)@, ticket),
    {
        let owns = match self.mode {
            LifecycleMode::Draining(g) => g == ticket,
            _ => false,
        };
        let ok = owns && self.jobs.len() == 0 && !self.installer_committed;
        if ok {
            self.mode = LifecycleMode::Accepting;
        }
        ok
    }

    /// Closes admission for good; reports whether this was the first request.
    pub fn begin_shutdown(&mut self) -> (first: bool)
        requires
            old(self).wf(),
        ensures
            final(self).wf(),
            first == !old(self)@.shutdown_started,
            final(self)@ == shutdown_result(old(self)@),
    {
        let first = !self.shutdown_started;
        self.shutdown_started = true;
        self.mode = LifecycleMode::ShuttingDown;
        first
    }

    /// Records that the installer handoff was committed.
    pub fn commit_installer_handoff(&mut self)
        requires
            old(self).wf(),
        ensures
            final(self).wf(),
            final(self)@ == handoff_result(old(self)@),
    {
        self.installer_committed = true;
    }
}

/// Once shutdown has begun nothing reopens admission: every transition keeps
/// admission shutting down, no new work is admitted, workers stop and every
/// drain reports that it was superseded.
pub proof fn law_shutdown_is_final(
    m: AdmissionModel,
    workers: nat,
    count: nat,
    ids: Seq<Seq<char>>,
    epoch: u64,
    ticket: u64,
)
    requires
        model_wf(m),
        m.mode is ShuttingDown,
    ensures
        ok_model(open_result(m, workers), m).mode is ShuttingDown,
        ok_model(publish_result(m, count, ids), m).mode is ShuttingDown,
        publish_result(m, count, ids) is Err,
        admission_refusal(m, count) is Some,
        maintenance_result(m) is Err,
        cancel_all_result(m) is Err,
        release_result(m, epoch).mode is ShuttingDown,
        resume_result(m, ticket).mode is ShuttingDown,
        shutdown_result(m).mode is ShuttingDown,
        handoff_result(m).mode is ShuttingDown,
        worker_claim(m) == WorkerClaimDecision::Stop,
        drain_poll(m, ticket) == DrainPoll::SupersededByShutdown,
{
}

/// A committed installer handoff closes admission permanently: no request is
/// admitted or reopens admission, and every transition keeps the flag.
pub proof fn law_installer_handoff_closes_admission(
    m: AdmissionModel,
    workers: nat,
    count: nat,
    ids: Seq<Seq<char>>,
    id: Seq<char>,
    epoch: u64,
    ticket: u64,
)
    requires
        model_wf(m),
        m.installer_committed,
    ensures
        admission_refusal(m, count) is Some,
        publish_result(m, count, ids) is Err,
        open_result(m, workers) is Err,
        maintenance_result(m) is Err,
        registered_job_result(m, id) is Err,
        worker_claim(m) == WorkerClaimDecision::Stop,
        release_result(m, epoch) == m,
        resume_result(m, ticket) == m,
        ok_model(
            match cancel_all_result(m) {
                Ok((n, _)) => Ok::<AdmissionModel, LifecycleRefusal>(n),
                Err(r) => Err(r),
            },
            m,
        ).installer_committed,
        shutdown_result(m).installer_committed,
        handoff_result(m).installer_committed,
{
}

/// Maintenance and cancel-all each take a fresh, nonzero epoch and
/// advance the counter past it.
pub proof fn law_epochs_are_fresh(m: AdmissionModel)
    requires
        model_wf(m),
    ensures
        maintenance_result(m) matches Ok((n, g)) ==> g == m.next_epoch && g >= 1
            && n.mode == LifecycleMode::Paused(g) && n.next_epoch == next_gen(g)
            && n.next_epoch != g && model_wf(n),
        cancel_all_result(m) matches Ok((n, g)) ==> g == m.next_epoch && g >= 1
            && n.mode == LifecycleMode::Draining(g) && n.next_epoch == next_gen(g)
            && n.next_epoch != g && model_wf(n),
{
}

/// Only the idle drain of the same epoch, before any installer handoff,
/// reopens admission; a maintenance lease of another epoch changes nothing.
pub proof fn law_reopening_requires_the_owning_epoch(
    m: AdmissionModel,
    ticket: u64,
    epoch: u64,
)
    requires
        model_wf(m),
    ensures
        !(m.mode is Accepting) && resume_result(m, ticket).mode is Accepting ==> m.mode
            == LifecycleMode::Draining(ticket) && m.jobs.len() == 0 && !m.installer_committed,
        m.mode != LifecycleMode::Paused(epoch) ==> release_result(m, epoch) == m,
        m.mode != LifecycleMode::Draining(ticket) ==> resume_result(m, ticket) == m,
{
}

/// Maintenance and cancel-all exclude each other and themselves: a second
/// cancel-all cannot share an active drain, cancel-all cannot release a
/// maintenance lease, and maintenance only starts with no registered jobs
/// while new batches are refused during maintenance.
pub proof fn law_maintenance_and_cancel_all_exclusion(m: AdmissionModel, count: nat)
    requires
        model_wf(m),
    ensures
        m.mode is Draining ==> cancel_all_result(m) == Err::<(AdmissionModel, u64), LifecycleRefusal>(
            LifecycleRefusal::CancelInProgress,
        ),
        m.mode is Paused ==> cancel_all_result(m) == Err::<(AdmissionModel, u64), LifecycleRefusal>(
            LifecycleRefusal::CancelDuringMaintenance,
        ),
        m.mode is Paused ==> admission_refusal(m, count) is Some,
        m.mode is Draining ==> admission_refusal(m, count) is Some,
        maintenance_result(m) is Ok ==> m.jobs.len() == 0 && m.mode is Accepting,
{
}

/// Publishing a batch registers exactly its ids, keeps them distinct, and
/// never reuses an id that is already active.
pub proof fn law_publish_registers_exactly_the_batch(
    m: AdmissionModel,
    count: nat,
    ids: Seq<Seq<char>>,
)
    requires
        model_wf(m),
    ensures
        publish_result(m, count, ids) matches Ok(n) ==> n.jobs == m.jobs + ids && model_wf(n)
            && n.mode == m.mode,
        (exists|i: int| 0 <= i < ids.len() && m.jobs.contains(ids[i])) ==> publish_result(
            m,
            count,
            ids,
        ) is Err,
{
    if publish_result(m, count, ids) is Ok {
        let nj = m.jobs + ids;
        assert forall|a: int, b: int| 0 <= a < nj.len() && 0 <= b < nj.len() && a != b implies nj[a]
            != nj[b] by {
            if a < m.jobs.len() && b >= m.jobs.len() {
                assert(!m.jobs.contains(ids[b - m.jobs.len()]));
            } else if b < m.jobs.len() && a >= m.jobs.len() {
                assert(!m.jobs.contains(ids[a - m.jobs.len()]));
            }
        }
    }
}

/// A finished job is no longer registered: looking it up fails, the number
/// of active jobs drops by one if it was registered, and every other job
/// stays registered. Until then the job is found while admission accepts.
pub proof fn law_finishing_unregisters_only_that_job(m: AdmissionModel, id: Seq<char>)
    requires
        model_wf(m),
    ensures
        !m.installer_committed && m.mode is Accepting && m.jobs.contains(id)
            ==> registered_job_result(m, id) == Ok::<bool, LifecycleRefusal>(false),
        registered_job_result(AdmissionModel { jobs: without_job(m.jobs, id), ..m }, id) is Err,
        !without_job(m.jobs, id).contains(id),
        m.jobs.contains(id) ==> without_job(m.jobs, id).len() + 1 == m.jobs.len(),
        !m.jobs.contains(id) ==> without_job(m.jobs, id) == m.jobs,
        forall|other: Seq<char>|
            other != id ==> (#[trigger] without_job(m.jobs, id).contains(other) <==> m.jobs.contains(
                other,
            )),
{
    lemma_without_job_members(m.jobs, id);
    if m.jobs.contains(id) {
        let i = choose|i: int| 0 <= i < m.jobs.len() && m.jobs[i] == id;
        lemma_remove_distinct_is_filter(m.jobs, i, id);
    } else {
        lemma_filter_keeps_all(m.jobs, id);
    }
}

proof fn lemma_contains_split(s: Seq<Seq<char>>, x: Seq<char>)
    requires
        s.len() > 0,
    ensures
        s.contains(x) <==> (s.drop_last().contains(x) || s.last() == x),
{
    if s.contains(x) {
        let k = choose|k: int| 0 <= k < s.len() && s[k] == x;
        if k < s.len() - 1 {
            assert(s.drop_last()[k] == x);
        }
    }
    if s.drop_last().contains(x) {
        let k = choose|k: int| 0 <= k < s.drop_last().len() && s.drop_last()[k] == x;
        assert(s[k] == x);
    }
    if s.last() == x {
        assert(s[s.len() - 1] == x);
    }
}

proof fn lemma_without_job_members(jobs: Seq<Seq<char>>, id: Seq<char>)
    ensures
        forall|x: Seq<char>|
            #[trigger] without_job(jobs, id).contains(x) <==> (jobs.contains(x) && x != id),
    decreases jobs.len(),
{
    if jobs.len() > 0 {
        let rest = jobs.drop_last();
        let w = without_job(rest, id);
        lemma_without_job_members(rest, id);
        assert forall|x: Seq<char>|
            #[trigger] without_job(jobs, id).contains(x) <==> (jobs.contains(x) && x != id) by {
            lemma_contains_split(jobs, x);
            assert(w.contains(x) <==> (rest.contains(x) && x != id));
            if jobs.last() != id {
                assert(w.push(jobs.last()).drop_last() =~= w);
                lemma_contains_split(w.push(jobs.last()), x);
            }
        }
    }
}

proof fn lemma_filter_keeps_all(jobs: Seq<Seq<char>>, id: Seq<char>)
    requires
        !jobs.contains(id),
    ensures
        without_job(jobs, id) == jobs,
    decreases jobs.len(),
{
    if jobs.len() > 0 {
        assert(!jobs.drop_last().contains(id)) by {
            if jobs.drop_last().contains(id) {
                let k = choose|k: int| 0 <= k < jobs.drop_last().len() && jobs.drop_last()[k] == id;
                assert(jobs[k] == id);
            }
        }
        lemma_filter_keeps_all(jobs.drop_last(), id);
        assert(jobs.last() != id) by {
            assert(jobs[jobs.len() - 1] == jobs.last());
        }
        assert(jobs.drop_last().push(jobs.last()) =~= jobs);
    }
}

proof fn lemma_remove_distinct_is_filter(jobs: Seq<Seq<char>>, i: int, id: Seq<char>)
    requires
        distinct(jobs),
        0 <= i < jobs.len(),
        jobs[i] == id,
    ensures
        without_job(jobs, id) == jobs.remove(i),
        distinct(jobs.remove(i)),
    decreases jobs.len(),
{
    let rest = jobs.drop_last();
    if i == jobs.len() - 1 {
        assert(!rest.contains(id)) by {
            if rest.contains(id) {
                let k = choose|k: int| 0 <= k < rest.len() && rest[k] == id;
                assert(jobs[k] == jobs[i]);
            }
        }
        lemma_filter_keeps_all(rest, id);
        assert(jobs.remove(i) =~= rest);
    } else {
        assert(distinct(rest));
        lemma_remove_distinct_is_filter(rest, i, id);
        assert(jobs.last() != id) by {
            assert(jobs[jobs.len() - 1] != jobs[i]);
        }
        assert(jobs.remove(i) =~= rest.remove(i).push(jobs.last()));
    }
    assert forall|a: int, b: int|
        0 <= a < jobs.remove(i).len() && 0 <= b < jobs.remove(i).len() && a != b implies jobs.remove(
        i,
    )[a] != jobs.remove(i)[b] by {
        let ia = if a < i {
            a
        } else {
            a + 1
        };
        let ib = if b < i {
            b
        } else {
            b + 1
        };
        assert(jobs.remove(i)[a] == jobs[ia]);
        assert(jobs.remove(i)[b] == jobs[ib]);
    }
}

} // verus!
