//! Book-keeping of background tasks and of update operations in their
//! publication phases: who may still be cancelled, and when a deferred
//! cancellation fires.
use crate::lifecycle::next_gen;
use crate::app_error::{error_is_bounded, safe_text_of, AppError, MAX_ERROR_SUMMARY_BYTES};
use crate::models::OperationKind;
use crate::text::{chars_eq, chars_of, lemma_views_of_strings_push, views_of_strings};
use vstd::prelude::*;

verus! {

/// What a tracked background task does.
#[derive(Clone, Copy, Debug, PartialEq, Eq, Structural)]
pub enum TrackedTaskKind {
    Startup,
    Admission,
    Inspection,
    Health,
    Network,
    Drain,
    Update,
    Worker,
    Cleanup,
    Events,
}

/// A step of an update that must not be interrupted once it starts.
#[derive(Clone, Copy, Debug, PartialEq, Eq, Structural)]
pub enum PublicationKind {
    RuntimeCommit,
    InstallerCache,
    InstallerHandoff,
}

/// What a cancellation request did to an update.
#[derive(Clone, Copy, Debug, PartialEq, Eq, Structural)]
pub enum UpdateCancellation {
    /// The update's cancellation token must be fired now.
    Requested,
    /// A publication is in progress or done; cancellation waits for it.
    DeferredPublication,
}

/// Why a registry request was refused.
#[derive(Clone, Copy, Debug, PartialEq, Eq, Structural)]
pub enum RegistryRefusal {
    ShuttingDown,
    ClosedForUpdates,
    UpdateAlreadyRegistered,
    UpdateNotFound,
    InvalidPublication,
    UpdateTaskMissing,
    Cancelled,
}

/// How an update run fails: cancelled, or with an error to report.
#[derive(Debug)]
pub enum UpdateRunError {
    Cancelled,
    Failed(AppError),
}

impl UpdateRunError {
    /// The message shown for this failure.
    pub fn to_display_string(&self) -> (s: String)
        ensures
            self is Cancelled ==> s@ == "The update was cancelled."@,
            self matches UpdateRunError::Failed(e) ==> s@ == e.summary@,
    {
        match self {
            UpdateRunError::Cancelled => "The update was cancelled.".to_owned(),
            UpdateRunError::Failed(e) => e.to_display_string(),
        }
    }
}

/// The error code and summary a refusal is reported with.
pub open spec fn refusal_report(r: RegistryRefusal) -> (Seq<char>, Seq<char>) {
    match r {
        RegistryRefusal::ShuttingDown => ("busy"@, "The application is shutting down."@),
        RegistryRefusal::ClosedForUpdates => ("busy"@, "The application is shutting down or launching an update."@),
        RegistryRefusal::UpdateAlreadyRegistered => ("busy"@, "The update operation is already registered."@),
        RegistryRefusal::UpdateNotFound => ("not_found"@, "The requested "@ + "update operation"@ + " was not found."@),
        RegistryRefusal::InvalidPublication => (
            "internal_error"@,
            "The update attempted an invalid publication phase."@,
        ),
        RegistryRefusal::UpdateTaskMissing => ("not_found"@, "The requested "@ + "update task"@ + " was not found."@),
        RegistryRefusal::Cancelled => ("cancelled"@, "The update was cancelled."@),
    }
}

impl RegistryRefusal {
    /// The refusal as an update run's failure: a cancellation stays a
    /// cancellation; everything else is reported as an error.
    pub fn to_update_run_error(self) -> (e: UpdateRunError)
        ensures
            self is Cancelled ==> e is Cancelled,
            !(self is Cancelled) ==> (e matches UpdateRunError::Failed(a) && a.code@ == refusal_report(self).0
                && a.summary@ == safe_text_of(refusal_report(self).1, MAX_ERROR_SUMMARY_BYTES as nat)
                && error_is_bounded(a)),
    {
        match self {
            RegistryRefusal::Cancelled => UpdateRunError::Cancelled,
            _ => UpdateRunError::Failed(self.to_app_error()),
        }
    }

    /// The refusal as the error a command reports.
    pub fn to_app_error(self) -> (e: AppError)
        ensures
            e.code@ == refusal_report(self).0 || self is Cancelled,
            !(self is Cancelled) ==> e.summary@ == safe_text_of(refusal_report(self).1, MAX_ERROR_SUMMARY_BYTES as nat),
            error_is_bounded(e),
    {
        match self {
            RegistryRefusal::ShuttingDown => AppError::busy("The application is shutting down."),
            RegistryRefusal::ClosedForUpdates => AppError::busy(
                "The application is shutting down or launching an update.",
            ),
            RegistryRefusal::UpdateAlreadyRegistered => AppError::busy("The update operation is already registered."),
            RegistryRefusal::UpdateNotFound => AppError::not_found("update operation"),
            RegistryRefusal::InvalidPublication => AppError::internal(
                "The update attempted an invalid publication phase.",
            ),
            RegistryRefusal::UpdateTaskMissing => AppError::not_found("update task"),
            RegistryRefusal::Cancelled => AppError::new("cancelled", "The update was cancelled."),
        }
    }
}

/// A registered background task.
#[derive(Clone, Debug, PartialEq, Eq)]
pub struct TaskEntry {
    pub id: u64,
    pub kind: TrackedTaskKind,
    pub operation_id: Option<String>,
}

/// The publication state of a registered update operation.
#[derive(Clone, Debug, PartialEq, Eq)]
pub struct UpdateEntry {
    pub operation_id: String,
    pub task_id: u64,
    pub publications: usize,
    pub published: bool,
    pub cancel_requested: bool,
    pub task_active: bool,
}

pub struct UpdateModel {
    pub operation_id: Seq<char>,
    pub task_id: u64,
    pub publications: nat,
    pub published: bool,
    pub cancel_requested: bool,
    pub task_active: bool,
}

pub struct TaskModel {
    pub id: u64,
    pub kind: TrackedTaskKind,
    pub operation_id: Option<Seq<char>>,
}

pub struct RegistryModel {
    pub shutting_down: bool,
    pub next_id: u64,
    pub tasks: Seq<TaskModel>,
    pub updates: Seq<UpdateModel>,
    pub active_publications: nat,
}

pub open spec fn update_view(u: UpdateEntry) -> UpdateModel {
    UpdateModel {
        operation_id: u.operation_id@,
        task_id: u.task_id,
        publications: u.publications as nat,
        published: u.published,
        cancel_requested: u.cancel_requested,
        task_active: u.task_active,
    }
}

pub open spec fn task_view(t: TaskEntry) -> TaskModel {
    TaskModel {
        id: t.id,
        kind: t.kind,
        operation_id: match t.operation_id {
            Some(s) => Some(s@),
            None => None,
        },
    }
}

pub open spec fn distinct_update_ids(us: Seq<UpdateModel>) -> bool {
    forall|i: int, j: int|
        0 <= i < us.len() && 0 <= j < us.len() && i != j ==> us[i].operation_id != us[j].operation_id
}

/// Invariant of the registry: update operations are registered once and task
/// ids are never zero.
pub open spec fn registry_wf(r: RegistryModel) -> bool {
    &&& distinct_update_ids(r.updates)
    &&& r.next_id >= 1
    &&& forall|i: int| 0 <= i < r.updates.len() ==> (#[trigger] r.updates[i]).publications <= usize::MAX
    &&& r.active_publications <= usize::MAX
}

/// `n + 1`, saturating at `usize::MAX`.
pub open spec fn sat_inc(n: nat) -> nat {
    if n < usize::MAX {
        n + 1
    } else {
        n
    }
}

/// `n - 1`, saturating at zero.
pub open spec fn sat_dec(n: nat) -> nat {
    if n > 0 {
        (n - 1) as nat
    } else {
        0
    }
}

/// Position of the update registered for `op`, if any.
pub open spec fn update_position(us: Seq<UpdateModel>, op: Seq<char>) -> Option<nat>
    decreases us.len(),
{
    if us.len() == 0 {
        None
    } else if us.last().operation_id == op {
        Some((us.len() - 1) as nat)
    } else {
        update_position(us.drop_last(), op)
    }
}

pub open spec fn register_task_result(
    r: RegistryModel,
    kind: TrackedTaskKind,
    op: Option<Seq<char>>,
    allow_during_shutdown: bool,
) -> Result<(RegistryModel, u64), RegistryRefusal> {
    if r.shutting_down && !allow_during_shutdown {
        Err(RegistryRefusal::ShuttingDown)
    } else {
        Ok(
            (
                RegistryModel {
                    next_id: next_gen(r.next_id),
                    tasks: r.tasks.push(TaskModel { id: r.next_id, kind, operation_id: op }),
                    ..r
                },
                r.next_id,
            ),
        )
    }
}

pub open spec fn register_update_result(r: RegistryModel, op: Seq<char>, installer_committed: bool) -> Result<
    (RegistryModel, u64),
    RegistryRefusal,
> {
    if r.shutting_down || installer_committed {
        Err(RegistryRefusal::ClosedForUpdates)
    } else if update_position(r.updates, op) is Some {
        Err(RegistryRefusal::UpdateAlreadyRegistered)
    } else {
        Ok(
            (
                RegistryModel {
                    next_id: next_gen(r.next_id),
                    tasks: r.tasks.push(
                        TaskModel {
                            id: r.next_id,
                            kind: TrackedTaskKind::Update,
                            operation_id: Some(op),
                        },
                    ),
                    updates: r.updates.push(
                        UpdateModel {
                            operation_id: op,
                            task_id: r.next_id,
                            publications: 0,
                            published: false,
                            cancel_requested: false,
                            task_active: true,
                        },
                    ),
                    ..r
                },
                r.next_id,
            ),
        )
    }
}

pub open spec fn cancel_update_result(r: RegistryModel, op: Seq<char>) -> Result<
    (RegistryModel, UpdateCancellation),
    RegistryRefusal,
> {
    match update_position(r.updates, op) {
        None => Err(RegistryRefusal::UpdateNotFound),
        Some(i) => {
            let u = r.updates[i as int];
            Ok(
                (
                    RegistryModel {
                        updates: r.updates.update(i as int, UpdateModel { cancel_requested: true, ..u }),
                        ..r
                    },
                    if u.publications == 0 && !u.published {
                        UpdateCancellation::Requested
                    } else {
                        UpdateCancellation::DeferredPublication
                    },
                ),
            )
        },
    }
}

/// Which publication steps each kind of update may take.
pub open spec fn publication_allowed(kind: OperationKind, publication: PublicationKind) -> bool {
    (kind is RuntimeUpdate && publication is RuntimeCommit) || (kind is AppUpdate && (
    publication is InstallerCache || publication is InstallerHandoff))
}

pub open spec fn enter_publication_result(
    r: RegistryModel,
    op: Seq<char>,
    kind: OperationKind,
    publication: PublicationKind,
    token_cancelled: bool,
) -> Result<RegistryModel, RegistryRefusal> {
    if !publication_allowed(kind, publication) {
        Err(RegistryRefusal::InvalidPublication)
    } else {
        match update_position(r.updates, op) {
            None => Err(RegistryRefusal::UpdateTaskMissing),
            Some(i) => {
                let u = r.updates[i as int];
                if u.cancel_requested || token_cancelled {
                    Err(RegistryRefusal::Cancelled)
                } else {
                    Ok(
                        RegistryModel {
                            updates: r.updates.update(
                                i as int,
                                UpdateModel { publications: sat_inc(u.publications), ..u },
                            ),
                            active_publications: sat_inc(r.active_publications),
                            ..r
                        },
                    )
                }
            },
        }
    }
}

/// Ending a publication step: the counters drop, a cancellation that was
/// deferred fires if nothing was published, and an update whose task already
/// finished is forgotten once its last publication ends.
pub open spec fn release_publication_result(r: RegistryModel, op: Seq<char>) -> (RegistryModel, bool) {
    let active = sat_dec(r.active_publications);
    match update_position(r.updates, op) {
        None => (RegistryModel { active_publications: active, ..r }, false),
        Some(i) => {
            let u = r.updates[i as int];
            let p = sat_dec(u.publications);
            let fire = p == 0 && u.cancel_requested && !u.published;
            let updates = if p == 0 && !u.task_active {
                r.updates.remove(i as int)
            } else {
                r.updates.update(i as int, UpdateModel { publications: p, ..u })
            };
            (RegistryModel { updates, active_publications: active, ..r }, fire)
        },
    }
}

/// Marking a publication step as done: runtime commits and installer
/// handoffs make the update published.
pub open spec fn mark_published(r: RegistryModel, op: Seq<char>, publication: PublicationKind) -> RegistryModel {
    if publication is RuntimeCommit || publication is InstallerHandoff {
        match update_position(r.updates, op) {
            None => r,
            Some(i) => RegistryModel {
                updates: r.updates.update(i as int, UpdateModel { published: true, ..r.updates[i as int] }),
                ..r
            },
        }
    } else {
        r
    }
}

/// Shutdown: every update is marked cancel-requested; the ones with no
/// publication in progress and nothing published must be cancelled now.
pub open spec fn shutdown_update(u: UpdateModel) -> UpdateModel {
    UpdateModel { cancel_requested: true, ..u }
}

pub open spec fn cancels_at_shutdown(u: UpdateModel) -> bool {
    u.publications == 0 && !u.published
}

/// Position of the task with this id, if any.
pub open spec fn task_position(ts: Seq<TaskModel>, id: u64) -> Option<nat>
    decreases ts.len(),
{
    if ts.len() == 0 {
        None
    } else if ts.last().id == id {
        Some((ts.len() - 1) as nat)
    } else {
        task_position(ts.drop_last(), id)
    }
}

/// Unregistering a finished task. An update whose own task finishes is marked
/// inactive and forgotten at once if no publication is in progress.
pub open spec fn finish_task_result(r: RegistryModel, id: u64) -> RegistryModel {
    match task_position(r.tasks, id) {
        None => r,
        Some(k) => {
            let t = r.tasks[k as int];
            let r1 = RegistryModel { tasks: r.tasks.remove(k as int), ..r };
            match t.operation_id {
                None => r1,
                Some(op) => match update_position(r1.updates, op) {
                    None => r1,
                    Some(i) => {
                        let u = r1.updates[i as int];
                        if u.task_id != id {
                            r1
                        } else if u.publications == 0 {
                            RegistryModel { updates: r1.updates.remove(i as int), ..r1 }
                        } else {
                            RegistryModel {
                                updates: r1.updates.update(i as int, UpdateModel { task_active: false, ..u }),
                                ..r1
                            }
                        }
                    },
                },
            }
        },
    }
}

/// The operation ids whose cancellation tokens shutdown fires, in order.
pub open spec fn shutdown_cancellations(us: Seq<UpdateModel>) -> Seq<Seq<char>>
    decreases us.len(),
{
    if us.len() == 0 {
        Seq::empty()
    } else if cancels_at_shutdown(us.last()) {
        shutdown_cancellations(us.drop_last()).push(us.last().operation_id)
    } else {
        shutdown_cancellations(us.drop_last())
    }
}

pub open spec fn shutdown_registry(r: RegistryModel) -> RegistryModel {
    RegistryModel {
        shutting_down: true,
        updates: r.updates.map_values(|u: UpdateModel| shutdown_update(u)),
        ..r
    }
}

/// The background-task and update registry.
pub struct TaskRegistry {
    shutting_down: bool,
    next_id: u64,
    tasks: Vec<TaskEntry>,
    updates: Vec<UpdateEntry>,
    active_publications: usize,
}

impl View for TaskRegistry {
    type V = RegistryModel;

    closed spec fn view(&self) -> RegistryModel {
        RegistryModel {
            shutting_down: self.shutting_down,
            next_id: self.next_id,
            tasks: self.tasks@.map_values(|t: TaskEntry| task_view(t)),
            updates: self.updates@.map_values(|u: UpdateEntry| update_view(u)),
            active_publications: self.active_publications as nat,
        }
    }
}

proof fn lemma_update_position(us: Seq<UpdateModel>, op: Seq<char>)
    ensures
        match update_position(us, op) {
            Some(i) => i < us.len() && us[i as int].operation_id == op,
            None => forall|j: int| 0 <= j < us.len() ==> us[j].operation_id != op,
        },
    decreases us.len(),
{
    if us.len() > 0 && us.last().operation_id != op {
        lemma_update_position(us.drop_last(), op);
        assert forall|j: int| 0 <= j < us.len() - 1 implies us.drop_last()[j] == us[j] by {}
    }
}

/// Number of download-worker tasks.
pub open spec fn worker_tasks(tasks: Seq<TaskModel>) -> nat
    decreases tasks.len(),
{
    if tasks.len() == 0 {
        0
    } else {
        worker_tasks(tasks.drop_last()) + if tasks.last().kind is Worker {
            1nat
        } else {
            0nat
        }
    }
}

fn copy_update(u: &UpdateEntry) -> (r: UpdateEntry)
    ensures
        r == *u,
{
    UpdateEntry {
        operation_id: u.operation_id.clone(),
        task_id: u.task_id,
        publications: u.publications,
        published: u.published,
        cancel_requested: u.cancel_requested,
        task_active: u.task_active,
    }
}

proof fn lemma_update_position_unique(us: Seq<UpdateModel>, op: Seq<char>, k: int)
    requires
        distinct_update_ids(us),
        0 <= k < us.len(),
        us[k].operation_id == op,
    ensures
        update_position(us, op) == Some(k as nat),
{
    lemma_update_position(us, op);
}

/// The update registered for `op` keeps its position when one of the updates
/// is rewritten without changing its operation id.
proof fn lemma_position_after_rewrite(us: Seq<UpdateModel>, op: Seq<char>, i: int, u: UpdateModel)
    requires
        distinct_update_ids(us),
        0 <= i,
        update_position(us, op) == Some(i as nat),
        u.operation_id == op,
    ensures
        distinct_update_ids(us.update(i, u)),
        update_position(us.update(i, u), op) == Some(i as nat),
{
    lemma_update_position(us, op);
    let vs = us.update(i, u);
    assert forall|a: int, b: int| 0 <= a < vs.len() && 0 <= b < vs.len() && a != b implies vs[a].operation_id
        != vs[b].operation_id by {
        assert(us[a].operation_id != us[b].operation_id);
    }
    lemma_update_position_unique(vs, op, i);
}

/// A cancellation that arrives while a publication step of the update is in
/// progress is deferred: the update's token is not fired, a new publication
/// step is refused, and the token fires exactly when that step ends without
/// having published.
pub proof fn law_cancellation_waits_for_publication(
    r: RegistryModel,
    op: Seq<char>,
    kind: OperationKind,
    publication: PublicationKind,
)
    requires
        registry_wf(r),
        enter_publication_result(r, op, kind, publication, false) is Ok,
        r.updates[update_position(r.updates, op)->0 as int].publications == 0,
        !r.updates[update_position(r.updates, op)->0 as int].published,
    ensures
        ({
            let r1 = enter_publication_result(r, op, kind, publication, false)->Ok_0;
            let c = cancel_update_result(r1, op);
            &&& c is Ok
            &&& c->Ok_0.1 == UpdateCancellation::DeferredPublication
            &&& enter_publication_result(c->Ok_0.0, op, kind, publication, false) == Err::<
                RegistryModel,
                RegistryRefusal,
            >(RegistryRefusal::Cancelled)
            &&& release_publication_result(c->Ok_0.0, op).1
        }),
{
    let i = update_position(r.updates, op)->0 as int;
    lemma_update_position(r.updates, op);
    let u = r.updates[i];
    let u1 = UpdateModel { publications: sat_inc(u.publications), ..u };
    lemma_position_after_rewrite(r.updates, op, i, u1);
    let r1 = enter_publication_result(r, op, kind, publication, false)->Ok_0;
    assert(r1.updates == r.updates.update(i, u1));
    let u2 = UpdateModel { cancel_requested: true, ..u1 };
    lemma_position_after_rewrite(r1.updates, op, i, u2);
}

/// Once a runtime commit or an installer handoff has published an update, a
/// cancellation is deferred and never fires, whatever happens to the step.
pub proof fn law_published_update_is_never_cancelled(
    r: RegistryModel,
    op: Seq<char>,
    kind: OperationKind,
    publication: PublicationKind,
)
    requires
        registry_wf(r),
        enter_publication_result(r, op, kind, publication, false) is Ok,
        publication is RuntimeCommit || publication is InstallerHandoff,
    ensures
        ({
            let r1 = enter_publication_result(r, op, kind, publication, false)->Ok_0;
            let r2 = mark_published(r1, op, publication);
            let c = cancel_update_result(r2, op);
            &&& c is Ok
            &&& c->Ok_0.1 == UpdateCancellation::DeferredPublication
            &&& !release_publication_result(c->Ok_0.0, op).1
            &&& !release_publication_result(r2, op).1
        }),
{
    let i = update_position(r.updates, op)->0 as int;
    lemma_update_position(r.updates, op);
    let u = r.updates[i];
    let u1 = UpdateModel { publications: sat_inc(u.publications), ..u };
    lemma_position_after_rewrite(r.updates, op, i, u1);
    let r1 = enter_publication_result(r, op, kind, publication, false)->Ok_0;
    let u2 = UpdateModel { published: true, ..u1 };
    lemma_position_after_rewrite(r1.updates, op, i, u2);
    let r2 = mark_published(r1, op, publication);
    assert(r2.updates == r1.updates.update(i, u2));
    let u3 = UpdateModel { cancel_requested: true, ..u2 };
    lemma_position_after_rewrite(r2.updates, op, i, u3);
}

/// An update whose cancellation was requested can no longer enter a
/// publication step.
pub proof fn law_cancelled_update_cannot_publish(
    r: RegistryModel,
    op: Seq<char>,
    kind: OperationKind,
    publication: PublicationKind,
    token_cancelled: bool,
)
    requires
        registry_wf(r),
        cancel_update_result(r, op) is Ok,
    ensures
        enter_publication_result(cancel_update_result(r, op)->Ok_0.0, op, kind, publication, token_cancelled)
            == if publication_allowed(kind, publication) {
            Err::<RegistryModel, RegistryRefusal>(RegistryRefusal::Cancelled)
        } else {
            Err::<RegistryModel, RegistryRefusal>(RegistryRefusal::InvalidPublication)
        },
{
    let i = update_position(r.updates, op)->0 as int;
    lemma_update_position(r.updates, op);
    let u1 = UpdateModel { cancel_requested: true, ..r.updates[i] };
    lemma_position_after_rewrite(r.updates, op, i, u1);
}

/// After shutdown begins, no new update is registered and only tasks that are
/// explicitly allowed during shutdown are; every update is marked
/// cancel-requested.
pub proof fn law_shutdown_refuses_new_work(
    r: RegistryModel,
    kind: TrackedTaskKind,
    task_op: Option<Seq<char>>,
    op: Seq<char>,
    installer_committed: bool,
)
    requires
        registry_wf(r),
    ensures
        ({
            let s = shutdown_registry(r);
            &&& register_task_result(s, kind, task_op, false) == Err::<(RegistryModel, u64), RegistryRefusal>(
                RegistryRefusal::ShuttingDown,
            )
            &&& register_task_result(s, kind, task_op, true) is Ok
            &&& register_update_result(s, op, installer_committed) == Err::<(RegistryModel, u64), RegistryRefusal>(
                RegistryRefusal::ClosedForUpdates,
            )
            &&& forall|i: int| 0 <= i < s.updates.len() ==> (#[trigger] s.updates[i]).cancel_requested
        }),
{
}

impl TaskRegistry {
    pub open spec fn wf(&self) -> bool {
        registry_wf(self@)
    }

    pub fn new() -> (r: TaskRegistry)
        ensures
            r.wf(),
            !r@.shutting_down,
            r@.next_id == 1,
            r@.tasks.len() == 0,
            r@.updates.len() == 0,
            r@.active_publications == 0,
    {
        let r = TaskRegistry {
            shutting_down: false,
            next_id: 1,
            tasks: Vec::new(),
            updates: Vec::new(),
            active_publications: 0,
        };
        assert(r@.updates =~= Seq::<UpdateModel>::empty());
        assert(r@.tasks =~= Seq::<TaskModel>::empty());
        r
    }

    pub fn is_shutting_down(&self) -> (b: bool)
        ensures
            b == self@.shutting_down,
    {
        self.shutting_down
    }

    pub fn active_publications(&self) -> (n: usize)
        ensures
            n == self@.active_publications,
    {
        self.active_publications
    }

    pub fn task_count(&self) -> (n: usize)
        ensures
            n == self@.tasks.len(),
    {
        self.tasks.len()
    }

    /// Number of registered download workers.
    pub fn worker_count(&self) -> (n: usize)
        ensures
            n == worker_tasks(self@.tasks),
    {
        let mut n: usize = 0;
        let mut i: usize = 0;
        while i < self.tasks.len()
            invariant
                i <= self.tasks@.len(),
                n == worker_tasks(self@.tasks.take(i as int)),
                n <= i,
            decreases self.tasks@.len() - i,
        {
            proof {
                assert(self@.tasks.take(i + 1).drop_last() =~= self@.tasks.take(i as int));
                assert(self@.tasks.take(i + 1).last() == task_view(self.tasks@[i as int]));
            }
            match self.tasks[i].kind {
                TrackedTaskKind::Worker => {
                    n = n + 1;
                },
                _ => {},
            }
            i += 1;
        }
        assert(self@.tasks.take(self@.tasks.len() as int) =~= self@.tasks);
        n
    }

    /// Whether every remaining task is the event pump.
    pub fn producers_done(&self) -> (b: bool)
        ensures
            b == (forall|i: int| 0 <= i < self@.tasks.len() ==> (#[trigger] self@.tasks[i]).kind is Events),
    {
        let mut i: usize = 0;
        while i < self.tasks.len()
            invariant
                i <= self.tasks@.len(),
                forall|j: int| 0 <= j < i ==> (#[trigger] self@.tasks[j]).kind is Events,
            decreases self.tasks@.len() - i,
        {
            match self.tasks[i].kind {
                TrackedTaskKind::Events => {},
                _ => {
                    assert(!(self@.tasks[i as int].kind is Events));
                    return false;
                },
            }
            i += 1;
        }
        true
    }

    /// Registers a task; during shutdown only tasks allowed to run then are accepted.
    pub fn register_task(
        &mut self,
        kind: TrackedTaskKind,
        operation_id: Option<String>,
        allow_during_shutdown: bool,
    ) -> (res: Result<u64, RegistryRefusal>)
        requires
            old(self).wf(),
        ensures
            final(self).wf(),
            match register_task_result(
                old(self)@,
                kind,
                match operation_id {
                    Some(s) => Some(s@),
                    None => None,
                },
                allow_during_shutdown,
            ) {
                Ok((m, id)) => res == Ok::<u64, RegistryRefusal>(id) && final(self)@ == m,
                Err(e) => res == Err::<u64, RegistryRefusal>(e) && final(self)@ == old(self)@,
            },
    {
        if self.shutting_down && !allow_during_shutdown {
            return Err(RegistryRefusal::ShuttingDown);
        }
        let id = self.next_id;
        self.next_id = if id == u64::MAX {
            1
        } else {
            id + 1
        };
        let entry = TaskEntry { id, kind, operation_id };
        let ghost before = self.tasks@;
        self.tasks.push(entry);
        assert(self@.tasks =~= before.map_values(|t: TaskEntry| task_view(t)).push(task_view(entry)));
        Ok(id)
    }

    fn find_update(&self, op: &str) -> (res: Option<usize>)
        requires
            self.wf(),
        ensures
            match res {
                Some(i) => update_position(self@.updates, op@) == Some(i as nat) && i < self.updates@.len(),
                None => update_position(self@.updates, op@) is None,
            },
    {
        let target = chars_of(op);
        let mut i: usize = self.updates.len();
        while i > 0
            invariant
                i <= self.updates@.len(),
                target@ == op@,
                self.wf(),
                forall|j: int| i <= j < self.updates@.len() ==> self@.updates[j].operation_id != op@,
            decreases i,
        {
            let c = chars_of(self.updates[i - 1].operation_id.as_str());
            if chars_eq(c.as_slice(), target.as_slice()) {
                proof {
                    lemma_update_position_unique(self@.updates, op@, i - 1);
                }
                return Some(i - 1);
            }
            i -= 1;
        }
        proof {
            lemma_update_position(self@.updates, op@);
        }
        None
    }

    /// Registers an update operation and its task.
    pub fn register_update(&mut self, operation_id: &str, installer_committed: bool) -> (res: Result<
        u64,
        RegistryRefusal,
    >)
        requires
            old(self).wf(),
        ensures
            final(self).wf(),
            match register_update_result(old(self)@, operation_id@, installer_committed) {
                Ok((m, id)) => res == Ok::<u64, RegistryRefusal>(id) && final(self)@ == m,
                Err(e) => res == Err::<u64, RegistryRefusal>(e) && final(self)@ == old(self)@,
            },
    {
        if self.shutting_down || installer_committed {
            return Err(RegistryRefusal::ClosedForUpdates);
        }
        if self.find_update(operation_id).is_some() {
            return Err(RegistryRefusal::UpdateAlreadyRegistered);
        }
        proof {
            lemma_update_position(self@.updates, operation_id@);
        }
        let id = self.next_id;
        self.next_id = if id == u64::MAX {
            1
        } else {
            id + 1
        };
        let task = TaskEntry {
            id,
            kind: TrackedTaskKind::Update,
            operation_id: Some(operation_id.to_owned()),
        };
        let update = UpdateEntry {
            operation_id: operation_id.to_owned(),
            task_id: id,
            publications: 0,
            published: false,
            cancel_requested: false,
            task_active: true,
        };
        let ghost tb = self.tasks@;
        let ghost ub = self.updates@;
        self.tasks.push(task);
        self.updates.push(update);
        proof {
            assert(self@.tasks =~= tb.map_values(|t: TaskEntry| task_view(t)).push(task_view(task)));
            assert(self@.updates =~= ub.map_values(|u: UpdateEntry| update_view(u)).push(
                update_view(update),
            ));
        }
        Ok(id)
    }

    /// Requests cancellation of an update. `Requested` means the caller fires
    /// the update's cancellation token now.
    pub fn cancel_update(&mut self, operation_id: &str) -> (res: Result<
        UpdateCancellation,
        RegistryRefusal,
    >)
        requires
            old(self).wf(),
        ensures
            final(self).wf(),
            match cancel_update_result(old(self)@, operation_id@) {
                Ok((m, c)) => res == Ok::<UpdateCancellation, RegistryRefusal>(c) && final(self)@ == m,
                Err(e) => res == Err::<UpdateCancellation, RegistryRefusal>(e) && final(self)@ == old(self)@,
            },
    {
        let i = match self.find_update(operation_id) {
            Some(i) => i,
            None => return Err(RegistryRefusal::UpdateNotFound),
        };
        let ghost ub = self.updates@;
        let mut u = copy_update(&self.updates[i]);
        let outcome = if u.publications == 0 && !u.published {
            UpdateCancellation::Requested
        } else {
            UpdateCancellation::DeferredPublication
        };
        u.cancel_requested = true;
        self.updates.set(i, u);
        proof {
            let uv = ub.map_values(|x: UpdateEntry| update_view(x));
            assert(self@.updates =~= uv.update(i as int, UpdateModel { cancel_requested: true, ..uv[i as int] }));
            assert forall|a: int, b: int|
                0 <= a < self@.updates.len() && 0 <= b < self@.updates.len() && a != b implies self@.updates[a].operation_id
                != self@.updates[b].operation_id by {
                assert(self@.updates[a].operation_id == uv[a].operation_id);
                assert(self@.updates[b].operation_id == uv[b].operation_id);
            }
        }
        Ok(outcome)
    }

    /// Enters a publication step of an update that has not been cancelled.
    pub fn enter_publication(
        &mut self,
        operation_id: &str,
        kind: OperationKind,
        publication: PublicationKind,
        token_cancelled: bool,
    ) -> (res: Result<(), RegistryRefusal>)
        requires
            old(self).wf(),
        ensures
            final(self).wf(),
            match enter_publication_result(old(self)@, operation_id@, kind, publication, token_cancelled) {
                Ok(m) => res is Ok && final(self)@ == m,
                Err(e) => res == Err::<(), RegistryRefusal>(e) && final(self)@ == old(self)@,
            },
    {
        let allowed = match (kind, publication) {
            (OperationKind::RuntimeUpdate, PublicationKind::RuntimeCommit) => true,
            (OperationKind::AppUpdate, PublicationKind::InstallerCache) => true,
            (OperationKind::AppUpdate, PublicationKind::InstallerHandoff) => true,
            _ => false,
        };
        if !allowed {
            return Err(RegistryRefusal::InvalidPublication);
        }
        let i = match self.find_update(operation_id) {
            Some(i) => i,
            None => return Err(RegistryRefusal::UpdateTaskMissing),
        };
        let ghost ub = self.updates@;
        let mut u = copy_update(&self.updates[i]);
        if u.cancel_requested || token_cancelled {
            return Err(RegistryRefusal::Cancelled);
        }
        u.publications = u.publications.saturating_add(1);
        self.updates.set(i, u);
        self.active_publications = self.active_publications.saturating_add(1);
        proof {
            let uv = ub.map_values(|x: UpdateEntry| update_view(x));
            let nu = UpdateModel { publications: sat_inc(uv[i as int].publications), ..uv[i as int] };
            assert(self@.updates =~= uv.update(i as int, nu));
            assert forall|a: int, b: int|
                0 <= a < self@.updates.len() && 0 <= b < self@.updates.len() && a != b implies self@.updates[a].operation_id
                != self@.updates[b].operation_id by {
                assert(self@.updates[a].operation_id == uv[a].operation_id);
                assert(self@.updates[b].operation_id == uv[b].operation_id);
            }
        }
        Ok(())
    }

    /// Ends a publication step; `true` asks the caller to fire the update's
    /// cancellation token because a deferred cancellation is now due.
    pub fn release_publication(&mut self, operation_id: &str) -> (fire: bool)
        requires
            old(self).wf(),
        ensures
            final(self).wf(),
            (final(self)@, fire) == release_publication_result(old(self)@, operation_id@),
    {
        self.active_publications = self.active_publications.saturating_sub(1);
        let i = match self.find_update(operation_id) {
            Some(i) => i,
            None => return false,
        };
        let ghost ub = self.updates@;
        let mut u = copy_update(&self.updates[i]);
        let p = u.publications.saturating_sub(1);
        let fire = p == 0 && u.cancel_requested && !u.published;
        if p == 0 && !u.task_active {
            self.updates.remove(i);
            proof {
                let uv = ub.map_values(|x: UpdateEntry| update_view(x));
                assert(self@.updates =~= uv.remove(i as int));
                assert forall|a: int, b: int|
                    0 <= a < self@.updates.len() && 0 <= b < self@.updates.len() && a != b implies self@.updates[a].operation_id
                    != self@.updates[b].operation_id by {
                    let ia = if a < i { a } else { a + 1 };
                    let ib = if b < i { b } else { b + 1 };
                    assert(self@.updates[a] == uv[ia]);
                    assert(self@.updates[b] == uv[ib]);
                }
            }
        } else {
            u.publications = p;
            self.updates.set(i, u);
            proof {
                let uv = ub.map_values(|x: UpdateEntry| update_view(x));
                assert(self@.updates =~= uv.update(i as int, UpdateModel { publications: sat_dec(uv[i as int].publications), ..uv[i as int] }));
                assert forall|a: int, b: int|
                    0 <= a < self@.updates.len() && 0 <= b < self@.updates.len() && a != b implies self@.updates[a].operation_id
                    != self@.updates[b].operation_id by {
                    assert(self@.updates[a].operation_id == uv[a].operation_id);
                    assert(self@.updates[b].operation_id == uv[b].operation_id);
                }
            }
        }
        fire
    }

    /// Commits a publication step: runtime commits and installer handoffs mark
    /// the update as published; the step then ends as in [`Self::release_publication`].
    pub fn commit_publication(&mut self, operation_id: &str, publication: PublicationKind) -> (fire: bool)
        requires
            old(self).wf(),
        ensures
            final(self).wf(),
            (final(self)@, fire) == release_publication_result(
                mark_published(old(self)@, operation_id@, publication),
                operation_id@,
            ),
    {
        let marks = match publication {
            PublicationKind::RuntimeCommit | PublicationKind::InstallerHandoff => true,
            PublicationKind::InstallerCache => false,
        };
        if marks {
            match self.find_update(operation_id) {
                Some(i) => {
                    let ghost ub = self.updates@;
                    let mut u = copy_update(&self.updates[i]);
                    u.published = true;
                    self.updates.set(i, u);
                    proof {
                        let uv = ub.map_values(|x: UpdateEntry| update_view(x));
                        assert(self@.updates =~= uv.update(i as int, UpdateModel { published: true, ..uv[i as int] }));
                        assert forall|a: int, b: int|
                            0 <= a < self@.updates.len() && 0 <= b < self@.updates.len() && a != b implies self@.updates[a].operation_id
                            != self@.updates[b].operation_id by {
                            assert(self@.updates[a].operation_id == uv[a].operation_id);
                            assert(self@.updates[b].operation_id == uv[b].operation_id);
                        }
                    }
                },
                None => {},
            }
        }
        self.release_publication(operation_id)
    }

    fn find_task(&self, id: u64) -> (res: Option<usize>)
        ensures
            match res {
                Some(k) => task_position(self@.tasks, id) == Some(k as nat) && k < self.tasks@.len(),
                None => task_position(self@.tasks, id) is None,
            },
    {
        let mut k: usize = self.tasks.len();
        proof {
            assert(self@.tasks.take(k as int) =~= self@.tasks);
        }
        while k > 0
            invariant
                k <= self.tasks@.len(),
                task_position(self@.tasks, id) == task_position(self@.tasks.take(k as int), id),
            decreases k,
        {
            proof {
                assert(self@.tasks.take(k as int).drop_last() =~= self@.tasks.take(k - 1));
                assert(self@.tasks.take(k as int).last() == task_view(self.tasks@[k - 1]));
            }
            if self.tasks[k - 1].id == id {
                return Some(k - 1);
            }
            k -= 1;
        }
        proof {
            assert(self@.tasks.take(0) =~= Seq::<TaskModel>::empty());
        }
        None
    }

    /// Unregisters a finished task and updates the state of its update, if any.
    pub fn finish_task(&mut self, id: u64)
        requires
            old(self).wf(),
        ensures
            final(self).wf(),
            final(self)@ == finish_task_result(old(self)@, id),
    {
        let k = match self.find_task(id) {
            Some(k) => k,
            None => return,
        };
        let ghost tb = self.tasks@;
        let task = self.tasks.remove(k);
        proof {
            assert(self@.tasks =~= tb.map_values(|t: TaskEntry| task_view(t)).remove(k as int));
        }
        let op = match task.operation_id {
            Some(op) => op,
            None => return,
        };
        let i = match self.find_update(op.as_str()) {
            Some(i) => i,
            None => return,
        };
        let ghost ub = self.updates@;
        let mut u = copy_update(&self.updates[i]);
        if u.task_id != id {
            return;
        }
        if u.publications == 0 {
            self.updates.remove(i);
            proof {
                let uv = ub.map_values(|x: UpdateEntry| update_view(x));
                assert(self@.updates =~= uv.remove(i as int));
                assert forall|a: int, b: int|
                    0 <= a < self@.updates.len() && 0 <= b < self@.updates.len() && a != b implies self@.updates[a].operation_id
                    != self@.updates[b].operation_id by {
                    let ia = if a < i { a } else { a + 1 };
                    let ib = if b < i { b } else { b + 1 };
                    assert(self@.updates[a] == uv[ia]);
                    assert(self@.updates[b] == uv[ib]);
                }
            }
        } else {
            u.task_active = false;
            self.updates.set(i, u);
            proof {
                let uv = ub.map_values(|x: UpdateEntry| update_view(x));
                assert(self@.updates =~= uv.update(i as int, UpdateModel { task_active: false, ..uv[i as int] }));
                assert forall|a: int, b: int|
                    0 <= a < self@.updates.len() && 0 <= b < self@.updates.len() && a != b implies self@.updates[a].operation_id
                    != self@.updates[b].operation_id by {
                    assert(self@.updates[a].operation_id == uv[a].operation_id);
                    assert(self@.updates[b].operation_id == uv[b].operation_id);
                }
            }
        }
    }

    /// Starts shutdown: every update is marked cancel-requested, and the ids
    /// of those whose tokens must fire now are returned.
    pub fn begin_shutdown(&mut self) -> (cancel: Vec<String>)
        requires
            old(self).wf(),
        ensures
            final(self).wf(),
            final(self)@ == shutdown_registry(old(self)@),
            views_of_strings(cancel@) == shutdown_cancellations(old(self)@.updates),
    {
        self.shutting_down = true;
        let ghost ub = self.updates@;
        let ghost uv = ub.map_values(|x: UpdateEntry| update_view(x));
        let mut cancel: Vec<String> = Vec::new();
        let mut i: usize = 0;
        while i < self.updates.len()
            invariant
                i <= self.updates@.len(),
                self.updates@.len() == ub.len(),
                uv == ub.map_values(|x: UpdateEntry| update_view(x)),
                forall|j: int| 0 <= j < i ==> update_view(#[trigger] self.updates@[j]) == shutdown_update(uv[j]),
                forall|j: int| i <= j < ub.len() ==> #[trigger] self.updates@[j] == ub[j],
                views_of_strings(cancel@) == shutdown_cancellations(uv.take(i as int)),
                self.shutting_down,
                self.next_id == old(self).next_id,
                self.tasks == old(self).tasks,
                self.active_publications == old(self).active_publications,
            decreases ub.len() - i,
        {
            let mut u = copy_update(&self.updates[i]);
            proof {
                assert(uv.take(i + 1).drop_last() =~= uv.take(i as int));
                assert(uv.take(i + 1).last() == uv[i as int]);
            }
            if u.publications == 0 && !u.published {
                let ghost before = cancel@;
                let name = u.operation_id.clone();
                cancel.push(name);
                proof {
                    lemma_views_of_strings_push(before, name);
                }
            }
            u.cancel_requested = true;
            self.updates.set(i, u);
            i += 1;
        }
        proof {
            assert(uv.take(ub.len() as int) =~= uv);
            assert(self@.updates =~= uv.map_values(|u: UpdateModel| shutdown_update(u)));
            assert forall|a: int, b: int|
                0 <= a < self@.updates.len() && 0 <= b < self@.updates.len() && a != b implies self@.updates[a].operation_id
                != self@.updates[b].operation_id by {
                assert(self@.updates[a].operation_id == uv[a].operation_id);
                assert(self@.updates[b].operation_id == uv[b].operation_id);
            }
        }
        cancel
    }
}

} // verus!
