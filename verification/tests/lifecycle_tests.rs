use nuclear_core::lifecycle::{
    AdmissionState, DrainPoll, LifecycleMode, LifecycleRefusal, WorkerClaimDecision,
};
use nuclear_core::task_registry::{
    PublicationKind, RegistryRefusal, TaskRegistry, TrackedTaskKind, UpdateCancellation,
    UpdateRunError,
};
use nuclear_core::models::OperationKind;

fn opened() -> AdmissionState {
    let mut state = AdmissionState::new(1);
    state.open_after_startup(1).unwrap();
    state
}

#[test]
fn startup_gate_blocks_admission_and_worker_claim_until_open() {
    let mut state = AdmissionState::new(1);
    assert_eq!(state.check_admission(1), Err(LifecycleRefusal::AdmissionPaused));
    assert_eq!(state.worker_claim(), WorkerClaimDecision::Wait);
    assert_eq!(state.open_after_startup(0), Err(LifecycleRefusal::WorkersMissing));
    state.open_after_startup(1).unwrap();
    assert_eq!(state.worker_claim(), WorkerClaimDecision::Claim);
    assert!(state.check_admission(1).is_ok());
    assert_eq!(state.open_after_startup(1), Err(LifecycleRefusal::StartupResolved));
}

#[test]
fn shutdown_during_startup_never_reopens_admission() {
    let mut state = AdmissionState::new(1);
    assert!(state.begin_shutdown());
    assert!(!state.begin_shutdown());
    assert!(state.open_after_startup(1).is_err());
    assert!(state.check_admission(1).is_err());
    assert_eq!(state.worker_claim(), WorkerClaimDecision::Stop);
    assert_eq!(state.mode(), LifecycleMode::ShuttingDown);
}

#[test]
fn duplicate_ids_and_active_jobs_exclude_maintenance() {
    let mut state = opened();
    state.publish(1, &vec!["same-id".to_string()]).unwrap();
    assert_eq!(
        state.publish(1, &vec!["same-id".to_string()]),
        Err(LifecycleRefusal::AlreadyActive)
    );
    assert_eq!(state.acquire_maintenance(), Err(LifecycleRefusal::JobsActive));
    assert!(state.finish("same-id"));
    let epoch = state.acquire_maintenance().unwrap();
    assert_eq!(state.check_admission(1), Err(LifecycleRefusal::AdmissionPaused));
    state.release_maintenance(epoch);
    assert!(state.check_admission(1).is_ok());
}

#[test]
fn batch_admission_rejects_mismatched_and_repeated_ids() {
    let mut state = opened();
    assert_eq!(
        state.publish(2, &vec!["a".to_string()]),
        Err(LifecycleRefusal::BatchMismatch)
    );
    assert_eq!(
        state.publish(2, &vec!["a".to_string(), "a".to_string()]),
        Err(LifecycleRefusal::DuplicateBatchId)
    );
    state.publish(2, &vec!["a".to_string(), "b".to_string()]).unwrap();
    assert_eq!(state.active_ids(), vec!["a".to_string(), "b".to_string()]);
    assert_eq!(state.active_count(), 2);
}

#[test]
fn late_cancel_all_completion_resumes_the_same_epoch() {
    let mut state = opened();
    state.publish(1, &vec!["job".to_string()]).unwrap();
    let ticket = state.begin_cancel_all().unwrap();
    assert!(state.check_admission(1).is_err());
    assert_eq!(state.begin_cancel_all(), Err(LifecycleRefusal::CancelInProgress));
    assert_eq!(state.drain_poll(ticket), DrainPoll::Pending);
    state.finish("job");
    assert_eq!(state.drain_poll(ticket), DrainPoll::Idle);
    assert!(state.resume_after_drain(ticket));
    assert!(state.check_admission(1).is_ok());
    assert!(!state.resume_after_drain(ticket));
}

#[test]
fn shutdown_supersedes_a_late_cancel_all_completion() {
    let mut state = opened();
    let ticket = state.begin_cancel_all().unwrap();
    state.begin_shutdown();
    assert_eq!(state.drain_poll(ticket), DrainPoll::SupersededByShutdown);
    assert!(!state.resume_after_drain(ticket));
    assert!(state.check_admission(1).is_err());
}

#[test]
fn cancel_all_cannot_release_an_update_maintenance_lease() {
    let mut state = opened();
    state.acquire_maintenance().unwrap();
    assert_eq!(
        state.begin_cancel_all(),
        Err(LifecycleRefusal::CancelDuringMaintenance)
    );
}

#[test]
fn committed_installer_handoff_permanently_closes_admission() {
    let mut state = opened();
    state.commit_installer_handoff();
    assert_eq!(state.check_admission(1), Err(LifecycleRefusal::UpdateReady));
    assert!(state.acquire_maintenance().is_err());
    assert_eq!(state.worker_claim(), WorkerClaimDecision::Stop);
    assert!(state.is_installer_committed());
}

#[test]
fn refusals_map_to_typed_errors() {
    assert_eq!(LifecycleRefusal::ShuttingDownTyped.to_app_error().code, "shutting_down");
    assert_eq!(LifecycleRefusal::QueueFull.to_app_error().code, "busy");
    assert_eq!(LifecycleRefusal::JobNotFound.to_app_error().code, "not_found");
}

fn registry_with_update(id: &str) -> TaskRegistry {
    let mut registry = TaskRegistry::new();
    registry.register_update(id, false).unwrap();
    registry
}

#[test]
fn publication_defers_update_cancellation_and_shutdown_deadline() {
    let mut registry = registry_with_update("runtime-update");
    registry
        .enter_publication(
            "runtime-update",
            OperationKind::RuntimeUpdate,
            PublicationKind::RuntimeCommit,
            false,
        )
        .unwrap();
    assert_eq!(
        registry.cancel_update("runtime-update").unwrap(),
        UpdateCancellation::DeferredPublication
    );
    assert_eq!(registry.active_publications(), 1);
    let fired_at_shutdown = registry.begin_shutdown();
    assert!(fired_at_shutdown.is_empty());
    assert!(registry.release_publication("runtime-update"));
    assert_eq!(registry.active_publications(), 0);
}

#[test]
fn committed_publication_cannot_be_cancelled_before_terminal_finalization() {
    let mut registry = registry_with_update("published-update");
    registry
        .enter_publication(
            "published-update",
            OperationKind::RuntimeUpdate,
            PublicationKind::RuntimeCommit,
            false,
        )
        .unwrap();
    assert!(!registry.commit_publication("published-update", PublicationKind::RuntimeCommit));
    assert_eq!(
        registry.cancel_update("published-update").unwrap(),
        UpdateCancellation::DeferredPublication
    );
}

#[test]
fn cancelled_update_cannot_enter_publication() {
    let mut registry = registry_with_update("u");
    assert_eq!(registry.cancel_update("u").unwrap(), UpdateCancellation::Requested);
    assert_eq!(
        registry.enter_publication("u", OperationKind::AppUpdate, PublicationKind::InstallerCache, false),
        Err(RegistryRefusal::Cancelled)
    );
    assert_eq!(
        registry.enter_publication("u", OperationKind::AppUpdate, PublicationKind::RuntimeCommit, false),
        Err(RegistryRefusal::InvalidPublication)
    );
    assert_eq!(
        registry.cancel_update("missing"),
        Err(RegistryRefusal::UpdateNotFound)
    );
}

#[test]
fn shutdown_accounts_for_cleanup_and_rejects_unrelated_new_tasks() {
    let mut registry = TaskRegistry::new();
    let cleanup = registry.register_task(TrackedTaskKind::Cleanup, None, false).unwrap();
    registry.begin_shutdown();
    assert_eq!(
        registry.register_task(TrackedTaskKind::Cleanup, None, false),
        Err(RegistryRefusal::ShuttingDown)
    );
    let continuation = registry.register_task(TrackedTaskKind::Cleanup, None, true).unwrap();
    assert_ne!(cleanup, continuation);
    assert_eq!(registry.task_count(), 2);
    registry.finish_task(cleanup);
    registry.finish_task(continuation);
    assert_eq!(registry.task_count(), 0);
    assert_eq!(
        registry.register_update("late", false),
        Err(RegistryRefusal::ClosedForUpdates)
    );
}

#[test]
fn event_pump_waits_for_producers_without_waiting_for_itself() {
    let mut registry = TaskRegistry::new();
    let _pump = registry.register_task(TrackedTaskKind::Events, None, false).unwrap();
    let producer = registry.register_task(TrackedTaskKind::Admission, None, false).unwrap();
    registry.begin_shutdown();
    assert!(!registry.producers_done());
    registry.finish_task(producer);
    assert!(registry.producers_done());
}

#[test]
fn registry_refusals_become_update_errors() {
    assert!(matches!(
        RegistryRefusal::Cancelled.to_update_run_error(),
        UpdateRunError::Cancelled
    ));
    match RegistryRefusal::UpdateAlreadyRegistered.to_update_run_error() {
        UpdateRunError::Failed(e) => {
            assert_eq!(e.code, "busy");
            assert_eq!(e.summary, "The update operation is already registered.");
        }
        UpdateRunError::Cancelled => panic!("expected a failure"),
    }
    assert_eq!(
        UpdateRunError::Cancelled.to_display_string(),
        "The update was cancelled."
    );
}

#[test]
fn a_registered_job_is_found_until_it_finishes() {
    let mut state = opened();
    state
        .publish(2, &vec!["first".to_string(), "second".to_string()])
        .unwrap();
    assert_eq!(state.registered_job("first"), Ok(false));
    assert_eq!(state.registered_job("first"), Ok(false));
    assert!(state.finish("first"));
    assert_eq!(state.registered_job("first"), Err(LifecycleRefusal::JobNotFound));
    assert_eq!(state.registered_job("second"), Ok(false));
    assert_eq!(state.active_count(), 1);
    assert!(!state.finish("first"));
    assert!(state.finish("second"));
    assert_eq!(state.active_count(), 0);
}
