use nuclear_core::journal::records::{OperationRecord, PendingAppUpdateRecovery, PersistentJournal};
use nuclear_core::journal::validation::{
    check_serialized_schema, validate_journal_structure, LatestReferencePolicy,
};
use nuclear_core::journal::{MAX_TERMINAL_ATTEMPTS, TERMINAL_RETENTION_MS};
use nuclear_core::models::{
    OperationKind, OperationState, PlaylistAdmissionReceipt, QueueItemRecord, QueueItemState,
    QueuePreparation, APP_SCHEMA_VERSION,
};

fn operation(index: usize, state: OperationState, updated_at_ms: u64) -> OperationRecord {
    OperationRecord {
        schema_version: APP_SCHEMA_VERSION,
        id: uuid::Uuid::from_u128(index as u128 + 1).to_string(),
        queue_item_id: None,
        kind: OperationKind::Download,
        state,
        phase: None,
        sequence: 0,
        created_at_ms: updated_at_ms,
        updated_at_ms,
        finished_at_ms: state.is_terminal().then_some(updated_at_ms),
        error: None,
        has_inspection_result: false,
        playlist_admission: None,
        correlation_id: uuid::Uuid::from_u128(index as u128 + 10_000).to_string(),
        published_output_path: None,
    }
}

fn queue_item(index: usize, latest_operation_id: Option<String>) -> QueueItemRecord {
    QueueItemRecord {
        schema_version: APP_SCHEMA_VERSION,
        id: uuid::Uuid::from_u128(index as u128 + 100_000).to_string(),
        source_url: format!("https://example.com/{index}"),
        title: format!("item-{index}"),
        available_qualities: vec!["720p".to_string()],
        has_audio: true,
        cookie_config: None,
        format: "mp4".to_string(),
        quality: "720p".to_string(),
        output_dir: "C:\\Downloads".to_string(),
        filename_override: None,
        compat_config_path: None,
        state: QueueItemState::Completed,
        latest_operation_id,
        created_at_ms: 1,
        updated_at_ms: 1,
        source_media_id: None,
        preparation: None,
        preparation_operation_id: None,
        selection: None,
    }
}

#[test]
fn restart_normalization_and_retention_preserve_pending_app_update_proof() {
    let mut app_update = operation(1, OperationState::Running, 1);
    app_update.kind = OperationKind::AppUpdate;
    app_update.phase = Some("installing".to_string());
    let operation_id = app_update.id.clone();
    let mut journal = PersistentJournal {
        operations: vec![app_update],
        pending_app_update: Some(PendingAppUpdateRecovery {
            operation_id: operation_id.clone(),
            expected_version: "0.6.0".to_string(),
            prepared_at_ms: 1,
        }),
        ..PersistentJournal::default()
    };

    assert!(!journal.normalize_after_restart(TERMINAL_RETENTION_MS + 10));
    assert_eq!(journal.operations[0].state, OperationState::Running);

    journal.operations[0].state = OperationState::Interrupted;
    journal.operations[0].finished_at_ms = Some(1);
    for index in 2..=(MAX_TERMINAL_ATTEMPTS + 5) {
        journal.operations.push(operation(
            index,
            OperationState::Completed,
            TERMINAL_RETENTION_MS + 10,
        ));
    }
    journal.prune_and_repair_latest_references(TERMINAL_RETENTION_MS + 10);

    assert!(journal
        .operations
        .iter()
        .any(|operation| operation.id == operation_id));
    assert!(validate_journal_structure(&journal, LatestReferencePolicy::RequirePresent).is_ok());
}

#[test]
fn pruning_retains_active_and_only_recent_bounded_terminal_attempts() {
    let now = TERMINAL_RETENTION_MS + 10_000;
    let mut journal = PersistentJournal::default();
    journal.operations.push(operation(0, OperationState::Running, 1));
    for index in 1..=(MAX_TERMINAL_ATTEMPTS + 20) {
        journal.operations.push(operation(index, OperationState::Completed, now));
    }
    journal.operations.push(operation(999, OperationState::Completed, 1));

    journal.prune_and_repair_latest_references(now);

    assert_eq!(journal.schema_version, APP_SCHEMA_VERSION);
    assert_eq!(journal.operations.len(), MAX_TERMINAL_ATTEMPTS + 1);
    assert!(journal
        .operations
        .iter()
        .any(|item| item.id == operation(0, OperationState::Running, 1).id));
    assert!(!journal
        .operations
        .iter()
        .any(|item| item.id == operation(999, OperationState::Completed, 1).id));
}

#[test]
fn dismiss_repair_clears_a_dangling_latest_operation_reference() {
    let operation = operation(1, OperationState::Completed, 25);
    let mut journal = PersistentJournal {
        queue: vec![queue_item(1, Some(operation.id.clone()))],
        operations: vec![operation.clone()],
        ..PersistentJournal::default()
    };
    journal.operations.retain(|candidate| candidate.id != operation.id);

    let changes = journal.prune_and_repair_latest_references(25);

    assert_eq!(
        changes.cleared_latest_operation_item_ids,
        vec![journal.queue[0].id.clone()]
    );
    assert!(journal.queue[0].latest_operation_id.is_none());
}

#[test]
fn age_pruning_clears_only_the_reference_to_the_expired_attempt() {
    let now = TERMINAL_RETENTION_MS + 10_000;
    let mut expired = operation(1, OperationState::Completed, 1);
    let mut recent = operation(2, OperationState::Completed, now);
    let expired_item = queue_item(1, Some(expired.id.clone()));
    let recent_item = queue_item(2, Some(recent.id.clone()));
    expired.queue_item_id = Some(expired_item.id.clone());
    recent.queue_item_id = Some(recent_item.id.clone());
    let recent_id = recent.id.clone();
    let mut journal = PersistentJournal {
        queue: vec![expired_item, recent_item],
        operations: vec![expired, recent],
        ..PersistentJournal::default()
    };

    journal.prune_and_repair_latest_references(now);

    assert!(journal.queue[0].latest_operation_id.is_none());
    assert_eq!(
        journal.queue[1].latest_operation_id.as_deref(),
        Some(recent_id.as_str())
    );
}

#[test]
fn count_retention_repairs_references_to_evicted_attempts() {
    let now = 10_000;
    let mut operations = (0..=MAX_TERMINAL_ATTEMPTS)
        .map(|index| operation(index, OperationState::Completed, index as u64 + 1))
        .collect::<Vec<_>>();
    let oldest_id = operations[0].id.clone();
    let newest_id = operations[MAX_TERMINAL_ATTEMPTS].id.clone();
    let mut oldest_item = queue_item(1, Some(oldest_id));
    let mut newest_item = queue_item(2, Some(newest_id.clone()));
    operations[0].queue_item_id = Some(oldest_item.id.clone());
    operations[MAX_TERMINAL_ATTEMPTS].queue_item_id = Some(newest_item.id.clone());
    oldest_item.updated_at_ms = now;
    newest_item.updated_at_ms = now;
    let mut journal = PersistentJournal {
        queue: vec![oldest_item, newest_item],
        operations,
        ..PersistentJournal::default()
    };

    journal.prune_and_repair_latest_references(now);

    assert_eq!(journal.operations.len(), MAX_TERMINAL_ATTEMPTS);
    assert!(journal.queue[0].latest_operation_id.is_none());
    assert_eq!(
        journal.queue[1].latest_operation_id.as_deref(),
        Some(newest_id.as_str())
    );
}

#[test]
fn restart_converts_nonterminal_operations_to_interrupted() {
    let mut journal = PersistentJournal::default();
    journal.operations.push(operation(1, OperationState::Running, 1));

    journal.normalize_after_restart(25);

    let operation = &journal.operations[0];
    assert_eq!(operation.state, OperationState::Interrupted);
    assert_eq!(operation.finished_at_ms, Some(25));
    assert_eq!(operation.error.as_ref().unwrap().code, "interrupted");
}

#[test]
fn structural_validation_rejects_duplicate_operation_ids() {
    let id = uuid::Uuid::new_v4().to_string();
    let correlation = uuid::Uuid::new_v4().to_string();
    let mut first = operation(1, OperationState::Completed, 1);
    first.id.clone_from(&id);
    first.correlation_id.clone_from(&correlation);
    let mut second = first.clone();
    second.correlation_id = uuid::Uuid::new_v4().to_string();
    let journal = PersistentJournal {
        operations: vec![first, second],
        ..PersistentJournal::default()
    };

    assert_eq!(
        validate_journal_structure(&journal, LatestReferencePolicy::RequirePresent)
            .unwrap_err()
            .code,
        "journal_corrupt"
    );
}

#[test]
fn persistence_drops_inspection_payloads() {
    let mut journal = PersistentJournal::default();
    let mut completed = operation(1, OperationState::Completed, 25);
    completed.kind = OperationKind::Inspection;
    completed.has_inspection_result = true;
    journal.operations.push(completed);

    let persisted = journal.prepare_for_persistence(25).unwrap().journal;

    assert!(!persisted.operations[0].has_inspection_result);
}

#[test]
fn restart_interrupts_waiting_items_and_stranded_preparations() {
    let mut inspection = operation(1, OperationState::Running, 1);
    inspection.kind = OperationKind::Inspection;
    let mut waiting = queue_item(1, None);
    waiting.state = QueueItemState::Queued;
    let mut pending = queue_item(2, None);
    pending.state = QueueItemState::Inert;
    pending.preparation = Some(QueuePreparation::Pending);
    pending.preparation_operation_id = Some(inspection.id.clone());
    inspection.queue_item_id = Some(pending.id.clone());
    let idle = queue_item(3, None);
    let mut journal = PersistentJournal {
        queue: vec![waiting, pending, idle],
        operations: vec![inspection],
        ..PersistentJournal::default()
    };

    assert!(journal.normalize_after_restart(50));

    assert_eq!(journal.queue[0].state, QueueItemState::Interrupted);
    assert_eq!(journal.queue[0].updated_at_ms, 50);
    assert_eq!(journal.queue[1].state, QueueItemState::Interrupted);
    assert_eq!(journal.queue[2].state, QueueItemState::Completed);
    assert_eq!(journal.queue[2].updated_at_ms, 1);
    assert_eq!(journal.operations.len(), 1);
    assert!(journal.operations[0].error.as_ref().unwrap().retryable);
}

#[test]
fn pruning_orders_operations_by_creation_then_id() {
    let mut a = operation(3, OperationState::Running, 5);
    a.created_at_ms = 7;
    let mut b = operation(1, OperationState::Running, 5);
    b.created_at_ms = 7;
    let mut c = operation(2, OperationState::Running, 5);
    c.created_at_ms = 3;
    let mut journal = PersistentJournal {
        operations: vec![a.clone(), b.clone(), c.clone()],
        ..PersistentJournal::default()
    };

    let changes = journal.prune_and_repair_latest_references(10);

    let ids: Vec<String> = journal.operations.iter().map(|o| o.id.clone()).collect();
    assert_eq!(ids, vec![c.id, b.id, a.id]);
    assert!(changes.removed_operation_ids.is_empty());
}

#[test]
fn queued_items_keep_their_preparation_and_playlist_operations() {
    let now = TERMINAL_RETENTION_MS * 3;
    let item = queue_item(1, None);
    let mut receipt_op = operation(1, OperationState::Completed, 1);
    receipt_op.kind = OperationKind::Inspection;
    receipt_op.playlist_admission = Some(PlaylistAdmissionReceipt {
        request_id: "req".into(),
        fingerprint: "a".repeat(64),
        item_ids: vec![item.id.clone()],
        skipped_count: 0,
    });
    let old = operation(2, OperationState::Completed, 1);
    let old_id = old.id.clone();
    let mut journal = PersistentJournal {
        queue: vec![item],
        operations: vec![receipt_op.clone(), old],
        ..PersistentJournal::default()
    };

    let changes = journal.prune_and_repair_latest_references(now);

    assert_eq!(journal.operations.len(), 1);
    assert_eq!(journal.operations[0].id, receipt_op.id);
    assert_eq!(changes.removed_operation_ids, vec![old_id]);
}

#[test]
fn pending_update_must_name_an_app_update_with_a_plain_version() {
    let op = operation(1, OperationState::Completed, 1);
    let mut journal = PersistentJournal {
        operations: vec![op.clone()],
        pending_app_update: Some(PendingAppUpdateRecovery {
            operation_id: op.id.clone(),
            expected_version: "0.6.0-beta".to_string(),
            prepared_at_ms: 1,
        }),
        ..PersistentJournal::default()
    };
    let invalid = validate_journal_structure(&journal, LatestReferencePolicy::AllowDangling).unwrap_err();
    assert_eq!(invalid.summary, "The application journal contained an invalid pending update record.");
    journal.pending_app_update.as_mut().unwrap().expected_version = "0.6.0".to_string();
    let wrong = validate_journal_structure(&journal, LatestReferencePolicy::AllowDangling).unwrap_err();
    assert_eq!(wrong.summary, "The pending update record referenced the wrong operation kind.");
    journal.operations[0].kind = OperationKind::AppUpdate;
    assert!(validate_journal_structure(&journal, LatestReferencePolicy::AllowDangling).is_ok());
}

#[test]
fn dangling_latest_link_depends_on_the_policy() {
    let missing = uuid::Uuid::from_u128(77).to_string();
    let journal = PersistentJournal {
        queue: vec![queue_item(1, Some(missing))],
        ..PersistentJournal::default()
    };
    assert!(validate_journal_structure(&journal, LatestReferencePolicy::AllowDangling).is_ok());
    let e = validate_journal_structure(&journal, LatestReferencePolicy::RequirePresent).unwrap_err();
    assert_eq!(e.summary, "The application journal contained a missing latest operation reference.");
}

#[test]
fn schema_and_limits_are_checked_first() {
    let mut journal = PersistentJournal::default();
    journal.schema_version = APP_SCHEMA_VERSION + 1;
    let e = validate_journal_structure(&journal, LatestReferencePolicy::RequirePresent).unwrap_err();
    assert_eq!(e.code, "journal_migration_required");
    assert!(e.retryable);
    let mut records = PersistentJournal::default();
    let mut item = queue_item(1, None);
    item.schema_version = 9;
    records.queue.push(item);
    let e = validate_journal_structure(&records, LatestReferencePolicy::RequirePresent).unwrap_err();
    assert_eq!(e.summary, "The application journal contains records from an unsupported version.");
    let mut bad_id = PersistentJournal::default();
    let mut item = queue_item(1, None);
    item.id = "not-a-uuid".into();
    bad_id.queue.push(item);
    let e = validate_journal_structure(&bad_id, LatestReferencePolicy::RequirePresent).unwrap_err();
    assert_eq!(e.summary, "The application journal contained invalid queue records.");
}

#[test]
fn serialized_schema_headers_are_checked_before_decoding() {
    assert!(check_serialized_schema(Some(APP_SCHEMA_VERSION), Some(vec![APP_SCHEMA_VERSION])).is_ok());
    assert_eq!(check_serialized_schema(None, None).unwrap_err().code, "journal_corrupt");
    assert_eq!(
        check_serialized_schema(Some(APP_SCHEMA_VERSION + 1), None).unwrap_err().code,
        "journal_migration_required"
    );
    assert_eq!(
        check_serialized_schema(Some(APP_SCHEMA_VERSION), None).unwrap_err().code,
        "journal_corrupt"
    );
    assert_eq!(
        check_serialized_schema(Some(APP_SCHEMA_VERSION), Some(vec![APP_SCHEMA_VERSION, 2]))
            .unwrap_err()
            .code,
        "journal_migration_required"
    );
}

#[test]
fn a_second_open_after_repair_changes_nothing() {
    let dangling = operation(7, OperationState::Completed, 1).id;
    let mut journal = PersistentJournal {
        revision: 7,
        queue: vec![queue_item(1, Some(dangling))],
        ..PersistentJournal::default()
    };
    assert!(journal.restart_after_open(TERMINAL_RETENTION_MS));
    assert_eq!(journal.revision, 8);
    assert_eq!(journal.queue[0].latest_operation_id, None);

    let before = format!("{journal:?}");
    assert!(!journal.restart_after_open(TERMINAL_RETENTION_MS + 5));
    assert_eq!(journal.revision, 8);
    assert_eq!(format!("{journal:?}"), before);
}

#[test]
fn reopening_an_unchanged_journal_keeps_its_revision() {
    let mut journal = PersistentJournal {
        revision: u64::MAX,
        operations: vec![operation(1, OperationState::Running, 1)],
        ..PersistentJournal::default()
    };
    assert!(journal.restart_after_open(10));
    assert_eq!(journal.revision, u64::MAX);
    assert_eq!(journal.operations[0].state, OperationState::Interrupted);
    assert!(!journal.restart_after_open(10));
}
