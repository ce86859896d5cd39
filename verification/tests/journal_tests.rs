use nuclear_core::journal::{
    clamp_epoch_millis, journal_migration_required, journal_too_large, read_encrypted_journal,
    retained_operation_ids, JournalRetentionChanges, OperationRetentionMetadata,
    MAX_ENCRYPTED_JOURNAL_BYTES, MAX_TERMINAL_ATTEMPTS, TERMINAL_RETENTION_MS,
};
use nuclear_core::models::OperationState;
use std::collections::HashSet;
use std::io::Read;

fn read_at_most<R: Read>(reader: &mut R, count: u64) -> std::io::Result<Vec<u8>> {
    let mut bytes = Vec::new();
    reader.by_ref().take(count).read_to_end(&mut bytes).map(|_| bytes)
}

#[test]
fn encrypted_journal_growth_after_metadata_is_rejected_with_the_size_contract() {
    let mut grown_reader = std::io::repeat(0).take(MAX_ENCRYPTED_JOURNAL_BYTES + 1);

    let error = read_encrypted_journal(|n| read_at_most(&mut grown_reader, n)).unwrap_err();

    assert_eq!(error.code, "journal_too_large");
    assert_eq!(
        error.summary,
        "The saved application state is too large to load safely. The existing journal was preserved."
    );
}

#[test]
fn encrypted_journal_at_the_limit_is_read_whole() {
    let mut reader = std::io::repeat(7).take(1024);
    assert_eq!(read_encrypted_journal(|n| read_at_most(&mut reader, n)).unwrap().len(), 1024);
}

#[test]
fn journal_errors_have_stable_codes() {
    assert_eq!(journal_too_large().code, "journal_too_large");
    let migration = journal_migration_required();
    assert_eq!(migration.code, "journal_migration_required");
    assert!(migration.retryable);
    assert_eq!(
        migration.summary,
        "The application journal was created by an unsupported version."
    );
}

#[test]
fn clock_readings_are_clamped_into_u64() {
    assert_eq!(clamp_epoch_millis(None), 0);
    assert_eq!(clamp_epoch_millis(Some(42)), 42);
    assert_eq!(clamp_epoch_millis(Some(u128::MAX)), u64::MAX);
}

fn op(id: &str, state: OperationState, finished: Option<u64>, updated: u64) -> OperationRetentionMetadata {
    OperationRetentionMetadata {
        id: id.to_string(),
        state,
        finished_at_ms: finished,
        updated_at_ms: updated,
    }
}

fn as_set(ids: Vec<String>) -> HashSet<String> {
    ids.into_iter().collect()
}

#[test]
fn retention_keeps_active_pending_and_recent_terminal_operations() {
    let now = TERMINAL_RETENTION_MS + 10_000;
    let ops = vec![
        op("running", OperationState::Running, None, 1),
        op("old", OperationState::Completed, Some(1), 1),
        op("recent", OperationState::Failed, Some(now - 5), now - 5),
        op("pending-update", OperationState::Completed, Some(1), 1),
        op("boundary", OperationState::Cancelled, None, now - TERMINAL_RETENTION_MS),
    ];
    let kept = as_set(retained_operation_ids(&ops, Some("pending-update"), now));
    let expected: HashSet<String> = ["running", "recent", "pending-update", "boundary"]
        .iter()
        .map(|s| s.to_string())
        .collect();
    assert_eq!(kept, expected);
}

#[test]
fn retention_keeps_only_the_most_recent_terminal_attempts() {
    let now = 1_000_000;
    let ops: Vec<OperationRetentionMetadata> = (0..(MAX_TERMINAL_ATTEMPTS as u64 + 5))
        .map(|i| op(&format!("op-{i:04}"), OperationState::Completed, Some(now - 1_000 + i), now))
        .collect();
    let kept = as_set(retained_operation_ids(&ops, None, now));
    assert_eq!(kept.len(), MAX_TERMINAL_ATTEMPTS);
    for i in 0..5 {
        assert!(!kept.contains(&format!("op-{i:04}")));
    }
    assert!(kept.contains(&format!("op-{:04}", MAX_TERMINAL_ATTEMPTS as u64 + 4)));
}

#[test]
fn retention_breaks_ties_by_update_time_then_id() {
    let now = 10_000;
    let mut ops: Vec<OperationRetentionMetadata> = (0..MAX_TERMINAL_ATTEMPTS)
        .map(|i| op(&format!("a-{i:04}"), OperationState::Completed, Some(9_000), 9_500))
        .collect();
    ops.push(op("z-late", OperationState::Completed, Some(9_000), 9_400));
    let kept = as_set(retained_operation_ids(&ops, None, now));
    assert!(!kept.contains("z-late"));
    assert_eq!(kept.len(), MAX_TERMINAL_ATTEMPTS);
}

#[test]
fn retention_changes_report_whether_anything_changed() {
    let none = JournalRetentionChanges {
        removed_operation_ids: vec![],
        cleared_latest_operation_item_ids: vec![],
    };
    assert!(!none.changed());
    let some = JournalRetentionChanges {
        removed_operation_ids: vec!["x".into()],
        cleared_latest_operation_item_ids: vec![],
    };
    assert!(some.changed());
}
