use nuclear_core::outbox::{
    AppStateResyncRequired, StateOutbox, StatePublication, MAX_OUTBOX_BATCHES, MAX_OUTBOX_DELTAS,
};

fn check_resync_high_water() {
    let mut outbox: StateOutbox<u64> = StateOutbox::new(0);
    outbox.take_reader().unwrap();
    outbox.enqueue(vec![10], 80, 10);

    outbox.require_resync(5);

    assert!(matches!(
        outbox.try_recv(),
        Some(StatePublication::ResyncRequired(AppStateResyncRequired {
            latest_sequence: 10
        }))
    ));
    assert!(outbox.try_recv().is_none());
}

fn check_single_consumer() {
    let mut outbox: StateOutbox<u64> = StateOutbox::new(0);
    outbox.take_reader().unwrap();
    let error = match outbox.take_reader() {
        Ok(_) => panic!("a second reader claim unexpectedly succeeded"),
        Err(error) => error,
    };
    assert_eq!(error.code, "busy");
    outbox.release_reader();
    assert!(outbox.take_reader().is_ok());
}

#[test]
fn outbox_resync_uses_the_outbox_high_water_when_the_observed_sequence_is_stale() {
    check_resync_high_water();
}

#[test]
fn tests_resync_uses_the_outbox_high_water_when_the_observed_sequence_is_stale() {
    check_resync_high_water();
}

#[test]
fn outbox_only_one_consumer_can_claim_the_outbox_at_a_time() {
    check_single_consumer();
}

#[test]
fn tests_only_one_consumer_can_claim_the_outbox_at_a_time() {
    check_single_consumer();
}

#[test]
fn overflow_coalesces_to_one_latest_sequence_resync() {
    let mut outbox: StateOutbox<u64> = StateOutbox::new(0);
    for sequence in 1..=(MAX_OUTBOX_BATCHES as u64 + 20) {
        outbox.enqueue(vec![sequence], 80, sequence);
    }

    let stats = outbox.stats();
    assert_eq!(stats.queued_batches, 1);
    assert_eq!(stats.queued_deltas, 0);
    assert!(stats.coalesced_resyncs >= 1);
    assert!(matches!(
        outbox.try_recv(),
        Some(StatePublication::ResyncRequired(AppStateResyncRequired { latest_sequence }))
            if latest_sequence == MAX_OUTBOX_BATCHES as u64 + 20
    ));
}

#[test]
fn reader_preserves_batch_and_delta_order() {
    let mut outbox: StateOutbox<u64> = StateOutbox::new(0);
    outbox.enqueue(vec![1, 2], 160, 2);
    outbox.enqueue(vec![3], 80, 3);

    let first = outbox.try_recv();
    let second = outbox.try_recv();
    assert!(matches!(first, Some(StatePublication::Deltas(deltas)) if deltas == vec![1, 2]));
    assert!(matches!(second, Some(StatePublication::Deltas(deltas)) if deltas[0] == 3));
    assert!(outbox.try_recv().is_none());
}

#[test]
fn delta_and_byte_limits_also_trigger_a_resync() {
    let mut outbox: StateOutbox<u64> = StateOutbox::new(7);
    outbox.enqueue(vec![0; MAX_OUTBOX_DELTAS], 10, 3);
    assert_eq!(outbox.stats().queued_deltas, MAX_OUTBOX_DELTAS);
    outbox.enqueue(vec![1], 10, 9);
    assert_eq!(outbox.stats().queued_deltas, 0);
    assert!(matches!(
        outbox.try_recv(),
        Some(StatePublication::ResyncRequired(AppStateResyncRequired { latest_sequence: 9 }))
    ));

    outbox.enqueue(vec![1], 16 * 1024 * 1024 + 1, 11);
    assert!(matches!(
        outbox.try_recv(),
        Some(StatePublication::ResyncRequired(AppStateResyncRequired { latest_sequence: 11 }))
    ));
}

#[test]
fn empty_batches_change_nothing_and_stats_track_contents() {
    let mut outbox: StateOutbox<u64> = StateOutbox::new(0);
    outbox.enqueue(vec![], 10, 99);
    assert_eq!(outbox.stats().queued_batches, 0);
    outbox.enqueue(vec![1, 2, 3], 300, 4);
    let stats = outbox.stats();
    assert_eq!(stats.queued_batches, 1);
    assert_eq!(stats.queued_deltas, 3);
    assert_eq!(stats.estimated_bytes, 300);
    outbox.try_recv();
    assert_eq!(outbox.stats().estimated_bytes, 0);
}
