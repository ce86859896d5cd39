use nuclear_core::models::{
    inspection_settings_fingerprint, MediaSelection, OperationState, QueueItemState,
};

fn valid_media_selection() -> MediaSelection {
    MediaSelection {
        entry_id: "2097430424205295616".to_string(),
        extractor_key: "Twitter".to_string(),
        playlist_index: 1,
    }
}

#[test]
fn media_selection_accepts_the_complete_valid_range() {
    let first = valid_media_selection();
    let mut last = first.clone();
    last.playlist_index = 1_000;
    last.entry_id = "i".repeat(4 * 1024);
    last.extractor_key = "e".repeat(4 * 1024);

    assert!(first.validate().is_ok());
    assert!(last.validate().is_ok());
}

#[test]
fn media_selection_rejects_out_of_range_indexes() {
    for playlist_index in [0, 1_001] {
        let mut selection = valid_media_selection();
        selection.playlist_index = playlist_index;

        assert!(selection.validate().is_err());
    }
}

#[test]
fn media_selection_rejects_invalid_entry_ids_and_extractor_keys() {
    for entry_id in ["", " ", " media-id", "media-id ", "media\nid"] {
        let mut selection = valid_media_selection();
        selection.entry_id = entry_id.to_string();

        assert!(
            selection.validate().is_err(),
            "accepted entry ID {entry_id:?}"
        );
    }
    for extractor_key in ["", " ", " Twitter", "Twitter ", "Twitter\r"] {
        let mut selection = valid_media_selection();
        selection.extractor_key = extractor_key.to_string();

        assert!(
            selection.validate().is_err(),
            "accepted extractor key {extractor_key:?}"
        );
    }
}

#[test]
fn media_selection_rejects_fields_over_four_kibibytes() {
    let mut oversized_id = valid_media_selection();
    oversized_id.entry_id = "i".repeat(4 * 1024 + 1);
    assert!(oversized_id.validate().is_err());

    let mut oversized_extractor = valid_media_selection();
    oversized_extractor.extractor_key = "e".repeat(4 * 1024 + 1);
    assert!(oversized_extractor.validate().is_err());
}

#[test]
fn media_selection_errors_name_the_field() {
    let mut selection = valid_media_selection();
    selection.entry_id = " x".into();
    assert_eq!(
        selection.validate().unwrap_err(),
        "Media selection entry ID must be non-empty and trimmed."
    );
    let mut selection = valid_media_selection();
    selection.playlist_index = 0;
    assert_eq!(
        selection.validate().unwrap_err(),
        "Media selection playlist index must be between 1 and 1,000."
    );
}

#[test]
fn terminal_and_editable_states() {
    assert!(OperationState::Completed.is_terminal());
    assert!(OperationState::Interrupted.is_terminal());
    assert!(!OperationState::Running.is_terminal());
    assert!(!QueueItemState::Queued.is_editable());
    assert!(!QueueItemState::Running.is_editable());
    assert!(QueueItemState::Failed.is_editable());
    assert!(QueueItemState::Inert.is_editable());
}

#[test]
fn settings_fingerprint_is_lower_hex_sha256() {
    assert_eq!(
        inspection_settings_fingerprint(b"abc"),
        "ba7816bf8f01cfea414140de5dae2223b00361a396177a9cb410ff61f20015ad"
    );
    assert_eq!(
        inspection_settings_fingerprint(b"[null,null]").len(),
        64
    );
}
