use nuclear_core::appearance::{
    output_missing, parse_theme_preference, published_file, theme_preference_bytes,
    PreferenceRead, UiTheme,
};
use nuclear_core::journal::records::OperationRecord;
use nuclear_core::models::{
    OperationKind, OperationState, QueueItemRecord, QueueItemState, APP_SCHEMA_VERSION,
};

#[test]
fn appearance_round_trips_across_restarts_and_replaces_existing_value() {
    assert_eq!(parse_theme_preference(PreferenceRead::Missing).unwrap(), UiTheme::Light);
    for theme in [UiTheme::Dark, UiTheme::System, UiTheme::Light] {
        let bytes = theme_preference_bytes(theme);
        assert_eq!(parse_theme_preference(PreferenceRead::Bytes(bytes)).unwrap(), theme);
    }
}

#[test]
fn malformed_or_oversized_preferences_are_reported_without_overwriting() {
    for bytes in [b"\"purple\"".to_vec(), vec![b' '; 1025]] {
        let error = parse_theme_preference(PreferenceRead::Bytes(bytes)).unwrap_err();
        assert_eq!(error.code, "invalid_appearance");
    }
}

#[test]
fn theme_files_hold_the_json_name() {
    assert_eq!(theme_preference_bytes(UiTheme::Dark), b"\"dark\"".to_vec());
    assert_eq!(theme_preference_bytes(UiTheme::System), b"\"system\"".to_vec());
    assert_eq!(
        parse_theme_preference(PreferenceRead::Bytes(b" \"system\"\n".to_vec())).unwrap(),
        UiTheme::System
    );
}

#[test]
fn unreadable_preferences_are_internal_errors() {
    let error = parse_theme_preference(PreferenceRead::Failed).unwrap_err();
    assert_eq!(error.code, "internal_error");
    assert!(error.retryable);
    assert_eq!(UiTheme::default(), UiTheme::Light);
}

fn completed_download(id: &str, item_id: &str, path: Option<&str>) -> OperationRecord {
    OperationRecord {
        schema_version: APP_SCHEMA_VERSION,
        id: id.into(),
        queue_item_id: Some(item_id.into()),
        kind: OperationKind::Download,
        state: OperationState::Completed,
        phase: None,
        sequence: 1,
        created_at_ms: 1,
        updated_at_ms: 2,
        finished_at_ms: Some(2),
        error: None,
        has_inspection_result: false,
        playlist_admission: None,
        correlation_id: "c".into(),
        published_output_path: path.map(|p| p.to_string()),
    }
}

fn item(id: &str, latest: Option<&str>) -> QueueItemRecord {
    QueueItemRecord {
        schema_version: APP_SCHEMA_VERSION,
        id: id.into(),
        source_url: "https://example.com/v".into(),
        title: "v".into(),
        available_qualities: vec![],
        has_audio: true,
        cookie_config: None,
        format: "mp4".into(),
        quality: "best".into(),
        output_dir: "C:\\Downloads".into(),
        filename_override: None,
        compat_config_path: None,
        state: QueueItemState::Completed,
        latest_operation_id: latest.map(|l| l.to_string()),
        created_at_ms: 1,
        updated_at_ms: 1,
        source_media_id: None,
        preparation: None,
        preparation_operation_id: None,
        selection: None,
    }
}

#[test]
fn published_file_follows_the_items_completed_latest_download() {
    let queue = vec![item("q1", Some("op1")), item("q2", Some("op2")), item("q3", None)];
    let ops = vec![
        completed_download("op1", "q1", Some("C:\\Downloads\\a.mp4")),
        completed_download("op2", "q2", None),
    ];
    assert_eq!(published_file(&queue, &ops, "q1").unwrap(), "C:\\Downloads\\a.mp4");
    let missing = published_file(&queue, &ops, "nope").unwrap_err();
    assert_eq!(missing.code, "item_missing");
    assert_eq!(missing.summary, "This download is no longer in the queue.");
    let unrecorded = published_file(&queue, &ops, "q2").unwrap_err();
    assert_eq!(unrecorded.summary, "This download has no recorded output file.");
    let none = published_file(&queue, &ops, "q3").unwrap_err();
    assert_eq!(none.code, "output_unavailable");
    assert_eq!(none.summary, "This download has no completed output to show.");
    assert_eq!(output_missing().code, "output_missing");
}
