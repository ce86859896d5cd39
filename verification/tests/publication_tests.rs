use nuclear_core::downloader::publication::{
    check_final_output_record, check_record_metadata, fallback_choice, final_output_record_path,
    is_staged_media_extension, missing_record_decision, record_line,
    validate_publishable_output_path,
};
use nuclear_core::models::MediaSelection;

#[test]
fn record_must_hold_exactly_one_entry() {
    assert_eq!(record_line(b"\n  {\"a\":1}\r\n\n").unwrap(), "  {\"a\":1}");
    assert_eq!(
        record_line(b" \n\t\n").unwrap_err().message,
        "Downloader output record was empty."
    );
    assert_eq!(
        record_line(b"{}\n{}\n").unwrap_err().message,
        "Downloader output record contained multiple entries."
    );
    assert_eq!(
        record_line(&[0xff, 0xfe]).unwrap_err().message,
        "Downloader output record was not valid UTF-8."
    );
    let big = vec![b' '; 65537];
    assert_eq!(
        record_line(&big).unwrap_err().code,
        "staging_output_record_invalid"
    );
}

#[test]
fn record_fields_are_checked_against_the_selection() {
    let selection = MediaSelection {
        entry_id: "42".into(),
        extractor_key: "Twitter".into(),
        playlist_index: 1,
    };
    assert!(check_final_output_record(1, "C:\\s\\a.mp4", Some("42"), Some("Twitter"), Some(&selection)).is_ok());
    assert_eq!(
        check_final_output_record(1, "C:\\s\\a.mp4", Some("43"), Some("Twitter"), Some(&selection))
            .unwrap_err()
            .code,
        "staging_output_identity_mismatch"
    );
    assert_eq!(
        check_final_output_record(2, "x", None, None, None).unwrap_err().message,
        "Downloader output record used unsupported schema version 2."
    );
    assert_eq!(
        check_final_output_record(1, "  ", None, None, None).unwrap_err().message,
        "Downloader output record did not contain a filepath."
    );
}

#[test]
fn record_metadata_and_fallback_decisions() {
    assert!(check_record_metadata(true, false, 100).is_ok());
    assert!(check_record_metadata(false, false, 100).is_err());
    assert!(check_record_metadata(true, true, 100).is_err());
    assert!(check_record_metadata(true, false, 65537).is_err());
    assert!(missing_record_decision(None).is_ok());
    assert!(fallback_choice(1).is_ok());
    assert_eq!(fallback_choice(0).unwrap_err().code, "staging_failed");
    assert_eq!(
        fallback_choice(3).unwrap_err().message,
        "Download completed without an output record and left 3 staged media files."
    );
}

#[test]
fn staged_media_extensions_ignore_case() {
    assert!(is_staged_media_extension("MP4"));
    assert!(is_staged_media_extension("ts"));
    assert!(!is_staged_media_extension("part"));
    assert!(!is_staged_media_extension(""));
}

#[test]
fn published_paths_are_bounded_and_records_sit_in_the_stage() {
    assert!(validate_publishable_output_path(&"a".repeat(4096)).is_ok());
    assert_eq!(
        validate_publishable_output_path(&"a".repeat(4097)).unwrap_err(),
        "Published output path exceeds the 4 KiB metadata limit."
    );
    assert_eq!(
        final_output_record_path(r"C:\Out\.stage\op"),
        r"C:\Out\.stage\op\.nuclear-final-output-v1.jsonl"
    );
}
