use nuclear_core::build_config::{merge_external_bins, merged_external_bins};
use serde_json::Value;

fn strings(names: &[&str]) -> Value {
    Value::Array(names.iter().map(|n| Value::String(n.to_string())).collect())
}

#[test]
fn preserves_existing_overlay_fields() {
    let merged = merge_external_bins(
        Some(r#"{"productName":"Preview","bundle":{"targets":["nsis"]}}"#),
        &["binaries/yt-dlp", "binaries/ffmpeg"],
    )
    .expect("overlay should merge");
    let value: Value = serde_json::from_str(&merged).expect("merged config should be JSON");

    assert_eq!(value["productName"], "Preview");
    assert_eq!(value["bundle"]["targets"][0], "nsis");
    assert_eq!(value["bundle"]["externalBin"][0], "binaries/yt-dlp");
}

#[test]
fn rejects_non_object_overlays() {
    let error = merge_external_bins(Some("[]"), &["binaries/yt-dlp"])
        .expect_err("array overlay should fail");
    assert!(error.contains("JSON object"));
}

#[test]
fn preserves_and_deduplicates_existing_external_bins() {
    let merged = merge_external_bins(
        Some(r#"{"bundle":{"externalBin":["binaries/custom","binaries/yt-dlp"]}}"#),
        &["binaries/yt-dlp", "binaries/ffmpeg"],
    )
    .expect("external bins should merge");
    let value: Value = serde_json::from_str(&merged).expect("merged config should be JSON");

    assert_eq!(
        value["bundle"]["externalBin"],
        strings(&["binaries/custom", "binaries/yt-dlp", "binaries/ffmpeg"])
    );
}

#[test]
fn rejects_non_array_external_bins() {
    let error = merge_external_bins(
        Some(r#"{"bundle":{"externalBin":"binaries/yt-dlp"}}"#),
        &["binaries/ffmpeg"],
    )
    .expect_err("non-array externalBin should fail");

    assert!(error.contains("externalBin must be an array"));
}

#[test]
fn missing_or_blank_config_starts_from_an_empty_object() {
    for existing in [None, Some(""), Some("  \n\t")] {
        let merged = merge_external_bins(existing, &["binaries/yt-dlp"]).unwrap();
        assert_eq!(merged, r#"{"bundle":{"externalBin":["binaries/yt-dlp"]}}"#);
    }
}

#[test]
fn malformed_configs_are_refused_with_their_problem() {
    let error = merge_external_bins(Some("{not json"), &["a"]).unwrap_err();
    assert!(error.starts_with("TAURI_CONFIG is not valid JSON: "));
    assert_eq!(
        merge_external_bins(Some(r#"{"bundle":[]}"#), &["a"]).unwrap_err(),
        "TAURI_CONFIG.bundle must be a JSON object."
    );
    assert_eq!(
        merge_external_bins(Some(r#"{"bundle":{"externalBin":["a",1]}}"#), &["b"]).unwrap_err(),
        "TAURI_CONFIG.bundle.externalBin entries must be strings."
    );
}

#[test]
fn merging_twice_adds_nothing_more() {
    let once = merge_external_bins(Some(r#"{"bundle":{}}"#), &["x", "y", "x"]).unwrap();
    let twice = merge_external_bins(Some(&once), &["x", "y", "x"]).unwrap();
    assert_eq!(once, twice);
    let value: Value = serde_json::from_str(&twice).unwrap();
    assert_eq!(value["bundle"]["externalBin"], strings(&["x", "y"]));
}

#[test]
fn merged_names_keep_the_existing_order_and_append_new_ones() {
    let existing = vec!["c".to_string(), "a".to_string()];
    assert_eq!(
        merged_external_bins(existing, &["a", "b", "c", "d", "b"]),
        vec!["c".to_string(), "a".to_string(), "b".to_string(), "d".to_string()]
    );
}
