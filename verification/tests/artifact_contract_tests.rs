use nuclear_core::artifact_contract::{
    decode_tauri_base64_wrapper, is_canonical_sha256, is_canonical_update_key_id,
};

#[test]
fn sidecar_digest_policy_rejects_noncanonical_case() {
    assert!(is_canonical_sha256(&"a".repeat(64)));
    assert!(!is_canonical_sha256(&"A".repeat(64)));
}

#[test]
fn sha256_digest_needs_exactly_sixty_four_lower_hex_digits() {
    assert!(is_canonical_sha256(&"0123456789abcdef".repeat(4)));
    assert!(!is_canonical_sha256(&"a".repeat(63)));
    assert!(!is_canonical_sha256(&"a".repeat(65)));
    assert!(!is_canonical_sha256(&format!("{}g", "a".repeat(63))));
}

#[test]
fn update_key_ids_are_short_identifier_text() {
    assert!(is_canonical_update_key_id("release-key_2026.v1"));
    assert!(!is_canonical_update_key_id(""));
    assert!(!is_canonical_update_key_id(&"k".repeat(65)));
    assert!(is_canonical_update_key_id(&"k".repeat(64)));
    assert!(!is_canonical_update_key_id("key id"));
    assert!(!is_canonical_update_key_id("key/id"));
}

#[test]
fn padded_base64_with_one_line_ending_decodes_to_its_bytes() {
    assert_eq!(decode_tauri_base64_wrapper(b"aGk=", 10).unwrap(), b"hi".to_vec());
    assert_eq!(decode_tauri_base64_wrapper(b"aGk=\n", 10).unwrap(), b"hi".to_vec());
    assert_eq!(decode_tauri_base64_wrapper(b"aGk=\r\n", 10).unwrap(), b"hi".to_vec());
    assert_eq!(decode_tauri_base64_wrapper(b"aGVsbG8=", 5).unwrap(), b"hello".to_vec());
    assert!(decode_tauri_base64_wrapper(b"aGVsbG8=", 4).is_err());
    assert!(decode_tauri_base64_wrapper(b"aGk", 10).is_err());
    assert!(decode_tauri_base64_wrapper(b"aGl=", 10).is_err());
    assert!(decode_tauri_base64_wrapper(b"aGk=\n\n", 10).is_err());
    assert!(decode_tauri_base64_wrapper(b"", 10).is_err());
}
