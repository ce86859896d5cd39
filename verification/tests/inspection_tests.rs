use nuclear_core::downloader::command_args::append_inspection_args;
use nuclear_core::models::MediaSelection;

fn selection(id: &str, key: &str, index: u32) -> MediaSelection {
    MediaSelection {
        entry_id: id.into(),
        extractor_key: key.into(),
        playlist_index: index,
    }
}

#[test]
fn inspection_command_uses_one_bounded_pass_and_selected_ordinal() {
    let mut discovery = Vec::new();
    append_inspection_args(&mut discovery, None);
    assert_eq!(
        discovery
            .iter()
            .filter(|arg| *arg == "--dump-single-json")
            .count(),
        1
    );
    assert!(discovery
        .windows(2)
        .any(|pair| pair == ["--playlist-end", "1001"]));
    assert!(discovery.contains(&"--flat-playlist".into()));
    assert!(discovery.contains(&"--lazy-playlist".into()));

    let mut selected_args = Vec::new();
    append_inspection_args(&mut selected_args, Some(&selection("id", "Twitter", 2)));
    assert_eq!(
        selected_args
            .iter()
            .filter(|arg| *arg == "--dump-single-json")
            .count(),
        1
    );
    assert!(selected_args
        .windows(2)
        .any(|pair| pair == ["--playlist-items", "2"]));
    assert!(selected_args.contains(&"--yes-playlist".into()));
    assert!(selected_args.contains(&"--no-flat-playlist".into()));
    assert!(!selected_args.contains(&"--flat-playlist".into()));
}
