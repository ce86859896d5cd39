use nuclear_core::downloader::naming::display_output_directory;

#[test]
fn output_directory_hides_windows_verbatim_prefixes() {
    assert_eq!(
        display_output_directory(r"\\?\C:\Users\Example\Downloads".into()),
        r"C:\Users\Example\Downloads"
    );
    assert_eq!(
        display_output_directory(r"\\?\UNC\server\share\Downloads".into()),
        r"\\server\share\Downloads"
    );
    assert_eq!(
        display_output_directory(r"\\?\Volume{1234}\Downloads".into()),
        r"\\?\Volume{1234}\Downloads"
    );
}

#[test]
fn ordinary_output_directories_are_shown_as_they_are() {
    assert_eq!(display_output_directory(r"D:\Media"), r"D:\Media");
    assert_eq!(display_output_directory(""), "");
}
