use nuclear_core::downloader::progress::{classify_download_line, DownloadLineUpdate};
use nuclear_core::downloader::validation::check_output_free_space;

#[test]
fn progress_lines_report_percent_speed_and_eta() {
    assert_eq!(
        classify_download_line("[download]  45.3% of 10.00MiB at 1.23MiB/s ETA 00:07"),
        DownloadLineUpdate::Downloading {
            percent_text: "45.3".to_string(),
            speed: Some("1.23MiB/s".to_string()),
            eta: Some("00:07".to_string()),
        }
    );
    assert_eq!(
        classify_download_line("[download] 100% of 10.00MiB"),
        DownloadLineUpdate::Downloading {
            percent_text: "100".to_string(),
            speed: None,
            eta: None,
        }
    );
}

#[test]
fn postprocessing_lines_are_recognised_in_any_case() {
    assert_eq!(
        classify_download_line("[Merger] Merging formats into \"x.mp4\""),
        DownloadLineUpdate::Postprocessing
    );
    assert_eq!(classify_download_line("Post-Processing done"), DownloadLineUpdate::Postprocessing);
    assert_eq!(classify_download_line("[info] Downloading 1 format"), DownloadLineUpdate::Nothing);
}

#[test]
fn a_full_output_volume_is_refused() {
    assert!(check_output_free_space(1).is_ok());
    let error = check_output_free_space(0).unwrap_err();
    assert_eq!(error.code, "output_directory_full");
    assert_eq!(error.summary, "The selected output volume has no available space.");
}
