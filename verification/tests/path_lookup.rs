use screencap::config::CaptureMode;
use screencap::paths::{capture_filename, first_present, which_candidates};

#[test]
fn candidates_follow_directory_order() {
    let c = which_candidates("/usr/local/bin:/usr/bin", "ffmpeg");
    assert_eq!(c, vec!["/usr/local/bin/ffmpeg", "/usr/bin/ffmpeg"]);
}

#[test]
fn directory_first_match_wins() {
    // the same binary name exists in both directories; the earlier
    // directory in the list order is honored
    let c = which_candidates("/a:/b", "x");
    let r = first_present(&c, &vec![true, true]);
    assert_eq!(r.as_deref(), Some("/a/x"));
}

#[test]
fn later_directory_when_earlier_is_missing() {
    let c = which_candidates("/a:/b", "x");
    assert_eq!(first_present(&c, &vec![false, true]).as_deref(), Some("/b/x"));
    assert!(first_present(&c, &vec![false, false]).is_none());
}

#[test]
fn capture_file_names() {
    assert_eq!(
        capture_filename("/home/u", "box.example.org", "2024-01-02.0930.05", CaptureMode::Image),
        "/home/u/Pictures/Screenshot/box.2024-01-02.0930.05.png"
    );
    assert_eq!(
        capture_filename("/home/u", "box", "2024-01-02.0930.05", CaptureMode::Video(30)),
        "/home/u/Videos/Screenshot/box.2024-01-02.0930.05.mkv"
    );
}
