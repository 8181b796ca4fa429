use screencap::config::{region_flag, CaptureMode, Config, ScreenRegion};

#[test]
fn valid_combinations() {
    let c = Config::from_args("image", 30, "screen").expect("valid");
    assert_eq!(c.mode(), CaptureMode::Image);
    assert_eq!(c.region(), ScreenRegion::Screen);

    let c = Config::from_args("video", 60, "window").expect("valid");
    assert_eq!(c.mode(), CaptureMode::Video(60));
    assert_eq!(c.region(), ScreenRegion::Window);

    let c = Config::from_args("image", 30, "select").expect("valid");
    assert_eq!(c.mode(), CaptureMode::Image);
    assert_eq!(c.region(), ScreenRegion::Select);
}

#[test]
fn video_capture_cannot_select_a_region() {
    assert!(Config::from_args("video", 30, "select").is_none());
}

#[test]
fn unrecognized_names_are_rejected() {
    assert!(Config::from_args("gif", 30, "screen").is_none());
    assert!(Config::from_args("image", 30, "monitor").is_none());
    assert!(Config::from_args("", 30, "screen").is_none());
}

#[test]
fn region_names() {
    assert_eq!(ScreenRegion::from_str("screen"), Ok(ScreenRegion::Screen));
    assert_eq!(ScreenRegion::from_str("window"), Ok(ScreenRegion::Window));
    assert_eq!(ScreenRegion::from_str("select"), Ok(ScreenRegion::Select));
    assert_eq!(ScreenRegion::from_str("Screen"), Err(()));
    assert_eq!(ScreenRegion::from_str(""), Err(()));
}

#[test]
fn defaults() {
    assert_eq!(ScreenRegion::default(), ScreenRegion::Screen);
    assert_eq!(CaptureMode::default(), CaptureMode::Image);
    let c = Config::default();
    assert_eq!(c.mode(), CaptureMode::Image);
    assert_eq!(c.region(), ScreenRegion::Screen);
}

#[test]
fn screenshot_flags() {
    assert_eq!(region_flag(ScreenRegion::Screen), None);
    assert_eq!(region_flag(ScreenRegion::Window), Some("-w"));
    assert_eq!(region_flag(ScreenRegion::Select), Some("-a"));
}
