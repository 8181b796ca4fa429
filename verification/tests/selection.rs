use screencap::capability::FFMPEGSupport;
use screencap::select::{find_codec, CodecFilter};

fn lines(v: &[&str]) -> Vec<String> {
    v.iter().map(|s| s.to_string()).collect()
}

fn names(v: &[&str]) -> Vec<String> {
    v.iter().map(|s| s.to_string()).collect()
}

fn encoder_set(listing: &[&str]) -> Vec<FFMPEGSupport> {
    FFMPEGSupport::video_encoders(&lines(listing))
}

#[test]
fn priority_order_beats_listing_order() {
    // the set holds only libx264 and h264, both encode-capable, with h264
    // later in the raw listing; the earlier-priority candidate still wins
    let codecs = encoder_set(&[
        "V..... libx264   x264 H.264 encoder",
        "V..... h264      plain H.264 encoder",
    ]);
    let cands = names(&["h264_nvenc", "h264_qsv", "libx264", "h264"]);
    let r = find_codec(&codecs, &cands, CodecFilter::Encode);
    assert_eq!(r.as_deref(), Some("libx264"));
}

#[test]
fn empty_capability_set_finds_nothing() {
    let codecs: Vec<FFMPEGSupport> = Vec::new();
    let cands = names(&["matroska", "mp4"]);
    assert!(find_codec(&codecs, &cands, CodecFilter::Encode).is_none());
    assert!(find_codec(&codecs, &cands, CodecFilter::Decode).is_none());
    let none: Vec<String> = Vec::new();
    assert!(find_codec(&codecs, &none, CodecFilter::Encode).is_none());
}

#[test]
fn no_candidate_matches() {
    let codecs = encoder_set(&["V..... libx265   HEVC encoder"]);
    let cands = names(&["libx264", "h264"]);
    assert!(find_codec(&codecs, &cands, CodecFilter::Encode).is_none());
}

#[test]
fn filter_is_honored() {
    // encoder sets are encode-only, so a decode filter matches nothing
    let codecs = encoder_set(&["V..... libx264   x264 H.264 encoder"]);
    let cands = names(&["libx264"]);
    assert!(find_codec(&codecs, &cands, CodecFilter::Decode).is_none());
    assert_eq!(
        find_codec(&codecs, &cands, CodecFilter::Encode).as_deref(),
        Some("libx264")
    );
}

#[test]
fn decode_filter_on_format_rows() {
    let fmts = FFMPEGSupport::formats(&lines(&[
        " DE matroska,webm   Matroska / WebM",
        "  E mp4             MP4",
    ]));
    // mp4 is encode-only in the format listing, so a decode selection
    // falls back to matroska even with mp4 ranked first
    let r = find_codec(&fmts, &names(&["mp4", "matroska"]), CodecFilter::Decode);
    assert_eq!(r.as_deref(), Some("matroska"));
}

#[test]
fn later_record_overwrites_earlier_for_same_candidate() {
    // both rows answer to the alias "h264"; the scan is exhaustive and the
    // last record matching a candidate name wins, so the selected canonical
    // name is the later row's first alias
    let codecs = encoder_set(&[
        "V..... first,h264    earlier encoder",
        "V..... second,h264   later encoder",
    ]);
    let r = find_codec(&codecs, &names(&["h264"]), CodecFilter::Encode);
    assert_eq!(r.as_deref(), Some("second"));
}

#[test]
fn canonical_name_is_returned_not_the_alias() {
    let codecs = encoder_set(&["V..... 264,h264   H.264"]);
    let r = find_codec(&codecs, &names(&["h264"]), CodecFilter::Encode);
    assert_eq!(r.as_deref(), Some("264"));
}
