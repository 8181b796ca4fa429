use screencap::capability::{FFMPEGSupport, MediaKind};

fn lines(v: &[&str]) -> Vec<String> {
    v.iter().map(|s| s.to_string()).collect()
}

#[test]
fn round_trip_video_line() {
    let r = FFMPEGSupport::decode_line("V....D 264,h264          H.264 / AVC");
    let (rec, kind) = r.expect("data row");
    assert_eq!(kind, MediaKind::Video);
    assert!(rec.has_name("264"));
    assert!(rec.has_name("h264"));
    assert!(!rec.has_name("h265"));
    assert_eq!(rec.name(), "264");
    // flags come from characters 0 and 1 of the code: here 'V' and '.'
    assert!(!rec.decode());
    assert!(!rec.encode());
}

#[test]
fn flags_follow_code_positions() {
    let (rec, _) = FFMPEGSupport::decode_line("D.V... thing   Some codec").expect("data row");
    assert!(rec.decode());
    assert!(!rec.encode());

    let (rec, _) = FFMPEGSupport::decode_line(".EV... thing   Some codec").expect("data row");
    assert!(!rec.decode());
    assert!(rec.encode());

    let (rec, _) = FFMPEGSupport::decode_line("DEA... both   Both ways").expect("data row");
    assert!(rec.decode());
    assert!(rec.encode());
}

#[test]
fn kind_markers() {
    let (_, kind) = FFMPEGSupport::decode_line("..A... pcm   Audio thing").expect("row");
    assert_eq!(kind, MediaKind::Audio);
    let (_, kind) = FFMPEGSupport::decode_line("S..... srt   Subs").expect("row");
    assert_eq!(kind, MediaKind::Subtitle);
    let (_, kind) = FFMPEGSupport::decode_line("DE matroska,mkv   Matroska container").expect("row");
    assert_eq!(kind, MediaKind::Format);
    let (_, kind) = FFMPEGSupport::decode_line(" E mp4   MP4 container").expect("row");
    assert_eq!(kind, MediaKind::Format);
}

#[test]
fn format_flags_from_code_letters() {
    let (rec, _) = FFMPEGSupport::decode_line("DE matroska   Matroska").expect("row");
    assert!(rec.decode());
    assert!(rec.encode());
    let (rec, _) = FFMPEGSupport::decode_line(" D x11grab   X11 grabbing").expect("row");
    assert!(rec.decode());
    assert!(!rec.encode());
}

#[test]
fn noise_rows_are_skipped() {
    assert!(FFMPEGSupport::decode_line("Codecs:").is_none());
    assert!(FFMPEGSupport::decode_line(" ------").is_none());
    assert!(FFMPEGSupport::decode_line("").is_none());
    assert!(FFMPEGSupport::decode_line("   ").is_none());
    // five-character code: wrong shape
    assert!(FFMPEGSupport::decode_line("V.... five   Five chars").is_none());
    // six characters but no kind marker at positions 0 or 2
    assert!(FFMPEGSupport::decode_line("XYZ123 odd   No marker").is_none());
    // code and names but no description boundary
    assert!(FFMPEGSupport::decode_line("V....D lonely").is_none());
}

#[test]
fn alias_list_keeps_empty_segments() {
    let (rec, _) = FFMPEGSupport::decode_line("V....D a,,b   Desc").expect("row");
    assert!(rec.has_name("a"));
    assert!(rec.has_name(""));
    assert!(rec.has_name("b"));
    assert_eq!(rec.name(), "a");
}

#[test]
fn parse_skips_interleaved_banners() {
    let listing = lines(&[
        "File formats:",
        " D. = Demuxing supported",
        " DE matroska,webm   Matroska / WebM",
        " --",
        "  E mp4             MP4 (MPEG-4 Part 14)",
    ]);
    let rows = FFMPEGSupport::parse(&listing);
    // the legend line " D. = Demuxing supported" has code "D." which matches
    // no shape, so only the two data rows survive
    assert_eq!(rows.len(), 2);
    assert_eq!(rows[0].1, MediaKind::Format);
    assert!(rows[0].0.has_name("webm"));
    assert_eq!(rows[1].0.name(), "mp4");
}

#[test]
fn formats_filters_format_rows() {
    let listing = lines(&[
        " DE matroska,webm   Matroska / WebM",
        "V....D 264,h264     H.264 / AVC",
        "  E mp4             MP4",
    ]);
    let fmts = FFMPEGSupport::formats(&listing);
    assert_eq!(fmts.len(), 2);
    assert_eq!(fmts[0].name(), "matroska");
    assert_eq!(fmts[1].name(), "mp4");
}

#[test]
fn encoder_listings_force_encode_only() {
    let listing = lines(&[
        "Encoders:",
        "V....D libx264   x264 H.264 encoder",
        "A....D aac       AAC encoder",
        "S..... srt       SubRip subtitle",
    ]);
    let vids = FFMPEGSupport::video_encoders(&listing);
    assert_eq!(vids.len(), 1);
    assert_eq!(vids[0].name(), "libx264");
    // the listing's own flags said decode-only; an encoder listing still
    // reports encode capability only
    assert!(vids[0].encode());
    assert!(!vids[0].decode());

    let auds = FFMPEGSupport::audio_encoders(&listing);
    assert_eq!(auds.len(), 1);
    assert_eq!(auds[0].name(), "aac");
    assert!(auds[0].encode());
}
