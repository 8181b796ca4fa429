use screencap::text::{contains_str, get_line, get_nth_from_line, line_nth, split_str, str_eq};

fn lines(v: &[&str]) -> Vec<String> {
    v.iter().map(|s| s.to_string()).collect()
}

#[test]
fn nth_token_of_line() {
    assert_eq!(line_nth("  Width: 1024\n", 1).as_deref(), Some("1024"));
    assert!(line_nth("  Width: 1024\n", 5).is_none());
    assert_eq!(line_nth("  Width: 1024\n", 0).as_deref(), Some("Width:"));
    assert!(line_nth("", 0).is_none());
    assert!(line_nth("   \t  ", 0).is_none());
    assert_eq!(line_nth("a  b\tc", 2).as_deref(), Some("c"));
}

#[test]
fn first_matching_line() {
    let out = lines(&["alpha", "beta match", "gamma match"]);
    assert_eq!(get_line(&out, 0, "match"), Some(1));
    // the scan resumes after a match, so the same needle finds the next line
    assert_eq!(get_line(&out, 2, "match"), Some(2));
    assert_eq!(get_line(&out, 3, "match"), None);
    assert_eq!(get_line(&out, 0, "delta"), None);
}

#[test]
fn token_from_matching_line() {
    let out = lines(&["header", "  Width: 1024", "  Height: 768"]);
    let (next, w) = get_nth_from_line(&out, 0, "Width:", 1).expect("token");
    assert_eq!(w, "1024");
    assert_eq!(next, 2);
    let (_, h) = get_nth_from_line(&out, next, "Height:", 1).expect("token");
    assert_eq!(h, "768");
    // a matched line with too few tokens is a failure, not a default
    assert!(get_nth_from_line(&out, 0, "Width:", 7).is_none());
    assert!(get_nth_from_line(&out, 0, "Depth:", 0).is_none());
}

#[test]
fn substring_search() {
    assert!(contains_str("screen #0:  1920x1080", "screen #0"));
    assert!(!contains_str("screen #1:", "screen #0"));
    assert!(contains_str("abc", ""));
    assert!(!contains_str("ab", "abc"));
    assert!(contains_str("aab", "ab"));
}

#[test]
fn split_keeps_empty_segments() {
    let parts = split_str("a,,b", ',');
    assert_eq!(parts, vec!["a", "", "b"]);
    assert_eq!(split_str("", ','), vec![""]);
    assert_eq!(split_str("solo", ','), vec!["solo"]);
    assert_eq!(split_str(",x", ','), vec!["", "x"]);
}

#[test]
fn string_equality() {
    assert!(str_eq("h264", "h264"));
    assert!(!str_eq("h264", "h265"));
    assert!(!str_eq("h264", "h2640"));
    assert!(str_eq("", ""));
}
