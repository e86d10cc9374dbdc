use audio_hub::range::{parse_single_range, stream_plan};

#[test]
fn api_parse_single_range_accepts_open_end() {
    let range = parse_single_range("bytes=10-", 100).unwrap();
    assert_eq!(range, (10, 99));
}

#[test]
fn api_parse_single_range_rejects_invalid() {
    assert!(parse_single_range("items=1-2", 100).is_none());
    assert!(parse_single_range("bytes=-10", 100).is_none());
    assert!(parse_single_range("bytes=200-300", 100).is_none());
    assert!(parse_single_range("bytes=50-40", 100).is_none());
}

#[test]
fn api_parse_single_range_clamps_end_to_length() {
    let range = parse_single_range("bytes=90-200", 100).unwrap();
    assert_eq!(range, (90, 99));
}

#[test]
fn api_parse_single_range_accepts_exact_end() {
    let range = parse_single_range("bytes=0-0", 100).unwrap();
    assert_eq!(range, (0, 0));
}

#[test]
fn api_parse_single_range_uses_first_range() {
    let range = parse_single_range("bytes=0-1,2-3", 100).unwrap();
    assert_eq!(range, (0, 1));
}

#[test]
fn library_parse_single_range_accepts_open_end() {
    let range = parse_single_range("bytes=10-", 100).unwrap();
    assert_eq!(range, (10, 99));
}

#[test]
fn library_parse_single_range_rejects_invalid() {
    assert!(parse_single_range("items=1-2", 100).is_none());
    assert!(parse_single_range("bytes=-10", 100).is_none());
    assert!(parse_single_range("bytes=200-300", 100).is_none());
    assert!(parse_single_range("bytes=50-40", 100).is_none());
}

#[test]
fn library_parse_single_range_clamps_end_to_length() {
    let range = parse_single_range("bytes=90-200", 100).unwrap();
    assert_eq!(range, (90, 99));
}

#[test]
fn library_parse_single_range_accepts_exact_end() {
    let range = parse_single_range("bytes=0-0", 100).unwrap();
    assert_eq!(range, (0, 0));
}

#[test]
fn library_parse_single_range_uses_first_range() {
    let range = parse_single_range("bytes=0-1,2-3", 100).unwrap();
    assert_eq!(range, (0, 1));
}

#[test]
fn parse_single_range_trims_and_repeats_unit() {
    assert_eq!(parse_single_range("  bytes=5-9  ", 100), Some((5, 9)));
    assert_eq!(parse_single_range("bytes=bytes=5-9", 100), Some((5, 9)));
    assert_eq!(parse_single_range("bytes=+5-9", 100), Some((5, 9)));
    assert!(parse_single_range("bytes=0-", 0).is_none());
    assert!(parse_single_range("bytes=5", 100).is_none());
}

#[test]
fn stream_plan_whole_and_partial() {
    let whole = stream_plan(None, 42).unwrap();
    assert_eq!((whole.start, whole.len, whole.partial), (0, 42, false));
    assert!(whole.content_range.is_none());
    let part = stream_plan(Some("bytes=10-19"), 100).unwrap();
    assert_eq!((part.start, part.len, part.partial), (10, 10, true));
    assert_eq!(part.content_range.as_deref(), Some("bytes 10-19/100"));
    assert!(stream_plan(Some("bytes=200-"), 100).is_none());
}
