use xzar::duration::{format_duration, parse_duration, parse_duration_would_panic, DAY_MS, WEEK_MS};

#[test]
fn test_format_duration() {
    assert_eq!(format_duration(500), "500ms");
    assert_eq!(format_duration(86400000), "1d");
    assert_eq!(format_duration(86400000 * 7), "1w");
    assert_eq!(format_duration(86400000 * 30), "1m");
    assert_eq!(format_duration(86400000 * 365), "1y");
    assert_eq!(format_duration(86400000 * 14), "2w");
}

#[test]
fn format_duration_rounds_down_and_handles_negatives() {
    assert_eq!(format_duration(0), "0ms");
    assert_eq!(format_duration(-5), "-5ms");
    assert_eq!(format_duration(DAY_MS - 1), "86399999ms");
    assert_eq!(format_duration(DAY_MS * 6 + 5), "6d");
    assert_eq!(format_duration(DAY_MS * 29), "4w");
    assert_eq!(format_duration(DAY_MS * 364), "12m");
    assert_eq!(format_duration(DAY_MS * 800), "2y");
}

#[test]
fn parse_duration_units_and_plain_numbers() {
    assert_eq!(parse_duration("7d"), Some(7 * 86400000));
    assert_eq!(parse_duration("2w"), Some(2 * 604800000));
    assert_eq!(parse_duration("1m"), Some(2592000000));
    assert_eq!(parse_duration("1y"), Some(31536000000));
    assert_eq!(parse_duration("  1500 "), Some(1500));
    assert_eq!(parse_duration("+3d"), Some(3 * 86400000));
}

#[test]
fn parse_duration_rejects_other_text() {
    assert_eq!(parse_duration(""), None);
    assert_eq!(parse_duration("   "), None);
    assert_eq!(parse_duration("5h"), None);
    assert_eq!(parse_duration("d"), None);
    assert_eq!(parse_duration("1.5d"), None);
    assert_eq!(parse_duration("-3d"), None);
    assert_eq!(parse_duration("500ms"), None);
}

#[test]
fn parse_duration_panicking_inputs_are_detected() {
    assert!(parse_duration_would_panic("5\u{e9}"));
    assert!(parse_duration_would_panic("18446744073709551615y"));
    assert!(!parse_duration_would_panic("7d"));
    assert!(!parse_duration_would_panic("hello"));
    assert!(!parse_duration_would_panic(""));
}

#[test]
fn parse_reads_back_formatted_durations() {
    for ms in [DAY_MS, DAY_MS * 3 + 17, WEEK_MS * 3, DAY_MS * 45, DAY_MS * 1000 + 1] {
        let text = format_duration(ms);
        let back = parse_duration(&text).unwrap() as i64;
        assert!(back <= ms);
        assert_eq!(format_duration(back), text);
    }
    assert_eq!(parse_duration(&format_duration(DAY_MS * 45)), Some(DAY_MS as u64 * 30));
    assert_eq!(parse_duration(&format_duration(1234)), None);
}

#[test]
fn formatted_durations_read_back_to_the_same_text() {
    for text in ["6d", "1d", "4w", "12m", "1m", "1y", "3y"] {
        let v = parse_duration(text).unwrap();
        assert_eq!(format_duration(v as i64), text);
    }
    assert_eq!(parse_duration("6d"), Some(6 * 86_400_000));
}
