use simhub::logs::{build_logcat_args, parse_time_filter, resolve_time_filter, LogSession, TimeFilter};

#[test]
fn buffer_keeps_the_newest_thousand() {
    // After more than a thousand appends the buffer holds exactly
    // the last thousand lines, in arrival order.
    let mut s = LogSession::new();
    s.start();
    for i in 0..1005u32 {
        s.append(format!("line{}", i));
    }
    let lines = s.read();
    assert_eq!(lines.len(), 1000);
    assert_eq!(lines[0], "line5");
    assert_eq!(lines[999], "line1004");
}

#[test]
fn buffer_under_capacity_keeps_everything() {
    let mut s = LogSession::new();
    s.start();
    for i in 0..3u32 {
        s.append(format!("line{}", i));
    }
    let lines = s.read();
    assert_eq!(lines, vec!["line0", "line1", "line2"]);
}

#[test]
fn read_is_draining() {
    // Two consecutive reads with no intervening writes: the full set
    // once, then empty.
    let mut s = LogSession::new();
    s.start();
    s.append("a".to_string());
    s.append("b".to_string());
    let first = s.read();
    assert_eq!(first, vec!["a", "b"]);
    let second = s.read();
    assert!(second.is_empty());
}

#[test]
fn start_supersedes_a_prior_session() {
    let mut s = LogSession::new();
    s.start();
    s.append("old".to_string());
    s.start();
    assert!(s.running);
    assert!(s.read().is_empty());
}

#[test]
fn stop_clears_and_lowers_the_flag() {
    let mut s = LogSession::new();
    s.start();
    s.append("x".to_string());
    s.stop();
    assert!(!s.running);
    assert!(s.read().is_empty());
}

#[test]
fn time_filter_parses_recent_and_since() {
    assert!(matches!(
        parse_time_filter(Some("recent:5")),
        TimeFilter::Recent { minutes: 5 }
    ));
    match parse_time_filter(Some("since:2024-02-04T10:30:00Z")) {
        TimeFilter::Since { timestamp } => assert_eq!(timestamp, "2024-02-04T10:30:00Z"),
        _ => panic!("expected an absolute filter"),
    }
    assert!(matches!(parse_time_filter(Some("recent:abc")), TimeFilter::Unfiltered));
    assert!(matches!(parse_time_filter(Some("garbage")), TimeFilter::Unfiltered));
    assert!(matches!(parse_time_filter(None), TimeFilter::Unfiltered));
}

#[test]
fn recent_filter_resolves_to_a_timestamp() {
    // The clock is live, so only the shape is fixed: `MM-DD HH:MM:SS.000`.
    let ts = resolve_time_filter(&TimeFilter::Recent { minutes: 5 }).unwrap();
    assert_eq!(ts.len(), 18);
    assert!(ts.ends_with(".000"));
    assert_eq!(&ts[2..3], "-");
    assert_eq!(&ts[5..6], " ");
}

#[test]
fn since_filter_resolves_through_the_parser() {
    let ts = resolve_time_filter(&TimeFilter::Since {
        timestamp: "2024-02-04T10:30:00Z".to_string(),
    })
    .unwrap();
    // The local rendering depends on the machine's zone; the minute
    // offset of UTC+half-hour zones still ends in :00 seconds here.
    assert_eq!(ts.len(), 18);
    assert!(ts.ends_with("00.000"));

    let bad = resolve_time_filter(&TimeFilter::Since { timestamp: "not-a-time".to_string() });
    assert!(bad.is_none());
}

#[test]
fn unfiltered_resolves_to_nothing() {
    assert!(resolve_time_filter(&TimeFilter::Unfiltered).is_none());
}

#[test]
fn logcat_args_with_and_without_filter() {
    let plain = build_logcat_args("emulator-5554", None);
    let got: Vec<&str> = plain.iter().map(|s| s.as_str()).collect();
    assert_eq!(got, vec!["-s", "emulator-5554", "logcat", "-v", "color"]);

    let filtered = build_logcat_args("emulator-5554", Some("02-04 10:30:00.000"));
    let got: Vec<&str> = filtered.iter().map(|s| s.as_str()).collect();
    assert_eq!(
        got,
        vec!["-s", "emulator-5554", "logcat", "-v", "color", "-t", "02-04 10:30:00.000"]
    );
}
