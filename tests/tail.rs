use daebot::json::parse_log_line;
use daebot::logfile::{
    choose_log_file, is_log_file_name, marker_target, most_recent_log, ActiveLog, LogFileInfo,
    LogsError,
};
use daebot::tail::{get_logs, keep_last, read_offset, split_lines, tail_lines, tail_records};

fn record(i: usize) -> String {
    format!(
        "{{\"timestamp\":\"2024-01-01T00:00:{:02}Z\",\"level\":\"INFO\",\"message\":\"event {}\",\"n\":{}}}\n",
        i % 60,
        i,
        i
    )
}

#[test]
fn read_offset_small_and_large() {
    assert_eq!(read_offset(0), 0);
    assert_eq!(read_offset(999_999), 0);
    assert_eq!(read_offset(1_000_000), 500_000);
    assert_eq!(read_offset(3_000_000_000), 2_999_500_000);
}

#[test]
fn split_lines_keeps_pieces() {
    let v = split_lines(&b"a\nbc\n\nd".to_vec());
    assert_eq!(v, vec![b"a".to_vec(), b"bc".to_vec(), b"".to_vec(), b"d".to_vec()]);
    let v = split_lines(&b"x\n".to_vec());
    assert_eq!(v, vec![b"x".to_vec(), b"".to_vec()]);
    assert_eq!(split_lines(&Vec::new()), vec![Vec::<u8>::new()]);
}

#[test]
fn keep_last_truncates_from_front() {
    assert_eq!(keep_last(vec![1, 2, 3, 4], 2), vec![3, 4]);
    assert_eq!(keep_last(vec![1, 2], 5), vec![1, 2]);
    assert_eq!(keep_last(vec![1, 2], 0), Vec::<i32>::new());
}

#[test]
fn parse_log_line_fields_and_metadata() {
    let e = parse_log_line(br#"{"timestamp":"t1","level":"WARN","message":"hi","user":"bob","count":3}"#)
        .unwrap();
    assert_eq!(e.timestamp, "t1");
    assert_eq!(e.level, "WARN");
    assert_eq!(e.message, "hi");
    let keys: Vec<&str> = e.metadata.iter().map(|(k, _)| k.as_str()).collect();
    assert_eq!(keys, vec!["count", "user"]);
    assert_eq!(e.metadata[0].1, serde_json::Value::from(3));
}

#[test]
fn parse_log_line_defaults() {
    let e = parse_log_line(br#"{"message":5}"#).unwrap();
    assert_eq!(e.timestamp, "");
    assert_eq!(e.level, "INFO");
    assert_eq!(e.message, "");
    assert!(e.metadata.is_empty());
    let e = parse_log_line(b"[1,2]").unwrap();
    assert_eq!(e.level, "INFO");
    assert!(parse_log_line(b"not json").is_none());
    assert!(parse_log_line(b"").is_none());
    assert!(parse_log_line(b"{\"a\":").is_none());
}

#[test]
fn malformed_lines_are_dropped() {
    let text = format!("{}garbage\n{}{{broken\n{}", record(1), record(2), record(3)).into_bytes();
    let r = tail_records(&text, 10);
    let msgs: Vec<&str> = r.iter().map(|e| e.message.as_str()).collect();
    assert_eq!(msgs, vec!["event 1", "event 2", "event 3"]);
}

#[test]
fn last_n_oldest_first() {
    let text: String = (0..20).map(record).collect();
    let r = tail_records(&text.into_bytes(), 3);
    let msgs: Vec<&str> = r.iter().map(|e| e.message.as_str()).collect();
    assert_eq!(msgs, vec!["event 17", "event 18", "event 19"]);
}

#[test]
fn fewer_records_than_requested_returns_them_all() {
    for n in [3usize, 4, 10, 100] {
        let text: String = (0..3).map(record).collect();
        let r = tail_records(&text.into_bytes(), n);
        assert_eq!(r.len(), 3);
    }
    assert_eq!(tail_records(&Vec::new(), 5).len(), 0);
}

#[test]
fn window_of_large_file_matches_whole_file() {
    let mut text = String::new();
    let mut i = 0;
    while text.len() < 1_200_000 {
        text.push_str(&record(i));
        i += 1;
    }
    let bytes = text.into_bytes();
    let offset = read_offset(bytes.len() as u64) as usize;
    assert!(offset > 0);
    let window = bytes[offset..].to_vec();
    assert_eq!(tail_lines(&window, 10), tail_lines(&bytes, 10));
    let from_window = tail_records(&window, 10);
    let from_whole = tail_records(&bytes, 10);
    let a: Vec<&str> = from_window.iter().map(|e| e.message.as_str()).collect();
    let b: Vec<&str> = from_whole.iter().map(|e| e.message.as_str()).collect();
    assert_eq!(a, b);
    assert_eq!(a.len(), 10);
}

#[test]
fn missing_log_file_gives_no_records() {
    assert_eq!(get_logs(None, None).len(), 0);
    assert_eq!(get_logs(None, Some(10)).len(), 0);
    let text: String = (0..150).map(record).collect();
    assert_eq!(get_logs(Some(&text.clone().into_bytes()), None).len(), 100);
    assert_eq!(get_logs(Some(&text.into_bytes()), Some(7)).len(), 7);
}

#[test]
fn marker_pointing_at_nonexistent_path_gives_empty() {
    let files = vec![];
    let chosen = choose_log_file(Some("  /no/such/file.log\n".to_string()), &files);
    match chosen {
        Ok(ActiveLog::Marked(p)) => assert_eq!(p, "/no/such/file.log"),
        other => panic!("unexpected: {:?}", other),
    }
    // the resolved file does not exist: an empty sequence, not an error
    assert!(get_logs(None, Some(100)).is_empty());
}

#[test]
fn marker_trim() {
    assert_eq!(marker_target("\t a b \r\n"), "a b");
    assert_eq!(marker_target("   "), "");
    assert_eq!(marker_target("x"), "x");
    assert_eq!(marker_target("\u{3000}y\u{a0}"), "y");
}

#[test]
fn log_file_names() {
    assert!(is_log_file_name("daebot-2024-01-01.log"));
    assert!(is_log_file_name("daebot-.log"));
    assert!(!is_log_file_name("daebot-x.txt"));
    assert!(!is_log_file_name("other.log"));
    assert!(!is_log_file_name("daebot.log"));
}

#[test]
fn most_recent_log_file_is_chosen() {
    let f = |n: &str, m: Option<u64>| LogFileInfo { name: n.to_string(), modified: m };
    let files = vec![
        f("daebot-a.log", Some(10)),
        f("notes.txt", Some(99)),
        f("daebot-b.log", Some(30)),
        f("daebot-c.log", None),
        f("daebot-d.log", Some(30)),
    ];
    assert_eq!(most_recent_log(&files), Some(2));
    match choose_log_file(None, &files) {
        Ok(ActiveLog::InLogsDir(n)) => assert_eq!(n, "daebot-b.log"),
        other => panic!("unexpected: {:?}", other),
    }
    let none = vec![f("x.log", Some(1))];
    assert!(matches!(choose_log_file(None, &none), Err(LogsError::NoLogsFound)));
    assert!(matches!(choose_log_file(None, &vec![]), Err(LogsError::NoLogsFound)));
}

#[test]
fn each_record_comes_from_its_own_line() {
    let text = format!("{}junk\n{}", record(4), record(9)).into_bytes();
    let lines = tail_lines(&text, 10);
    let recs = tail_records(&text, 10);
    assert_eq!(lines.len(), recs.len());
    for (line, rec) in lines.iter().zip(recs.iter()) {
        let direct = parse_log_line(line).unwrap();
        assert_eq!(direct.message, rec.message);
        assert_eq!(direct.timestamp, rec.timestamp);
    }
    assert_eq!(recs[0].message, "event 4");
    assert_eq!(recs[1].timestamp, "2024-01-01T00:00:09Z");
    let keys: Vec<&str> = recs[1].metadata.iter().map(|(k, _)| k.as_str()).collect();
    assert_eq!(keys, vec!["n"]);
}

#[test]
fn same_text_read_twice_gives_same_records() {
    let text: String = (0..30).map(record).collect();
    let bytes = text.into_bytes();
    let a = tail_records(&bytes, 12);
    let b = tail_records(&bytes, 12);
    assert_eq!(a.len(), b.len());
    for (x, y) in a.iter().zip(b.iter()) {
        assert_eq!(x.timestamp, y.timestamp);
        assert_eq!(x.level, y.level);
        assert_eq!(x.message, y.message);
        assert_eq!(x.metadata, y.metadata);
    }
}
