use flowmode::report::{
    close_row, close_row_now, open_row, open_row_now, parse_log, read_line, read_stamp, LogLine,
    Stamp,
};

#[test]
fn test_csv_logging() {
    let task = "Test logging task";
    let mut content = open_row_now(&Some(task.to_string()));
    content.push_str(&close_row_now());

    assert!(content.contains(task));
    assert!(content.starts_with("Test logging task,"));
    assert!(content.ends_with('\n'));
    assert_eq!(content.matches(',').count(), 2);

    let lines = parse_log(&content);
    assert_eq!(lines.len(), 1);
    match &lines[0] {
        LogLine::Complete { task: read, minutes, .. } => {
            assert_eq!(read, task);
            assert_eq!(*minutes, 0);
        }
        other => panic!("expected a complete row, got {:?}", other),
    }
}

#[test]
fn rows_are_written_exactly() {
    assert_eq!(
        open_row(&Some("Write".to_string()), "2024-01-01T10:00:00+00:00"),
        "Write,2024-01-01T10:00:00+00:00,"
    );
    assert_eq!(open_row(&None, "S"), "No task specified,S,");
    assert_eq!(close_row("2024-01-01T10:25:00+00:00"), "2024-01-01T10:25:00+00:00\n");
}

#[test]
fn malformed_log_tolerance() {
    let content = "Write,2024-01-01T10:00:00+00:00,2024-01-01T10:25:00+00:00\nCrashed,2024-01-02T09:00:00+00:00,";
    let lines = parse_log(content);
    assert_eq!(lines.len(), 2);
    assert_eq!(
        lines[0],
        LogLine::Complete {
            task: "Write".to_string(),
            start: Stamp { secs: 1_704_103_200, nanos: 0, offset: 0 },
            end: Stamp { secs: 1_704_104_700, nanos: 0, offset: 0 },
            minutes: 25,
        }
    );
    assert_eq!(
        lines[1],
        LogLine::Malformed { number: 2, text: "Crashed,2024-01-02T09:00:00+00:00,".to_string() }
    );
    let complete: Vec<&LogLine> =
        lines.iter().filter(|l| matches!(l, LogLine::Complete { .. })).collect();
    assert_eq!(complete.len(), 1);
}

#[test]
fn two_field_row_is_incomplete() {
    let content = "Write,2024-01-01T10:00:00+00:00,2024-01-01T10:25:00+00:00\nCrashed,2024-01-02T09:00:00+00:00\n";
    let lines = parse_log(content);
    assert_eq!(lines.len(), 2);
    assert!(matches!(lines[0], LogLine::Complete { minutes: 25, .. }));
    assert_eq!(
        lines[1],
        LogLine::Incomplete { number: 2, text: "Crashed,2024-01-02T09:00:00+00:00".to_string() }
    );
}

#[test]
fn unterminated_row_swallows_the_next_start() {
    let content = "A,2024-01-01T10:00:00+00:00,B,2024-01-01T11:00:00+00:00,2024-01-01T11:30:00+00:00\n";
    let lines = parse_log(content);
    assert_eq!(
        lines,
        vec![LogLine::Incomplete {
            number: 1,
            text: "A,2024-01-01T10:00:00+00:00,B,2024-01-01T11:00:00+00:00,2024-01-01T11:30:00+00:00"
                .to_string()
        }]
    );
}

#[test]
fn blank_lines_are_skipped_but_counted() {
    let content = "\n  \r\n\tT,2024-01-01T10:00:00Z,2024-01-01T12:00:30Z  \r\n\nx\n";
    let lines = parse_log(content);
    assert_eq!(lines.len(), 2);
    assert!(matches!(&lines[0], LogLine::Complete { task, minutes: 120, .. } if task == "T"));
    assert_eq!(lines[1], LogLine::Incomplete { number: 5, text: "x".to_string() });
    assert_eq!(parse_log(""), vec![]);
    assert_eq!(parse_log("\n\n"), vec![]);
}

#[test]
fn minutes_are_counted_across_offsets_and_truncated() {
    let line = read_line(1, "T,2024-01-01T10:00:00+02:00,2024-01-01T09:29:59+01:00").unwrap();
    assert_eq!(
        line,
        LogLine::Complete {
            task: "T".to_string(),
            start: Stamp { secs: 1_704_096_000, nanos: 0, offset: 7200 },
            end: Stamp { secs: 1_704_097_799, nanos: 0, offset: 3600 },
            minutes: 29,
        }
    );
    let line = read_line(1, "T,2024-01-01T10:00:00Z,2024-01-01T09:58:30.5Z").unwrap();
    assert!(matches!(line, LogLine::Complete { minutes: -1, .. }));
}

#[test]
fn unreadable_times_make_a_row_malformed() {
    assert_eq!(
        read_line(7, " T,yesterday,2024-01-01T09:58:30Z "),
        Some(LogLine::Malformed { number: 7, text: "T,yesterday,2024-01-01T09:58:30Z".to_string() })
    );
    assert_eq!(
        read_line(8, "T,2024-01-01T09:58:30Z,2024-13-01T09:58:30Z"),
        Some(LogLine::Malformed {
            number: 8,
            text: "T,2024-01-01T09:58:30Z,2024-13-01T09:58:30Z".to_string()
        })
    );
    assert_eq!(read_line(9, "   "), None);
    assert_eq!(read_line(9, "a,b"), Some(LogLine::Incomplete { number: 9, text: "a,b".to_string() }));
}

#[test]
fn stamps_are_read_exactly() {
    assert_eq!(read_stamp(""), None);
    assert_eq!(read_stamp("2024-01-01"), None);
    assert_eq!(
        read_stamp("1970-01-01T00:00:00Z"),
        Some(Stamp { secs: 0, nanos: 0, offset: 0 })
    );
    assert_eq!(
        read_stamp("1969-12-31T23:59:59.25-01:30"),
        Some(Stamp { secs: 5399, nanos: 250_000_000, offset: -5400 })
    );
    assert_eq!(
        read_stamp("2015-06-30T23:59:60Z"),
        Some(Stamp { secs: 1_435_708_799, nanos: 1_000_000_000, offset: 0 })
    );
}

#[test]
fn open_row_reads_as_malformed_and_written_row_as_complete() {
    let opening = open_row(&Some("Deep work".to_string()), "2024-03-01T08:00:00+01:00");
    assert_eq!(
        parse_log(&opening),
        vec![LogLine::Malformed { number: 1, text: "Deep work,2024-03-01T08:00:00+01:00,".to_string() }]
    );
    let mut content = opening;
    content.push_str(&close_row("2024-03-01T09:30:00+01:00"));
    assert_eq!(
        parse_log(&content),
        vec![LogLine::Complete {
            task: "Deep work".to_string(),
            start: Stamp { secs: 1_709_276_400, nanos: 0, offset: 3600 },
            end: Stamp { secs: 1_709_281_800, nanos: 0, offset: 3600 },
            minutes: 90,
        }]
    );
}

#[test]
fn minutes_are_whole_minutes_between_the_times() {
    let line = read_line(1, "T,2024-01-01T10:00:00Z,2024-01-01T10:25:59Z").unwrap();
    assert!(matches!(line, LogLine::Complete { minutes: 25, .. }));
    let line = read_line(1, "T,2024-01-01T10:00:00.9Z,2024-01-01T10:26:00.1Z").unwrap();
    assert!(matches!(line, LogLine::Complete { minutes: 25, .. }));
    let line = read_line(1, "T,2024-01-01T10:26:00.1Z,2024-01-01T10:00:00.9Z").unwrap();
    assert!(matches!(line, LogLine::Complete { minutes: -25, .. }));
    let line = read_line(1, "T,0000-01-01T00:00:00+23:59,9999-12-31T23:59:59-23:59").unwrap();
    assert!(matches!(line, LogLine::Complete { minutes: 5_259_494_877, .. }));
    let line = read_line(1, "T,2015-06-30T23:59:60Z,2015-07-01T00:01:00Z").unwrap();
    assert!(matches!(line, LogLine::Complete { minutes: 1, .. }));
}

#[test]
fn rows_written_now_hold_clean_timestamps() {
    let opening = open_row_now(&None);
    let started = opening.strip_prefix("No task specified,").unwrap().strip_suffix(',').unwrap();
    assert!(!started.is_empty());
    assert!(started.chars().all(|c| c.is_ascii_digit() || "+-:.T".contains(c)));
    assert!(read_stamp(started).is_some());
    let closing = close_row_now();
    let ended = closing.strip_suffix('\n').unwrap();
    assert!(ended.chars().all(|c| c.is_ascii_digit() || "+-:.T".contains(c)));
}
