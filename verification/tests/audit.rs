use xcom::{compose_log_line, log_line, LOG_FILENAME};

#[test]
fn the_log_file_has_its_name() {
    assert_eq!(LOG_FILENAME, "xcom.log");
}

#[test]
fn a_log_line_is_the_time_a_space_and_the_text() {
    assert_eq!(compose_log_line("24-01-2026 10:15:00", "COPY: done"), "24-01-2026 10:15:00 COPY: done");
    assert_eq!(compose_log_line("", ""), " ");
}

#[test]
fn the_time_is_written_day_first() {
    assert_eq!(log_line(0, 0, "start"), Some("01-01-1970 00:00:00 start".to_string()));
    assert_eq!(
        log_line(1_769_249_700_000_000, 0, "ERROR: x"),
        Some("24-01-2026 10:15:00 ERROR: x".to_string())
    );
    assert_eq!(log_line(1_769_249_700_999_999, 0, ""), Some("24-01-2026 10:15:00 ".to_string()));
}

#[test]
fn the_time_is_shown_at_the_given_offset() {
    assert_eq!(log_line(0, 3600, "a"), Some("01-01-1970 01:00:00 a".to_string()));
    assert_eq!(log_line(0, -1, "a"), Some("31-12-1969 23:59:59 a".to_string()));
    assert_eq!(log_line(-1, 0, "a"), Some("31-12-1969 23:59:59 a".to_string()));
}

#[test]
fn a_moment_that_cannot_be_shown_gives_no_line() {
    assert_eq!(log_line(0, 86_400, "a"), None);
    assert_eq!(log_line(0, -86_400, "a"), None);
    assert_eq!(log_line(0, i32::MIN, "a"), None);
}

#[test]
fn moments_at_the_edges_of_the_calendar_give_a_line_or_none() {
    let latest = chrono::DateTime::<chrono::Utc>::MAX_UTC.timestamp_micros();
    let earliest = chrono::DateTime::<chrono::Utc>::MIN_UTC.timestamp_micros();
    for offset in [-86_399, 0, 86_399] {
        assert_eq!(log_line(i64::MAX, offset, "x"), None);
        assert_eq!(log_line(i64::MIN, offset, "x"), None);
        assert_eq!(log_line(latest + 1_000_000, offset, "x"), None);
        assert_eq!(log_line(earliest - 1_000_000, offset, "x"), None);
        assert!(log_line(latest, offset, "x").is_some());
        assert!(log_line(earliest, offset, "x").is_some());
    }
    assert_eq!(log_line(latest, 0, "x"), Some("31-12-+262142 23:59:59 x".to_string()));
}
