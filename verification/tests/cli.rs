use chrono::DateTime;
use sql_hummus::log_index::{LogIndex, LogIndexError, Timestamp};

fn timestamp(text: &str) -> Timestamp {
    let t = DateTime::parse_from_rfc3339(text).unwrap();
    Timestamp {
        seconds: t.timestamp(),
        nanos: t.timestamp_subsec_nanos(),
        offset_seconds: t.offset().local_minus_utc(),
    }
}

#[test]
fn cli() {
    assert_eq!(LogIndex::from_str("0").unwrap(), LogIndex::NumberScalar(0));
    assert_eq!(LogIndex::from_str("0..2").unwrap(), LogIndex::NumberRange(0, 2));
    assert_eq!(
        LogIndex::from_str("2026-07-07 04:31:00+00:00").unwrap(),
        LogIndex::DateScalar(timestamp("2026-07-07 04:31:00+00:00")),
    );
    assert_eq!(
        LogIndex::from_str("2026-07-07 04:31:00+00:00..2026-07-07 04:32:00+00:00").unwrap(),
        LogIndex::DateRange(
            timestamp("2026-07-07 04:31:00+00:00"),
            timestamp("2026-07-07 04:32:00+00:00"),
        ),
    );
}

#[test]
fn log_index_dates_read_as_unix_time() {
    let t = timestamp("2026-07-07 04:31:00+00:00");
    assert_eq!(t.seconds, 1_783_398_660);
    assert_eq!(t.nanos, 0);
    assert_eq!(t.offset_seconds, 0);
    assert_eq!(
        LogIndex::from_str("1970-01-01T01:00:00.5+01:00").unwrap(),
        LogIndex::DateScalar(Timestamp { seconds: 0, nanos: 500_000_000, offset_seconds: 3600 }),
    );
}

#[test]
fn log_index_numbers() {
    assert_eq!(LogIndex::from_str("-5").unwrap(), LogIndex::NumberScalar(-5));
    assert_eq!(LogIndex::from_str("+5").unwrap(), LogIndex::NumberScalar(5));
    assert_eq!(
        LogIndex::from_str("-9223372036854775808").unwrap(),
        LogIndex::NumberScalar(i64::MIN)
    );
    assert_eq!(LogIndex::from_str("-3..-1").unwrap(), LogIndex::NumberRange(-3, -1));
    assert_eq!(LogIndex::from_str("5..3").unwrap(), LogIndex::NumberRange(5, 3));
    assert_eq!(LogIndex::from_str("7").unwrap().number_scalar(), Some(7));
    assert_eq!(LogIndex::from_str("0..2").unwrap().number_scalar(), None);
}

#[test]
fn log_index_errors() {
    assert!(matches!(LogIndex::from_str("é..1"), Err(LogIndexError::NotAscii)));
    assert!(matches!(LogIndex::from_str("1..x"), Err(LogIndexError::Date(_))));
    assert!(matches!(LogIndex::from_str(""), Err(LogIndexError::Date(_))));
    assert!(matches!(LogIndex::from_str("9223372036854775808"), Err(LogIndexError::Date(_))));
    assert!(matches!(LogIndex::from_str("1..2..3"), Err(LogIndexError::Date(_))));
    assert!(matches!(LogIndex::from_str(".."), Err(LogIndexError::Date(_))));
}

#[test]
fn log_index_number_text_round_trip() {
    for n in [i64::MIN, -1_000_000, -1, 0, 1, 42, i64::MAX] {
        assert_eq!(LogIndex::from_str(&n.to_string()).unwrap(), LogIndex::NumberScalar(n));
        for m in [i64::MIN, 0, 7, i64::MAX] {
            let text = format!("{}..{}", n, m);
            assert_eq!(LogIndex::from_str(&text).unwrap(), LogIndex::NumberRange(n, m));
        }
    }
}

#[test]
fn log_index_dates_compare_as_instants() {
    assert_eq!(
        LogIndex::from_str("1970-01-01T01:00:00+01:00").unwrap(),
        LogIndex::from_str("1970-01-01T00:00:00Z").unwrap()
    );
    assert_ne!(
        LogIndex::from_str("1970-01-01T01:00:00+00:00").unwrap(),
        LogIndex::from_str("1970-01-01T00:00:00Z").unwrap()
    );
}
