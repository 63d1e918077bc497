use sql_hummus::error::{from_sqlite, Cookie, Error, ErrorKind};
use sql_hummus::db::SqliteError;

#[test]
fn cookie_leaves_success_alone() {
    let ok: Result<u32, Error> = Ok(7);
    assert_eq!(ok.cookie("ABC").unwrap(), 7);
}

#[test]
fn cookie_appends_to_the_trail() {
    let err: Result<u32, Error> = Err(Error::from_message("boom"));
    let err = err.cookie("FIRST").cookie("SECOND").unwrap_err();
    assert_eq!(err.cookie_trail(), &vec!["FIRST", "SECOND"]);
    assert!(matches!(err.error_kind(), ErrorKind::Str(m) if *m == "boom"));
}

#[test]
fn from_kind_starts_without_cookies() {
    let err = Error::from_kind(ErrorKind::Str("x"));
    assert!(err.cookie_trail().is_empty());
    let sql: Result<(), SqliteError> = Err(SqliteError {
        code: Some(19),
        message: Some("constraint failed".to_string()),
    });
    let err = from_sqlite(sql).unwrap_err();
    assert!(err.cookie_trail().is_empty());
    match err.error_kind() {
        ErrorKind::Sqlite(e) => {
            assert_eq!(e.code, Some(19));
            assert_eq!(e.message.as_deref(), Some("constraint failed"));
        }
        _ => panic!("expected an SQLite error"),
    }
    assert_eq!(from_sqlite(Ok::<u8, SqliteError>(3)).unwrap(), 3);
}
