use sql_hummus::error::{Error, ErrorKind};
use sql_hummus::ids::UlidDecodeError;
use sql_hummus::log::{Log, COOKIE_PUSH, NOT_A_LOG_FILE};

#[test]
fn simple() -> Result<(), Error> {
    let path = "/tmp/sql_hummus_test_temp_IVTIQYBF.db";

    let cxn = Log::new(path).unwrap();
    cxn.clear()?;

    assert_eq!(cxn.push_inner("01KX54X6X3G98K9A24P1HBA8GY", "test 1")?, 1);
    assert_eq!(cxn.push_inner("01KX54X8MW2N2FA4ERGGXVNTWH", "test 2")?, 2);

    let mut cursor = cxn.iter()?;

    let line = cursor.next().unwrap().unwrap();
    assert_eq!(line.index, 1);
    assert_eq!(line.ulid_string(), "01KX54X6X3G98K9A24P1HBA8GY");
    assert_eq!(line.value, "test 1");

    let line = cursor.next().unwrap().unwrap();
    assert_eq!(line.index, 2);
    assert_eq!(line.ulid_string(), "01KX54X8MW2N2FA4ERGGXVNTWH");
    assert_eq!(line.value, "test 2");

    Ok(())
}

#[test]
fn log_get_by_index_and_ulid_values() -> Result<(), Error> {
    let cxn = Log::new("/tmp/sql_hummus_test_temp_GETBYINDEX.db")?;
    cxn.clear()?;
    let first = cxn.push_inner("01KX54X6X3G98K9A24P1HBA8GY", "first")?;
    let second = cxn.push_inner("01kx54x8mw2n2fa4ergxvntwh1", "second")?;
    assert_eq!(second, first + 1);

    let element = cxn.get_by_index(first)?.unwrap();
    assert_eq!(element.index, first);
    assert_eq!(element.value, "first");
    let expected = ulid::Ulid::from_string("01KX54X6X3G98K9A24P1HBA8GY").unwrap();
    assert_eq!(element.ulid, expected.0);

    // Lower-case text decodes too, and is written back in upper case.
    let element = cxn.get_by_index(second)?.unwrap();
    assert_eq!(element.ulid_string(), "01KX54X8MW2N2FA4ERGXVNTWH1");

    assert!(cxn.get_by_index(second + 100)?.is_none());
    Ok(())
}

#[test]
fn log_elements_come_in_ulid_order() -> Result<(), Error> {
    let cxn = Log::new("/tmp/sql_hummus_test_temp_ULIDORDER.db")?;
    cxn.clear()?;
    assert_eq!(cxn.push_inner("01KX54X8MW2N2FA4ERGGXVNTWH", "later")?, 1);
    assert_eq!(cxn.push_inner("01KX54X6X3G98K9A24P1HBA8GY", "earlier")?, 2);
    let mut cursor = cxn.iter()?;
    assert_eq!(cursor.next().unwrap()?.value, "earlier");
    assert_eq!(cursor.next().unwrap()?.value, "later");
    assert!(cursor.next().is_none());
    Ok(())
}

#[test]
fn log_bad_ulid_is_a_decode_error() -> Result<(), Error> {
    let cxn = Log::new("/tmp/sql_hummus_test_temp_BADULID.db")?;
    cxn.clear()?;
    let index = cxn.push_inner("not a ulid", "value")?;
    let err = cxn.get_by_index(index).unwrap_err();
    assert!(matches!(err.error_kind(), ErrorKind::UlidDecode(UlidDecodeError::InvalidLength)));
    assert!(err.cookie_trail().is_empty());

    let mut cursor = cxn.iter()?;
    let err = cursor.next().unwrap().unwrap_err();
    assert!(matches!(err.error_kind(), ErrorKind::UlidDecode(UlidDecodeError::InvalidLength)));

    cxn.clear()?;
    let index = cxn.push_inner("01KX54X6X3G98K9A24P1HBA8G!", "value")?;
    let err = cxn.get_by_index(index).unwrap_err();
    assert!(matches!(err.error_kind(), ErrorKind::UlidDecode(UlidDecodeError::InvalidChar)));
    Ok(())
}

#[test]
fn log_push_stamps_the_time() -> Result<(), Error> {
    let cxn = Log::new("/tmp/sql_hummus_test_temp_PUSHTIME.db")?;
    cxn.clear()?;
    let index = cxn.push_with_time(1_700_000_000_123, "at a given time")?;
    let element = cxn.get_by_index(index)?.unwrap();
    assert_eq!(element.value, "at a given time");
    assert_eq!(ulid::Ulid(element.ulid).timestamp_ms(), 1_700_000_000_123);

    let index = cxn.push("now")?;
    let element = cxn.get_by_index(index)?.unwrap();
    assert_eq!(element.value, "now");
    assert_eq!(element.ulid_string().len(), 26);
    assert_eq!(
        ulid::Ulid::from_string(&element.ulid_string()).unwrap().0,
        element.ulid
    );
    Ok(())
}

#[test]
fn log_duplicate_ulid_fails_with_cookies() -> Result<(), Error> {
    let cxn = Log::new("/tmp/sql_hummus_test_temp_DUPULID.db")?;
    cxn.clear()?;
    cxn.push_inner("01KX54X6X3G98K9A24P1HBA8GY", "one")?;
    let err = cxn
        .push_inner("01KX54X6X3G98K9A24P1HBA8GY", "two")
        .unwrap_err();
    assert!(matches!(err.error_kind(), ErrorKind::Sqlite(_)));
    assert_eq!(err.cookie_trail().len(), 1);
    assert_eq!(err.cookie_trail()[0], "WEMNOGO7");
    let _ = COOKIE_PUSH;
    Ok(())
}

#[test]
fn log_refuses_a_kv_file() {
    let path = "/tmp/sql_hummus_test_temp_KVASLOG.db";
    drop(sql_hummus::kv::Kv::new(path).unwrap());
    let Err(err) = Log::new(path) else {
        panic!("a key-value file opened as a log");
    };
    assert!(matches!(err.error_kind(), ErrorKind::Str(m) if *m == NOT_A_LOG_FILE));
    assert!(err.cookie_trail().is_empty());
}

#[test]
fn log_needs_setup_by_stamp() {
    assert!(matches!(Log::needs_setup(0), Ok(true)));
    assert!(matches!(Log::needs_setup(756530437), Ok(false)));
    let err = Log::needs_setup(1783402338).unwrap_err();
    assert!(matches!(err.error_kind(), ErrorKind::Str(m) if *m == NOT_A_LOG_FILE));
}


#[test]
fn log_cursor_goes_on_after_a_bad_ulid() -> Result<(), Error> {
    let cxn = Log::new("/tmp/sql_hummus_test_temp_BADTHENGOOD.db")?;
    cxn.clear()?;
    cxn.push_inner("00", "bad")?;
    cxn.push_inner("01KX54X8MW2N2FA4ERGGXVNTWH", "good")?;
    let mut cursor = cxn.iter()?;
    let err = cursor.next().unwrap().unwrap_err();
    assert!(matches!(err.error_kind(), ErrorKind::UlidDecode(UlidDecodeError::InvalidLength)));
    assert_eq!(cursor.next().unwrap()?.value, "good");
    assert!(cursor.next().is_none());
    Ok(())
}

#[test]
fn log_push_with_time_keeps_48_bits() -> Result<(), Error> {
    let cxn = Log::new("/tmp/sql_hummus_test_temp_PUSHTIMEBITS.db")?;
    cxn.clear()?;
    let index = cxn.push_with_time(u64::MAX, "far future")?;
    let element = cxn.get_by_index(index)?.unwrap();
    assert_eq!(ulid::Ulid(element.ulid).timestamp_ms(), 0xFFFF_FFFF_FFFF);
    let index = cxn.push_with_time(0, "epoch")?;
    let element = cxn.get_by_index(index)?.unwrap();
    assert_eq!(element.ulid >> 80, 0);
    Ok(())
}
