use sql_hummus::kv::{Error, Kv, DUPLICATE_KEY, NOT_A_KV_FILE};

fn entries(pairs: &[(&str, &str)]) -> Vec<(String, String)> {
    pairs
        .iter()
        .map(|(k, v)| (k.to_string(), v.to_string()))
        .collect::<Vec<_>>()
}

#[test]
fn kv() -> Result<(), Error> {
    let path = "/tmp/sql_hummus_test_temp_ZQ3KECAY.db";
    const COLOR_MODE: &str = "/myapp/color_mode";

    let cxn = Kv::new(path).unwrap();
    cxn.clear()?;
    assert!(!cxn.contains_key(COLOR_MODE).unwrap());

    assert!(cxn.insert(COLOR_MODE, "light_mode").unwrap().is_none());
    assert_eq!(cxn.get(COLOR_MODE).unwrap(), Some("light_mode".into()));
    assert_eq!(
        cxn.insert(COLOR_MODE, "dark_mode").unwrap(),
        Some("light_mode".into())
    );
    assert_eq!(
        cxn.insert(COLOR_MODE, "dark_mode").unwrap(),
        Some("dark_mode".into())
    );
    assert_eq!(cxn.get(COLOR_MODE)?, Some("dark_mode".into()));

    assert!(cxn.contains_key(COLOR_MODE)?);
    assert!(!cxn.contains_key("Never used this key at all")?);

    cxn.insert("/myapp/bookmarks/https://example.com/", "")?;
    cxn.insert("/aaapppp/", "")?;
    cxn.insert("/notmyapp/bookmarks/", "asdf")?;

    assert_eq!(
        cxn.with_prefix("/myapp/")?.collect_rows()?,
        entries(&[
            ("/myapp/bookmarks/https://example.com/", ""),
            (COLOR_MODE, "dark_mode"),
        ]),
    );

    assert_eq!(
        cxn.with_prefix("")?.collect_rows()?,
        entries(&[
            ("/aaapppp/", ""),
            ("/myapp/bookmarks/https://example.com/", ""),
            (COLOR_MODE, "dark_mode"),
            ("/notmyapp/bookmarks/", "asdf"),
        ]),
    );

    Ok(())
}

#[test]
fn kv_needs_setup_by_stamp() {
    assert!(matches!(Kv::needs_setup(0), Ok(true)));
    assert!(matches!(Kv::needs_setup(1783402338), Ok(false)));
    assert!(matches!(Kv::needs_setup(756530437), Err(Error::Other(m)) if m == NOT_A_KV_FILE));
    assert!(matches!(Kv::needs_setup(-1), Err(Error::Other(m)) if m == NOT_A_KV_FILE));
}

#[test]
fn kv_presence_from_count() {
    assert!(matches!(Kv::presence_from_count(0), Ok(false)));
    assert!(matches!(Kv::presence_from_count(1), Ok(true)));
    assert!(matches!(Kv::presence_from_count(2), Err(Error::Other(m)) if m == DUPLICATE_KEY));
    assert!(matches!(Kv::presence_from_count(-1), Err(Error::Other(m)) if m == DUPLICATE_KEY));
}

#[test]
fn kv_prefix_scan_stops_at_block_end() -> Result<(), Error> {
    let cxn = Kv::new("/tmp/sql_hummus_test_temp_PREFIXSCAN.db")?;
    cxn.clear()?;
    cxn.insert("a", "1")?;
    cxn.insert("ab", "2")?;
    cxn.insert("abc", "3")?;
    cxn.insert("abd", "4")?;
    cxn.insert("ac", "5")?;
    cxn.insert("b", "6")?;
    // An empty value turns the file into a set.
    cxn.insert("set-member", "")?;

    assert_eq!(
        cxn.with_prefix("ab")?.collect_rows()?,
        entries(&[("ab", "2"), ("abc", "3"), ("abd", "4")]),
    );
    assert_eq!(cxn.with_prefix("zzz")?.collect_rows()?, entries(&[]));
    assert_eq!(
        cxn.with_prefix("a")?.collect_rows()?,
        entries(&[("a", "1"), ("ab", "2"), ("abc", "3"), ("abd", "4"), ("ac", "5")]),
    );

    let mut cursor = cxn.with_prefix("b")?;
    let first = cursor.next().unwrap()?;
    assert_eq!(first, ("b".to_string(), "6".to_string()));
    assert!(cursor.next().is_none());

    assert_eq!(cxn.get("set-member")?, Some(String::new()));
    assert!(cxn.contains_key("set-member")?);
    assert_eq!(cxn.get("missing")?, None);

    cxn.clear()?;
    assert_eq!(cxn.with_prefix("")?.collect_rows()?, entries(&[]));
    assert!(!cxn.contains_key("a")?);
    Ok(())
}

#[test]
fn kv_refuses_a_log_file() {
    let path = "/tmp/sql_hummus_test_temp_LOGASKV.db";
    let log = sql_hummus::log::Log::new(path).unwrap();
    drop(log);
    assert!(matches!(Kv::new(path), Err(Error::Other(m)) if m == NOT_A_KV_FILE));
}

