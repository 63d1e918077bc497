use sql_hummus::text::{find_dots, has_prefix, parse_i64};

#[test]
fn parse_i64_matches_from_str() {
    for s in [
        "0", "1", "-1", "+1", "007", "-0", "9223372036854775807", "-9223372036854775808",
        "9223372036854775808", "-9223372036854775809", "", "-", "+", "1a", " 1", "1 ",
        "+-1", "99999999999999999999999999999999999999999", "١", "12é",
    ] {
        assert_eq!(parse_i64(s), s.parse::<i64>().ok(), "{s:?}");
    }
}

#[test]
fn has_prefix_cases() {
    assert!(has_prefix("/myapp/color_mode", "/myapp/"));
    assert!(has_prefix("anything", ""));
    assert!(has_prefix("", ""));
    assert!(!has_prefix("/my", "/myapp/"));
    assert!(!has_prefix("/notmyapp/", "/myapp/"));
    assert!(has_prefix("héllo", "hé"));
    assert!(!has_prefix("hello", "hé"));
}

#[test]
fn find_dots_cases() {
    assert_eq!(find_dots("0..2"), Some(1));
    assert_eq!(find_dots("a.b..c..d"), Some(3));
    assert_eq!(find_dots("é..1"), Some(1));
    assert_eq!(find_dots("1.2"), None);
    assert_eq!(find_dots("."), None);
    assert_eq!(find_dots(""), None);
    assert_eq!(find_dots(".."), Some(0));
}
