use ipwned::statedb::{outdated, parse_last_update, Timestamp};

#[test]
fn last_update_is_read_as_utc() {
    assert_eq!(
        parse_last_update("1970-01-01 00:00:00"),
        Some(Timestamp { secs: 0, nanos: 0 })
    );
    assert_eq!(
        parse_last_update("2024-01-02 03:04:05"),
        Some(Timestamp { secs: 1_704_164_645, nanos: 0 })
    );
    assert_eq!(
        parse_last_update("1969-12-31 23:59:59"),
        Some(Timestamp { secs: -1, nanos: 0 })
    );
}

#[test]
fn last_update_agrees_with_chrono() {
    let text = "2023-11-14 22:13:20";
    let time = chrono::NaiveDateTime::parse_from_str(text, "%Y-%m-%d %H:%M:%S").unwrap();
    assert_eq!(
        parse_last_update(text),
        Some(Timestamp { secs: time.and_utc().timestamp(), nanos: 0 })
    );
    assert_eq!(time.and_utc().timestamp(), 1_700_000_000);
}

#[test]
fn leap_second_keeps_its_second() {
    assert_eq!(
        parse_last_update("2015-06-30 23:59:60"),
        Some(Timestamp { secs: 1_435_708_799, nanos: 1_000_000_000 })
    );
}

#[test]
fn text_of_another_form_is_not_read() {
    assert_eq!(parse_last_update(""), None);
    assert_eq!(parse_last_update("2024-01-02"), None);
    assert_eq!(parse_last_update("2024-01-02T03:04:05"), None);
    assert_eq!(parse_last_update("2024-13-02 03:04:05"), None);
    assert_eq!(parse_last_update("2024-01-02 24:00:00"), None);
    assert_eq!(parse_last_update("yesterday"), None);
}

#[test]
fn earlier_compares_seconds_then_nanoseconds() {
    let a = Timestamp { secs: 5, nanos: 0 };
    let b = Timestamp { secs: 5, nanos: 1 };
    let c = Timestamp { secs: 6, nanos: 0 };
    let d = Timestamp { secs: -6, nanos: 999 };
    assert!(a.is_before(&b));
    assert!(!b.is_before(&a));
    assert!(b.is_before(&c));
    assert!(!c.is_before(&b));
    assert!(!a.is_before(&a));
    assert!(d.is_before(&a));
}

#[test]
fn outdated_when_never_built_or_built_before_the_limit() {
    let limit = Timestamp { secs: 1000, nanos: 500 };
    assert!(outdated(&limit, None));
    assert!(outdated(&limit, Some(Timestamp { secs: 999, nanos: 0 })));
    assert!(outdated(&limit, Some(Timestamp { secs: 1000, nanos: 0 })));
    assert!(!outdated(&limit, Some(Timestamp { secs: 1000, nanos: 500 })));
    assert!(!outdated(&limit, Some(Timestamp { secs: 1001, nanos: 0 })));
}
