use pacnews::datetime::{parse_date, parse_timestamp, Timestamp};

fn ts(
    year: u32,
    month: u32,
    day: u32,
    hour: u32,
    minute: u32,
    second: u32,
    offset_minutes: i32,
) -> Timestamp {
    Timestamp { year, month, day, hour, minute, second, offset_minutes }
}

#[test]
fn parse_date_exact() {
    assert_eq!(parse_date("2024-01-01"), Some(ts(2024, 1, 1, 0, 0, 0, 0)));
    assert_eq!(parse_date("0001-12-31"), Some(ts(1, 12, 31, 0, 0, 0, 0)));
}

#[test]
fn parse_date_rejects_malformed() {
    assert_eq!(parse_date(""), None);
    assert_eq!(parse_date("2024-1-1"), None);
    assert_eq!(parse_date("2024/01/01"), None);
    assert_eq!(parse_date("2024-01-011"), None);
    assert_eq!(parse_date("2024-13-01"), None);
    assert_eq!(parse_date("2024-00-10"), None);
    assert_eq!(parse_date("2024-04-31"), None);
    assert_eq!(parse_date("2024-01-00"), None);
    assert_eq!(parse_date("20x4-01-01"), None);
}

#[test]
fn parse_date_leap_years() {
    assert_eq!(parse_date("2024-02-29"), Some(ts(2024, 2, 29, 0, 0, 0, 0)));
    assert_eq!(parse_date("2023-02-29"), None);
    assert_eq!(parse_date("2000-02-29"), Some(ts(2000, 2, 29, 0, 0, 0, 0)));
    assert_eq!(parse_date("1900-02-29"), None);
}

#[test]
fn parse_timestamp_exact() {
    assert_eq!(
        parse_timestamp("2024-01-05T10:00:00+0000"),
        Some(ts(2024, 1, 5, 10, 0, 0, 0))
    );
    assert_eq!(
        parse_timestamp("2024-01-05T23:59:59-0130"),
        Some(ts(2024, 1, 5, 23, 59, 59, -90))
    );
    assert_eq!(
        parse_timestamp("2024-01-05T00:00:00+0530"),
        Some(ts(2024, 1, 5, 0, 0, 0, 330))
    );
}

#[test]
fn parse_timestamp_rejects_malformed() {
    assert_eq!(parse_timestamp(""), None);
    assert_eq!(parse_timestamp("2024-01-05 10:00:00+0000"), None);
    assert_eq!(parse_timestamp("2024-01-05T10:00:00"), None);
    assert_eq!(parse_timestamp("2024-01-05T24:00:00+0000"), None);
    assert_eq!(parse_timestamp("2024-01-05T10:60:00+0000"), None);
    assert_eq!(parse_timestamp("2024-01-05T10:00:60+0000"), None);
    assert_eq!(parse_timestamp("2024-01-05T10:00:00+2400"), None);
    assert_eq!(parse_timestamp("2024-01-05T10:00:00+0060"), None);
    assert_eq!(parse_timestamp("2024-01-05T10:00:00Z0000"), None);
    assert_eq!(parse_timestamp("2024-02-30T10:00:00+0000"), None);
}

#[test]
fn instants_order_by_moment_not_wall_clock() {
    // 10:00 at +0200 is 08:00 UTC, earlier than 09:00 UTC.
    let a = ts(2024, 1, 5, 10, 0, 0, 120);
    let b = ts(2024, 1, 5, 9, 0, 0, 0);
    assert!(a.is_before(&b));
    assert!(!b.is_before(&a));
    // The same instant written at two offsets is not before itself.
    let c = ts(2024, 1, 5, 12, 0, 0, 120);
    let d = ts(2024, 1, 5, 10, 0, 0, 0);
    assert!(!c.is_before(&d));
    assert!(!d.is_before(&c));
}

#[test]
fn instants_order_across_dates() {
    let early = ts(2024, 1, 10, 0, 0, 0, 0);
    let late = ts(2024, 3, 1, 0, 0, 0, 0);
    assert!(early.is_before(&late));
    assert!(!late.is_before(&early));
    let feb28 = ts(2024, 2, 28, 23, 59, 59, 0);
    let feb29 = ts(2024, 2, 29, 0, 0, 0, 0);
    let mar1 = ts(2024, 3, 1, 0, 0, 0, 0);
    assert!(feb28.is_before(&feb29));
    assert!(feb29.is_before(&mar1));
}

#[test]
fn instant_seconds_exact_value() {
    // 1970-01-01T00:00:00+0000 lies 719528 days after the calendar origin.
    let epoch = ts(1970, 1, 1, 0, 0, 0, 0);
    assert_eq!(epoch.instant_seconds(), 719528i64 * 86400);
    // One minute of positive offset shifts the instant one minute back.
    let shifted = ts(1970, 1, 1, 0, 0, 0, 1);
    assert_eq!(shifted.instant_seconds(), 719528i64 * 86400 - 60);
}
