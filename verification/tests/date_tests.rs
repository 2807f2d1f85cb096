use chronomap::date::coordinate;

#[test]
fn test_date_to_epoch_days() {
    // 1970-01-01 should be day 0
    let c = coordinate("1970-01-01").expect("epoch day");
    assert_eq!(c, 0);
    assert_eq!(c as f64 / 86400.0, 0.0);
    // 1970-01-02 should be day 1
    let c = coordinate("1970-01-02").expect("next day");
    assert_eq!(c, 86400);
    assert_eq!(c as f64 / 86400.0, 1.0);
    // Invalid date
    assert_eq!(coordinate("not-a-date"), None);
    // ISO datetime
    assert!(coordinate("2000-01-01T12:00:00").is_some());
}

#[test]
fn test_known_coordinates() {
    // 2000-01-01 is epoch day 10957; noon adds half a day of seconds
    assert_eq!(coordinate("2000-01-01"), Some(10957 * 86400));
    assert_eq!(coordinate("2000-01-01T12:00:00"), Some(10957 * 86400 + 43200));
    // the day before the epoch
    assert_eq!(coordinate("1969-12-31"), Some(-86400));
    // a leap day
    assert_eq!(
        coordinate("2000-02-29"),
        Some((10957 + 31 + 28) * 86400)
    );
}

#[test]
fn test_rejects_invalid_dates() {
    // 1900 is no leap year in the Gregorian calendar
    assert_eq!(coordinate("1900-02-29"), None);
    assert_eq!(coordinate("2023-02-29"), None);
    assert_eq!(coordinate("2023-13-01"), None);
    assert_eq!(coordinate("2023-00-10"), None);
    assert_eq!(coordinate("2023-04-31"), None);
    assert_eq!(coordinate("2023-04-00"), None);
    assert_eq!(coordinate(""), None);
    assert_eq!(coordinate("2023-4-1"), None);
    assert_eq!(coordinate("2023-04-01T10:20"), None);
    assert_eq!(coordinate("2023-04-01 10:20:30"), None);
    assert_eq!(coordinate("2023-04-01T25:00:00"), None);
    assert_eq!(coordinate("2023-04-01T10:61:00"), None);
}

#[test]
fn test_zone_suffix_is_ignored() {
    let bare = coordinate("2020-05-05T10:20:30").expect("bare datetime");
    assert_eq!(coordinate("2020-05-05T10:20:30+02:00"), Some(bare));
    assert_eq!(coordinate("2020-05-05T10:20:30Z"), Some(bare));
}

#[test]
fn test_monotonic_over_calendar_order() {
    // Law on concrete values: calendar order carries over to coordinates.
    let inputs = [
        "0001-01-01",
        "1499-12-31",
        "1500-01-01",
        "1500-01-02",
        "1500-02-01",
        "1789-07-14",
        "1905-06-30",
        "1969-12-31",
        "1970-01-01",
        "2000-02-29",
        "2000-03-01",
        "2400-02-29",
        "9999-12-31",
    ];
    let coords: Vec<i64> = inputs
        .iter()
        .map(|s| coordinate(s).expect("valid date"))
        .collect();
    for w in coords.windows(2) {
        assert!(w[0] < w[1], "calendar order must carry over");
    }
    // an earlier date with a late time still precedes a later date
    let a = coordinate("2001-06-03T23:59:59").expect("a");
    let b = coordinate("2001-06-04").expect("b");
    assert!(a <= b);
}
