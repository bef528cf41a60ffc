use dad_bot::epochs::get_epoch_boundry;
use dad_bot::errors::Error;

fn ts(y: i32, mo: u32, d: u32, h: u32, mi: u32, s: u32, ms: u32) -> i64 {
    chrono::NaiveDate::from_ymd_opt(y, mo, d)
        .unwrap()
        .and_hms_milli_opt(h, mi, s, ms)
        .unwrap()
        .and_utc()
        .timestamp_millis()
}

#[test]
fn test_epoch_util_lower_bound() {
    let date = ts(2022, 3, 16, 12, 1, 2, 100);
    let duration = chrono::Duration::hours(1).num_milliseconds();
    let bounds_res = get_epoch_boundry(date, duration).unwrap();
    let expected_res = ts(2022, 3, 16, 12, 0, 0, 0);
    assert_eq!(bounds_res.lower, expected_res);
}

#[test]
fn test_epoch_util_upper_bound() {
    let date = ts(2022, 3, 16, 12, 1, 2, 100);
    let duration = chrono::Duration::hours(1).num_milliseconds();
    let bounds_res = get_epoch_boundry(date, duration).unwrap();
    let expected_res = ts(2022, 3, 16, 13, 0, 0, 0);
    assert_eq!(bounds_res.upper, expected_res);
}

#[test]
fn test_epoch_util_both_bounds() {
    let date = ts(2022, 3, 16, 12, 1, 2, 100);
    let duration = chrono::Duration::days(1).num_milliseconds();
    let bounds_res = get_epoch_boundry(date, duration).unwrap();
    let lower_res = ts(2022, 3, 16, 0, 0, 0, 0);
    let upper_res = ts(2022, 3, 17, 0, 0, 0, 0);
    assert_eq!(bounds_res.lower, lower_res);
    assert_eq!(bounds_res.upper, upper_res);
}

#[test]
fn test_epoch_util_non_unit_epoch() {
    let date = ts(2022, 3, 16, 12, 1, 2, 100);
    let duration = chrono::Duration::hours(6).num_milliseconds();
    let bounds_res = get_epoch_boundry(date, duration).unwrap();
    let lower_res = ts(2022, 3, 16, 12, 0, 0, 0);
    let upper_res = ts(2022, 3, 16, 18, 0, 0, 0);
    assert_eq!(bounds_res.lower, lower_res);
    assert_eq!(bounds_res.upper, upper_res);
}

#[test]
fn test_epoch_util_increment() {
    let date = ts(2022, 3, 16, 12, 1, 2, 100);
    let duration = chrono::Duration::days(1).num_milliseconds();
    let init_bounds = get_epoch_boundry(date, duration).unwrap();
    let bounds_res = get_epoch_boundry(init_bounds.upper, duration).unwrap();
    let lower_res = ts(2022, 3, 17, 0, 0, 0, 0);
    let upper_res = ts(2022, 3, 18, 0, 0, 0, 0);
    assert_eq!(bounds_res.lower, lower_res);
    assert_eq!(bounds_res.upper, upper_res);
}

#[test]
fn test_truncation_is_idempotent() {
    let duration = chrono::Duration::hours(7).num_milliseconds();
    for date in [
        ts(2022, 3, 16, 12, 1, 2, 100),
        ts(1969, 12, 31, 23, 59, 59, 999),
        ts(1970, 1, 1, 0, 0, 0, 0),
        ts(2038, 1, 19, 3, 14, 7, 0),
    ] {
        let lower = get_epoch_boundry(date, duration).unwrap().lower;
        assert_eq!(get_epoch_boundry(lower, duration).unwrap().lower, lower);
    }
}

#[test]
fn test_bucket_contains_instant() {
    let duration = chrono::Duration::minutes(90).num_milliseconds();
    for date in [
        ts(2022, 3, 16, 12, 1, 2, 100),
        ts(1969, 12, 31, 23, 59, 59, 999),
        ts(1970, 1, 1, 0, 0, 0, 0),
    ] {
        let bounds = get_epoch_boundry(date, duration).unwrap();
        assert!(bounds.lower <= date && date < bounds.upper);
        assert_eq!(bounds.upper, bounds.lower + duration);
    }
}

#[test]
fn test_non_positive_width_is_invalid() {
    let date = ts(2022, 3, 16, 12, 1, 2, 100);
    assert_eq!(get_epoch_boundry(date, 0), Err(Error::InvalidWidth));
    assert_eq!(get_epoch_boundry(date, -60000), Err(Error::InvalidWidth));
}
