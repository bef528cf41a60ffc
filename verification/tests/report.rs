use dad_bot::dadded_manager::initialize;
use dad_bot::records::create_inmemory_db;
use dad_bot::report::{get_dads, u64_to_string, DadDurationText};

fn ts(y: i32, mo: u32, d: u32, h: u32, mi: u32, s: u32, ms: u32) -> i64 {
    chrono::NaiveDate::from_ymd_opt(y, mo, d)
        .unwrap()
        .and_hms_milli_opt(h, mi, s, ms)
        .unwrap()
        .and_utc()
        .timestamp_millis()
}

#[test]
fn test_duration_time_to_string() {
    let none = DadDurationText::duration_time_to_string(0, "day");
    let single = DadDurationText::duration_time_to_string(1, "day");
    let multiple = DadDurationText::duration_time_to_string(2, "day");

    assert_eq!(none, (0, String::new()));
    assert_eq!(single, (1, String::from("day")));
    assert_eq!(multiple, (2, String::from("days")));
}

#[test]
fn test_get_time_string_from_duration_all_components_exist() {
    let duration = (chrono::Duration::days(1) + chrono::Duration::hours(1)
        + chrono::Duration::minutes(1))
        .num_milliseconds();

    let time_str = DadDurationText::new(duration).get_text();
    assert_eq!(time_str, String::from("1 day 1 hour 1 minute"));
}

#[test]
fn test_get_time_string_from_duration_some_components_exist() {
    let duration = (chrono::Duration::days(2) + chrono::Duration::minutes(1)).num_milliseconds();

    let time_str = DadDurationText::new(duration).get_text();
    assert_eq!(time_str, String::from("2 days 1 minute"));
}

#[test]
fn test_get_time_string_from_duration_lone_item_is_unit() {
    let duration = chrono::Duration::minutes(1).num_milliseconds();

    let time_str = DadDurationText::new(duration).get_text();
    assert_eq!(time_str, String::from("1 minute"));
}

#[test]
fn test_get_time_string_from_duration_less_than_a_minute_is_instant() {
    let duration = chrono::Duration::seconds(1).num_milliseconds();

    let time_str = DadDurationText::new(duration).get_text();
    assert_eq!(time_str, String::from("instant"));
}

#[test]
fn test_duration_components_pluralize() {
    let duration = (chrono::Duration::days(3) + chrono::Duration::hours(2)
        + chrono::Duration::minutes(45))
        .num_milliseconds();

    let time_str = DadDurationText::new(duration).get_text();
    assert_eq!(time_str, String::from("3 days 2 hours 45 minutes"));
}

#[test]
fn test_decimal_rendering() {
    assert_eq!(u64_to_string(0), String::from("0"));
    assert_eq!(u64_to_string(7), String::from("7"));
    assert_eq!(u64_to_string(10), String::from("10"));
    assert_eq!(u64_to_string(906), String::from("906"));
    assert_eq!(u64_to_string(18446744073709551615), String::from("18446744073709551615"));
}

#[test]
fn test_get_dads() {
    let mut db = create_inmemory_db();
    let cur_time = ts(2022, 4, 1, 19, 15, 10, 300);
    let duration = chrono::Duration::days(1).num_milliseconds();
    let mut mgr = initialize(&mut db, cur_time, duration).unwrap();
    let cur_time = cur_time + duration;

    mgr.check_for_epoch_update(&mut db, cur_time, duration).unwrap();

    let dad_string_none = get_dads(&mut db, &mut mgr, duration).unwrap();

    mgr.increment_dadded(&mut db).unwrap();
    let dad_string_one = get_dads(&mut db, &mut mgr, duration).unwrap();

    assert_eq!(dad_string_none, String::from("I've dadded 0 times in the past 1 day"));
    assert_eq!(dad_string_one, String::from("I've dadded 1 time in the past 1 day"));
}

#[test]
fn test_get_dads_not_awake_since_last_epoch() {
    let mut db = create_inmemory_db();
    let cur_time = ts(2022, 4, 1, 19, 15, 10, 300);
    let duration = chrono::Duration::days(1).num_milliseconds();
    let mut mgr = initialize(&mut db, cur_time, duration).unwrap();

    mgr.increment_dadded(&mut db).unwrap();
    let dad_string_one = get_dads(&mut db, &mut mgr, duration).unwrap();

    assert_eq!(dad_string_one, String::from("I've dadded 1 time since my last nap"));
}
