use dad_bot::dadded::get_or_create_dad_from_epoch;
use dad_bot::dadded_manager::{initialize, DaddedManager};
use dad_bot::epochs::{get_next_epoch_bound, get_or_create_epoch};
use dad_bot::records::create_inmemory_db;
use dad_bot::report::get_dads;

fn ts(y: i32, mo: u32, d: u32, h: u32, mi: u32, s: u32, ms: u32) -> i64 {
    chrono::NaiveDate::from_ymd_opt(y, mo, d)
        .unwrap()
        .and_hms_milli_opt(h, mi, s, ms)
        .unwrap()
        .and_utc()
        .timestamp_millis()
}

#[test]
fn test_check_for_epoch_update_new_epoch_ticked() {
    let mut db = create_inmemory_db();
    let cur_time = ts(2022, 4, 1, 19, 15, 10, 300);
    let duration = chrono::Duration::days(1).num_milliseconds();
    let epoch = get_or_create_epoch(&mut db, cur_time, duration).unwrap();
    let next_epoch = get_next_epoch_bound(&db, epoch.id, duration).unwrap();
    let dadded = get_or_create_dad_from_epoch(&mut db, epoch.id).unwrap();
    let mut mgr = DaddedManager::new(epoch.id, next_epoch, dadded.id);

    let cur_time = cur_time + duration;

    mgr.check_for_epoch_update(&mut db, cur_time, duration).unwrap();

    assert_eq!(mgr.epoch_id(), epoch.id + 1);
    assert_eq!(mgr.dadded_id(), dadded.id + 1);
    assert_eq!(mgr.next_epoch(), next_epoch + duration);
    assert_eq!(mgr.awake_since_last_epoch(), true);
}

#[test]
fn test_check_for_epoch_update_same_epoch() {
    let mut db = create_inmemory_db();
    let cur_time = ts(2022, 4, 1, 19, 15, 10, 300);
    let duration = chrono::Duration::days(1).num_milliseconds();
    let time_passed = chrono::Duration::hours(1).num_milliseconds();
    let epoch = get_or_create_epoch(&mut db, cur_time, duration).unwrap();
    let next_epoch = get_next_epoch_bound(&db, epoch.id, duration).unwrap();
    let dadded = get_or_create_dad_from_epoch(&mut db, epoch.id).unwrap();
    let mut mgr = DaddedManager::new(epoch.id, next_epoch, dadded.id);

    let cur_time = cur_time + time_passed;

    mgr.check_for_epoch_update(&mut db, cur_time, duration).unwrap();

    assert_eq!(mgr.epoch_id(), epoch.id);
    assert_eq!(mgr.dadded_id(), dadded.id);
    assert_eq!(mgr.next_epoch(), next_epoch);
    assert_eq!(mgr.awake_since_last_epoch(), false);
}

#[test]
fn test_rollover_resets_count() {
    let mut db = create_inmemory_db();
    let cur_time = ts(2022, 4, 1, 19, 15, 10, 300);
    let duration = chrono::Duration::days(1).num_milliseconds();
    let mut mgr = initialize(&mut db, cur_time, duration).unwrap();

    for _ in 0..5 {
        mgr.increment_dadded(&mut db).unwrap();
    }
    assert_eq!(mgr.get_current_dad(&mut db).unwrap().count, 5);

    let cur_time = cur_time + duration;
    mgr.check_for_epoch_update(&mut db, cur_time, duration).unwrap();

    assert_eq!(mgr.get_current_dad(&mut db).unwrap().count, 0);
}

#[test]
fn test_manager_increment_steps_by_one() {
    let mut db = create_inmemory_db();
    let cur_time = ts(2022, 4, 1, 19, 15, 10, 300);
    let duration = chrono::Duration::days(1).num_milliseconds();
    let mut mgr = initialize(&mut db, cur_time, duration).unwrap();

    let first = mgr.increment_dadded(&mut db).unwrap();
    let second = mgr.increment_dadded(&mut db).unwrap();
    let third = mgr.increment_dadded(&mut db).unwrap();
    assert_eq!(first.count, 1);
    assert_eq!(second.count, 2);
    assert_eq!(third.count, 3);
}

#[test]
fn test_end_to_end_scenario() {
    let mut db = create_inmemory_db();
    let start = ts(2022, 4, 1, 19, 15, 10, 300);
    let width = chrono::Duration::days(1).num_milliseconds();
    let mut mgr = initialize(&mut db, start, width).unwrap();

    assert_eq!(mgr.get_current_dad(&mut db).unwrap().count, 0);
    assert_eq!(mgr.awake_since_last_epoch(), false);

    mgr.increment_dadded(&mut db).unwrap();
    let before_rollover = get_dads(&mut db, &mut mgr, width).unwrap();
    assert_eq!(before_rollover, String::from("I've dadded 1 time since my last nap"));

    let later = start + width;
    mgr.check_for_epoch_update(&mut db, later, width).unwrap();
    assert_eq!(mgr.awake_since_last_epoch(), true);

    let after_rollover = get_dads(&mut db, &mut mgr, width).unwrap();
    assert_eq!(after_rollover, String::from("I've dadded 0 times in the past 1 day"));

    let incremented = mgr.increment_dadded(&mut db).unwrap();
    assert_eq!(incremented.count, 1);
}
