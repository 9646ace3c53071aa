use bt_core::time::{DateTime, TimeSync, UtcTime};

const SYNC: i64 = 1764505821;

#[test]
fn test_now_not_sync_yet() {
    let clock = UtcTime::new();
    let now = clock.now(0);
    assert!(now.is_none());
}

#[test]
fn test_now_sync() {
    let sync = DateTime::new(2025, 11, 30, 12, 30, 21).unwrap();
    let mut clock = UtcTime::new();
    clock.time_sync(sync.timestamp(), 17);
    let now = clock.now(17);
    assert!(now.is_some());
    assert_eq!(now.unwrap(), sync.timestamp());
}

#[test]
fn test_now_sync_and_then_check_again() {
    let sync = DateTime::new(2025, 11, 30, 12, 30, 21).unwrap();
    let mut clock = UtcTime::new();
    clock.time_sync(sync.timestamp(), 17);
    let now = clock.now(17);
    assert!(now.is_some());
    assert_eq!(now.unwrap(), sync.timestamp());
    let now = clock.now(19);
    assert!(now.is_some());
    assert_eq!(now.unwrap(), sync.timestamp() + 2);
}

#[test]
fn test_now_sync_and_then_resync() {
    let sync_one = DateTime::new(2025, 11, 30, 12, 30, 21).unwrap();
    let mut clock = UtcTime::new();
    clock.time_sync(sync_one.timestamp(), 3);
    let now_one = clock.now(3);
    assert!(now_one.is_some());
    assert_eq!(now_one.unwrap(), sync_one.timestamp());
    let sync_two = DateTime::new(2025, 11, 30, 12, 45, 34).unwrap();
    clock.time_sync(sync_two.timestamp(), 4);
    let now_two = clock.now(4);
    assert_eq!(now_two.unwrap(), sync_two.timestamp());
}

#[test]
fn a_synchronization_reports_what_it_did() {
    let mut clock = UtcTime::new();
    assert_eq!(clock.time_sync(SYNC, 100), TimeSync::Initial);
    assert_eq!(clock.time_sync(SYNC + 50, 150), TimeSync::Unchanged);
    assert_eq!(clock.time_sync(SYNC + 60, 150), TimeSync::Resynchronized { drift_seconds: 10 });
    assert_eq!(clock.time_sync(SYNC, 150), TimeSync::Resynchronized { drift_seconds: -60 });
    assert_eq!(clock.now(150), Some(SYNC));
    clock.reset();
    assert_eq!(clock.now(150), None);
}

#[test]
fn the_clock_is_strictly_monotonic_between_synchronizations() {
    let mut clock = UtcTime::new();
    clock.time_sync(SYNC, 10);
    let mut last = clock.now(10).unwrap();
    for uptime in 11..200 {
        let now = clock.now(uptime).unwrap();
        assert_eq!(now, last + 1);
        last = now;
    }
}

#[test]
fn moments_carry_their_timestamp() {
    assert_eq!(DateTime::new(1970, 1, 1, 0, 0, 0).unwrap().timestamp(), 0);
    assert_eq!(DateTime::new(1970, 1, 1, 0, 0, 10).unwrap().timestamp(), 10);
    assert_eq!(DateTime::new(2025, 11, 30, 12, 30, 0).unwrap().timestamp(), 1764505800);
    assert_eq!(DateTime::new(2025, 11, 30, 12, 30, 21).unwrap().timestamp(), SYNC);
    assert_eq!(DateTime::new(2070, 1, 1, 0, 0, 10).unwrap().timestamp(), 3155760010);
    let moment = DateTime::new(2024, 2, 29, 23, 59, 59).unwrap();
    assert_eq!(
        (moment.year(), moment.month(), moment.day(), moment.hour(), moment.minute(), moment.second()),
        (2024, 2, 29, 23, 59, 59)
    );
}

#[test]
fn moments_that_do_not_exist_are_refused() {
    assert!(DateTime::new(2025, 2, 29, 0, 0, 0).is_none());
    assert!(DateTime::new(2100, 2, 29, 0, 0, 0).is_none());
    assert!(DateTime::new(2000, 2, 29, 0, 0, 0).is_some());
    assert!(DateTime::new(2025, 4, 31, 0, 0, 0).is_none());
    assert!(DateTime::new(2025, 0, 1, 0, 0, 0).is_none());
    assert!(DateTime::new(2025, 13, 1, 0, 0, 0).is_none());
    assert!(DateTime::new(2025, 1, 0, 0, 0, 0).is_none());
    assert!(DateTime::new(2025, 1, 1, 24, 0, 0).is_none());
    assert!(DateTime::new(2025, 1, 1, 0, 60, 0).is_none());
    assert!(DateTime::new(2025, 1, 1, 0, 0, 60).is_none());
    assert!(DateTime::new(1969, 12, 31, 23, 59, 59).is_none());
    assert!(DateTime::new(262_142, 12, 31, 23, 59, 59).is_some());
    assert!(DateTime::new(262_143, 1, 1, 0, 0, 0).is_none());
}
