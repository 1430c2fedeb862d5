use chrono::{DateTime, TimeZone, Utc};
use extension_update::constellation::utils::{
    calculate_epoch_express, calculate_epoch_slow, calculate_epoch_typical, epoch_info,
    next_epoch_time_express, next_epoch_time_slow, next_epoch_time_typical, BASE_WEEKLY_EPOCH,
    MAX_POINTS,
};
use extension_update::update2::model::Timestamp;

fn stamp(time: DateTime<Utc>) -> Timestamp {
    Timestamp { seconds: time.timestamp(), nanos: time.timestamp_subsec_nanos() }
}

#[test]
fn test_calculate_epoch_express() {
    let dt = Utc.with_ymd_and_hms(2025, 6, 10, 0, 0, 0).unwrap();
    assert_eq!(calculate_epoch_express(stamp(dt)), Some(3));

    let dt = Utc.with_ymd_and_hms(2025, 6, 6, 23, 59, 59).unwrap();
    assert_eq!(calculate_epoch_express(stamp(dt)), Some(30));

    let dt = Utc.with_ymd_and_hms(2025, 7, 7, 0, 0, 0).unwrap();
    assert_eq!(calculate_epoch_express(stamp(dt)), Some(0));

    let dt = Utc.with_ymd_and_hms(2025, 6, 19, 0, 0, 0).unwrap();
    assert_eq!(calculate_epoch_express(stamp(dt)), Some(12));
}

#[test]
fn test_next_epoch_time_express() {
    let dt = Utc.with_ymd_and_hms(2025, 6, 17, 12, 0, 0).unwrap();
    let next = next_epoch_time_express(stamp(dt));
    assert_eq!(next, Some(stamp(Utc.with_ymd_and_hms(2025, 6, 18, 0, 0, 0).unwrap())));
}

#[test]
fn test_typical_epoch_values() {
    let dt = Utc.with_ymd_and_hms(2025, 6, 18, 0, 0, 0).unwrap();
    assert_eq!(calculate_epoch_typical(stamp(dt)), 111);
    assert_eq!(
        next_epoch_time_typical(stamp(dt)),
        Some(stamp(Utc.with_ymd_and_hms(2025, 6, 23, 0, 0, 0).unwrap()))
    );
}

#[test]
fn test_next_epoch_time_typical() {
    let dt = Utc.with_ymd_and_hms(2025, 6, 17, 0, 0, 0).unwrap();
    let next = next_epoch_time_typical(stamp(dt));
    assert_eq!(next, Some(stamp(Utc.with_ymd_and_hms(2025, 6, 23, 0, 0, 0).unwrap())));
}

#[test]
fn test_calculate_epoch_slow() {
    let dt = Utc.with_ymd_and_hms(2025, 6, 1, 0, 0, 0).unwrap();
    assert_eq!(calculate_epoch_slow(stamp(dt)), Some(29));

    let dt = Utc.with_ymd_and_hms(2023, 1, 1, 0, 0, 0).unwrap();
    assert_eq!(calculate_epoch_slow(stamp(dt)), Some(0));
}

#[test]
fn test_next_epoch_time_slow() {
    let dt = Utc.with_ymd_and_hms(2025, 6, 17, 0, 0, 0).unwrap();
    let next = next_epoch_time_slow(stamp(dt));
    assert_eq!(next, Some(stamp(Utc.with_ymd_and_hms(2025, 7, 1, 0, 0, 0).unwrap())));
}

#[test]
fn express_epoch_starts_in_december_for_early_january() {
    let dt = Utc.with_ymd_and_hms(2025, 1, 3, 5, 0, 0).unwrap();
    assert_eq!(calculate_epoch_express(stamp(dt)), Some(27));
    let dt = Utc.with_ymd_and_hms(2025, 3, 6, 0, 0, 0).unwrap();
    assert_eq!(calculate_epoch_express(stamp(dt)), Some(27));
}

#[test]
fn epochs_agree_with_chrono_before_their_origins() {
    let before = Utc.with_ymd_and_hms(2023, 4, 20, 12, 0, 0).unwrap();
    let base = DateTime::from_timestamp(BASE_WEEKLY_EPOCH, 0).unwrap();
    assert_eq!(base, Utc.with_ymd_and_hms(2023, 5, 1, 0, 0, 0).unwrap());
    let expected = before.signed_duration_since(base).num_days() / 7;
    assert_eq!(calculate_epoch_typical(stamp(before)), expected);
    assert_eq!(expected, -1);
    let with_nanos = Timestamp { seconds: BASE_WEEKLY_EPOCH - 7 * 86400, nanos: 1 };
    assert_eq!(calculate_epoch_typical(with_nanos), 0);
    let exact = Timestamp { seconds: BASE_WEEKLY_EPOCH - 7 * 86400, nanos: 0 };
    assert_eq!(calculate_epoch_typical(exact), -1);
    let old = Utc.with_ymd_and_hms(2022, 11, 5, 0, 0, 0).unwrap();
    assert_eq!(calculate_epoch_slow(stamp(old)), Some(-2));
    let december = Utc.with_ymd_and_hms(2024, 12, 31, 23, 59, 59).unwrap();
    assert_eq!(
        next_epoch_time_slow(stamp(december)),
        Some(stamp(Utc.with_ymd_and_hms(2025, 1, 1, 0, 0, 0).unwrap()))
    );
}

#[test]
fn next_midnight_rounds_down_before_1970() {
    assert_eq!(
        next_epoch_time_express(Timestamp { seconds: -1, nanos: 0 }),
        Some(Timestamp { seconds: 0, nanos: 0 })
    );
    assert_eq!(
        next_epoch_time_express(Timestamp { seconds: -86400, nanos: 0 }),
        Some(Timestamp { seconds: 0, nanos: 0 })
    );
    assert_eq!(
        next_epoch_time_express(Timestamp { seconds: -86401, nanos: 0 }),
        Some(Timestamp { seconds: -86400, nanos: 0 })
    );
    assert_eq!(next_epoch_time_express(Timestamp { seconds: i64::MAX, nanos: 0 }), None);
}

#[test]
fn times_out_of_the_calendar_have_no_epoch() {
    let far = Timestamp { seconds: i64::MAX, nanos: 0 };
    assert_eq!(calculate_epoch_express(far), None);
    assert_eq!(calculate_epoch_slow(far), None);
    assert_eq!(next_epoch_time_slow(far), None);
    assert_eq!(next_epoch_time_typical(far), None);
    assert!(next_epoch_time_typical(Timestamp { seconds: i64::MIN, nanos: 0 }).is_some());
}

#[test]
fn every_speed_has_its_clock() {
    let now = stamp(Utc.with_ymd_and_hms(2025, 6, 18, 10, 0, 0).unwrap());
    for speed in ["express", "typical", "slow"] {
        let info = epoch_info(speed, now).expect("a known speed");
        assert_eq!(info.max_points, 1024);
        assert_eq!(info.max_points, MAX_POINTS);
        assert!(info.next_epoch_time.seconds > now.seconds);
    }
    assert_eq!(epoch_info("express", now).unwrap().current_epoch, 11);
    assert_eq!(epoch_info("typical", now).unwrap().current_epoch, 111);
    assert_eq!(epoch_info("slow", now).unwrap().current_epoch, 29);
    assert!(epoch_info("Express", now).is_none());
    assert!(epoch_info("", now).is_none());
}
