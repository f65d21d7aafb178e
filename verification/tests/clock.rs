use first_bot::clock::{
    elapsed_since, local_day_offset, Timestamp, FIRST_SECOND, LAST_SECOND, NANOS_PER_SECOND,
};
use first_bot::zone::Zone;

fn at(secs: i64) -> Timestamp {
    Timestamp { secs, nanos: 0 }
}

fn offset_in(zone: &str, secs: i64) -> Option<i64> {
    local_day_offset(&Zone::parse(zone).unwrap(), at(secs))
}

#[test]
fn representable_range_is_years_1_to_9999() {
    assert!(at(FIRST_SECOND).is_representable());
    assert!(at(LAST_SECOND).is_representable());
    assert!(!at(FIRST_SECOND - 1).is_representable());
    assert!(!at(LAST_SECOND + 1).is_representable());
    assert!(Timestamp { secs: 0, nanos: NANOS_PER_SECOND - 1 }.is_representable());
    assert!(!Timestamp { secs: 0, nanos: NANOS_PER_SECOND }.is_representable());
}

#[test]
fn elapsed_counts_whole_seconds() {
    assert_eq!(elapsed_since(100, Timestamp { secs: 130, nanos: 0 }), Some(30));
    assert_eq!(elapsed_since(100, Timestamp { secs: 130, nanos: 999_999_999 }), Some(30));
    assert_eq!(elapsed_since(100, Timestamp { secs: 100, nanos: 1 }), Some(0));
}

#[test]
fn elapsed_cuts_towards_zero_before_the_start() {
    assert_eq!(elapsed_since(100, Timestamp { secs: 90, nanos: 0 }), Some(-10));
    assert_eq!(elapsed_since(100, Timestamp { secs: 90, nanos: 5 }), Some(-9));
    assert_eq!(elapsed_since(100, Timestamp { secs: 99, nanos: 500_000_000 }), Some(0));
}

#[test]
fn elapsed_is_none_where_the_span_does_not_fit() {
    assert_eq!(elapsed_since(i64::MIN, Timestamp { secs: 0, nanos: 0 }), None);
    assert_eq!(elapsed_since(i64::MAX, Timestamp { secs: -2, nanos: 0 }), None);
    assert_eq!(elapsed_since(i64::MAX, Timestamp { secs: -1, nanos: 0 }), Some(i64::MIN));
    assert_eq!(elapsed_since(i64::MAX, Timestamp { secs: -1, nanos: 1 }), Some(i64::MIN + 1));
}

#[test]
fn offset_in_utc_is_the_second_of_the_day() {
    assert_eq!(offset_in("UTC", 1_704_067_200), Some(0));
    assert_eq!(offset_in("UTC", 1_704_067_800), Some(600));
    assert_eq!(offset_in("UTC", 1_704_067_500), Some(300));
    assert_eq!(offset_in("UTC", 1_704_067_200 + 86_399), Some(86_399));
}

#[test]
fn offset_follows_the_zone() {
    // 2024-01-01T23:00:00Z is 23:00 in London, 2024-01-01T08:30:00Z is 17:30 in Tokyo.
    assert_eq!(offset_in("Europe/London", 1_704_150_000), Some(82_800));
    assert_eq!(offset_in("Asia/Tokyo", 1_704_097_800), Some(63_000));
    // 2024-06-01T04:00:30Z is 00:00:30 in New York, 2024-06-01T00:01:00Z is 09:01 in Tokyo.
    assert_eq!(offset_in("America/New_York", 1_717_214_430), Some(30));
    assert_eq!(offset_in("Asia/Tokyo", 1_717_200_060), Some(32_460));
}

#[test]
fn offset_drops_the_nanoseconds() {
    let zone = Zone::parse("UTC").unwrap();
    let t = Timestamp { secs: 1_704_067_800, nanos: 999_999_999 };
    assert_eq!(local_day_offset(&zone, t), Some(600));
}

#[test]
fn offset_before_the_epoch() {
    // 1969-12-31T23:59:59Z
    assert_eq!(offset_in("UTC", -1), Some(86_399));
    // 19:00 on 1969-12-31 in New York.
    assert_eq!(offset_in("America/New_York", 0), Some(68_400));
}

#[test]
fn offset_counts_elapsed_time_across_a_clock_change() {
    // 2024-03-10T16:00:00Z is noon in New York, on the day the clocks skipped 02:00 to 03:00:
    // eleven hours have passed since local midnight.
    assert_eq!(offset_in("America/New_York", 1_710_086_400), Some(39_600));
    // 2024-11-03T17:00:00Z is noon there on the day the clocks went back: thirteen hours.
    assert_eq!(offset_in("America/New_York", 1_730_653_200), Some(46_800));
}

#[test]
fn offset_is_none_where_local_midnight_was_skipped() {
    // On 2018-11-04 the clocks of Sao Paulo went from 00:00 straight to 01:00.
    assert_eq!(offset_in("America/Sao_Paulo", 1_541_340_000), None);
}

#[test]
fn offset_is_none_outside_the_calendar() {
    let zone = Zone::parse("UTC").unwrap();
    assert_eq!(local_day_offset(&zone, at(LAST_SECOND + 1)), None);
    assert_eq!(local_day_offset(&zone, at(FIRST_SECOND - 1)), None);
    assert_eq!(local_day_offset(&zone, at(i64::MAX)), None);
    assert_eq!(local_day_offset(&zone, Timestamp { secs: 0, nanos: NANOS_PER_SECOND }), None);
}

#[test]
fn offset_at_the_ends_of_the_calendar() {
    assert_eq!(offset_in("UTC", FIRST_SECOND), Some(0));
    assert_eq!(offset_in("UTC", LAST_SECOND), Some(86_399));
    assert!(offset_in("Asia/Tokyo", LAST_SECOND).is_some());
    assert!(offset_in("America/New_York", FIRST_SECOND).is_some());
}
