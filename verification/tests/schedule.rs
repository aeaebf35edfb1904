use chrono::{DateTime, Utc};
use jcowork::scheduler::CronScheduler;

const BEIJING: i32 = 480 * 60;

fn at(s: &str) -> i64 {
    DateTime::parse_from_rfc3339(s).unwrap().with_timezone(&Utc).timestamp()
}

fn rfc(t: i64) -> String {
    DateTime::<Utc>::from_timestamp(t, 0).unwrap().to_rfc3339()
}

#[test]
fn test_next_local_fire_daily_midnight() {
    // "0 0 0 * * *" = daily at 00:00:00 local time (UTC+8).
    let after = at("2026-08-28T18:00:00Z");
    let next = CronScheduler::next_fire_time("0 0 0 * * *", after, BEIJING).expect("should find next fire");
    assert_eq!(rfc(next), "2026-08-29T16:00:00+00:00");
}

#[test]
fn test_next_local_fire_specific_time() {
    let after = at("2026-08-29T02:00:00+08:00");
    let next = CronScheduler::next_fire_time("0 30 9 * * *", after, BEIJING).unwrap();
    assert_eq!(rfc(next), "2026-08-29T01:30:00+00:00");

    let after_late = at("2026-08-29T10:00:00+08:00");
    let next2 = CronScheduler::next_fire_time("0 30 9 * * *", after_late, BEIJING).unwrap();
    assert_eq!(rfc(next2), "2026-08-30T01:30:00+00:00");
}

#[test]
fn next_fire_is_strictly_after() {
    // Exactly at a fire time, the next one is a day later.
    let after = at("2026-08-29T09:30:00+08:00");
    let next = CronScheduler::next_fire_time("0 30 9 * * *", after, BEIJING).unwrap();
    assert_eq!(rfc(next), "2026-08-30T01:30:00+00:00");
    // Within the same minute, a later second still fires.
    let after = at("2026-08-29T09:30:10+08:00");
    let next = CronScheduler::next_fire_time("0,20,40 30 9 * * *", after, BEIJING).unwrap();
    assert_eq!(rfc(next), "2026-08-29T01:30:20+00:00");
}

#[test]
fn next_fire_day_of_week_and_month() {
    // 2026-05-17 is a Sunday; weekday 7 is Saturday.
    let after = at("2026-05-17T10:00:00+00:00");
    let next = CronScheduler::next_fire_time("50 11 * * 6", after, 0).unwrap();
    assert_eq!(rfc(next), "2026-05-23T11:50:00+00:00");
    // Both day fields restricted: either one suffices (the 1st, or a Monday).
    let next = CronScheduler::next_fire_time("0 0 0 1 * 2 *", after, 0).unwrap();
    assert_eq!(rfc(next), "2026-05-18T00:00:00+00:00");
    // Only the day of month restricted.
    let next = CronScheduler::next_fire_time("0 0 0 1 * * *", after, 0).unwrap();
    assert_eq!(rfc(next), "2026-06-01T00:00:00+00:00");
}

#[test]
fn next_fire_leap_day_spans_years() {
    let after = at("2026-03-01T00:00:00+00:00");
    let next = CronScheduler::next_fire_time("0 0 12 29 2 *", after, 0).unwrap();
    assert_eq!(rfc(next), "2028-02-29T12:00:00+00:00");
}

#[test]
fn next_fire_respects_offset() {
    let after = at("2026-01-01T00:00:00+00:00");
    let next = CronScheduler::next_fire_time("0 0 8 * * *", after, -5 * 3600).unwrap();
    assert_eq!(rfc(next), "2026-01-01T13:00:00+00:00");
}

#[test]
fn next_fire_errors() {
    let after = at("2026-01-01T00:00:00+00:00");
    assert!(CronScheduler::next_fire_time("not a schedule", after, 0).is_err());
    // February 30th never comes.
    assert_eq!(CronScheduler::next_fire_time("0 0 0 30 2 *", after, 0), Err("No upcoming fire time for schedule".to_string()));
}

#[test]
fn validate_accepts_five_and_seven_fields() {
    assert!(CronScheduler::validate_schedule("0 9 * * 1-5").is_ok());
    assert!(CronScheduler::validate_schedule("0 0 9 * * 2-6 *").is_ok());
    assert!(CronScheduler::validate_schedule("61 * * * * *").is_err());
    assert!(CronScheduler::validate_schedule("").is_err());
}
