use jcowork::cron_expr::{convert_5field_to_7field, remap_dow, remap_dow_item, remap_dow_value};
use std::str::FromStr;

#[test]
fn test_remap_dow() {
    assert_eq!(remap_dow("*"), "*");
    assert_eq!(remap_dow("0"), "1"); // Sun
    assert_eq!(remap_dow("6"), "7"); // Sat
    assert_eq!(remap_dow("1-5"), "2-6"); // Mon-Fri
    assert_eq!(remap_dow("1,3,5"), "2,4,6"); // Mon,Wed,Fri
    assert_eq!(remap_dow("1-5/2"), "2-6/2"); // Mon-Fri step 2
    assert_eq!(remap_dow("SUN"), "SUN"); // Named day
    assert_eq!(remap_dow("mon"), "MON"); // Named day lower
}

#[test]
fn test_cron_dow_mapping() {
    let base = chrono::DateTime::parse_from_rfc3339("2026-05-17T10:00:00+00:00")
        .unwrap()
        .with_timezone(&chrono::Utc);

    let converted = convert_5field_to_7field("50 11 * * 6");
    assert_eq!(converted, "0 50 11 * * 7 *");

    let schedule = cron::Schedule::from_str(&converted).unwrap();
    let next = schedule.after(&base).next().unwrap();
    assert_eq!(next.format("%A").to_string(), "Saturday");
    assert_eq!(next.format("%Y-%m-%d").to_string(), "2026-05-23");

    let converted_sun = convert_5field_to_7field("0 11 * * 0");
    assert_eq!(converted_sun, "0 0 11 * * 1 *");

    let sched_sun = cron::Schedule::from_str(&converted_sun).unwrap();
    let next_sun = sched_sun.after(&base).next().unwrap();
    assert_eq!(next_sun.format("%A").to_string(), "Sunday");

    let converted_weekday = convert_5field_to_7field("0 11 * * 1-5");
    assert_eq!(converted_weekday, "0 0 11 * * 2-6 *");

    let converted_any = convert_5field_to_7field("0 11 * * *");
    assert_eq!(converted_any, "0 0 11 * * * *");
}

#[test]
fn convert_keeps_other_shapes() {
    assert_eq!(convert_5field_to_7field("0 0 9 * * *"), "0 0 9 * * *");
    assert_eq!(convert_5field_to_7field("  1   2 3 4 5 "), "0 1 2 3 4 6 *");
}

#[test]
fn remap_items_and_values() {
    assert_eq!(remap_dow_value("+3"), "4");
    assert_eq!(remap_dow_value("fri"), "FRI");
    assert_eq!(remap_dow_item(" 1 - 2 "), "2-3");
    assert_eq!(remap_dow_item("1-2-3"), "1-2-3");
    assert_eq!(remap_dow(" 1 , 2/3"), "2,3/3");
    assert_eq!(remap_dow_value("4294967295"), "0");
}
