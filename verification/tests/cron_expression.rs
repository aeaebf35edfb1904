use jcowork::cron_expr::build_cron_expression;

fn build(freq: &str, sec: Option<u32>, min: Option<u32>, hr: Option<u32>, day: Option<u32>, month: Option<u32>, dows: Option<Vec<u32>>) -> Result<String, String> {
    build_cron_expression(freq, sec, min, hr, day, month, dows)
}

// ========== build_cron_expression tests ==========

// --- Hourly tests ---
#[test]
fn test_hourly_default() {
    assert_eq!(build("hourly", None, None, None, None, None, None).unwrap(), "0 0 * * * *");
}

#[test]
fn test_hourly_specific_second() {
    assert_eq!(build("hourly", Some(30), None, None, None, None, None).unwrap(), "30 0 * * * *");
}

#[test]
fn test_hourly_specific_minute() {
    assert_eq!(build("hourly", None, Some(30), None, None, None, None).unwrap(), "0 30 * * * *");
}

#[test]
fn test_hourly_second_and_minute() {
    assert_eq!(build("hourly", Some(15), Some(30), None, None, None, None).unwrap(), "15 30 * * * *");
}

#[test]
fn test_hourly_minute_59() {
    assert_eq!(build("hourly", None, Some(59), None, None, None, None).unwrap(), "0 59 * * * *");
}

#[test]
fn test_hourly_invalid_second() {
    let result = build("hourly", Some(60), None, None, None, None, None);
    assert!(result.is_err());
    assert!(result.unwrap_err().contains("Invalid second"));
}

#[test]
fn test_hourly_invalid_minute() {
    let result = build("hourly", None, Some(60), None, None, None, None);
    assert!(result.is_err());
    assert!(result.unwrap_err().contains("Invalid minute"));
}

#[test]
fn test_hourly_ignores_other_params() {
    assert_eq!(build("hourly", None, Some(15), Some(10), Some(5), None, Some(vec![3])).unwrap(), "0 15 * * * *");
}

// --- Daily tests ---
#[test]
fn test_daily_default() {
    assert_eq!(build("daily", None, None, None, None, None, None).unwrap(), "0 0 9 * * *");
}

#[test]
fn test_daily_specific_time() {
    assert_eq!(build("daily", None, Some(30), Some(15), None, None, None).unwrap(), "0 30 15 * * *");
}

#[test]
fn test_daily_with_second() {
    assert_eq!(build("daily", Some(45), Some(30), Some(15), None, None, None).unwrap(), "45 30 15 * * *");
}

#[test]
fn test_daily_midnight() {
    assert_eq!(build("daily", None, Some(0), Some(0), None, None, None).unwrap(), "0 0 0 * * *");
}

#[test]
fn test_daily_end_of_day() {
    assert_eq!(build("daily", None, Some(59), Some(23), None, None, None).unwrap(), "0 59 23 * * *");
}

#[test]
fn test_daily_invalid_minute() {
    let result = build("daily", None, Some(60), Some(10), None, None, None);
    assert!(result.is_err());
}

#[test]
fn test_daily_invalid_hour() {
    let result = build("daily", None, Some(30), Some(24), None, None, None);
    assert!(result.is_err());
}

#[test]
fn test_daily_ignores_day_and_dows() {
    assert_eq!(build("daily", None, Some(0), Some(12), Some(15), None, Some(vec![3])).unwrap(), "0 0 12 * * *");
}

// --- Weekly tests (multi-select) ---
#[test]
fn test_weekly_default() {
    // Default: Monday at 9:00
    assert_eq!(build("weekly", None, None, None, None, None, None).unwrap(), "0 0 9 * * 1");
}

#[test]
fn test_weekly_single_day_sunday() {
    assert_eq!(build("weekly", None, Some(0), Some(10), None, None, Some(vec![0])).unwrap(), "0 0 10 * * 0");
}

#[test]
fn test_weekly_single_day_saturday() {
    assert_eq!(build("weekly", None, Some(30), Some(14), None, None, Some(vec![6])).unwrap(), "0 30 14 * * 6");
}

#[test]
fn test_weekly_with_second() {
    assert_eq!(build("weekly", Some(30), Some(0), Some(9), None, None, Some(vec![1])).unwrap(), "30 0 9 * * 1");
}

#[test]
fn test_weekly_multiple_days() {
    // Mon, Wed, Fri
    assert_eq!(build("weekly", None, Some(0), Some(9), None, None, Some(vec![1, 3, 5])).unwrap(), "0 0 9 * * 1,3,5");
}

#[test]
fn test_weekly_weekdays_equivalent() {
    // Mon-Fri (like old weekdays)
    assert_eq!(build("weekly", None, Some(0), Some(9), None, None, Some(vec![1, 2, 3, 4, 5])).unwrap(), "0 0 9 * * 1,2,3,4,5");
}

#[test]
fn test_weekly_weekends_equivalent() {
    // Sat, Sun (like old weekends)
    assert_eq!(build("weekly", None, Some(0), Some(10), None, None, Some(vec![0, 6])).unwrap(), "0 0 10 * * 0,6");
}

#[test]
fn test_weekly_all_days() {
    // Every day
    assert_eq!(build("weekly", None, Some(0), Some(9), None, None, Some(vec![0, 1, 2, 3, 4, 5, 6])).unwrap(), "0 0 9 * * 0,1,2,3,4,5,6");
}

#[test]
fn test_weekly_duplicate_days_deduped() {
    // Duplicates should be removed
    assert_eq!(build("weekly", None, Some(0), Some(9), None, None, Some(vec![1, 1, 3, 3])).unwrap(), "0 0 9 * * 1,3");
}

#[test]
fn test_weekly_unsorted_days_sorted() {
    // Days should be sorted
    assert_eq!(build("weekly", None, Some(0), Some(9), None, None, Some(vec![5, 1, 3])).unwrap(), "0 0 9 * * 1,3,5");
}

#[test]
fn test_weekly_invalid_dow() {
    let result = build("weekly", None, Some(0), Some(9), None, None, Some(vec![7]));
    assert!(result.is_err());
    assert!(result.unwrap_err().contains("Invalid day_of_week"));
}

#[test]
fn test_weekly_empty_dows() {
    let result = build("weekly", None, Some(0), Some(9), None, None, Some(vec![]));
    assert!(result.is_err());
    assert!(result.unwrap_err().contains("must not be empty"));
}

#[test]
fn test_weekly_invalid_minute() {
    let result = build("weekly", None, Some(60), Some(9), None, None, Some(vec![1]));
    assert!(result.is_err());
}

#[test]
fn test_weekly_invalid_hour() {
    let result = build("weekly", None, Some(0), Some(24), None, None, Some(vec![1]));
    assert!(result.is_err());
}

// --- Monthly tests ---
#[test]
fn test_monthly_default() {
    assert_eq!(build("monthly", None, None, None, None, None, None).unwrap(), "0 0 9 1 * *");
}

#[test]
fn test_monthly_specific_time() {
    assert_eq!(build("monthly", None, Some(30), Some(14), Some(15), None, None).unwrap(), "0 30 14 15 * *");
}

#[test]
fn test_monthly_with_second() {
    assert_eq!(build("monthly", Some(20), Some(30), Some(14), Some(15), None, None).unwrap(), "20 30 14 15 * *");
}

#[test]
fn test_monthly_day_28() {
    assert_eq!(build("monthly", None, Some(0), Some(10), Some(28), None, None).unwrap(), "0 0 10 28 * *");
}

#[test]
fn test_monthly_day_clamped_to_28() {
    assert_eq!(build("monthly", None, Some(0), Some(10), Some(31), None, None).unwrap(), "0 0 10 28 * *");
}

#[test]
fn test_monthly_invalid_minute() {
    let result = build("monthly", None, Some(100), Some(10), Some(15), None, None);
    assert!(result.is_err());
}

#[test]
fn test_monthly_invalid_hour() {
    let result = build("monthly", None, Some(0), Some(25), Some(15), None, None);
    assert!(result.is_err());
}

// --- Yearly tests ---
#[test]
fn test_yearly_default() {
    // Default: Jan 1st at 9:00
    assert_eq!(build("yearly", None, None, None, None, None, None).unwrap(), "0 0 9 1 1 *");
}

#[test]
fn test_yearly_specific_date() {
    // June 15th at 14:30
    assert_eq!(build("yearly", None, Some(30), Some(14), Some(15), Some(6), None).unwrap(), "0 30 14 15 6 *");
}

#[test]
fn test_yearly_with_second() {
    assert_eq!(build("yearly", Some(45), Some(0), Some(10), Some(1), Some(3), None).unwrap(), "45 0 10 1 3 *");
}

#[test]
fn test_yearly_month_clamped() {
    // Month > 12 should be clamped to 12
    assert_eq!(build("yearly", None, Some(0), Some(9), Some(1), Some(15), None).unwrap(), "0 0 9 1 12 *");
}

#[test]
fn test_yearly_day_clamped() {
    assert_eq!(build("yearly", None, Some(0), Some(9), Some(31), Some(6), None).unwrap(), "0 0 9 28 6 *");
}

#[test]
fn test_yearly_invalid_minute() {
    let result = build("yearly", None, Some(60), Some(9), Some(1), Some(6), None);
    assert!(result.is_err());
}

#[test]
fn test_yearly_invalid_hour() {
    let result = build("yearly", None, Some(0), Some(25), Some(1), Some(6), None);
    assert!(result.is_err());
}

// --- Invalid frequency tests ---
#[test]
fn test_invalid_frequency() {
    let result = build("biweekly", None, Some(0), Some(9), None, None, None);
    assert!(result.is_err());
    assert!(result.unwrap_err().contains("Invalid frequency"));
}

#[test]
fn test_empty_frequency() {
    let result = build("", None, None, None, None, None, None);
    assert!(result.is_err());
}

#[test]
fn test_weekdays_not_supported() {
    let result = build("weekdays", None, Some(0), Some(9), None, None, None);
    assert!(result.is_err());
}

#[test]
fn test_weekends_not_supported() {
    let result = build("weekends", None, Some(0), Some(9), None, None, None);
    assert!(result.is_err());
}

// --- Second validation tests ---
#[test]
fn test_invalid_second() {
    let result = build("daily", Some(60), None, Some(9), None, None, None);
    assert!(result.is_err());
    assert!(result.unwrap_err().contains("Invalid second"));
}

#[test]
fn test_second_boundary_59() {
    assert_eq!(build("daily", Some(59), Some(0), Some(9), None, None, None).unwrap(), "59 0 9 * * *");
}

#[test]
fn weekly_invalid_day_reports_least_invalid() {
    let err = build("weekly", None, Some(0), Some(9), None, None, Some(vec![9, 2, 8])).unwrap_err();
    assert_eq!(err, "Invalid day_of_week 8 for weekly (must be 0-6)");
}

#[test]
fn invalid_second_checked_before_frequency() {
    let err = build("biweekly", Some(75), None, None, None, None, None).unwrap_err();
    assert_eq!(err, "Invalid second 75 (must be 0-59)");
}

#[test]
fn error_message_texts() {
    assert_eq!(build("daily", None, Some(60), None, None, None, None).unwrap_err(), "Invalid minute 60 for daily (must be 0-59)");
    assert_eq!(build("yearly", None, None, Some(30), None, None, None).unwrap_err(), "Invalid hour 30 for yearly (must be 0-23)");
    assert_eq!(build("x", None, None, None, None, None, None).unwrap_err(), "Invalid frequency 'x'. Use: hourly, daily, weekly, monthly, yearly");
}

#[test]
fn yearly_month_zero_clamped_up() {
    assert_eq!(build("yearly", None, None, None, None, Some(0), None).unwrap(), "0 0 9 1 1 *");
}

#[test]
fn monthly_and_yearly_day_zero_becomes_first() {
    assert_eq!(build("monthly", None, None, None, Some(0), None, None).unwrap(), "0 0 9 1 * *");
    assert_eq!(build("yearly", None, None, None, Some(0), Some(3), None).unwrap(), "0 0 9 1 3 *");
}
