use jcowork::cron::{CronStoreJob, TaskResult};
use jcowork::scheduler::{newest_first, CronScheduler};

const BEIJING: i32 = 8 * 3600;
// 2026-08-29T02:00:00+08:00
const NOW: i64 = 1_787_940_000;

fn result(id: &str, job: &str, at: &str) -> TaskResult {
    TaskResult {
        id: id.to_string(),
        cron_job_id: job.to_string(),
        user_id: "u1".to_string(),
        output: "out".to_string(),
        status: "success".to_string(),
        executed_at: at.to_string(),
    }
}

fn stored(id: &str, schedule: &str, enabled: bool) -> CronStoreJob {
    CronStoreJob {
        id: id.to_string(),
        user_id: "u1".to_string(),
        schedule: schedule.to_string(),
        prompt: "p".to_string(),
        enabled,
        last_run: None,
        created_at: "2026-01-01 00:00:00".to_string(),
        name: None,
        model: None,
    }
}

#[test]
fn reminder_added_listed_fired_removed() {
    let mut s = CronScheduler::new();
    let id = s
        .add_reminder("r1".to_string(), "u1", "2026-08-29T09:00:00+08:00", "stand up", Some("search news"), NOW)
        .unwrap();
    assert_eq!(id, "r1");
    s.add_reminder("r2".to_string(), "u2", "2026-08-29T10:00:00+08:00", "other", None, NOW).unwrap();
    let listed = s.list_reminders("u1");
    assert_eq!(listed.len(), 1);
    assert_eq!(listed[0].message, "stand up");
    assert_eq!(listed[0].action.as_deref(), Some("search news"));
    assert!(!listed[0].triggered);
    assert!(listed[0].cron_job_id.is_none());

    let fired = s.fire_reminder("r1").unwrap();
    assert_eq!(fired.id, "r1");
    assert!(!fired.triggered);
    assert!(s.list_reminders("u1").is_empty());
    assert!(s.fire_reminder("missing").is_none());

    assert!(s.remove_reminder("r2").is_ok());
    assert!(s.list_reminders("u2").is_empty());
    assert!(s.remove_reminder("r2").is_ok());
}

#[test]
fn reminder_in_the_past_is_refused() {
    let mut s = CronScheduler::new();
    let err = s.add_reminder("r1".to_string(), "u1", "2026-08-29T01:00:00+08:00", "late", None, NOW).unwrap_err();
    assert_eq!(err, "Reminder time is in the past: 2026-08-29T01:00:00+08:00");
    let err2 = s.add_reminder("r2".to_string(), "u1", "2026-08-29T02:00:00+08:00", "now", None, NOW).unwrap_err();
    assert_eq!(err2, "Reminder time is in the past: 2026-08-29T02:00:00+08:00");
    assert!(s.list_reminders("u1").is_empty());
}

#[test]
fn reminder_with_bad_time_is_refused() {
    let mut s = CronScheduler::new();
    let err = s.add_reminder("r1".to_string(), "u1", "tomorrow 9am", "x", None, NOW).unwrap_err();
    assert!(err.starts_with("Invalid datetime format 'tomorrow 9am': "));
    assert!(err.ends_with(". Expected ISO 8601 (e.g., 2026-05-15T11:41:00+08:00)"));
}

#[test]
fn reminder_with_same_id_is_replaced() {
    let mut s = CronScheduler::new();
    s.add_reminder_at("r1".to_string(), "u1", "a", "first", None, Ok(NOW + 10), NOW).unwrap();
    s.add_reminder_at("r1".to_string(), "u1", "b", "second", None, Ok(NOW + 20), NOW).unwrap();
    let listed = s.list_reminders("u1");
    assert_eq!(listed.len(), 1);
    assert_eq!(listed[0].message, "second");
    let err = s.add_reminder_at("r3".to_string(), "u1", "c", "x", None, Err("bad".to_string()), NOW).unwrap_err();
    assert_eq!(err, "Invalid datetime format 'c': bad. Expected ISO 8601 (e.g., 2026-05-15T11:41:00+08:00)");
}

#[test]
fn cron_job_added_listed_removed() {
    let mut s = CronScheduler::default();
    let id = s
        .add_cron_job("j1".to_string(), "2026-08-28 18:00:00".to_string(), "u1", "30 9 * * 1-5", "daily report", NOW, BEIJING)
        .unwrap();
    assert_eq!(id, "j1");
    let jobs = s.list_cron_jobs("u1");
    assert_eq!(jobs.len(), 1);
    assert_eq!(jobs[0].schedule, "0 30 9 * * 2-6 *");
    assert!(jobs[0].enabled);
    assert!(jobs[0].name.is_none());
    assert!(s.list_cron_jobs("u2").is_empty());

    s.store_task_result(result("t1", "j1", "2026-08-29T09:30:00+08:00"));
    s.store_task_result(result("t2", "other", "2026-08-29T09:31:00+08:00"));
    assert_eq!(s.list_task_results("j1").len(), 1);
    assert!(s.remove_cron_job("j1").is_ok());
    assert!(s.list_cron_jobs("u1").is_empty());
    assert!(s.list_task_results("j1").is_empty());
    assert_eq!(s.list_task_results("other").len(), 1);
}

#[test]
fn periodic_task_keeps_name_and_model() {
    let mut s = CronScheduler::new();
    s.add_periodic_task(
        "j1".to_string(),
        "2026-08-28 18:00:00".to_string(),
        "u1",
        "news",
        "summarise news",
        "deepseek:deepseek-chat",
        "0 0 8 * * * *",
        NOW,
        BEIJING,
    )
    .unwrap();
    let jobs = s.list_cron_jobs("u1");
    assert_eq!(jobs[0].name.as_deref(), Some("news"));
    assert_eq!(jobs[0].model.as_deref(), Some("deepseek:deepseek-chat"));
    assert_eq!(jobs[0].schedule, "0 0 8 * * * *");
}

#[test]
fn invalid_schedules_are_refused() {
    let mut s = CronScheduler::new();
    assert!(s.add_cron_job("j1".to_string(), "t".to_string(), "u1", "61 * * * * *", "p", NOW, BEIJING).is_err());
    let err = s.add_cron_job("j2".to_string(), "t".to_string(), "u1", "0 0 0 30 2 *", "p", NOW, BEIJING).unwrap_err();
    assert_eq!(err, "No upcoming fire time for schedule");
    assert!(s.list_cron_jobs("u1").is_empty());
}

#[test]
fn run_is_recorded_until_job_removed() {
    let mut s = CronScheduler::new();
    s.add_cron_job("j1".to_string(), "t".to_string(), "u1", "0 * * * *", "p", NOW, BEIJING).unwrap();
    let job = s.record_run("j1", "2026-08-29 03:00:00".to_string()).unwrap();
    assert_eq!(job.last_run.as_deref(), Some("2026-08-29 03:00:00"));
    assert_eq!(s.list_cron_jobs("u1")[0].last_run.as_deref(), Some("2026-08-29 03:00:00"));
    s.remove_cron_job("j1").unwrap();
    assert!(s.record_run("j1", "later".to_string()).is_none());
}

#[test]
fn results_newest_first_and_stable() {
    let items = vec![
        result("a", "j", "2026-01-02"),
        result("b", "j", "2026-01-03"),
        result("c", "j", "2026-01-01"),
        result("d", "j", "2026-01-03"),
        result("e", "j", "2026-01-02"),
    ];
    let sorted = newest_first(items);
    let ids: Vec<&str> = sorted.iter().map(|r| r.id.as_str()).collect();
    assert_eq!(ids, vec!["b", "d", "a", "e", "c"]);
}

#[test]
fn list_results_of_job_newest_first() {
    let mut s = CronScheduler::new();
    s.store_task_result(result("t1", "j1", "2026-08-29T09:00:00+08:00"));
    s.store_task_result(result("t2", "j1", "2026-08-30T09:00:00+08:00"));
    s.store_task_result(result("t3", "j2", "2026-08-31T09:00:00+08:00"));
    let listed = s.list_task_results("j1");
    assert_eq!(listed.len(), 2);
    assert_eq!(listed[0].id, "t2");
    assert_eq!(listed[1].id, "t1");
}

#[test]
fn restore_adds_enabled_new_valid_jobs() {
    let mut s = CronScheduler::new();
    s.add_cron_job("j1".to_string(), "t".to_string(), "u1", "0 * * * *", "p", NOW, BEIJING).unwrap();
    let stored_jobs = vec![
        stored("j1", "0 0 * * * * *", true),
        stored("j2", "0 0 9 * * * *", true),
        stored("j3", "0 0 9 * * * *", false),
        stored("j4", "bad", true),
        stored("j2", "0 0 10 * * * *", true),
    ];
    let restored = s.restore(&stored_jobs, NOW, BEIJING);
    assert_eq!(restored.len(), 1);
    assert_eq!(restored[0].id, "j2");
    assert_eq!(restored[0].schedule, "0 0 9 * * * *");
    assert_eq!(s.list_cron_jobs("u1").len(), 2);
}
