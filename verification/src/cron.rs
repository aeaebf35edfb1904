//! Scheduled jobs and reminders.
use vstd::prelude::*;

verus! {

/// A recurring job.
#[derive(Debug)]
pub struct CronJob {
    pub id: String,
    pub user_id: String,
    pub schedule: String,
    pub prompt: String,
    pub enabled: bool,
    pub last_run: Option<String>,
    pub created_at: String,
    /// Task name (tasks created in the UI).
    pub name: Option<String>,
    /// Model used to run the task, e.g. `deepseek:deepseek-chat`.
    pub model: Option<String>,
}

/// Result of one run of a periodic task.
#[derive(Debug)]
pub struct TaskResult {
    pub id: String,
    pub cron_job_id: String,
    pub user_id: String,
    pub output: String,
    /// `success` or `error`.
    pub status: String,
    pub executed_at: String,
}

/// A job as exchanged with the persistence layer.
#[derive(Debug, Clone)]
pub struct CronStoreJob {
    pub id: String,
    pub user_id: String,
    pub schedule: String,
    pub prompt: String,
    pub enabled: bool,
    pub last_run: Option<String>,
    pub created_at: String,
    pub name: Option<String>,
    pub model: Option<String>,
}

impl Clone for CronJob {
    fn clone(&self) -> (r: Self)
        ensures
            r == *self,
    {
        CronJob {
            id: self.id.clone(),
            user_id: self.user_id.clone(),
            schedule: self.schedule.clone(),
            prompt: self.prompt.clone(),
            enabled: self.enabled,
            last_run: self.last_run.clone(),
            created_at: self.created_at.clone(),
            name: self.name.clone(),
            model: self.model.clone(),
        }
    }
}

impl Clone for TaskResult {
    fn clone(&self) -> (r: Self)
        ensures
            r == *self,
    {
        TaskResult {
            id: self.id.clone(),
            cron_job_id: self.cron_job_id.clone(),
            user_id: self.user_id.clone(),
            output: self.output.clone(),
            status: self.status.clone(),
            executed_at: self.executed_at.clone(),
        }
    }
}

impl CronStoreJob {
    /// The store form of a job: the same fields.
    pub fn from_job(j: &CronJob) -> (r: Self)
        ensures
            r.id == j.id && r.user_id == j.user_id && r.schedule == j.schedule && r.prompt == j.prompt,
            r.enabled == j.enabled && r.last_run == j.last_run && r.created_at == j.created_at,
            r.name == j.name && r.model == j.model,
    {
        CronStoreJob {
            id: j.id.clone(),
            user_id: j.user_id.clone(),
            schedule: j.schedule.clone(),
            prompt: j.prompt.clone(),
            enabled: j.enabled,
            last_run: j.last_run.clone(),
            created_at: j.created_at.clone(),
            name: j.name.clone(),
            model: j.model.clone(),
        }
    }
}

/// A one-time reminder.
#[derive(Debug)]
pub struct Reminder {
    pub id: String,
    pub user_id: String,
    /// RFC 3339 time, e.g. `2026-05-15T11:41:00+08:00`.
    pub fire_at: String,
    /// Text sent to the user.
    pub message: String,
    /// Whether the reminder has fired.
    pub triggered: bool,
    /// Optional action run when the reminder fires.
    pub action: Option<String>,
    /// Job id when the reminder stands for a periodic task run.
    pub cron_job_id: Option<String>,
    /// Model for periodic task runs.
    pub model: Option<String>,
    /// Prompt of the periodic task.
    pub prompt: Option<String>,
}

impl Clone for Reminder {
    fn clone(&self) -> (r: Self)
        ensures
            r == *self,
    {
        Reminder {
            id: self.id.clone(),
            user_id: self.user_id.clone(),
            fire_at: self.fire_at.clone(),
            message: self.message.clone(),
            triggered: self.triggered,
            action: self.action.clone(),
            cron_job_id: self.cron_job_id.clone(),
            model: self.model.clone(),
            prompt: self.prompt.clone(),
        }
    }
}

impl Reminder {
    /// The reminder a cron job sends when it fires: already triggered, with
    /// the job's prompt as message (after `[Cron] `) and as the prompt to run.
    pub fn for_cron_fire(id: String, fire_at: String, job: &CronJob) -> (r: Self)
        ensures
            r.id == id && r.fire_at == fire_at && r.user_id == job.user_id,
            r.message@ == "[Cron] "@ + job.prompt@,
            r.triggered,
            r.action is None,
            r.cron_job_id == Some(job.id),
            r.model == job.model,
            r.prompt == Some(job.prompt),
    {
        let mut m: Vec<char> = Vec::new();
        crate::text::push_str(&mut m, "[Cron] ");
        crate::text::push_str(&mut m, job.prompt.as_str());
        Reminder {
            id,
            user_id: job.user_id.clone(),
            fire_at,
            message: crate::text::string_of(&m),
            triggered: true,
            action: None,
            cron_job_id: Some(job.id.clone()),
            model: job.model.clone(),
            prompt: Some(job.prompt.clone()),
        }
    }
}

} // verus!
