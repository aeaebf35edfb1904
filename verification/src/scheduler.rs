//! The state of the cron scheduler: periodic jobs, one-time reminders and
//! the results of task runs, with the rules for adding, firing, listing and
//! removing them.
//!
//! Timers, persistence and the broadcast of fired reminders are the caller's.
//! New ids and clock readings come in as arguments, so every operation here
//! is a function of the state and its arguments.
use vstd::prelude::*;
use crate::cron::{CronJob, CronStoreJob, Reminder, TaskResult};
use crate::cron_expr::{convert_5field_spec, convert_5field_to_7field};
use crate::schedule::{
    cron_parse, instant_ok, never_fires_after, next_local_fire, no_upcoming_message, offset_ok,
    parse_schedule,
};
use crate::order::{key_is, lemma_filter_none, sorted_by, stable_sort_by};
use crate::text::{chars_eq, chars_of, push_str, string_of};

verus! {

/// No two jobs share an id.
pub open spec fn job_ids_unique(s: Seq<CronJob>) -> bool {
    forall|i: int, j: int| 0 <= i < j < s.len() ==> s[i].id@ != s[j].id@
}

/// No two reminders share an id.
pub open spec fn reminder_ids_unique(s: Seq<Reminder>) -> bool {
    forall|i: int, j: int| 0 <= i < j < s.len() ==> s[i].id@ != s[j].id@
}

/// A reminder other than the one with id `id`.
pub open spec fn reminder_not(id: Seq<char>) -> spec_fn(Reminder) -> bool {
    |r: Reminder| r.id@ != id
}

/// A reminder still pending for user `user_id`.
pub open spec fn pending_for(user_id: Seq<char>) -> spec_fn(Reminder) -> bool {
    |r: Reminder| r.user_id@ == user_id && !r.triggered
}

/// A job other than the one with id `id`.
pub open spec fn job_not(id: Seq<char>) -> spec_fn(CronJob) -> bool {
    |j: CronJob| j.id@ != id
}

/// An enabled job of user `user_id`.
pub open spec fn enabled_for(user_id: Seq<char>) -> spec_fn(CronJob) -> bool {
    |j: CronJob| j.user_id@ == user_id && j.enabled
}

/// A result of a job other than `job_id`.
pub open spec fn result_not_of(job_id: Seq<char>) -> spec_fn(TaskResult) -> bool {
    |r: TaskResult| r.cron_job_id@ != job_id
}

/// A result of job `job_id`.
pub open spec fn result_of(job_id: Seq<char>) -> spec_fn(TaskResult) -> bool {
    |r: TaskResult| r.cron_job_id@ == job_id
}

/// The reminders after storing `r`: one with the same id is replaced.
pub open spec fn put_reminder(s: Seq<Reminder>, r: Reminder) -> Seq<Reminder> {
    s.filter(reminder_not(r.id@)).push(r)
}

/// The jobs after storing `j`: one with the same id is replaced.
pub open spec fn put_job(s: Seq<CronJob>, j: CronJob) -> Seq<CronJob> {
    s.filter(job_not(j.id@)).push(j)
}

/// The reminders with the one at `k` marked as fired.
pub open spec fn mark_fired(s: Seq<Reminder>, k: int) -> Seq<Reminder> {
    s.update(k, Reminder { triggered: true, ..s[k] })
}

/// Some job has id `id`.
pub open spec fn has_job(s: Seq<CronJob>, id: Seq<char>) -> bool {
    exists|k: int| 0 <= k < s.len() && (#[trigger] s[k]).id@ == id
}

/// The RFC 3339 date-time `s` as Unix seconds, or the parser's error text,
/// by `chrono::DateTime::parse_from_rfc3339`.
pub uninterp spec fn rfc3339_seconds(s: Seq<char>) -> Result<i64, Seq<char>>;

/// Parses an RFC 3339 date-time with `chrono::DateTime::parse_from_rfc3339`
/// and takes its Unix time with `timestamp`; the error is the parser's
/// message. What the parser accepts and the time it gives are named, not
/// stated.
#[verifier::external_body]
fn parse_rfc3339(s: &str) -> (r: Result<i64, String>)
    ensures
        match r {
            Ok(t) => rfc3339_seconds(s@) == Ok::<i64, Seq<char>>(t),
            Err(e) => rfc3339_seconds(s@) == Err::<i64, Seq<char>>(e@),
        },
{
    match chrono::DateTime::parse_from_rfc3339(s) {
        Ok(t) => Ok(t.timestamp()),
        Err(e) => Err(e.to_string()),
    }
}

/// The error for a reminder time that does not parse.
pub open spec fn invalid_datetime_message(fire_at: Seq<char>, err: Seq<char>) -> Seq<char> {
    "Invalid datetime format '"@ + fire_at + "': "@ + err + ". Expected ISO 8601 (e.g., 2026-05-15T11:41:00+08:00)"@
}

/// The error for a reminder time that is not in the future.
pub open spec fn past_time_message(fire_at: Seq<char>) -> Seq<char> {
    "Reminder time is in the past: "@ + fire_at
}

/// A new, pending one-time reminder.
pub open spec fn new_reminder(
    id: Seq<char>,
    user_id: Seq<char>,
    fire_at: Seq<char>,
    message: Seq<char>,
    action: Option<Seq<char>>,
    r: Reminder,
) -> bool {
    &&& r.id@ == id && r.user_id@ == user_id && r.fire_at@ == fire_at && r.message@ == message
    &&& !r.triggered
    &&& match action {
        Some(a) => r.action matches Some(x) && x@ == a,
        None => r.action is None,
    }
    &&& r.cron_job_id is None && r.model is None && r.prompt is None
}

proof fn lemma_reminder_filter_unique(s: Seq<Reminder>, p: spec_fn(Reminder) -> bool)
    requires
        reminder_ids_unique(s),
    ensures
        reminder_ids_unique(s.filter(p)),
    decreases s.len(),
{
    if s.len() > 0 {
        let t = s.drop_last();
        lemma_reminder_filter_unique(t, p);
        assert(t.push(s.last()) =~= s);
        t.lemma_filter_push(s.last(), p);
        if p(s.last()) {
            let f = t.filter(p);
            assert forall|k: int| 0 <= k < f.len() implies #[trigger] f[k].id@ != s.last().id@ by {
                assert(f.contains(f[k]));
                t.lemma_filter_contains_rev(p, f[k]);
                let m = choose|m: int| 0 <= m < t.len() && t[m] == f[k];
                assert(s[m] == t[m]);
            }
        }
    }
}

proof fn lemma_job_filter_unique(s: Seq<CronJob>, p: spec_fn(CronJob) -> bool)
    requires
        job_ids_unique(s),
    ensures
        job_ids_unique(s.filter(p)),
    decreases s.len(),
{
    if s.len() > 0 {
        let t = s.drop_last();
        lemma_job_filter_unique(t, p);
        assert(t.push(s.last()) =~= s);
        t.lemma_filter_push(s.last(), p);
        if p(s.last()) {
            let f = t.filter(p);
            assert forall|k: int| 0 <= k < f.len() implies #[trigger] f[k].id@ != s.last().id@ by {
                assert(f.contains(f[k]));
                t.lemma_filter_contains_rev(p, f[k]);
                let m = choose|m: int| 0 <= m < t.len() && t[m] == f[k];
                assert(s[m] == t[m]);
            }
        }
    }
}

/// A schedule text (as stored, already 7-field) parses and fires after
/// the Unix time `now` in the local time `offset` seconds east of UTC.
pub open spec fn schedulable(text: Seq<char>, now: int, offset: int) -> bool {
    cron_parse(text) matches Ok(u) && !never_fires_after(u, now, offset)
}

/// The error for a schedule text that cannot be scheduled: the parser's,
/// or the one for a schedule without a fire time.
pub open spec fn schedule_error(text: Seq<char>) -> Seq<char> {
    match cron_parse(text) {
        Err(m) => m,
        Ok(_) => no_upcoming_message(),
    }
}

/// A new job as added by a user: enabled, never run, its schedule the
/// 7-field form of `schedule_expr`.
pub open spec fn new_job(
    id: Seq<char>,
    created_at: Seq<char>,
    user_id: Seq<char>,
    schedule_expr: Seq<char>,
    prompt: Seq<char>,
    name: Option<Seq<char>>,
    model: Option<Seq<char>>,
    j: CronJob,
) -> bool {
    &&& j.id@ == id && j.created_at@ == created_at && j.user_id@ == user_id
    &&& j.schedule@ == convert_5field_spec(schedule_expr) && j.prompt@ == prompt
    &&& j.enabled && j.last_run is None
    &&& match name {
        Some(n) => j.name matches Some(x) && x@ == n,
        None => j.name is None,
    }
    &&& match model {
        Some(m) => j.model matches Some(x) && x@ == m,
        None => j.model is None,
    }
}

/// Checks that a stored schedule text can be scheduled after `now`.
fn check_schedule(text: &str, now: i64, offset: i32) -> (r: Result<(), String>)
    requires
        offset_ok(offset as int),
    ensures
        r matches Err(e) ==> e@ == schedule_error(text@),
        cron_parse(text@) is Err ==> r is Err,
        r is Ok ==> cron_parse(text@) is Ok,
        instant_ok(now as int) ==> (r is Ok <==> schedulable(text@, now as int, offset as int)),
{
    let schedule = match parse_schedule(text) {
        Ok(s) => s,
        Err(e) => {
            return Err(e);
        },
    };
    match next_local_fire(&schedule, now, offset) {
        Some(t) => {
            Ok(())
        },
        None => Err(string_of(&chars_of("No upcoming fire time for schedule"))),
    }
}

/// The job a stored job stands for: the same fields.
pub open spec fn job_of_store(sj: CronStoreJob) -> CronJob {
    CronJob {
        id: sj.id,
        user_id: sj.user_id,
        schedule: sj.schedule,
        prompt: sj.prompt,
        enabled: sj.enabled,
        last_run: sj.last_run,
        created_at: sj.created_at,
        name: sj.name,
        model: sj.model,
    }
}

/// The jobs after restoring `stored` in order: a stored job comes back when
/// it is enabled, no job has its id yet and its schedule can be scheduled.
pub open spec fn restored_jobs(jobs: Seq<CronJob>, stored: Seq<CronStoreJob>, now: int, offset: int) -> Seq<CronJob>
    decreases stored.len(),
{
    if stored.len() == 0 {
        jobs
    } else {
        let prev = restored_jobs(jobs, stored.drop_last(), now, offset);
        let sj = stored.last();
        if sj.enabled && !has_job(prev, sj.id@) && schedulable(sj.schedule@, now, offset) {
            prev.push(job_of_store(sj))
        } else {
            prev
        }
    }
}

/// The execution time of a task result.
pub open spec fn executed_at_of() -> spec_fn(TaskResult) -> Seq<char> {
    |r: TaskResult| r.executed_at@
}

/// A task result with execution time `at`.
pub open spec fn executed_at_is(at: Seq<char>) -> spec_fn(TaskResult) -> bool {
    key_is(executed_at_of(), at)
}

/// Each result ran no earlier than the ones after it.
pub open spec fn newest_sorted(s: Seq<TaskResult>) -> bool {
    sorted_by(s, executed_at_of(), true)
}

/// Orders results newest first by execution time, as a stable sort: results
/// with the same time keep their order.
pub fn newest_first(items: Vec<TaskResult>) -> (r: Vec<TaskResult>)
    ensures
        r@.len() == items@.len(),
        newest_sorted(r@),
        forall|at: Seq<char>| #[trigger] r@.filter(executed_at_is(at)) == items@.filter(executed_at_is(at)),
{
    let mut keys: Vec<Vec<char>> = Vec::new();
    let mut i: usize = 0;
    while i < items.len()
        invariant
            i <= items@.len(),
            keys@.len() == i,
            forall|m: int| 0 <= m < i ==> #[trigger] keys@[m]@ == items@[m].executed_at@,
        decreases items@.len() - i,
    {
        keys.push(chars_of(items[i].executed_at.as_str()));
        i += 1;
    }
    stable_sort_by(items, keys, true, Ghost(executed_at_of()))
}

/// The text of an optional string slice.
pub open spec fn opt_str(o: Option<&str>) -> Option<Seq<char>> {
    match o {
        Some(a) => Some(a@),
        None => None,
    }
}

fn text(s: &str) -> (r: String)
    ensures
        r@ == s@,
{
    string_of(&chars_of(s))
}

fn same_text(a: &str, b: &str) -> (r: bool)
    ensures
        r == (a@ == b@),
{
    chars_eq(&chars_of(a), &chars_of(b))
}

/// The scheduler's jobs, reminders and task results.
pub struct CronScheduler {
    cron_jobs: Vec<CronJob>,
    reminders: Vec<Reminder>,
    task_results: Vec<TaskResult>,
}

impl CronScheduler {
    /// The periodic jobs.
    pub closed spec fn jobs(&self) -> Seq<CronJob> {
        self.cron_jobs@
    }

    /// The one-time reminders, pending or fired.
    pub closed spec fn reminders(&self) -> Seq<Reminder> {
        self.reminders@
    }

    /// The stored task results, oldest first.
    pub closed spec fn results(&self) -> Seq<TaskResult> {
        self.task_results@
    }

    /// Ids of jobs and of reminders are unique.
    pub open spec fn wf(&self) -> bool {
        job_ids_unique(self.jobs()) && reminder_ids_unique(self.reminders())
    }

    /// An empty scheduler.
    pub fn new() -> (r: Self)
        ensures
            r.wf(),
            r.jobs().len() == 0,
            r.reminders().len() == 0,
            r.results().len() == 0,
    {
        CronScheduler { cron_jobs: Vec::new(), reminders: Vec::new(), task_results: Vec::new() }
    }

    fn keep_reminders_except(&mut self, id: &str)
        requires
            reminder_ids_unique(old(self).reminders()),
        ensures
            final(self).reminders() == old(self).reminders().filter(reminder_not(id@)),
            reminder_ids_unique(final(self).reminders()),
            final(self).jobs() == old(self).jobs(),
            final(self).results() == old(self).results(),
    {
        let ghost s = self.reminders@;
        let mut kept: Vec<Reminder> = Vec::new();
        let mut i: usize = 0;
        while i < self.reminders.len()
            invariant
                s == self.reminders@,
                i <= s.len(),
                kept@ == s.take(i as int).filter(reminder_not(id@)),
            decreases s.len() - i,
        {
            assert(s.take(i + 1) =~= s.take(i as int).push(s[i as int]));
            proof {
                s.take(i as int).lemma_filter_push(s[i as int], reminder_not(id@));
            }
            if !same_text(self.reminders[i].id.as_str(), id) {
                kept.push(self.reminders[i].clone());
            }
            i += 1;
        }
        assert(s.take(s.len() as int) =~= s);
        proof {
            lemma_reminder_filter_unique(s, reminder_not(id@));
        }
        self.reminders = kept;
    }

    /// Adds a one-time reminder of `user_id` at `fire_at`, given the result
    /// of reading `fire_at` as an RFC 3339 time and the current Unix time
    /// `now`. A time that does not read gives the parser's error, one not
    /// after `now` the past-time error; otherwise the pending reminder is
    /// stored under `id` (replacing one with that id) and `id` returned.
    pub fn add_reminder_at(
        &mut self,
        id: String,
        user_id: &str,
        fire_at: &str,
        message: &str,
        action: Option<&str>,
        parsed: Result<i64, String>,
        now: i64,
    ) -> (r: Result<String, String>)
        requires
            old(self).wf(),
        ensures
            final(self).wf(),
            final(self).jobs() == old(self).jobs(),
            final(self).results() == old(self).results(),
            match parsed {
                Err(e) => r matches Err(m) && m@ == invalid_datetime_message(fire_at@, e@) && final(self).reminders()
                    == old(self).reminders(),
                Ok(t) => if t <= now {
                    r matches Err(m) && m@ == past_time_message(fire_at@) && final(self).reminders()
                        == old(self).reminders()
                } else {
                    &&& r == Ok::<String, String>(id)
                    &&& final(self).reminders().len() >= 1
                    &&& final(self).reminders() == put_reminder(old(self).reminders(), final(self).reminders().last())
                    &&& new_reminder(id@, user_id@, fire_at@, message@, opt_str(action), final(self).reminders().last())
                },
            },
    {
        let t = match parsed {
            Err(e) => {
                let mut m = chars_of("Invalid datetime format '");
                push_str(&mut m, fire_at);
                push_str(&mut m, "': ");
                push_str(&mut m, e.as_str());
                push_str(&mut m, ". Expected ISO 8601 (e.g., 2026-05-15T11:41:00+08:00)");
                return Err(string_of(&m));
            },
            Ok(t) => t,
        };
        if t <= now {
            let mut m = chars_of("Reminder time is in the past: ");
            push_str(&mut m, fire_at);
            return Err(string_of(&m));
        }
        let reminder = Reminder {
            id: id.clone(),
            user_id: text(user_id),
            fire_at: text(fire_at),
            message: text(message),
            triggered: false,
            action: match action {
                Some(a) => Some(text(a)),
                None => None,
            },
            cron_job_id: None,
            model: None,
            prompt: None,
        };
        let ghost before = self.reminders@;
        self.keep_reminders_except(id.as_str());
        self.reminders.push(reminder);
        proof {
            assert forall|i: int, j: int| 0 <= i < j < self.reminders@.len() implies self.reminders@[i].id@
                != self.reminders@[j].id@ by {
                if j == self.reminders@.len() - 1 {
                    before.lemma_filter_pred(reminder_not(id@), i);
                }
            }
        }
        Ok(id)
    }

    /// Adds a one-time reminder: reads `fire_at` as an RFC 3339 time and
    /// goes on as [`Self::add_reminder_at`] with `now`, the current Unix time.
    pub fn add_reminder(
        &mut self,
        id: String,
        user_id: &str,
        fire_at: &str,
        message: &str,
        action: Option<&str>,
        now: i64,
    ) -> (r: Result<String, String>)
        requires
            old(self).wf(),
        ensures
            final(self).wf(),
            final(self).jobs() == old(self).jobs(),
            final(self).results() == old(self).results(),
            r is Err ==> final(self).reminders() == old(self).reminders(),
            r matches Ok(x) ==> {
                &&& x == id
                &&& rfc3339_seconds(fire_at@) matches Ok(t) && t > now
                &&& final(self).reminders().len() >= 1
                &&& final(self).reminders() == put_reminder(old(self).reminders(), final(self).reminders().last())
                &&& new_reminder(id@, user_id@, fire_at@, message@, opt_str(action), final(self).reminders().last())
            },
            rfc3339_seconds(fire_at@) matches Err(e) ==> (r matches Err(m) && m@ == invalid_datetime_message(fire_at@, e)),
            rfc3339_seconds(fire_at@) matches Ok(t) ==> (r is Ok <==> t > now),
    {
        let parsed = parse_rfc3339(fire_at);
        self.add_reminder_at(id, user_id, fire_at, message, action, parsed, now)
    }

    /// Marks the reminder `id` as fired and hands it out as it was stored;
    /// `None` when there is no such reminder (it was removed).
    pub fn fire_reminder(&mut self, id: &str) -> (r: Option<Reminder>)
        requires
            old(self).wf(),
        ensures
            final(self).wf(),
            final(self).jobs() == old(self).jobs(),
            final(self).results() == old(self).results(),
            match r {
                None => final(self).reminders() == old(self).reminders() && forall|k: int|
                    0 <= k < old(self).reminders().len() ==> #[trigger] old(self).reminders()[k].id@ != id@,
                Some(x) => exists|k: int|
                    0 <= k < old(self).reminders().len() && old(self).reminders()[k] == x && x.id@ == id@
                        && final(self).reminders() == mark_fired(old(self).reminders(), k),
            },
    {
        match self.reminder_index(id) {
            Some(i) => {
                let ghost s = self.reminders@;
                let x = self.reminders[i].clone();
                let mut fired = self.reminders.remove(i);
                fired.triggered = true;
                self.reminders.insert(i, fired);
                assert(self.reminders@ =~= s.update(i as int, Reminder { triggered: true, ..x }));
                assert(self.wf()) by {
                    assert forall|a: int, b: int| 0 <= a < b < self.reminders@.len() implies self.reminders@[a].id@
                        != self.reminders@[b].id@ by {
                        assert(s[a].id@ != s[b].id@);
                    }
                }
                Some(x)
            },
            None => None,
        }
    }

    fn reminder_index(&self, id: &str) -> (r: Option<usize>)
        ensures
            match r {
                Some(i) => i < self.reminders().len() && self.reminders()[i as int].id@ == id@,
                None => forall|k: int| 0 <= k < self.reminders().len() ==> #[trigger] self.reminders()[k].id@ != id@,
            },
    {
        let mut i: usize = 0;
        while i < self.reminders.len()
            invariant
                i <= self.reminders@.len(),
                forall|k: int| 0 <= k < i ==> #[trigger] self.reminders@[k].id@ != id@,
            decreases self.reminders@.len() - i,
        {
            if same_text(self.reminders[i].id.as_str(), id) {
                return Some(i);
            }
            i += 1;
        }
        None
    }

    /// The pending reminders of `user_id`, in the order they were stored.
    pub fn list_reminders(&self, user_id: &str) -> (r: Vec<Reminder>)
        ensures
            r@ == self.reminders().filter(pending_for(user_id@)),
    {
        let ghost s = self.reminders@;
        let mut out: Vec<Reminder> = Vec::new();
        let mut i: usize = 0;
        while i < self.reminders.len()
            invariant
                s == self.reminders@,
                i <= s.len(),
                out@ == s.take(i as int).filter(pending_for(user_id@)),
            decreases s.len() - i,
        {
            assert(s.take(i + 1) =~= s.take(i as int).push(s[i as int]));
            proof {
                s.take(i as int).lemma_filter_push(s[i as int], pending_for(user_id@));
            }
            if !self.reminders[i].triggered && same_text(self.reminders[i].user_id.as_str(), user_id) {
                out.push(self.reminders[i].clone());
            }
            i += 1;
        }
        assert(s.take(s.len() as int) =~= s);
        out
    }

    /// Removes the reminder `id`, if any; always succeeds.
    pub fn remove_reminder(&mut self, id: &str) -> (r: Result<(), String>)
        requires
            old(self).wf(),
        ensures
            r is Ok,
            final(self).wf(),
            final(self).reminders() == old(self).reminders().filter(reminder_not(id@)),
            final(self).jobs() == old(self).jobs(),
            final(self).results() == old(self).results(),
    {
        self.keep_reminders_except(id);
        Ok(())
    }

    fn keep_jobs_except(&mut self, id: &str)
        requires
            job_ids_unique(old(self).jobs()),
        ensures
            final(self).jobs() == old(self).jobs().filter(job_not(id@)),
            job_ids_unique(final(self).jobs()),
            final(self).reminders() == old(self).reminders(),
            final(self).results() == old(self).results(),
    {
        let ghost s = self.cron_jobs@;
        let mut kept: Vec<CronJob> = Vec::new();
        let mut i: usize = 0;
        while i < self.cron_jobs.len()
            invariant
                s == self.cron_jobs@,
                i <= s.len(),
                kept@ == s.take(i as int).filter(job_not(id@)),
            decreases s.len() - i,
        {
            assert(s.take(i + 1) =~= s.take(i as int).push(s[i as int]));
            proof {
                s.take(i as int).lemma_filter_push(s[i as int], job_not(id@));
            }
            if !same_text(self.cron_jobs[i].id.as_str(), id) {
                kept.push(self.cron_jobs[i].clone());
            }
            i += 1;
        }
        assert(s.take(s.len() as int) =~= s);
        proof {
            lemma_job_filter_unique(s, job_not(id@));
        }
        self.cron_jobs = kept;
    }

    /// Stores `job` if its schedule can be scheduled after `now`.
    fn schedule_job(&mut self, job: CronJob, now: i64, offset: i32) -> (r: Result<String, String>)
        requires
            old(self).wf(),
            offset_ok(offset as int),
        ensures
            final(self).wf(),
            final(self).reminders() == old(self).reminders(),
            final(self).results() == old(self).results(),
            r matches Err(e) ==> e@ == schedule_error(job.schedule@) && final(self).jobs() == old(self).jobs(),
            r matches Ok(x) ==> x == job.id && final(self).jobs() == put_job(old(self).jobs(), job),
            cron_parse(job.schedule@) is Err ==> r is Err,
            r is Ok ==> cron_parse(job.schedule@) is Ok,
            instant_ok(now as int) ==> (r is Ok <==> schedulable(job.schedule@, now as int, offset as int)),
    {
        match check_schedule(job.schedule.as_str(), now, offset) {
            Err(e) => {
                return Err(e);
            },
            Ok(()) => {},
        }
        let id = job.id.clone();
        let ghost before = self.cron_jobs@;
        self.keep_jobs_except(id.as_str());
        self.cron_jobs.push(job);
        proof {
            assert forall|i: int, j: int| 0 <= i < j < self.cron_jobs@.len() implies self.cron_jobs@[i].id@
                != self.cron_jobs@[j].id@ by {
                if j == self.cron_jobs@.len() - 1 {
                    before.lemma_filter_pred(job_not(id@), i);
                }
            }
        }
        Ok(id)
    }

    /// Adds a periodic job of `user_id` under `id`, created at `created_at`;
    /// a 5-field expression is first turned into 7 fields. The schedule must
    /// parse and fire after the Unix time `now`, else its error is returned
    /// and nothing changes.
    pub fn add_cron_job(
        &mut self,
        id: String,
        created_at: String,
        user_id: &str,
        schedule_expr: &str,
        prompt: &str,
        now: i64,
        offset: i32,
    ) -> (r: Result<String, String>)
        requires
            old(self).wf(),
            offset_ok(offset as int),
        ensures
            final(self).wf(),
            final(self).reminders() == old(self).reminders(),
            final(self).results() == old(self).results(),
            r matches Err(e) ==> e@ == schedule_error(convert_5field_spec(schedule_expr@)) && final(self).jobs()
                == old(self).jobs(),
            r matches Ok(x) ==> {
                &&& x == id
                &&& final(self).jobs().len() >= 1
                &&& final(self).jobs() == put_job(old(self).jobs(), final(self).jobs().last())
                &&& new_job(id@, created_at@, user_id@, schedule_expr@, prompt@, None, None, final(self).jobs().last())
            },
            cron_parse(convert_5field_spec(schedule_expr@)) is Err ==> r is Err,
            instant_ok(now as int) ==> (r is Ok <==> schedulable(
                convert_5field_spec(schedule_expr@),
                now as int,
                offset as int,
            )),
    {
        let job = CronJob {
            id,
            user_id: text(user_id),
            schedule: convert_5field_to_7field(schedule_expr),
            prompt: text(prompt),
            enabled: true,
            last_run: None,
            created_at,
            name: None,
            model: None,
        };
        let ghost j = job;
        let r = self.schedule_job(job, now, offset);
        proof {
            if r is Ok {
                assert(self.cron_jobs@.last() == j);
            }
        }
        r
    }

    /// Adds a named periodic task of `user_id` run with `model`, as
    /// [`Self::add_cron_job`] does.
    pub fn add_periodic_task(
        &mut self,
        id: String,
        created_at: String,
        user_id: &str,
        name: &str,
        prompt: &str,
        model: &str,
        schedule_expr: &str,
        now: i64,
        offset: i32,
    ) -> (r: Result<String, String>)
        requires
            old(self).wf(),
            offset_ok(offset as int),
        ensures
            final(self).wf(),
            final(self).reminders() == old(self).reminders(),
            final(self).results() == old(self).results(),
            r matches Err(e) ==> e@ == schedule_error(convert_5field_spec(schedule_expr@)) && final(self).jobs()
                == old(self).jobs(),
            r matches Ok(x) ==> {
                &&& x == id
                &&& final(self).jobs().len() >= 1
                &&& final(self).jobs() == put_job(old(self).jobs(), final(self).jobs().last())
                &&& new_job(
                    id@,
                    created_at@,
                    user_id@,
                    schedule_expr@,
                    prompt@,
                    Some(name@),
                    Some(model@),
                    final(self).jobs().last(),
                )
            },
            cron_parse(convert_5field_spec(schedule_expr@)) is Err ==> r is Err,
            instant_ok(now as int) ==> (r is Ok <==> schedulable(
                convert_5field_spec(schedule_expr@),
                now as int,
                offset as int,
            )),
    {
        let job = CronJob {
            id,
            user_id: text(user_id),
            schedule: convert_5field_to_7field(schedule_expr),
            prompt: text(prompt),
            enabled: true,
            last_run: None,
            created_at,
            name: Some(text(name)),
            model: Some(text(model)),
        };
        let ghost j = job;
        let r = self.schedule_job(job, now, offset);
        proof {
            if r is Ok {
                assert(self.cron_jobs@.last() == j);
            }
        }
        r
    }

    /// The enabled jobs of `user_id`, in the order they were stored.
    pub fn list_cron_jobs(&self, user_id: &str) -> (r: Vec<CronJob>)
        ensures
            r@ == self.jobs().filter(enabled_for(user_id@)),
    {
        let ghost s = self.cron_jobs@;
        let mut out: Vec<CronJob> = Vec::new();
        let mut i: usize = 0;
        while i < self.cron_jobs.len()
            invariant
                s == self.cron_jobs@,
                i <= s.len(),
                out@ == s.take(i as int).filter(enabled_for(user_id@)),
            decreases s.len() - i,
        {
            assert(s.take(i + 1) =~= s.take(i as int).push(s[i as int]));
            proof {
                s.take(i as int).lemma_filter_push(s[i as int], enabled_for(user_id@));
            }
            if self.cron_jobs[i].enabled && same_text(self.cron_jobs[i].user_id.as_str(), user_id) {
                out.push(self.cron_jobs[i].clone());
            }
            i += 1;
        }
        assert(s.take(s.len() as int) =~= s);
        out
    }

    /// Removes the job `id` and the results of its runs; always succeeds.
    pub fn remove_cron_job(&mut self, id: &str) -> (r: Result<(), String>)
        requires
            old(self).wf(),
        ensures
            r is Ok,
            final(self).wf(),
            final(self).jobs() == old(self).jobs().filter(job_not(id@)),
            final(self).results() == old(self).results().filter(result_not_of(id@)),
            final(self).reminders() == old(self).reminders(),
    {
        self.keep_jobs_except(id);
        let ghost s = self.task_results@;
        let mut kept: Vec<TaskResult> = Vec::new();
        let mut i: usize = 0;
        while i < self.task_results.len()
            invariant
                s == self.task_results@,
                i <= s.len(),
                kept@ == s.take(i as int).filter(result_not_of(id@)),
            decreases s.len() - i,
        {
            assert(s.take(i + 1) =~= s.take(i as int).push(s[i as int]));
            proof {
                s.take(i as int).lemma_filter_push(s[i as int], result_not_of(id@));
            }
            if !same_text(self.task_results[i].cron_job_id.as_str(), id) {
                kept.push(self.task_results[i].clone());
            }
            i += 1;
        }
        assert(s.take(s.len() as int) =~= s);
        self.task_results = kept;
        Ok(())
    }

    fn job_index(&self, id: &str) -> (r: Option<usize>)
        ensures
            match r {
                Some(i) => i < self.jobs().len() && self.jobs()[i as int].id@ == id@,
                None => !has_job(self.jobs(), id@),
            },
    {
        let mut i: usize = 0;
        while i < self.cron_jobs.len()
            invariant
                i <= self.cron_jobs@.len(),
                forall|k: int| 0 <= k < i ==> #[trigger] self.cron_jobs@[k].id@ != id@,
            decreases self.cron_jobs@.len() - i,
        {
            if same_text(self.cron_jobs[i].id.as_str(), id) {
                return Some(i);
            }
            i += 1;
        }
        assert(!has_job(self.jobs(), id@)) by {
            assert forall|k: int| 0 <= k < self.jobs().len() implies (#[trigger] self.jobs()[k]).id@ != id@ by {
                assert(self.jobs()[k] == self.cron_jobs@[k]);
            }
        }
        None
    }

    /// Records a run of job `job_id` at `last_run` and hands out the updated
    /// job; `None` when the job is gone, which ends its timer loop.
    pub fn record_run(&mut self, job_id: &str, last_run: String) -> (r: Option<CronJob>)
        requires
            old(self).wf(),
        ensures
            final(self).wf(),
            final(self).reminders() == old(self).reminders(),
            final(self).results() == old(self).results(),
            match r {
                None => !has_job(old(self).jobs(), job_id@) && final(self).jobs() == old(self).jobs(),
                Some(j) => exists|k: int|
                    0 <= k < old(self).jobs().len() && old(self).jobs()[k].id@ == job_id@ && j == CronJob {
                        last_run: Some(last_run),
                        ..old(self).jobs()[k]
                    } && final(self).jobs() == old(self).jobs().update(k, j),
            },
    {
        match self.job_index(job_id) {
            Some(i) => {
                let ghost s = self.cron_jobs@;
                let mut job = self.cron_jobs.remove(i);
                job.last_run = Some(last_run);
                let out = job.clone();
                self.cron_jobs.insert(i, job);
                assert(self.cron_jobs@ =~= s.update(i as int, out));
                assert(self.wf()) by {
                    assert forall|a: int, b: int| 0 <= a < b < self.cron_jobs@.len() implies self.cron_jobs@[a].id@
                        != self.cron_jobs@[b].id@ by {
                        assert(s[a].id@ != s[b].id@);
                    }
                }
                Some(out)
            },
            None => None,
        }
    }

    /// Stores the result of a task run.
    pub fn store_task_result(&mut self, result: TaskResult)
        ensures
            final(self).results() == old(self).results().push(result),
            final(self).jobs() == old(self).jobs(),
            final(self).reminders() == old(self).reminders(),
    {
        self.task_results.push(result);
    }

    /// The results of job `job_id`, newest first; results with the same
    /// time keep the order in which they were stored.
    pub fn list_task_results(&self, job_id: &str) -> (r: Vec<TaskResult>)
        ensures
            r@.len() == self.results().filter(result_of(job_id@)).len(),
            newest_sorted(r@),
            forall|at: Seq<char>| #[trigger] r@.filter(executed_at_is(at)) == self.results().filter(
                result_of(job_id@),
            ).filter(executed_at_is(at)),
    {
        let ghost s = self.task_results@;
        let mut mine: Vec<TaskResult> = Vec::new();
        let mut i: usize = 0;
        while i < self.task_results.len()
            invariant
                s == self.task_results@,
                i <= s.len(),
                mine@ == s.take(i as int).filter(result_of(job_id@)),
            decreases s.len() - i,
        {
            assert(s.take(i + 1) =~= s.take(i as int).push(s[i as int]));
            proof {
                s.take(i as int).lemma_filter_push(s[i as int], result_of(job_id@));
            }
            if same_text(self.task_results[i].cron_job_id.as_str(), job_id) {
                mine.push(self.task_results[i].clone());
            }
            i += 1;
        }
        assert(s.take(s.len() as int) =~= s);
        newest_first(mine)
    }

    /// Restores persisted jobs at the Unix time `now`: each enabled job whose
    /// id is not present yet and whose schedule can be scheduled is added, in
    /// order. The added jobs are returned, for their timers to be started.
    pub fn restore(&mut self, stored: &Vec<CronStoreJob>, now: i64, offset: i32) -> (r: Vec<CronJob>)
        requires
            old(self).wf(),
            offset_ok(offset as int),
            instant_ok(now as int),
        ensures
            final(self).wf(),
            final(self).reminders() == old(self).reminders(),
            final(self).results() == old(self).results(),
            final(self).jobs() == restored_jobs(old(self).jobs(), stored@, now as int, offset as int),
            r@ == final(self).jobs().skip(old(self).jobs().len() as int),
    {
        let ghost start = self.cron_jobs@;
        let mut out: Vec<CronJob> = Vec::new();
        let mut i: usize = 0;
        assert(start.skip(start.len() as int) =~= Seq::<CronJob>::empty());
        assert(stored@.take(0) =~= Seq::<CronStoreJob>::empty());
        while i < stored.len()
            invariant
                i <= stored@.len(),
                self.wf(),
                self.reminders() == old(self).reminders(),
                self.results() == old(self).results(),
                start == old(self).jobs(),
                offset_ok(offset as int),
                instant_ok(now as int),
                self.jobs() == restored_jobs(start, stored@.take(i as int), now as int, offset as int),
                self.jobs().len() >= start.len(),
                self.jobs().take(start.len() as int) == start,
                out@ == self.jobs().skip(start.len() as int),
            decreases stored@.len() - i,
        {
            assert(stored@.take(i + 1).drop_last() =~= stored@.take(i as int));
            assert(stored@.take(i + 1).last() == stored@[i as int]);
            let sj = &stored[i];
            if sj.enabled {
                if self.job_index(sj.id.as_str()).is_none() {
                    match check_schedule(sj.schedule.as_str(), now, offset) {
                        Ok(()) => {
                            let job = CronJob {
                                id: sj.id.clone(),
                                user_id: sj.user_id.clone(),
                                schedule: sj.schedule.clone(),
                                prompt: sj.prompt.clone(),
                                enabled: sj.enabled,
                                last_run: sj.last_run.clone(),
                                created_at: sj.created_at.clone(),
                                name: sj.name.clone(),
                                model: sj.model.clone(),
                            };
                            let ghost before = self.cron_jobs@;
                            out.push(job.clone());
                            self.cron_jobs.push(job);
                            proof {
                                assert(self.cron_jobs@ == before.push(job_of_store(*sj)));
                                assert forall|a: int, b: int| 0 <= a < b < self.cron_jobs@.len() implies self.cron_jobs@[a].id@
                                    != self.cron_jobs@[b].id@ by {
                                    if b == before.len() {
                                        assert(before[a] == self.cron_jobs@[a]);
                                    }
                                }
                                assert(self.cron_jobs@.take(start.len() as int) =~= before.take(start.len() as int));
                                assert(self.cron_jobs@.skip(start.len() as int) =~= before.skip(start.len() as int).push(
                                    job_of_store(*sj),
                                ));
                            }
                        },
                        Err(_) => {},
                    }
                }
            }
            i += 1;
        }
        assert(stored@.take(stored@.len() as int) =~= stored@);
        out
    }
}

impl Default for CronScheduler {
    fn default() -> (r: Self)
        ensures
            r.wf(),
            r.jobs().len() == 0,
            r.reminders().len() == 0,
            r.results().len() == 0,
    {
        CronScheduler::new()
    }
}

/// A reminder just stored, still pending, is the last one listed for its
/// user, and the others listed are those listed before but the one it
/// replaced.
pub proof fn lemma_stored_reminder_is_listed(s: Seq<Reminder>, r: Reminder)
    requires
        !r.triggered,
    ensures
        put_reminder(s, r).filter(pending_for(r.user_id@)) == s.filter(reminder_not(r.id@)).filter(
            pending_for(r.user_id@),
        ).push(r),
{
    s.filter(reminder_not(r.id@)).lemma_filter_push(r, pending_for(r.user_id@));
}

/// After a reminder is removed, no reminder listed for any user has its id.
pub proof fn lemma_removed_reminder_not_listed(s: Seq<Reminder>, id: Seq<char>, user_id: Seq<char>)
    ensures
        forall|k: int|
            0 <= k < s.filter(reminder_not(id)).filter(pending_for(user_id)).len() ==> (#[trigger] s.filter(
                reminder_not(id),
            ).filter(pending_for(user_id))[k]).id@ != id,
{
    let t = s.filter(reminder_not(id));
    assert forall|k: int| 0 <= k < t.filter(pending_for(user_id)).len() implies (#[trigger] t.filter(
        pending_for(user_id),
    )[k]).id@ != id by {
        let x = t.filter(pending_for(user_id))[k];
        assert(t.filter(pending_for(user_id)).contains(x));
        t.lemma_filter_contains_rev(pending_for(user_id), x);
        let m = choose|m: int| 0 <= m < t.len() && t[m] == x;
        s.lemma_filter_pred(reminder_not(id), m);
    }
}

/// A fired reminder is no longer listed: once the reminder with id `id` is
/// marked as fired, no reminder listed for any user has that id.
pub proof fn lemma_fired_reminder_not_listed(s: Seq<Reminder>, k: int, user_id: Seq<char>)
    requires
        reminder_ids_unique(s),
        0 <= k < s.len(),
    ensures
        forall|m: int|
            0 <= m < mark_fired(s, k).filter(pending_for(user_id)).len() ==> (
            #[trigger] mark_fired(s, k).filter(pending_for(user_id))[m]).id@
                != s[k].id@,
{
    let t = mark_fired(s, k);
    assert forall|m: int| 0 <= m < t.filter(pending_for(user_id)).len() implies (#[trigger] t.filter(
        pending_for(user_id),
    )[m]).id@ != s[k].id@ by {
        let x = t.filter(pending_for(user_id))[m];
        t.lemma_filter_pred(pending_for(user_id), m);
        assert(t.filter(pending_for(user_id)).contains(x));
        t.lemma_filter_contains_rev(pending_for(user_id), x);
        let w = choose|w: int| 0 <= w < t.len() && t[w] == x;
        if w != k {
            assert(t[w] == s[w]);
        }
    }
}

/// Once a job is removed, none of its results is left to list.
pub proof fn lemma_removed_job_has_no_results(results: Seq<TaskResult>, job_id: Seq<char>)
    ensures
        results.filter(result_not_of(job_id)).filter(result_of(job_id)) == Seq::<TaskResult>::empty(),
{
    let t = results.filter(result_not_of(job_id));
    assert forall|k: int| 0 <= k < t.len() implies !result_of(job_id)(#[trigger] t[k]) by {
        results.lemma_filter_pred(result_not_of(job_id), k);
    }
    lemma_filter_none(t, result_of(job_id));
}

} // verus!
