//! Cron schedules interpreted in a fixed local time zone: parsing through the
//! `cron` crate, calendar arithmetic through `chrono`, and the search for the
//! next local fire time.
use vstd::prelude::*;
use chrono::{Datelike, TimeZone, Timelike};
use cron::TimeUnitSpec;
use std::str::FromStr;

verus! {

/// Smallest year `chrono` can represent.
pub const MIN_YEAR: i32 = -262143;

/// Largest year `chrono` can represent.
pub const MAX_YEAR: i32 = 262142;

/// The time-unit sets of a parsed schedule, each in ascending order.
pub struct CronSchedule {
    pub seconds: Vec<u32>,
    pub minutes: Vec<u32>,
    pub hours: Vec<u32>,
    pub days_of_month: Vec<u32>,
    pub months: Vec<u32>,
    /// 1 is Sunday, 7 is Saturday.
    pub days_of_week: Vec<u32>,
}

/// `s` is strictly ascending and within `lo..=hi`.
pub open spec fn ascending_within(s: Seq<u32>, lo: u32, hi: u32) -> bool {
    &&& forall|i: int, j: int| 0 <= i < j < s.len() ==> s[i] < s[j]
    &&& forall|i: int| 0 <= i < s.len() ==> lo <= #[trigger] s[i] <= hi
}

/// The unit sets of a schedule: seconds, minutes, hours, days of month,
/// months and days of week.
pub type UnitSets = (Seq<u32>, Seq<u32>, Seq<u32>, Seq<u32>, Seq<u32>, Seq<u32>);

/// Every unit set is ascending and within the unit's range.
pub open spec fn units_wf(u: UnitSets) -> bool {
    &&& ascending_within(u.0, 0, 59)
    &&& ascending_within(u.1, 0, 59)
    &&& ascending_within(u.2, 0, 23)
    &&& ascending_within(u.3, 1, 31)
    &&& ascending_within(u.4, 1, 12)
    &&& ascending_within(u.5, 1, 7)
}

impl View for CronSchedule {
    type V = UnitSets;

    open spec fn view(&self) -> UnitSets {
        (self.seconds@, self.minutes@, self.hours@, self.days_of_month@, self.months@, self.days_of_week@)
    }
}

impl CronSchedule {
    pub open spec fn wf(&self) -> bool {
        units_wf(self@)
    }
}

/// What `cron::Schedule::from_str` makes of an expression: the unit sets of the
/// schedule, or the text of the error.
pub uninterp spec fn cron_parse(expr: Seq<char>) -> Result<UnitSets, Seq<char>>;

/// A parse outcome by its views.
pub open spec fn parse_view(r: Result<CronSchedule, String>) -> Result<UnitSets, Seq<char>> {
    match r {
        Ok(s) => Ok(s@),
        Err(e) => Err(e@),
    }
}

/// Parses a cron expression with `cron::Schedule::from_str` and reads out its
/// unit sets with `TimeUnitSpec::iter`. The sets come out in ascending order
/// and within each unit's range, as the crate keeps them in ordered sets of
/// validated ordinals; which sets an expression gives is named, not stated.
#[verifier::external_body]
pub(crate) fn parse_schedule(expr: &str) -> (r: Result<CronSchedule, String>)
    ensures
        r matches Ok(s) ==> s.wf(),
        cron_parse(expr@) == parse_view(r),
{
    match cron::Schedule::from_str(expr) {
        Ok(s) => Ok(CronSchedule {
            seconds: s.seconds().iter().collect(),
            minutes: s.minutes().iter().collect(),
            hours: s.hours().iter().collect(),
            days_of_month: s.days_of_month().iter().collect(),
            months: s.months().iter().collect(),
            days_of_week: s.days_of_week().iter().collect(),
        }),
        Err(e) => Err(e.to_string()),
    }
}

/// Gregorian leap year (proleptic, astronomical year numbering).
pub open spec fn is_leap(y: int) -> bool {
    (y % 4 == 0 && y % 100 != 0) || y % 400 == 0
}

/// Number of days of month `m` of year `y`.
pub open spec fn days_in_month(y: int, m: int) -> int {
    if m == 2 {
        if is_leap(y) { 29 } else { 28 }
    } else if m == 4 || m == 6 || m == 9 || m == 11 {
        30
    } else {
        31
    }
}

/// `y-m-d` is a calendar date.
pub open spec fn valid_date(y: int, m: int, d: int) -> bool {
    1 <= m <= 12 && 1 <= d <= days_in_month(y, m)
}

/// Days from 1970-01-01 to `y-m-d` in the proleptic Gregorian calendar.
pub open spec fn days_from_civil(y: int, m: int, d: int) -> int {
    let yy = if m <= 2 { y - 1 } else { y };
    let mp = if m > 2 { m - 3 } else { m + 9 };
    365 * yy + yy / 4 - yy / 100 + yy / 400 + (153 * mp + 2) / 5 + d - 1 - 719468
}

/// Day of the week of `y-m-d`, 0 for Sunday through 6 for Saturday.
pub open spec fn weekday_sun0(y: int, m: int, d: int) -> int {
    (days_from_civil(y, m, d) + 4) % 7
}

/// The Unix time of a local date and time at `offset` seconds east of UTC.
pub open spec fn local_instant(y: int, m: int, d: int, h: int, mi: int, s: int, offset: int) -> int {
    days_from_civil(y, m, d) * 86400 + h * 3600 + mi * 60 + s - offset
}

/// A local calendar date and time of day.
#[derive(Debug, Clone, Copy)]
pub struct CivilTime {
    pub year: i32,
    pub month: u32,
    pub day: u32,
    pub hour: u32,
    pub minute: u32,
    pub second: u32,
}

impl CivilTime {
    pub open spec fn valid(&self) -> bool {
        valid_date(self.year as int, self.month as int, self.day as int) && self.hour < 24 && self.minute < 60
            && self.second < 60
    }

    /// The Unix time of this local time at `offset`.
    pub open spec fn instant(&self, offset: int) -> int {
        local_instant(self.year as int, self.month as int, self.day as int, self.hour as int,
            self.minute as int, self.second as int, offset)
    }
}

/// An offset `chrono::FixedOffset` accepts.
pub open spec fn offset_ok(offset: int) -> bool {
    -86400 < offset < 86400
}

/// Unix times whose local year at any offset lies well inside `chrono`'s range.
pub open spec fn instant_ok(secs: int) -> bool {
    -7_000_000_000_000 <= secs <= 7_000_000_000_000
}

/// The local date and time of a Unix time at a fixed offset, through
/// `DateTime::from_timestamp` and `with_timezone`: a valid local time whose
/// Unix time is `secs`. Absent only when `secs` is out of `chrono`'s range.
#[verifier::external_body]
fn local_time_of(secs: i64, offset: i32) -> (r: Option<CivilTime>)
    requires
        offset_ok(offset as int),
    ensures
        r matches Some(c) ==> c.valid() && c.instant(offset as int) == secs && MIN_YEAR - 1 <= c.year <= MAX_YEAR + 1,
        instant_ok(secs as int) ==> r is Some,
        r matches Some(c) ==> (instant_ok(secs as int) ==> -230000 <= c.year <= 230000),
{
    let off = chrono::FixedOffset::east_opt(offset)?;
    let l = chrono::DateTime::from_timestamp(secs, 0)?.with_timezone(&off);
    Some(CivilTime { year: l.year(), month: l.month(), day: l.day(), hour: l.hour(), minute: l.minute(), second: l.second() })
}

/// The day of the month before the first of `month` in `year`, through
/// `NaiveDate::from_ymd_opt` and `pred_opt`: the length of the month before.
#[verifier::external_body]
fn last_day_before(year: i32, month: u32) -> (r: Option<u32>)
    requires
        1 <= month <= 12,
    ensures
        r matches Some(d) ==> d == (if month == 1 { days_in_month(year - 1, 12) } else {
            days_in_month(year as int, month - 1) }),
        (MIN_YEAR < year <= MAX_YEAR) ==> r is Some,
{
    Some(chrono::NaiveDate::from_ymd_opt(year, month, 1)?.pred_opt()?.day())
}

/// The weekday of a date through `NaiveDate::from_ymd_opt` and
/// `Weekday::num_days_from_sunday`; absent for an invalid date.
#[verifier::external_body]
fn weekday_of(year: i32, month: u32, day: u32) -> (r: Option<u32>)
    ensures
        r matches Some(w) ==> valid_date(year as int, month as int, day as int) && w == weekday_sun0(year as int, month as int, day as int),
        (valid_date(year as int, month as int, day as int) && MIN_YEAR <= year <= MAX_YEAR) ==> r is Some,
{
    match chrono::NaiveDate::from_ymd_opt(year, month, day) {
        Some(d) => Some(d.weekday().num_days_from_sunday()),
        None => None,
    }
}

/// The Unix time of a local date and time through `NaiveDate::from_ymd_opt`,
/// `NaiveTime::from_hms_opt` and `FixedOffset::from_local_datetime`.
#[verifier::external_body]
fn instant_of(year: i32, month: u32, day: u32, hour: u32, minute: u32, second: u32, offset: i32) -> (r: Option<i64>)
    requires
        offset_ok(offset as int),
    ensures
        r matches Some(t) ==> t == local_instant(year as int, month as int, day as int, hour as int, minute as int, second as int, offset as int),
        (valid_date(year as int, month as int, day as int) && hour < 24 && minute < 60 && second < 60
            && MIN_YEAR < year < MAX_YEAR) ==> r is Some,
{
    let date = chrono::NaiveDate::from_ymd_opt(year, month, day)?;
    let naive = chrono::NaiveDateTime::new(date, chrono::NaiveTime::from_hms_opt(hour, minute, second)?);
    let off = chrono::FixedOffset::east_opt(offset)?;
    Some(off.from_local_datetime(&naive).single()?.timestamp())
}

/// Orders local times field by field: a single number that grows with the
/// year, then the month, day, hour, minute and second.
pub open spec fn time_key(y: int, mo: int, d: int, h: int, mi: int, s: int) -> int {
    ((((y * 13 + mo) * 32 + d) * 24 + h) * 60 + mi) * 60 + s
}

/// Each field lies in the span `time_key` gives it.
pub open spec fn in_ranges(mo: int, d: int, h: int, mi: int, s: int) -> bool {
    0 <= mo < 13 && 0 <= d < 32 && 0 <= h < 24 && 0 <= mi < 60 && 0 <= s < 60
}

/// `a` comes before `b` field by field.
pub open spec fn lex_lt(a: (int, int, int, int, int, int), b: (int, int, int, int, int, int)) -> bool {
    if a.0 != b.0 {
        a.0 < b.0
    } else if a.1 != b.1 {
        a.1 < b.1
    } else if a.2 != b.2 {
        a.2 < b.2
    } else if a.3 != b.3 {
        a.3 < b.3
    } else if a.4 != b.4 {
        a.4 < b.4
    } else {
        a.5 < b.5
    }
}

pub proof fn lemma_key_lex(a: (int, int, int, int, int, int), b: (int, int, int, int, int, int))
    requires
        in_ranges(a.1, a.2, a.3, a.4, a.5),
        in_ranges(b.1, b.2, b.3, b.4, b.5),
    ensures
        time_key(a.0, a.1, a.2, a.3, a.4, a.5) < time_key(b.0, b.1, b.2, b.3, b.4, b.5) <==> lex_lt(a, b),
        time_key(a.0, a.1, a.2, a.3, a.4, a.5) == time_key(b.0, b.1, b.2, b.3, b.4, b.5) <==> a == b,
{
    let p1a = a.0 * 13 + a.1;
    let p1b = b.0 * 13 + b.1;
    let p2a = p1a * 32 + a.2;
    let p2b = p1b * 32 + b.2;
    let p3a = p2a * 24 + a.3;
    let p3b = p2b * 24 + b.3;
    let p4a = p3a * 60 + a.4;
    let p4b = p3b * 60 + b.4;
    assert(p1a < p1b <==> (a.0 < b.0 || (a.0 == b.0 && a.1 < b.1)));
    assert(p1a == p1b <==> (a.0 == b.0 && a.1 == b.1));
    assert(p2a < p2b <==> (p1a < p1b || (p1a == p1b && a.2 < b.2)));
    assert(p2a == p2b <==> (p1a == p1b && a.2 == b.2));
    assert(p3a < p3b <==> (p2a < p2b || (p2a == p2b && a.3 < b.3)));
    assert(p3a == p3b <==> (p2a == p2b && a.3 == b.3));
    assert(p4a < p4b <==> (p3a < p3b || (p3a == p3b && a.4 < b.4)));
    assert(p4a == p4b <==> (p3a == p3b && a.4 == b.4));
    assert(p4a * 60 + a.5 < p4b * 60 + b.5 <==> (p4a < p4b || (p4a == p4b && a.5 < b.5)));
    assert(p4a * 60 + a.5 == p4b * 60 + b.5 <==> (p4a == p4b && a.5 == b.5));
}

/// The day is allowed by the day-of-month and day-of-week sets; when both
/// are restricted either one suffices, as in standard cron.
pub open spec fn day_matches(s: UnitSets, y: int, mo: u32, d: u32) -> bool {
    let dom_restricted = s.3.len() < 31;
    let dow_restricted = s.5.len() < 7;
    let dom_ok = s.3.contains(d);
    let dow_ok = s.5.contains((weekday_sun0(y, mo as int, d as int) + 1) as u32);
    if dom_restricted && dow_restricted {
        dom_ok || dow_ok
    } else if dom_restricted {
        dom_ok
    } else if dow_restricted {
        dow_ok
    } else {
        true
    }
}

/// A local time the search from `now` considers: within the five years from
/// `now`'s year, matching every unit of the schedule, and not in a minute
/// before `now`'s.
pub open spec fn eligible(s: UnitSets, now: CivilTime, y: i32, mo: u32, d: u32, h: u32, mi: u32, sec: u32) -> bool {
    &&& now.year <= y < now.year + 5
    &&& s.4.contains(mo)
    &&& 1 <= d <= days_in_month(y as int, mo as int)
    &&& day_matches(s, y as int, mo, d)
    &&& s.2.contains(h)
    &&& s.1.contains(mi)
    &&& s.0.contains(sec)
    &&& time_key(y as int, mo as int, d as int, h as int, mi as int, 0) >= time_key(now.year as int,
        now.month as int, now.day as int, now.hour as int, now.minute as int, 0)
}

/// No considered local time before `bound` falls after `after`.
pub open spec fn no_fire_below(s: UnitSets, now: CivilTime, after: int, offset: int, bound: int) -> bool {
    forall|y: i32, mo: u32, d: u32, h: u32, mi: u32, sec: u32|
        #[trigger] eligible(s, now, y, mo, d, h, mi, sec) && time_key(y as int, mo as int, d as int,
            h as int, mi as int, sec as int) < bound ==> local_instant(y as int, mo as int, d as int,
            h as int, mi as int, sec as int, offset) <= after
}

/// No considered local time falls after `after`.
pub open spec fn no_fire(s: UnitSets, now: CivilTime, after: int, offset: int) -> bool {
    no_fire_below(s, now, after, offset, time_key(now.year + 5, 0, 0, 0, 0, 0))
}

/// `t` is the Unix time of the first considered local time, in field order,
/// that falls after `after`.
pub open spec fn is_first_fire(s: UnitSets, now: CivilTime, after: int, offset: int, t: int) -> bool {
    exists|y: i32, mo: u32, d: u32, h: u32, mi: u32, sec: u32|
        #[trigger] eligible(s, now, y, mo, d, h, mi, sec) && local_instant(y as int, mo as int, d as int,
            h as int, mi as int, sec as int, offset) == t && t > after && no_fire_below(s, now, after,
            offset, time_key(y as int, mo as int, d as int, h as int, mi as int, sec as int))
}

/// Years for which every calendar call of a five-year search succeeds.
pub open spec fn search_years_ok(year: int) -> bool {
    MIN_YEAR < year && year + 5 < MAX_YEAR
}

pub proof fn lemma_contains_within(s: Seq<u32>, lo: u32, hi: u32, x: u32)
    requires
        ascending_within(s, lo, hi),
        s.contains(x),
    ensures
        lo <= x <= hi,
{
    let i = choose|i: int| 0 <= i < s.len() && s[i] == x;
    assert(lo <= s[i] <= hi);
}

pub proof fn lemma_eligible_ranges(s: UnitSets, now: CivilTime, y: i32, mo: u32, d: u32, h: u32, mi: u32, sec: u32)
    requires
        units_wf(s),
        eligible(s, now, y, mo, d, h, mi, sec),
    ensures
        in_ranges(mo as int, d as int, h as int, mi as int, sec as int),
        1 <= mo <= 12,
{
    lemma_contains_within(s.4, 1, 12, mo);
    lemma_contains_within(s.2, 0, 23, h);
    lemma_contains_within(s.1, 0, 59, mi);
    lemma_contains_within(s.0, 0, 59, sec);
}

/// `v` holds `x`.
fn contains_u32(v: &Vec<u32>, x: u32) -> (b: bool)
    ensures
        b == v@.contains(x),
{
    let mut i: usize = 0;
    while i < v.len()
        invariant
            i <= v.len(),
            forall|k: int| 0 <= k < i ==> v@[k] != x,
        decreases v.len() - i,
    {
        if v[i] == x {
            return true;
        }
        i += 1;
    }
    false
}

enum Probe {
    Fire(i64),
    Exhausted,
    Failed,
}

/// The key of the start of `now`'s minute.
pub open spec fn now_minute_key(now: CivilTime) -> int {
    time_key(now.year as int, now.month as int, now.day as int, now.hour as int, now.minute as int, 0)
}

/// Tries the seconds of one minute in ascending order.
fn scan_seconds(s: &CronSchedule, now: &CivilTime, after: i64, offset: i32, y: i32, mo: u32, d: u32, h: u32, mi: u32) -> (r: Probe)
    requires
        s.wf(),
        now.valid(),
        offset_ok(offset as int),
        now.year <= y < now.year + 5,
        s.months@.contains(mo),
        1 <= d <= days_in_month(y as int, mo as int),
        day_matches(s@, y as int, mo, d),
        s.hours@.contains(h),
        s.minutes@.contains(mi),
        time_key(y as int, mo as int, d as int, h as int, mi as int, 0) >= now_minute_key(*now),
        no_fire_below(s@, *now, after as int, offset as int, time_key(y as int, mo as int, d as int, h as int, mi as int, 0)),
    ensures
        r matches Probe::Fire(t) ==> is_first_fire(s@, *now, after as int, offset as int, t as int),
        r is Exhausted ==> no_fire_below(s@, *now, after as int, offset as int, time_key(y as int, mo as int, d as int, h as int, mi as int, 60)),
        r is Failed ==> !(MIN_YEAR < y < MAX_YEAR),
{
    let ghost key0 = time_key(y as int, mo as int, d as int, h as int, mi as int, 0);
    proof {
        lemma_contains_within(s.months@, 1, 12, mo);
        lemma_contains_within(s.hours@, 0, 23, h);
        lemma_contains_within(s.minutes@, 0, 59, mi);
    }
    let mut j: usize = 0;
    while j < s.seconds.len()
        invariant
            j <= s.seconds@.len(),
            s.wf(),
            now.valid(),
            offset_ok(offset as int),
            now.year <= y < now.year + 5,
            s.months@.contains(mo),
            1 <= mo <= 12,
            1 <= d <= days_in_month(y as int, mo as int),
            day_matches(s@, y as int, mo, d),
            s.hours@.contains(h),
            s.minutes@.contains(mi),
            h < 24,
            mi < 60,
            key0 == time_key(y as int, mo as int, d as int, h as int, mi as int, 0),
            key0 >= now_minute_key(*now),
            no_fire_below(s@, *now, after as int, offset as int, key0),
            forall|k: int| 0 <= k < j ==> local_instant(y as int, mo as int, d as int, h as int, mi as int,
                #[trigger] s.seconds@[k] as int, offset as int) <= after,
        decreases s.seconds.len() - j,
    {
        let sec = s.seconds[j];
        assert(sec <= 59);
        match instant_of(y, mo, d, h, mi, sec, offset) {
            None => {
                return Probe::Failed;
            },
            Some(t) => {
                if t > after {
                    proof {
                        assert(s.seconds@.contains(sec));
                        let w = (y as int, mo as int, d as int, h as int, mi as int, sec as int);
                        assert forall|y2: i32, mo2: u32, d2: u32, h2: u32, mi2: u32, sec2: u32|
                            #[trigger] eligible(s@, *now, y2, mo2, d2, h2, mi2, sec2) && time_key(y2 as int,
                                mo2 as int, d2 as int, h2 as int, mi2 as int, sec2 as int) < time_key(w.0, w.1,
                                w.2, w.3, w.4, w.5) implies local_instant(y2 as int, mo2 as int, d2 as int,
                                h2 as int, mi2 as int, sec2 as int, offset as int) <= after by {
                            lemma_eligible_ranges(s@, *now, y2, mo2, d2, h2, mi2, sec2);
                            let t2 = (y2 as int, mo2 as int, d2 as int, h2 as int, mi2 as int, sec2 as int);
                            lemma_key_lex(t2, w);
                            lemma_key_lex(t2, (y as int, mo as int, d as int, h as int, mi as int, 0));
                            if time_key(t2.0, t2.1, t2.2, t2.3, t2.4, t2.5) >= key0 {
                                let k = choose|k: int| 0 <= k < s.seconds@.len() && s.seconds@[k] == sec2;
                                assert(k < j as int);
                            }
                        }
                        assert(eligible(s@, *now, y, mo, d, h, mi, sec));
                    }
                    return Probe::Fire(t);
                }
            },
        }
        j += 1;
    }
    proof {
        assert forall|y2: i32, mo2: u32, d2: u32, h2: u32, mi2: u32, sec2: u32|
            #[trigger] eligible(s@, *now, y2, mo2, d2, h2, mi2, sec2) && time_key(y2 as int, mo2 as int,
                d2 as int, h2 as int, mi2 as int, sec2 as int) < time_key(y as int, mo as int, d as int,
                h as int, mi as int, 60) implies local_instant(y2 as int, mo2 as int, d2 as int, h2 as int,
                mi2 as int, sec2 as int, offset as int) <= after by {
            lemma_eligible_ranges(s@, *now, y2, mo2, d2, h2, mi2, sec2);
            let t2 = (y2 as int, mo2 as int, d2 as int, h2 as int, mi2 as int, sec2 as int);
            lemma_key_lex(t2, (y as int, mo as int, d as int, h as int, mi as int, 59));
            lemma_key_lex(t2, (y as int, mo as int, d as int, h as int, mi as int, 0));
            if time_key(t2.0, t2.1, t2.2, t2.3, t2.4, t2.5) >= key0 {
                let k = choose|k: int| 0 <= k < s.seconds@.len() && s.seconds@[k] == sec2;
                assert(local_instant(y as int, mo as int, d as int, h as int, mi as int, s.seconds@[k] as int, offset as int) <= after);
            }
        }
    }
    Probe::Exhausted
}

/// Tries the minutes of one hour in ascending order, from `now`'s minute in
/// `now`'s own hour.
fn scan_minutes(s: &CronSchedule, now: &CivilTime, after: i64, offset: i32, y: i32, mo: u32, d: u32, h: u32) -> (r: Probe)
    requires
        s.wf(),
        now.valid(),
        offset_ok(offset as int),
        now.year <= y < now.year + 5,
        s.months@.contains(mo),
        1 <= d <= days_in_month(y as int, mo as int),
        day_matches(s@, y as int, mo, d),
        s.hours@.contains(h),
        time_key(y as int, mo as int, d as int, h as int, 0, 0) >= time_key(now.year as int, now.month as int,
            now.day as int, now.hour as int, 0, 0),
        no_fire_below(s@, *now, after as int, offset as int, time_key(y as int, mo as int, d as int, h as int, 0, 0)),
    ensures
        r matches Probe::Fire(t) ==> is_first_fire(s@, *now, after as int, offset as int, t as int),
        r is Exhausted ==> no_fire_below(s@, *now, after as int, offset as int, time_key(y as int, mo as int, d as int, h as int, 60, 0)),
        r is Failed ==> !(MIN_YEAR < y < MAX_YEAR),
{
    proof {
        lemma_contains_within(s.months@, 1, 12, mo);
        lemma_contains_within(s.hours@, 0, 23, h);
    }
    let first_min = if y == now.year && mo == now.month && d == now.day && h == now.hour { now.minute } else { 0 };
    proof {
        let p0 = (y as int, mo as int, d as int, h as int, first_min as int, 0int);
        assert forall|y2: i32, mo2: u32, d2: u32, h2: u32, mi2: u32, sec2: u32|
            #[trigger] eligible(s@, *now, y2, mo2, d2, h2, mi2, sec2) && time_key(y2 as int, mo2 as int,
                d2 as int, h2 as int, mi2 as int, sec2 as int) < time_key(p0.0, p0.1, p0.2, p0.3, p0.4, p0.5)
                implies local_instant(y2 as int, mo2 as int, d2 as int, h2 as int, mi2 as int, sec2 as int,
                offset as int) <= after by {
            lemma_eligible_ranges(s@, *now, y2, mo2, d2, h2, mi2, sec2);
            let t2 = (y2 as int, mo2 as int, d2 as int, h2 as int, mi2 as int, sec2 as int);
            lemma_key_lex(t2, p0);
            lemma_key_lex(t2, (y as int, mo as int, d as int, h as int, 0, 0));
            lemma_key_lex((y2 as int, mo2 as int, d2 as int, h2 as int, mi2 as int, 0),
                (now.year as int, now.month as int, now.day as int, now.hour as int, now.minute as int, 0));
        }
    }
    let mut mi = first_min;
    while mi < 60
        invariant
            first_min <= mi <= 60,
            s.wf(),
            now.valid(),
            offset_ok(offset as int),
            now.year <= y < now.year + 5,
            s.months@.contains(mo),
            1 <= mo <= 12,
            1 <= d <= days_in_month(y as int, mo as int),
            day_matches(s@, y as int, mo, d),
            s.hours@.contains(h),
            h < 24,
            first_min == (if y == now.year && mo == now.month && d == now.day && h == now.hour { now.minute } else { 0 }),
            time_key(y as int, mo as int, d as int, h as int, 0, 0) >= time_key(now.year as int, now.month as int,
                now.day as int, now.hour as int, 0, 0),
            no_fire_below(s@, *now, after as int, offset as int, time_key(y as int, mo as int, d as int, h as int, mi as int, 0)),
        decreases 60 - mi,
    {
        proof {
            lemma_key_lex((y as int, mo as int, d as int, h as int, mi as int, 0),
                (now.year as int, now.month as int, now.day as int, now.hour as int, now.minute as int, 0));
            lemma_key_lex((y as int, mo as int, d as int, h as int, 0, 0),
                (now.year as int, now.month as int, now.day as int, now.hour as int, 0, 0));
        }
        if contains_u32(&s.minutes, mi) {
            match scan_seconds(s, now, after, offset, y, mo, d, h, mi) {
                Probe::Fire(t) => {
                    return Probe::Fire(t);
                },
                Probe::Failed => {
                    return Probe::Failed;
                },
                Probe::Exhausted => {},
            }
        } else {
            proof {
                assert forall|y2: i32, mo2: u32, d2: u32, h2: u32, mi2: u32, sec2: u32|
                    #[trigger] eligible(s@, *now, y2, mo2, d2, h2, mi2, sec2) && time_key(y2 as int, mo2 as int,
                        d2 as int, h2 as int, mi2 as int, sec2 as int) < time_key(y as int, mo as int, d as int,
                        h as int, mi as int, 60) implies local_instant(y2 as int, mo2 as int, d2 as int, h2 as int,
                        mi2 as int, sec2 as int, offset as int) <= after by {
                    lemma_eligible_ranges(s@, *now, y2, mo2, d2, h2, mi2, sec2);
                    let t2 = (y2 as int, mo2 as int, d2 as int, h2 as int, mi2 as int, sec2 as int);
                    lemma_key_lex(t2, (y as int, mo as int, d as int, h as int, mi as int, 0));
                    lemma_key_lex(t2, (y as int, mo as int, d as int, h as int, mi as int, 59));
                }
            }
        }
        mi += 1;
    }
    Probe::Exhausted
}

/// Tries the hours of one day in ascending order, from `now`'s hour on
/// `now`'s own day.
fn scan_hours(s: &CronSchedule, now: &CivilTime, after: i64, offset: i32, y: i32, mo: u32, d: u32) -> (r: Probe)
    requires
        s.wf(),
        now.valid(),
        offset_ok(offset as int),
        now.year <= y < now.year + 5,
        s.months@.contains(mo),
        1 <= d <= days_in_month(y as int, mo as int),
        day_matches(s@, y as int, mo, d),
        time_key(y as int, mo as int, d as int, 0, 0, 0) >= time_key(now.year as int, now.month as int,
            now.day as int, 0, 0, 0),
        no_fire_below(s@, *now, after as int, offset as int, time_key(y as int, mo as int, d as int, 0, 0, 0)),
    ensures
        r matches Probe::Fire(t) ==> is_first_fire(s@, *now, after as int, offset as int, t as int),
        r is Exhausted ==> no_fire_below(s@, *now, after as int, offset as int, time_key(y as int, mo as int, d as int, 24, 0, 0)),
        r is Failed ==> !(MIN_YEAR < y < MAX_YEAR),
{
    proof {
        lemma_contains_within(s.months@, 1, 12, mo);
    }
    let first_hour = if y == now.year && mo == now.month && d == now.day { now.hour } else { 0 };
    proof {
        let p0 = (y as int, mo as int, d as int, first_hour as int, 0int, 0int);
        assert forall|y2: i32, mo2: u32, d2: u32, h2: u32, mi2: u32, sec2: u32|
            #[trigger] eligible(s@, *now, y2, mo2, d2, h2, mi2, sec2) && time_key(y2 as int, mo2 as int,
                d2 as int, h2 as int, mi2 as int, sec2 as int) < time_key(p0.0, p0.1, p0.2, p0.3, p0.4, p0.5)
                implies local_instant(y2 as int, mo2 as int, d2 as int, h2 as int, mi2 as int, sec2 as int,
                offset as int) <= after by {
            lemma_eligible_ranges(s@, *now, y2, mo2, d2, h2, mi2, sec2);
            let t2 = (y2 as int, mo2 as int, d2 as int, h2 as int, mi2 as int, sec2 as int);
            lemma_key_lex(t2, p0);
            lemma_key_lex(t2, (y as int, mo as int, d as int, 0, 0, 0));
            lemma_key_lex((y2 as int, mo2 as int, d2 as int, h2 as int, mi2 as int, 0),
                (now.year as int, now.month as int, now.day as int, now.hour as int, now.minute as int, 0));
        }
    }
    let mut h = first_hour;
    while h < 24
        invariant
            first_hour <= h <= 24,
            s.wf(),
            now.valid(),
            offset_ok(offset as int),
            now.year <= y < now.year + 5,
            s.months@.contains(mo),
            1 <= mo <= 12,
            1 <= d <= days_in_month(y as int, mo as int),
            day_matches(s@, y as int, mo, d),
            first_hour == (if y == now.year && mo == now.month && d == now.day { now.hour } else { 0 }),
            time_key(y as int, mo as int, d as int, 0, 0, 0) >= time_key(now.year as int, now.month as int,
                now.day as int, 0, 0, 0),
            no_fire_below(s@, *now, after as int, offset as int, time_key(y as int, mo as int, d as int, h as int, 0, 0)),
        decreases 24 - h,
    {
        proof {
            lemma_key_lex((y as int, mo as int, d as int, h as int, 0, 0),
                (now.year as int, now.month as int, now.day as int, now.hour as int, 0, 0));
            lemma_key_lex((y as int, mo as int, d as int, 0, 0, 0),
                (now.year as int, now.month as int, now.day as int, 0, 0, 0));
        }
        if contains_u32(&s.hours, h) {
            match scan_minutes(s, now, after, offset, y, mo, d, h) {
                Probe::Fire(t) => {
                    return Probe::Fire(t);
                },
                Probe::Failed => {
                    return Probe::Failed;
                },
                Probe::Exhausted => {},
            }
        } else {
            proof {
                assert forall|y2: i32, mo2: u32, d2: u32, h2: u32, mi2: u32, sec2: u32|
                    #[trigger] eligible(s@, *now, y2, mo2, d2, h2, mi2, sec2) && time_key(y2 as int, mo2 as int,
                        d2 as int, h2 as int, mi2 as int, sec2 as int) < time_key(y as int, mo as int, d as int,
                        h as int, 60, 0) implies local_instant(y2 as int, mo2 as int, d2 as int, h2 as int,
                        mi2 as int, sec2 as int, offset as int) <= after by {
                    lemma_eligible_ranges(s@, *now, y2, mo2, d2, h2, mi2, sec2);
                    let t2 = (y2 as int, mo2 as int, d2 as int, h2 as int, mi2 as int, sec2 as int);
                    lemma_key_lex(t2, (y as int, mo as int, d as int, h as int, 0, 0));
                    lemma_key_lex(t2, (y as int, mo as int, d as int, h as int, 59, 59));
                }
            }
        }
        h += 1;
    }
    Probe::Exhausted
}

/// Tries the days of one month in ascending order, from `now`'s day in
/// `now`'s own month; a day must pass the day-of-month and day-of-week sets.
fn scan_days(s: &CronSchedule, now: &CivilTime, after: i64, offset: i32, y: i32, mo: u32, last_day: u32) -> (r: Probe)
    requires
        s.wf(),
        now.valid(),
        offset_ok(offset as int),
        now.year <= y < now.year + 5,
        s.months@.contains(mo),
        last_day == days_in_month(y as int, mo as int),
        time_key(y as int, mo as int, 0, 0, 0, 0) >= time_key(now.year as int, now.month as int, 0, 0, 0, 0),
        no_fire_below(s@, *now, after as int, offset as int, time_key(y as int, mo as int, 0, 0, 0, 0)),
    ensures
        r matches Probe::Fire(t) ==> is_first_fire(s@, *now, after as int, offset as int, t as int),
        r is Exhausted ==> no_fire_below(s@, *now, after as int, offset as int, time_key(y as int, mo as int, 32, 0, 0, 0)),
        r is Failed ==> !(MIN_YEAR < y < MAX_YEAR),
{
    proof {
        lemma_contains_within(s.months@, 1, 12, mo);
    }
    let first_day = if y == now.year && mo == now.month { now.day } else { 1 };
    proof {
        let p0 = (y as int, mo as int, first_day as int, 0int, 0int, 0int);
        assert forall|y2: i32, mo2: u32, d2: u32, h2: u32, mi2: u32, sec2: u32|
            #[trigger] eligible(s@, *now, y2, mo2, d2, h2, mi2, sec2) && time_key(y2 as int, mo2 as int,
                d2 as int, h2 as int, mi2 as int, sec2 as int) < time_key(p0.0, p0.1, p0.2, p0.3, p0.4, p0.5)
                implies local_instant(y2 as int, mo2 as int, d2 as int, h2 as int, mi2 as int, sec2 as int,
                offset as int) <= after by {
            lemma_eligible_ranges(s@, *now, y2, mo2, d2, h2, mi2, sec2);
            let t2 = (y2 as int, mo2 as int, d2 as int, h2 as int, mi2 as int, sec2 as int);
            lemma_key_lex(t2, p0);
            lemma_key_lex(t2, (y as int, mo as int, 0, 0, 0, 0));
            lemma_key_lex((y2 as int, mo2 as int, d2 as int, h2 as int, mi2 as int, 0),
                (now.year as int, now.month as int, now.day as int, now.hour as int, now.minute as int, 0));
        }
    }
    let mut d = first_day;
    while d <= last_day
        invariant
            first_day <= d <= last_day + 1,
            s.wf(),
            now.valid(),
            offset_ok(offset as int),
            now.year <= y < now.year + 5,
            s.months@.contains(mo),
            1 <= mo <= 12,
            last_day == days_in_month(y as int, mo as int),
            first_day == (if y == now.year && mo == now.month { now.day } else { 1 }),
            time_key(y as int, mo as int, 0, 0, 0, 0) >= time_key(now.year as int, now.month as int, 0, 0, 0, 0),
            no_fire_below(s@, *now, after as int, offset as int, time_key(y as int, mo as int, d as int, 0, 0, 0)),
        decreases last_day + 1 - d,
    {
        proof {
            lemma_key_lex((y as int, mo as int, d as int, 0, 0, 0),
                (now.year as int, now.month as int, now.day as int, 0, 0, 0));
            lemma_key_lex((y as int, mo as int, 0, 0, 0, 0), (now.year as int, now.month as int, 0, 0, 0, 0));
        }
        let w = match weekday_of(y, mo, d) {
            Some(w) => w,
            None => {
                return Probe::Failed;
            },
        };
        let dom_restricted = s.days_of_month.len() < 31;
        let dow_restricted = s.days_of_week.len() < 7;
        let dom_ok = contains_u32(&s.days_of_month, d);
        let dow_ok = contains_u32(&s.days_of_week, w + 1);
        let day_ok = if dom_restricted && dow_restricted {
            dom_ok || dow_ok
        } else if dom_restricted {
            dom_ok
        } else if dow_restricted {
            dow_ok
        } else {
            true
        };
        assert(day_ok == day_matches(s@, y as int, mo, d));
        if day_ok {
            match scan_hours(s, now, after, offset, y, mo, d) {
                Probe::Fire(t) => {
                    return Probe::Fire(t);
                },
                Probe::Failed => {
                    return Probe::Failed;
                },
                Probe::Exhausted => {},
            }
        } else {
            proof {
                assert forall|y2: i32, mo2: u32, d2: u32, h2: u32, mi2: u32, sec2: u32|
                    #[trigger] eligible(s@, *now, y2, mo2, d2, h2, mi2, sec2) && time_key(y2 as int, mo2 as int,
                        d2 as int, h2 as int, mi2 as int, sec2 as int) < time_key(y as int, mo as int, d as int,
                        24, 0, 0) implies local_instant(y2 as int, mo2 as int, d2 as int, h2 as int,
                        mi2 as int, sec2 as int, offset as int) <= after by {
                    lemma_eligible_ranges(s@, *now, y2, mo2, d2, h2, mi2, sec2);
                    let t2 = (y2 as int, mo2 as int, d2 as int, h2 as int, mi2 as int, sec2 as int);
                    lemma_key_lex(t2, (y as int, mo as int, d as int, 0, 0, 0));
                    lemma_key_lex(t2, (y as int, mo as int, d as int, 23, 59, 59));
                }
            }
        }
        d += 1;
    }
    proof {
        assert forall|y2: i32, mo2: u32, d2: u32, h2: u32, mi2: u32, sec2: u32|
            #[trigger] eligible(s@, *now, y2, mo2, d2, h2, mi2, sec2) && time_key(y2 as int, mo2 as int,
                d2 as int, h2 as int, mi2 as int, sec2 as int) < time_key(y as int, mo as int, 32, 0, 0, 0)
                implies local_instant(y2 as int, mo2 as int, d2 as int, h2 as int, mi2 as int, sec2 as int,
                offset as int) <= after by {
            lemma_eligible_ranges(s@, *now, y2, mo2, d2, h2, mi2, sec2);
            let t2 = (y2 as int, mo2 as int, d2 as int, h2 as int, mi2 as int, sec2 as int);
            lemma_key_lex(t2, (y as int, mo as int, last_day as int, 23, 59, 59));
            lemma_key_lex(t2, (y as int, mo as int, 31, 23, 59, 59));
        }
    }
    Probe::Exhausted
}

pub proof fn lemma_key_year_end(a: (int, int, int, int, int, int), y: int)
    requires
        in_ranges(a.1, a.2, a.3, a.4, a.5),
    ensures
        time_key(a.0, a.1, a.2, a.3, a.4, a.5) < time_key(y, 13, 0, 0, 0, 0) <==> a.0 <= y,
        time_key(y, 13, 0, 0, 0, 0) == time_key(y + 1, 0, 0, 0, 0, 0),
{
    lemma_key_lex(a, (y, 12, 31, 23, 59, 59));
    lemma_key_lex(a, (y + 1, 0, 0, 0, 0, 0));
}

/// The month at position `i` of the schedule's months, or 13 past the end.
pub open spec fn month_bound(s: UnitSets, i: int) -> int {
    if i < s.4.len() { s.4[i] as int } else { 13 }
}

/// Tries the schedule's months of one year in ascending order, from `now`'s
/// month in `now`'s own year.
fn scan_months(s: &CronSchedule, now: &CivilTime, after: i64, offset: i32, y: i32) -> (r: Probe)
    requires
        s.wf(),
        now.valid(),
        offset_ok(offset as int),
        now.year <= y < now.year + 5,
        y < i32::MAX,
        no_fire_below(s@, *now, after as int, offset as int, time_key(y as int, 0, 0, 0, 0, 0)),
    ensures
        r matches Probe::Fire(t) ==> is_first_fire(s@, *now, after as int, offset as int, t as int),
        r is Exhausted ==> no_fire_below(s@, *now, after as int, offset as int, time_key(y as int, 13, 0, 0, 0, 0)),
        r is Failed ==> !(MIN_YEAR < y < MAX_YEAR),
{
    proof {
        assert forall|y2: i32, mo2: u32, d2: u32, h2: u32, mi2: u32, sec2: u32|
            #[trigger] eligible(s@, *now, y2, mo2, d2, h2, mi2, sec2) && time_key(y2 as int, mo2 as int,
                d2 as int, h2 as int, mi2 as int, sec2 as int) < time_key(y as int, month_bound(s@, 0), 0, 0, 0, 0)
                implies local_instant(y2 as int, mo2 as int, d2 as int, h2 as int, mi2 as int, sec2 as int,
                offset as int) <= after by {
            lemma_eligible_ranges(s@, *now, y2, mo2, d2, h2, mi2, sec2);
            let t2 = (y2 as int, mo2 as int, d2 as int, h2 as int, mi2 as int, sec2 as int);
            lemma_key_lex(t2, (y as int, 0, 0, 0, 0, 0));
            if s.months@.len() > 0 {
                lemma_key_lex(t2, (y as int, month_bound(s@, 0), 0, 0, 0, 0));
            } else {
                lemma_key_year_end(t2, y as int);
            }
            let k = choose|k: int| 0 <= k < s.months@.len() && s.months@[k] == mo2;
            assert(s.months@[0] <= s.months@[k]);
        }
    }
    let mut i: usize = 0;
    while i < s.months.len()
        invariant
            i <= s.months@.len(),
            s.wf(),
            now.valid(),
            offset_ok(offset as int),
            now.year <= y < now.year + 5,
            y < i32::MAX,
            no_fire_below(s@, *now, after as int, offset as int, time_key(y as int, month_bound(s@, i as int), 0, 0, 0, 0)),
        decreases s.months.len() - i,
    {
        let m = s.months[i];
        assert(s.months@.contains(m));
        assert(1 <= m <= 12);
        if y == now.year && m < now.month {
            proof {
                assert forall|y2: i32, mo2: u32, d2: u32, h2: u32, mi2: u32, sec2: u32|
                    #[trigger] eligible(s@, *now, y2, mo2, d2, h2, mi2, sec2) && time_key(y2 as int, mo2 as int,
                        d2 as int, h2 as int, mi2 as int, sec2 as int) < time_key(y as int, month_bound(s@, i + 1), 0, 0, 0, 0)
                        implies local_instant(y2 as int, mo2 as int, d2 as int, h2 as int, mi2 as int, sec2 as int,
                        offset as int) <= after by {
                    lemma_eligible_ranges(s@, *now, y2, mo2, d2, h2, mi2, sec2);
                    let t2 = (y2 as int, mo2 as int, d2 as int, h2 as int, mi2 as int, sec2 as int);
                    lemma_key_lex(t2, (y as int, m as int, 0, 0, 0, 0));
                    if i + 1 < s.months@.len() {
                        lemma_key_lex(t2, (y as int, month_bound(s@, i + 1), 0, 0, 0, 0));
                    } else {
                        lemma_key_year_end(t2, y as int);
                    }
                    lemma_key_lex((y2 as int, mo2 as int, d2 as int, h2 as int, mi2 as int, 0),
                        (now.year as int, now.month as int, now.day as int, now.hour as int, now.minute as int, 0));
                    let k = choose|k: int| 0 <= k < s.months@.len() && s.months@[k] == mo2;
                    if k > i {
                        assert(s.months@[i as int + 1] <= s.months@[k]);
                    }
                }
            }
        } else {
            let (ny, nm) = if m == 12 { (y + 1, 1u32) } else { (y, m + 1) };
            let last_day = match last_day_before(ny, nm) {
                Some(ld) => ld,
                None => {
                    return Probe::Failed;
                },
            };
            proof {
                lemma_key_lex((y as int, m as int, 0, 0, 0, 0), (now.year as int, now.month as int, 0, 0, 0, 0));
                assert forall|y2: i32, mo2: u32, d2: u32, h2: u32, mi2: u32, sec2: u32|
                    #[trigger] eligible(s@, *now, y2, mo2, d2, h2, mi2, sec2) && time_key(y2 as int, mo2 as int,
                        d2 as int, h2 as int, mi2 as int, sec2 as int) < time_key(y as int, m as int, 0, 0, 0, 0)
                        implies local_instant(y2 as int, mo2 as int, d2 as int, h2 as int, mi2 as int, sec2 as int,
                        offset as int) <= after by {
                    lemma_eligible_ranges(s@, *now, y2, mo2, d2, h2, mi2, sec2);
                    let t2 = (y2 as int, mo2 as int, d2 as int, h2 as int, mi2 as int, sec2 as int);
                    lemma_key_lex(t2, (y as int, month_bound(s@, i as int), 0, 0, 0, 0));
                }
            }
            match scan_days(s, now, after, offset, y, m, last_day) {
                Probe::Fire(t) => {
                    return Probe::Fire(t);
                },
                Probe::Failed => {
                    return Probe::Failed;
                },
                Probe::Exhausted => {},
            }
            proof {
                assert forall|y2: i32, mo2: u32, d2: u32, h2: u32, mi2: u32, sec2: u32|
                    #[trigger] eligible(s@, *now, y2, mo2, d2, h2, mi2, sec2) && time_key(y2 as int, mo2 as int,
                        d2 as int, h2 as int, mi2 as int, sec2 as int) < time_key(y as int, month_bound(s@, i + 1), 0, 0, 0, 0)
                        implies local_instant(y2 as int, mo2 as int, d2 as int, h2 as int, mi2 as int, sec2 as int,
                        offset as int) <= after by {
                    lemma_eligible_ranges(s@, *now, y2, mo2, d2, h2, mi2, sec2);
                    let t2 = (y2 as int, mo2 as int, d2 as int, h2 as int, mi2 as int, sec2 as int);
                    lemma_key_lex(t2, (y as int, m as int, 31, 23, 59, 59));
                    if i + 1 < s.months@.len() {
                        lemma_key_lex(t2, (y as int, month_bound(s@, i + 1), 0, 0, 0, 0));
                    } else {
                        lemma_key_year_end(t2, y as int);
                    }
                    let k = choose|k: int| 0 <= k < s.months@.len() && s.months@[k] == mo2;
                    if k > i {
                        assert(s.months@[i as int + 1] <= s.months@[k]);
                    }
                }
            }
        }
        i += 1;
    }
    Probe::Exhausted
}

/// Searches the five years from `now`'s year for the first considered local
/// time after `after`.
fn search_fire(s: &CronSchedule, now: &CivilTime, after: i64, offset: i32) -> (r: Probe)
    requires
        s.wf(),
        now.valid(),
        offset_ok(offset as int),
        MIN_YEAR - 1 <= now.year <= MAX_YEAR + 1,
    ensures
        r matches Probe::Fire(t) ==> is_first_fire(s@, *now, after as int, offset as int, t as int),
        r is Exhausted ==> no_fire(s@, *now, after as int, offset as int),
        r is Failed ==> !search_years_ok(now.year as int),
{
    proof {
        assert forall|y2: i32, mo2: u32, d2: u32, h2: u32, mi2: u32, sec2: u32|
            #[trigger] eligible(s@, *now, y2, mo2, d2, h2, mi2, sec2) && time_key(y2 as int, mo2 as int,
                d2 as int, h2 as int, mi2 as int, sec2 as int) < time_key(now.year as int, 0, 0, 0, 0, 0)
                implies local_instant(y2 as int, mo2 as int, d2 as int, h2 as int, mi2 as int, sec2 as int,
                offset as int) <= after by {
            lemma_eligible_ranges(s@, *now, y2, mo2, d2, h2, mi2, sec2);
            lemma_key_lex((y2 as int, mo2 as int, d2 as int, h2 as int, mi2 as int, sec2 as int),
                (now.year as int, 0, 0, 0, 0, 0));
        }
    }
    let mut k: i32 = 0;
    while k < 5
        invariant
            0 <= k <= 5,
            s.wf(),
            now.valid(),
            offset_ok(offset as int),
            MIN_YEAR - 1 <= now.year <= MAX_YEAR + 1,
            no_fire_below(s@, *now, after as int, offset as int, time_key(now.year + k, 0, 0, 0, 0, 0)),
        decreases 5 - k,
    {
        let y = now.year + k;
        match scan_months(s, now, after, offset, y) {
            Probe::Fire(t) => {
                return Probe::Fire(t);
            },
            Probe::Failed => {
                return Probe::Failed;
            },
            Probe::Exhausted => {},
        }
        proof {
            lemma_key_year_end((0, 0, 0, 0, 0, 0), y as int);
        }
        k += 1;
    }
    Probe::Exhausted
}

proof fn lemma_days_next_month(y: int, m: int)
    requires
        1 <= m < 12,
    ensures
        days_from_civil(y, m + 1, 1) == days_from_civil(y, m, days_in_month(y, m)) + 1,
{
    if m == 2 {
        assert(y / 4 - (y - 1) / 4 == (if y % 4 == 0 { 1int } else { 0 }));
        assert(y / 100 - (y - 1) / 100 == (if y % 100 == 0 { 1int } else { 0 }));
        assert(y / 400 - (y - 1) / 400 == (if y % 400 == 0 { 1int } else { 0 }));
    }
}

proof fn lemma_days_first_le(y: int, m: int, d: int)
    requires
        valid_date(y, m, d),
    ensures
        days_from_civil(y, 1, 1) <= days_from_civil(y, m, d),
    decreases m,
{
    if m > 1 {
        lemma_days_next_month(y, m - 1);
        lemma_days_first_le(y, m - 1, days_in_month(y, m - 1));
    }
}

proof fn lemma_days_le_last(y: int, m: int, d: int)
    requires
        valid_date(y, m, d),
    ensures
        days_from_civil(y, m, d) <= days_from_civil(y, 12, 31),
    decreases 12 - m,
{
    if m < 12 {
        lemma_days_next_month(y, m);
        lemma_days_le_last(y, m + 1, 1);
    }
}

proof fn lemma_days_same_year(y: int, m1: int, d1: int, m2: int, d2: int)
    requires
        valid_date(y, m1, d1),
        valid_date(y, m2, d2),
        m1 < m2 || (m1 == m2 && d1 < d2),
    ensures
        days_from_civil(y, m1, d1) < days_from_civil(y, m2, d2),
    decreases m2 - m1,
{
    if m1 < m2 {
        lemma_days_next_month(y, m1);
        if m1 + 1 < m2 || 1 < d2 {
            lemma_days_same_year(y, m1 + 1, 1, m2, d2);
        }
    }
}

proof fn lemma_days_years(y1: int, y2: int)
    requires
        y1 < y2,
    ensures
        days_from_civil(y1, 12, 31) < days_from_civil(y2, 1, 1),
    decreases y2 - y1,
{
    if y1 + 1 < y2 {
        lemma_days_years(y1 + 1, y2);
        lemma_days_le_last(y1 + 1, 1, 1);
    }
}

/// Later calendar dates have more days since the epoch.
pub proof fn lemma_days_increasing(y1: int, m1: int, d1: int, y2: int, m2: int, d2: int)
    requires
        valid_date(y1, m1, d1),
        valid_date(y2, m2, d2),
        lex_lt((y1, m1, d1, 0, 0, 0), (y2, m2, d2, 0, 0, 0)),
    ensures
        days_from_civil(y1, m1, d1) < days_from_civil(y2, m2, d2),
{
    if y1 == y2 {
        lemma_days_same_year(y1, m1, d1, m2, d2);
    } else {
        lemma_days_le_last(y1, m1, d1);
        lemma_days_years(y1, y2);
        lemma_days_first_le(y2, m2, d2);
    }
}

/// A valid local time.
pub open spec fn valid_local(t: (int, int, int, int, int, int)) -> bool {
    valid_date(t.0, t.1, t.2) && 0 <= t.3 < 24 && 0 <= t.4 < 60 && 0 <= t.5 < 60
}

/// Local times later field by field are later instants.
pub proof fn lemma_instant_increasing(a: (int, int, int, int, int, int), b: (int, int, int, int, int, int), offset: int)
    requires
        valid_local(a),
        valid_local(b),
        lex_lt(a, b),
    ensures
        local_instant(a.0, a.1, a.2, a.3, a.4, a.5, offset) < local_instant(b.0, b.1, b.2, b.3, b.4, b.5, offset),
{
    if (a.0, a.1, a.2) != (b.0, b.1, b.2) {
        lemma_days_increasing(a.0, a.1, a.2, b.0, b.1, b.2);
    }
}

/// A Unix time has one local time at a given offset.
pub proof fn lemma_local_time_unique(c1: CivilTime, c2: CivilTime, after: int, offset: int)
    requires
        is_local_time_of(c1, after, offset),
        is_local_time_of(c2, after, offset),
    ensures
        c1 == c2,
{
    let a = (c1.year as int, c1.month as int, c1.day as int, c1.hour as int, c1.minute as int, c1.second as int);
    let b = (c2.year as int, c2.month as int, c2.day as int, c2.hour as int, c2.minute as int, c2.second as int);
    if lex_lt(a, b) {
        lemma_instant_increasing(a, b, offset);
    } else if lex_lt(b, a) {
        lemma_instant_increasing(b, a, offset);
    }
}

/// The first fire time is the earliest instant after `after` at which the
/// schedule fires, among the local times considered.
pub proof fn lemma_first_fire_is_earliest(s: UnitSets, now: CivilTime, after: int, offset: int, t: int,
    y: i32, mo: u32, d: u32, h: u32, mi: u32, sec: u32)
    requires
        units_wf(s),
        is_first_fire(s, now, after, offset, t),
        eligible(s, now, y, mo, d, h, mi, sec),
        local_instant(y as int, mo as int, d as int, h as int, mi as int, sec as int, offset) > after,
    ensures
        t <= local_instant(y as int, mo as int, d as int, h as int, mi as int, sec as int, offset),
{
    let (wy, wmo, wd, wh, wmi, wsec) = choose|y: i32, mo: u32, d: u32, h: u32, mi: u32, sec: u32|
        #[trigger] eligible(s, now, y, mo, d, h, mi, sec) && local_instant(y as int, mo as int, d as int,
            h as int, mi as int, sec as int, offset) == t && t > after && no_fire_below(s, now, after,
            offset, time_key(y as int, mo as int, d as int, h as int, mi as int, sec as int));
    let w = (wy as int, wmo as int, wd as int, wh as int, wmi as int, wsec as int);
    let u = (y as int, mo as int, d as int, h as int, mi as int, sec as int);
    lemma_eligible_ranges(s, now, y, mo, d, h, mi, sec);
    lemma_eligible_ranges(s, now, wy, wmo, wd, wh, wmi, wsec);
    lemma_key_lex(u, w);
    if lex_lt(w, u) {
        lemma_instant_increasing(w, u, offset);
    }
}


/// `c` is the local time of the Unix time `after` at `offset`.
pub open spec fn is_local_time_of(c: CivilTime, after: int, offset: int) -> bool {
    c.valid() && c.instant(offset) == after
}

/// `t` is the first fire time of `s` after `after`, searching from the local
/// time of `after`.
pub open spec fn next_fire_after(s: UnitSets, after: int, offset: int, t: int) -> bool {
    exists|c: CivilTime| #[trigger] is_local_time_of(c, after, offset) && is_first_fire(s, c, after, offset, t)
}

/// Searching from the local time of `after`, `s` does not fire after `after`.
pub open spec fn never_fires_after(s: UnitSets, after: int, offset: int) -> bool {
    exists|c: CivilTime| #[trigger] is_local_time_of(c, after, offset) && no_fire(s, c, after, offset)
}

proof fn lemma_fire_excludes_no_fire(s: UnitSets, now: CivilTime, after: int, offset: int, t: int)
    requires
        units_wf(s),
        is_first_fire(s, now, after, offset, t),
    ensures
        !no_fire(s, now, after, offset),
{
    let (y, mo, d, h, mi, sec) = choose|y: i32, mo: u32, d: u32, h: u32, mi: u32, sec: u32|
        #[trigger] eligible(s, now, y, mo, d, h, mi, sec) && local_instant(y as int, mo as int, d as int,
            h as int, mi as int, sec as int, offset) == t && t > after && no_fire_below(s, now, after,
            offset, time_key(y as int, mo as int, d as int, h as int, mi as int, sec as int));
    lemma_eligible_ranges(s, now, y, mo, d, h, mi, sec);
    lemma_key_lex((y as int, mo as int, d as int, h as int, mi as int, sec as int), (now.year + 5, 0, 0, 0, 0, 0));
}

/// The next time at which `schedule` fires after the Unix time `after`, its
/// fields read in the local time `offset` seconds east of UTC. Local times
/// are tried field by field in ascending order over five years, from the
/// minute of `after`; the day-of-month and day-of-week sets are joined by
/// "or" when both are restricted.
pub fn next_local_fire(schedule: &CronSchedule, after: i64, offset: i32) -> (r: Option<i64>)
    requires
        schedule.wf(),
        offset_ok(offset as int),
    ensures
        r matches Some(t) ==> next_fire_after(schedule@, after as int, offset as int, t as int),
        instant_ok(after as int) ==> (r is None <==> never_fires_after(schedule@, after as int, offset as int)),
{
    let now = match local_time_of(after, offset) {
        Some(c) => c,
        None => {
            return None;
        },
    };
    match search_fire(schedule, &now, after, offset) {
        Probe::Fire(t) => {
            proof {
                assert(is_first_fire(schedule@, now, after as int, offset as int, t as int));
                assert(now.valid() && now.instant(offset as int) == after);
                assert(is_local_time_of(now, after as int, offset as int));
                lemma_fire_excludes_no_fire(schedule@, now, after as int, offset as int, t as int);
                if never_fires_after(schedule@, after as int, offset as int) {
                    let c = choose|c: CivilTime| #[trigger] is_local_time_of(c, after as int, offset as int)
                        && no_fire(schedule@, c, after as int, offset as int);
                    lemma_local_time_unique(c, now, after as int, offset as int);
                }
            }
            Some(t)
        },
        Probe::Exhausted => {
            proof {
                assert(is_local_time_of(now, after as int, offset as int));
            }
            None
        },
        Probe::Failed => {
            proof {
                if instant_ok(after as int) {
                    assert(search_years_ok(now.year as int));
                }
            }
            None
        },
    }
}

/// The schedule text handed to the parser: 5-field expressions are first
/// converted to the 7-field form.
pub open spec fn schedule_text(expr: Seq<char>) -> Seq<char> {
    crate::cron_expr::convert_5field_spec(expr)
}

/// The error of a schedule with no fire time in the searched years.
pub open spec fn no_upcoming_message() -> Seq<char> {
    "No upcoming fire time for schedule"@
}

impl crate::scheduler::CronScheduler {
    /// Checks a schedule expression, 5- or 7-field; the error is the parser's.
    pub fn validate_schedule(schedule_expr: &str) -> (r: Result<(), String>)
        ensures
            r is Ok <==> cron_parse(schedule_text(schedule_expr@)) is Ok,
            r matches Err(e) ==> (cron_parse(schedule_text(schedule_expr@)) matches Err(m) && m == e@),
    {
        let text = crate::cron_expr::convert_5field_to_7field(schedule_expr);
        match parse_schedule(text.as_str()) {
            Ok(_) => Ok(()),
            Err(e) => Err(e),
        }
    }

    /// The next fire time after the Unix time `now` of a schedule expression, 5-
    /// or 7-field, read in the local time `offset` seconds east of UTC.
    pub fn next_fire_time(schedule_expr: &str, now: i64, offset: i32) -> (r: Result<i64, String>)
        requires
            offset_ok(offset as int),
        ensures
            cron_parse(schedule_text(schedule_expr@)) matches Err(m) ==> (r matches Err(e) && e@ == m),
            r matches Ok(t) ==> (cron_parse(schedule_text(schedule_expr@)) matches Ok(u)
                && next_fire_after(u, now as int, offset as int, t as int)),
            cron_parse(schedule_text(schedule_expr@)) matches Ok(u) ==> (r matches Err(e) ==> e@ == no_upcoming_message()),
            cron_parse(schedule_text(schedule_expr@)) matches Ok(u) ==> (instant_ok(now as int) ==> (r is Err
                <==> never_fires_after(u, now as int, offset as int))),
    {
        let text = crate::cron_expr::convert_5field_to_7field(schedule_expr);
        let schedule = match parse_schedule(text.as_str()) {
            Ok(s) => s,
            Err(e) => {
                return Err(e);
            },
        };
        match next_local_fire(&schedule, now, offset) {
            Some(t) => Ok(t),
            None => Err(crate::text::string_of(&crate::text::chars_of("No upcoming fire time for schedule"))),
        }
    }
}

} // verus!
