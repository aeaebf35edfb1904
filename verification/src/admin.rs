//! The rules of user administration: who may manage users, which accounts
//! may be moved to the trash, restored or deleted, and how long a trashed
//! account has left before it is purged.
use vstd::prelude::*;
use crate::schedule::instant_ok;
use crate::text::{chars_eq, chars_of, string_of};

verus! {

/// Days a trashed account is kept before it is purged.
pub const TRASH_RETENTION_DAYS: i64 = 7;

/// A user account as stored.
#[derive(Debug)]
pub struct User {
    pub id: String,
    pub username: String,
    pub password_hash: String,
    pub is_public: bool,
    pub is_admin: bool,
    pub created_at: String,
    /// When the account was moved to the trash (`%Y-%m-%d %H:%M:%S`, UTC).
    pub deleted_at: Option<String>,
}

/// A refused administration request: HTTP status and message.
#[derive(Debug)]
pub struct AdminError {
    pub status: u16,
    pub message: String,
}

/// The refusal with `status` and `message`.
pub open spec fn refused(r: Result<(), AdminError>, status: u16, message: Seq<char>) -> bool {
    r matches Err(e) && e.status == status && e.message@ == message
}

fn refuse(status: u16, message: &str) -> (r: Result<(), AdminError>)
    ensures
        refused(r, status, message@),
{
    Err(AdminError { status, message: string_of(&chars_of(message)) })
}

/// Only an administrator may manage users.
pub fn ensure_admin(is_admin: bool) -> (r: Result<(), AdminError>)
    ensures
        is_admin ==> r is Ok,
        !is_admin ==> refused(r, 403, "Admin access required"@),
{
    if is_admin {
        Ok(())
    } else {
        refuse(403, "Admin access required")
    }
}

/// Whether the account `target` may be trashed or deleted by the caller
/// `caller_id`: it must exist, not be an administrator, and not be the
/// caller's own.
pub fn check_deletable(target: Option<&User>, caller_id: &str) -> (r: Result<(), AdminError>)
    ensures
        target is None ==> refused(r, 404, "User not found"@),
        target matches Some(t) ==> {
            &&& t.is_admin ==> refused(r, 400, "Cannot delete admin account"@)
            &&& !t.is_admin && t.id@ == caller_id@ ==> refused(r, 400, "Cannot delete your own account"@)
            &&& !t.is_admin && t.id@ != caller_id@ ==> r is Ok
        },
{
    match target {
        None => refuse(404, "User not found"),
        Some(t) => {
            if t.is_admin {
                return refuse(400, "Cannot delete admin account");
            }
            if chars_eq(&chars_of(t.id.as_str()), &chars_of(caller_id)) {
                return refuse(400, "Cannot delete your own account");
            }
            Ok(())
        },
    }
}

/// Whether the account may be moved to the trash: deletable, and not there
/// already.
pub fn check_trash(target: Option<&User>, caller_id: &str) -> (r: Result<(), AdminError>)
    ensures
        target is None ==> refused(r, 404, "User not found"@),
        target matches Some(t) ==> {
            &&& t.is_admin ==> refused(r, 400, "Cannot delete admin account"@)
            &&& !t.is_admin && t.id@ == caller_id@ ==> refused(r, 400, "Cannot delete your own account"@)
            &&& !t.is_admin && t.id@ != caller_id@ && t.deleted_at is Some ==> refused(
                r,
                409,
                "User is already in the trash"@,
            )
            &&& !t.is_admin && t.id@ != caller_id@ && t.deleted_at is None ==> r is Ok
        },
{
    match check_deletable(target, caller_id) {
        Err(e) => Err(e),
        Ok(()) => match target {
            Some(t) => if t.deleted_at.is_some() {
                refuse(409, "User is already in the trash")
            } else {
                Ok(())
            },
            None => refuse(404, "User not found"),
        },
    }
}

/// Whether the account may be restored: it exists and is in the trash.
pub fn check_restore(target: Option<&User>) -> (r: Result<(), AdminError>)
    ensures
        target is None ==> refused(r, 404, "User not found"@),
        target matches Some(t) ==> (t.deleted_at is Some ==> r is Ok),
        target matches Some(t) ==> (t.deleted_at is None ==> refused(r, 409, "User is not in the trash"@)),
{
    match target {
        None => refuse(404, "User not found"),
        Some(t) => if t.deleted_at.is_some() {
            Ok(())
        } else {
            refuse(409, "User is not in the trash")
        },
    }
}

/// Whole days from `from` to `to` (Unix seconds), rounded toward zero, as
/// `TimeDelta::num_days` counts them.
pub open spec fn whole_days(from: int, to: int) -> int {
    let d = to - from;
    if d >= 0 {
        d / 86400
    } else {
        -((-d) / 86400)
    }
}

/// Days left before an account trashed at `deleted` (Unix seconds) is
/// purged, at the Unix time `now`; never below zero.
pub open spec fn days_left_spec(deleted: int, now: int) -> int {
    let left = TRASH_RETENTION_DAYS - whole_days(deleted, now);
    if left > 0 {
        left
    } else {
        0
    }
}

/// A Unix time within nine trillion seconds of 1970.
pub open spec fn in_date_range(t: int) -> bool {
    -9_000_000_000_000 <= t <= 9_000_000_000_000
}

/// The Unix time of a `%Y-%m-%d %H:%M:%S` UTC time as `chrono`'s
/// `NaiveDateTime::parse_from_str` reads it, or `None` when it does not.
pub uninterp spec fn utc_seconds(text: Seq<char>) -> Option<i64>;

/// Reads a `%Y-%m-%d %H:%M:%S` time with `NaiveDateTime::parse_from_str` and
/// takes its Unix time with `and_utc().timestamp()`. Which texts parse, and
/// to what, is named, not stated; a parsed time lies within `chrono`'s
/// dates, years -262143 to 262142, well inside nine trillion seconds of 1970.
#[verifier::external_body]
fn parse_utc_seconds(text: &str) -> (r: Option<i64>)
    ensures
        r == utc_seconds(text@),
        r matches Some(t) ==> in_date_range(t as int),
{
    match chrono::NaiveDateTime::parse_from_str(text, "%Y-%m-%d %H:%M:%S") {
        Ok(t) => Some(t.and_utc().timestamp()),
        Err(_) => None,
    }
}

/// Days left for an account trashed at the parsed time `deleted` (if it
/// parsed), at the Unix time `now`; zero for a time that did not parse.
pub fn days_left_at(deleted: Option<i64>, now: i64) -> (r: i64)
    requires
        instant_ok(now as int),
        deleted matches Some(t) ==> in_date_range(t as int),
    ensures
        match deleted {
            Some(t) => r == days_left_spec(t as int, now as int),
            None => r == 0,
        },
{
    match deleted {
        None => 0,
        Some(t) => {
            let d = now - t;
            let days = if d >= 0 {
                d / 86400
            } else {
                -((-d) / 86400)
            };
            let left = TRASH_RETENTION_DAYS - days;
            if left > 0 {
                left
            } else {
                0
            }
        },
    }
}

/// Days left before an account trashed at `deleted_at` is purged, at the
/// Unix time `now`; zero when the time does not read.
pub fn days_left_in_trash(deleted_at: &str, now: i64) -> (r: i64)
    requires
        instant_ok(now as int),
    ensures
        match utc_seconds(deleted_at@) {
            Some(t) => r == days_left_spec(t as int, now as int),
            None => r == 0,
        },
{
    let parsed = parse_utc_seconds(deleted_at);
    days_left_at(parsed, now)
}

} // verus!
