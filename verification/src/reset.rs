//! Password reset codes: a six-digit code per user name, valid for ten
//! minutes, checked before a new password is set.
use vstd::prelude::*;
use rand_core::RngCore;
use crate::text::{byte_len, chars_eq, chars_of, decimal, push_chars, push_str, string_of};

verus! {

/// Seconds a reset code stays valid.
pub const RESET_CODE_TTL_SECS: i64 = 600;

/// Shortest accepted new password, in bytes.
pub const MIN_PASSWORD_BYTES: usize = 6;

/// An issued reset code.
#[derive(Debug)]
pub struct ResetCodeEntry {
    pub code: String,
    /// Unix time after which the code is refused.
    pub expires_at: i64,
    pub user_id: String,
}

/// `s` padded with leading zeros to six characters.
pub open spec fn pad6(s: Seq<char>) -> Seq<char> {
    if s.len() >= 6 {
        s
    } else {
        Seq::new((6 - s.len()) as nat, |i: int| '0') + s
    }
}

/// The code for a random number `n`: `n` modulo one million, as six digits.
pub open spec fn reset_code_spec(n: u32) -> Seq<char> {
    pad6(decimal((n % 1_000_000) as nat))
}

/// The code for a random number `n`.
pub fn reset_code_of(n: u32) -> (r: String)
    ensures
        r@ == reset_code_spec(n),
{
    let digits = crate::text::decimal_chars((n % 1_000_000) as u64);
    let mut out: Vec<char> = Vec::new();
    let mut k: usize = digits.len();
    while k < 6
        invariant
            digits.len() <= k <= 6 || (digits.len() > 6 && k == digits.len()),
            out@ == Seq::new((k - digits.len()) as nat, |i: int| '0'),
        decreases 6 - k,
    {
        out.push('0');
        assert(out@ =~= Seq::new((k + 1 - digits.len()) as nat, |i: int| '0'));
        k += 1;
    }
    push_chars(&mut out, &digits);
    assert(out@ =~= pad6(digits@));
    string_of(&out)
}

/// Four random bytes from the operating system (`OsRng::fill_bytes`), read
/// big-endian. Nothing is stated of the number: it is chance.
#[verifier::external_body]
fn random_u32() -> (r: u32) {
    let mut bytes = [0u8; 4];
    rand_core::OsRng.fill_bytes(&mut bytes);
    u32::from_be_bytes(bytes)
}

/// The error for a new password that is too short.
pub open spec fn short_password_message() -> Seq<char> {
    "Password must be at least 6 characters"@
}

/// The error when no code was issued for the user name.
pub open spec fn no_code_message() -> Seq<char> {
    "Invalid or expired reset code. Please request a new one."@
}

/// The error for a wrong code.
pub open spec fn wrong_code_message() -> Seq<char> {
    "Invalid reset code"@
}

/// The error for a code past its time.
pub open spec fn expired_code_message() -> Seq<char> {
    "Reset code has expired. Please request a new one."@
}

/// An issued code: user name and entry.
pub type Issued = (String, ResetCodeEntry);

/// The entry of user name `name`, if any.
pub open spec fn entry_of(s: Seq<Issued>, name: Seq<char>) -> Option<ResetCodeEntry>
    decreases s.len(),
{
    if s.len() == 0 {
        None
    } else if s.last().0@ == name {
        Some(s.last().1)
    } else {
        entry_of(s.drop_last(), name)
    }
}

/// An entry of another user name than `name`.
pub open spec fn other_name(name: Seq<char>) -> spec_fn(Issued) -> bool {
    |e: Issued| e.0@ != name
}

proof fn lemma_entry_filter(s: Seq<Issued>, name: Seq<char>, other: Seq<char>)
    ensures
        entry_of(s.filter(other_name(name)), other) == if other == name {
            None
        } else {
            entry_of(s, other)
        },
    decreases s.len(),
{
    if s.len() > 0 {
        let t = s.drop_last();
        lemma_entry_filter(t, name, other);
        assert(t.push(s.last()) =~= s);
        t.lemma_filter_push(s.last(), other_name(name));
        if other_name(name)(s.last()) {
            assert(t.filter(other_name(name)).push(s.last()).drop_last() =~= t.filter(other_name(name)));
        }
    }
}

/// The outcome of checking a reset request against the issued codes, for a
/// new password of `password_bytes` bytes at the Unix time `now`.
pub open spec fn check_spec(
    entry: Option<ResetCodeEntry>,
    password_bytes: nat,
    code: Seq<char>,
    now: int,
) -> Result<Seq<char>, Seq<char>> {
    if password_bytes < MIN_PASSWORD_BYTES {
        Err(short_password_message())
    } else {
        match entry {
            None => Err(no_code_message()),
            Some(e) => if e.code@ != code {
                Err(wrong_code_message())
            } else if now > e.expires_at {
                Err(expired_code_message())
            } else {
                Ok(e.user_id@)
            },
        }
    }
}

/// A check drops the code: it matches but is past its time.
pub open spec fn drops_code(entry: Option<ResetCodeEntry>, password_bytes: nat, code: Seq<char>, now: int) -> bool {
    &&& password_bytes >= MIN_PASSWORD_BYTES
    &&& entry matches Some(e) && e.code@ == code && now > e.expires_at
}

/// The reset codes issued, by user name.
pub struct ResetCodes {
    entries: Vec<Issued>,
}

impl ResetCodes {
    /// The issued codes; a later one for a name replaces an earlier one.
    pub closed spec fn issued(&self) -> Seq<Issued> {
        self.entries@
    }

    /// No codes.
    pub fn new() -> (r: Self)
        ensures
            r.issued().len() == 0,
    {
        ResetCodes { entries: Vec::new() }
    }

    fn remove_name(&mut self, username: &str)
        ensures
            final(self).issued() == old(self).issued().filter(other_name(username@)),
    {
        let ghost s = self.entries@;
        let mut kept: Vec<Issued> = Vec::new();
        let mut entries: Vec<Issued> = Vec::new();
        std::mem::swap(&mut entries, &mut self.entries);
        let mut i: usize = 0;
        let total: usize = entries.len();
        assert(s.skip(0) =~= s);
        while entries.len() > 0
            invariant
                i <= s.len(),
                s.len() == total,
                entries@ == s.skip(i as int),
                kept@ == s.take(i as int).filter(other_name(username@)),
            decreases entries@.len(),
        {
            let e = entries.remove(0);
            assert(s.skip(i as int)[0] == s[i as int]);
            assert(s.skip(i as int).drop_first() =~= s.skip(i + 1));
            assert(s.take(i + 1) =~= s.take(i as int).push(s[i as int]));
            proof {
                s.take(i as int).lemma_filter_push(s[i as int], other_name(username@));
            }
            if !chars_eq(&chars_of(e.0.as_str()), &chars_of(username)) {
                kept.push(e);
            }
            i += 1;
        }
        assert(s.take(i as int) =~= s);
        self.entries = kept;
    }

    /// Issues the code for the random number `n` to `username` (user
    /// `user_id`) at the Unix time `now`, replacing an earlier one; it is
    /// valid for ten minutes. Returns the code.
    pub fn issue_with(&mut self, username: &str, user_id: &str, n: u32, now: i64) -> (r: String)
        requires
            now <= i64::MAX - RESET_CODE_TTL_SECS,
        ensures
            r@ == reset_code_spec(n),
            final(self).issued().len() >= 1,
            final(self).issued() == old(self).issued().filter(other_name(username@)).push(
                final(self).issued().last(),
            ),
            final(self).issued().last().0@ == username@,
            final(self).issued().last().1.code@ == r@,
            final(self).issued().last().1.expires_at == now + RESET_CODE_TTL_SECS,
            final(self).issued().last().1.user_id@ == user_id@,
    {
        let code = reset_code_of(n);
        self.remove_name(username);
        let entry = ResetCodeEntry {
            code: code.clone(),
            expires_at: now + RESET_CODE_TTL_SECS,
            user_id: string_of(&chars_of(user_id)),
        };
        self.entries.push((string_of(&chars_of(username)), entry));
        code
    }

    /// Issues a fresh random code to `username` at the Unix time `now`.
    pub fn issue(&mut self, username: &str, user_id: &str, now: i64) -> (r: String)
        requires
            now <= i64::MAX - RESET_CODE_TTL_SECS,
        ensures
            exists|n: u32| #[trigger] reset_code_spec(n) == r@,
            final(self).issued().len() >= 1,
            final(self).issued() == old(self).issued().filter(other_name(username@)).push(
                final(self).issued().last(),
            ),
            final(self).issued().last().0@ == username@,
            final(self).issued().last().1.code@ == r@,
            final(self).issued().last().1.expires_at == now + RESET_CODE_TTL_SECS,
            final(self).issued().last().1.user_id@ == user_id@,
    {
        let n = random_u32();
        self.issue_with(username, user_id, n, now)
    }

    /// Checks a reset request: the new password's length, then the code
    /// issued to `username`, then its time. A code past its time is dropped.
    /// On success the user id is returned; the code stays until
    /// [`Self::remove`] once the new password is stored.
    pub fn check(&mut self, username: &str, password: &str, code: &str, now: i64) -> (r: Result<String, String>)
        ensures
            ({
                let expected = check_spec(entry_of(old(self).issued(), username@), byte_len(password@), code@, now as int);
                &&& match r {
                    Ok(u) => expected == Ok::<Seq<char>, Seq<char>>(u@),
                    Err(e) => expected == Err::<Seq<char>, Seq<char>>(e@),
                }
                &&& if drops_code(entry_of(old(self).issued(), username@), byte_len(password@), code@, now as int) {
                    final(self).issued() == old(self).issued().filter(other_name(username@))
                } else {
                    final(self).issued() == old(self).issued()
                }
            }),
    {
        proof {
            crate::text::lemma_encode_utf8_len(password@);
        }
        if password.as_bytes().len() < MIN_PASSWORD_BYTES {
            return Err(string_of(&chars_of("Password must be at least 6 characters")));
        }
        let entry = self.find(username);
        match entry {
            None => Err(string_of(&chars_of("Invalid or expired reset code. Please request a new one."))),
            Some(e) => {
                if !chars_eq(&chars_of(e.code.as_str()), &chars_of(code)) {
                    return Err(string_of(&chars_of("Invalid reset code")));
                }
                if now > e.expires_at {
                    self.remove_name(username);
                    return Err(string_of(&chars_of("Reset code has expired. Please request a new one.")));
                }
                Ok(e.user_id)
            },
        }
    }

    fn find(&self, username: &str) -> (r: Option<ResetCodeEntry>)
        ensures
            r == entry_of(self.issued(), username@),
    {
        let ghost s = self.entries@;
        let mut i: usize = self.entries.len();
        assert(s.take(i as int) =~= s);
        while i > 0
            invariant
                s == self.entries@,
                i <= s.len(),
                entry_of(s, username@) == entry_of(s.take(i as int), username@),
            decreases i,
        {
            let ghost t = s.take(i as int);
            assert(t.drop_last() =~= s.take(i - 1));
            let e = &self.entries[i - 1];
            if chars_eq(&chars_of(e.0.as_str()), &chars_of(username)) {
                return Some(ResetCodeEntry { code: e.1.code.clone(), expires_at: e.1.expires_at, user_id: e.1.user_id.clone() });
            }
            i -= 1;
        }
        None
    }

    /// Drops the code of `username` once it has been used.
    pub fn remove(&mut self, username: &str)
        ensures
            final(self).issued() == old(self).issued().filter(other_name(username@)),
            entry_of(final(self).issued(), username@) is None,
    {
        self.remove_name(username);
        proof {
            lemma_entry_filter(old(self).issued(), username@, username@);
        }
    }
}

/// A code issued to a user name is the one a later check of that name
/// finds, and issuing it leaves the codes of other names as they were.
pub proof fn lemma_issued_code_is_found(s: Seq<Issued>, e: Issued, other: Seq<char>)
    ensures
        entry_of(s.filter(other_name(e.0@)).push(e), e.0@) == Some(e.1),
        other != e.0@ ==> entry_of(s.filter(other_name(e.0@)).push(e), other) == entry_of(s, other),
{
    let t = s.filter(other_name(e.0@)).push(e);
    assert(t.drop_last() =~= s.filter(other_name(e.0@)));
    lemma_entry_filter(s, e.0@, other);
}

/// A check with the issued code, a long enough password and no later than
/// the code's time returns the user the code was issued for.
pub proof fn lemma_valid_code_accepted(entry: ResetCodeEntry, password_bytes: nat, now: int)
    requires
        password_bytes >= MIN_PASSWORD_BYTES,
        now <= entry.expires_at,
    ensures
        check_spec(Some(entry), password_bytes, entry.code@, now) == Ok::<Seq<char>, Seq<char>>(entry.user_id@),
{
}

} // verus!
