//! Password hashing and the claims of session tokens.
use vstd::prelude::*;
use crate::gateway::{AuthConfig, Claims};
use crate::text::{chars_eq, chars_of, find, find_from_exec, occurs_at_exec, push_str, split_chars, split_on, starts_with, string_of};
use argon2::{PasswordHasher, PasswordVerifier};

verus! {

/// Token lifetimes `chrono::Duration::hours` accepts.
pub open spec fn hours_ok(hours: int) -> bool {
    -2562047788015 <= hours <= 2562047788015
}

/// Unix times `chrono::DateTime<Utc>` can hold.
pub open spec fn utc_ok(t: int) -> bool {
    -8334601228800 <= t <= 8210266876799
}

/// Whether a token valid for `hours` can be issued at `now`: what
/// `token_claims` requires.
pub fn token_times_ok(hours: i64, now: i64) -> (b: bool)
    ensures
        b == (hours_ok(hours as int) && utc_ok(now as int) && utc_ok(now + hours * 3600)),
{
    let h = hours as i128;
    let n = now as i128;
    -2562047788015 <= h && h <= 2562047788015 && -8334601228800 <= n && n <= 8210266876799
        && -8334601228800 <= n + h * 3600 && n + h * 3600 <= 8210266876799
}

/// The claims of a token for a user, issued at the Unix time `now` and valid
/// for the configured number of hours.
pub fn token_claims(config: &AuthConfig, user_id: &str, username: &str, now: i64) -> (r: Claims)
    requires
        hours_ok(config.token_duration_hours as int),
        utc_ok(now as int),
        utc_ok(now + config.token_duration_hours * 3600),
    ensures
        r.sub@ == user_id@,
        r.username@ == username@,
        r.iat == now,
        r.exp == now + config.token_duration_hours * 3600,
{
    Claims {
        sub: string_of(&chars_of(user_id)),
        username: string_of(&chars_of(username)),
        iat: now,
        exp: now + config.token_duration_hours * 3600,
    }
}

/// An Argon2 hash of `password` with a fresh random salt, through
/// `SaltString::generate` and `Argon2::hash_password`; the error is the
/// hasher's message. Salt and hash depend on chance, so of the text returned
/// only this is stated: it is a PHC string that `PasswordHash::new` parses
/// back and that `Argon2::verify_password` accepts for the same password
/// (verification rehashes with the algorithm, version, parameters and salt
/// recorded in the string and compares the output).
#[verifier::external_body]
fn argon2_hash(password: &str) -> (r: Result<String, String>)
    ensures
        r matches Ok(h) ==> hash_accepts(password@, h@),
{
    let salt = argon2::password_hash::SaltString::generate(&mut rand_core::OsRng);
    match argon2::Argon2::default().hash_password(password.as_bytes(), &salt) {
        Ok(h) => Ok(h.to_string()),
        Err(e) => Err(e.to_string()),
    }
}

/// Hashes a password with Argon2 and a random salt; the hash returned
/// verifies against the same password.
pub fn hash_password(password: &str) -> (r: Result<String, String>)
    ensures
        r matches Ok(h) ==> hash_accepts(password@, h@),
        r matches Err(e) ==> e@.len() >= 12 && e@.subrange(0, 12) == "Hash error: "@,
{
    match argon2_hash(password) {
        Ok(h) => Ok(h),
        Err(e) => {
            let mut m: Vec<char> = Vec::new();
            push_str(&mut m, "Hash error: ");
            push_str(&mut m, e.as_str());
            proof {
                reveal_strlit("Hash error: ");
                assert(m@.subrange(0, 12) =~= "Hash error: "@);
            }
            Err(string_of(&m))
        },
    }
}

/// What Argon2 makes of a password and a stored hash: the text of the error
/// when the hash does not parse, else whether the password matches.
pub uninterp spec fn argon2_check(password: Seq<char>, hash: Seq<char>) -> Result<bool, Seq<char>>;

/// `hash` parses and `password` matches it.
pub open spec fn hash_accepts(password: Seq<char>, hash: Seq<char>) -> bool {
    argon2_check(password, hash) == Ok::<bool, Seq<char>>(true)
}

/// Parses `hash` with `PasswordHash::new` and checks `password` against it
/// with `Argon2::verify_password`.
#[verifier::external_body]
fn argon2_verify(password: &str, hash: &str) -> (r: Result<bool, String>)
    ensures
        argon2_check(password@, hash@) == match r {
            Ok(b) => Ok(b),
            Err(e) => Err(e@),
        },
{
    match argon2::PasswordHash::new(hash) {
        Ok(parsed) => Ok(argon2::Argon2::default().verify_password(password.as_bytes(), &parsed).is_ok()),
        Err(e) => Err(e.to_string()),
    }
}

/// Whether `password` matches the stored Argon2 `hash`; an error when the
/// hash does not parse.
pub fn verify_password(password: &str, hash: &str) -> (r: Result<bool, String>)
    ensures
        match argon2_check(password@, hash@) {
            Ok(b) => r == Ok::<bool, String>(b),
            Err(e) => r matches Err(m) && m@ == "Parse error: "@ + e,
        },
{
    match argon2_verify(password, hash) {
        Ok(b) => Ok(b),
        Err(e) => {
            let mut m: Vec<char> = Vec::new();
            push_str(&mut m, "Parse error: ");
            push_str(&mut m, e.as_str());
            Err(string_of(&m))
        },
    }
}

/// The token of an `Authorization` header value: what follows `Bearer `.
pub open spec fn bearer_token(h: Seq<char>) -> Option<Seq<char>> {
    if starts_with(h, "Bearer "@) {
        Some(h.skip(7))
    } else {
        None
    }
}

/// The value of a query pair `token=...`, split at its first `=`.
pub open spec fn token_of_pair(p: Seq<char>) -> Option<Seq<char>> {
    match find(p, "="@) {
        Some(i) => if p.take(i) == "token"@ {
            Some(p.skip(i + 1))
        } else {
            None
        },
        None => None,
    }
}

/// The value of the first `token` pair among `pairs`.
pub open spec fn first_token(pairs: Seq<Seq<char>>) -> Option<Seq<char>>
    decreases pairs.len(),
{
    if pairs.len() == 0 {
        None
    } else {
        match token_of_pair(pairs[0]) {
            Some(t) => Some(t),
            None => first_token(pairs.drop_first()),
        }
    }
}

/// The token a request carries: a `Bearer` authorization header, else the
/// first `token` parameter of its query.
pub open spec fn request_token_spec(header: Option<Seq<char>>, query: Option<Seq<char>>) -> Option<Seq<char>> {
    match header {
        Some(h) if bearer_token(h) is Some => bearer_token(h),
        _ => match query {
            Some(q) => first_token(split_on(q, '&')),
            None => None,
        },
    }
}

fn pair_token(p: &Vec<char>) -> (r: Option<Vec<char>>)
    ensures
        match r {
            Some(t) => token_of_pair(p@) == Some(t@),
            None => token_of_pair(p@) is None,
        },
{
    let eq = chars_of("=");
    proof {
        reveal_strlit("=");
    }
    match find_from_exec(p.as_slice(), eq.as_slice(), 0) {
        None => None,
        Some(i) => {
            proof {
                crate::text::lemma_find_from_correct(p@, eq@, 0);
            }
            assert(eq@.len() == 1);
            let n: usize = p.len();
            assert(i + 1 <= n);
            let start: usize = i + 1;
            let mut key: Vec<char> = Vec::new();
            let mut k: usize = 0;
            while k < i
                invariant
                    i + 1 <= p@.len(),
                    k <= i,
                    key@ == p@.take(k as int),
                decreases i - k,
            {
                key.push(p[k]);
                assert(key@ =~= p@.take(k + 1));
                k += 1;
            }
            if !chars_eq(&key, &chars_of("token")) {
                return None;
            }
            let mut val: Vec<char> = Vec::new();
            let mut m: usize = start;
            while m < p.len()
                invariant
                    i + 1 <= m <= p@.len() || (m == i + 1 && i + 1 > p@.len()),
                    i < p@.len(),
                    val@ == p@.subrange(i + 1, m as int),
                decreases p@.len() - m,
            {
                val.push(p[m]);
                assert(val@ =~= p@.subrange(i + 1, m + 1));
                m += 1;
            }
            assert(val@ =~= p@.skip(i + 1));
            Some(val)
        },
    }
}

/// The token a request carries, from its `Authorization` header value and
/// its query string.
pub fn request_token(authorization: Option<&str>, query: Option<&str>) -> (r: Option<String>)
    ensures
        match r {
            Some(t) => request_token_spec(
                match authorization {
                    Some(h) => Some(h@),
                    None => None,
                },
                match query {
                    Some(q) => Some(q@),
                    None => None,
                },
            ) == Some(t@),
            None => request_token_spec(
                match authorization {
                    Some(h) => Some(h@),
                    None => None,
                },
                match query {
                    Some(q) => Some(q@),
                    None => None,
                },
            ) is None,
        },
{
    match authorization {
        Some(h) => {
            let hc = chars_of(h);
            let prefix = chars_of("Bearer ");
            proof {
                reveal_strlit("Bearer ");
            }
            if occurs_at_exec(hc.as_slice(), prefix.as_slice(), 0) {
                let mut val: Vec<char> = Vec::new();
                let mut m: usize = 7;
                while m < hc.len()
                    invariant
                        7 <= m <= hc@.len(),
                        val@ == hc@.subrange(7, m as int),
                    decreases hc@.len() - m,
                {
                    val.push(hc[m]);
                    assert(val@ =~= hc@.subrange(7, m + 1));
                    m += 1;
                }
                assert(val@ =~= hc@.skip(7));
                return Some(string_of(&val));
            }
        },
        None => {},
    }
    match query {
        None => None,
        Some(q) => {
            let pieces = split_chars(chars_of(q).as_slice(), '&');
            let ghost ps = split_on(q@, '&');
            let ghost hv: Option<Seq<char>> = match authorization {
                Some(h) => Some(h@),
                None => None,
            };
            assert(request_token_spec(hv, Some(q@)) == first_token(ps));
            let mut i: usize = 0;
            assert(ps.skip(0) =~= ps);
            while i < pieces.len()
                invariant
                    query == Some(q),
                    hv == match authorization {
                        Some(h) => Some(h@),
                        None => None::<Seq<char>>,
                    },
                    request_token_spec(hv, Some(q@)) == first_token(ps),
                    i <= pieces@.len(),
                    pieces@.len() == ps.len(),
                    forall|k: int| 0 <= k < pieces@.len() ==> #[trigger] pieces@[k]@ == ps[k],
                    first_token(ps) == first_token(ps.skip(i as int)),
                decreases pieces@.len() - i,
            {
                assert(ps.skip(i as int)[0] == ps[i as int]);
                assert(ps.skip(i as int).drop_first() =~= ps.skip(i + 1));
                match pair_token(&pieces[i]) {
                    Some(t) => {
                        assert(first_token(ps.skip(i as int)) == Some(t@));
                        return Some(string_of(&t));
                    },
                    None => {},
                }
                i += 1;
            }
            assert(ps.skip(i as int) =~= Seq::<Seq<char>>::empty());
            None
        },
    }
}

/// The answer to a request whose token does not verify.
pub fn invalid_token_message(error: &str) -> (r: String)
    ensures
        r@ == "Invalid token: "@ + error@,
{
    let mut m = chars_of("Invalid token: ");
    push_str(&mut m, error);
    string_of(&m)
}

} // verus!
