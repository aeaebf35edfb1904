//! Server configuration from environment values, and the local time zone
//! offset schedules are read in.
use vstd::prelude::*;
use crate::text::{all_digits, chars_of, digits_value, push_str, string_of};

verus! {

/// What `str::parse` gives for an integer type whose values are
/// `min..=max`: an optional `+` (or `-` for a signed type) and at least one
/// digit, with a value in range.
pub open spec fn parse_int(s: Seq<char>, signed: bool, min: int, max: int) -> Option<int> {
    let has_sign = s.len() > 0 && (s[0] == '+' || (signed && s[0] == '-'));
    let neg = has_sign && s[0] == '-';
    let d = if has_sign { s.drop_first() } else { s };
    if d.len() == 0 || !all_digits(d) {
        None
    } else {
        let v = if neg { -(digits_value(d) as int) } else { digits_value(d) as int };
        if min <= v && v <= max { Some(v) } else { None }
    }
}

/// `str::parse` for an integer type with values `min..=max`.
pub fn parse_int_chars(s: &[char], signed: bool, min: i128, max: i128) -> (r: Option<i128>)
    requires
        -0x1_0000_0000_0000_0000 <= min <= 0 <= max <= 0x1_0000_0000_0000_0000,
    ensures
        r == (match parse_int(s@, signed, min as int, max as int) {
            Some(v) => Some(v as i128),
            None => None,
        }),
{
    let has_sign = s.len() > 0 && (s[0] == '+' || (signed && s[0] == '-'));
    let neg = has_sign && s[0] == '-';
    let start: usize = if has_sign { 1 } else { 0 };
    let ghost d = if has_sign { s@.drop_first() } else { s@ };
    assert(d =~= s@.skip(start as int));
    if start >= s.len() {
        return None;
    }
    let bound: i128 = if neg { -min } else { max };
    let mut acc: i128 = 0;
    let mut i = start;
    while i < s.len()
        invariant
            start <= i <= s.len(),
            d == s@.skip(start as int),
            0 <= bound <= 0x1_0000_0000_0000_0000,
            -0x1_0000_0000_0000_0000 <= min <= 0 <= max <= 0x1_0000_0000_0000_0000,
            bound == (if neg { -min } else { max as int }),
            neg == (s@.len() > 0 && (s@[0] == '+' || (signed && s@[0] == '-')) && s@[0] == '-'),
            parse_int(s@, signed, min as int, max as int) == (if d.len() == 0 || !all_digits(d) {
                None
            } else {
                let v = if neg { -(digits_value(d) as int) } else { digits_value(d) as int };
                if min <= v && v <= max { Some(v) } else { None }
            }),
            all_digits(s@.subrange(start as int, i as int)),
            acc == digits_value(s@.subrange(start as int, i as int)),
            acc <= bound,
        decreases s.len() - i,
    {
        let c = s[i];
        if !('0' <= c && c <= '9') {
            assert(d[i - start] == s@[i as int]);
            assert(!all_digits(d));
            return None;
        }
        let ghost pre = s@.subrange(start as int, i as int);
        assert(s@.subrange(start as int, i + 1).drop_last() =~= pre);
        let v = (c as u32 - '0' as u32) as i128;
        assert(all_digits(s@.subrange(start as int, i + 1))) by {
            assert forall|k: int| 0 <= k < i + 1 - start implies crate::text::is_digit(
                #[trigger] s@.subrange(start as int, i + 1)[k]) by {
                if k < i - start {
                    assert(s@.subrange(start as int, i + 1)[k] == pre[k]);
                }
            }
        }
        acc = acc * 10 + v;
        i += 1;
        if acc > bound {
            proof {
                assert(d.take(i - start) =~= s@.subrange(start as int, i as int));
                crate::text::lemma_digits_value_prefix(d, i - start);
            }
            return None;
        }
    }
    assert(s@.subrange(start as int, s.len() as int) =~= d);
    if neg {
        Some(-acc)
    } else {
        Some(acc)
    }
}

/// Global server configuration.
#[derive(Debug, Clone)]
pub struct ServerConfig {
    /// Server bind address.
    pub host: String,
    /// Server bind port.
    pub port: u16,
    /// Data directory for per-user databases and workspaces.
    pub data_dir: String,
    /// JWT secret for authentication.
    pub jwt_secret: String,
    /// JWT token duration in hours.
    pub token_duration_hours: i64,
    /// Default model, as `provider:model`.
    pub default_model: String,
    /// User actor idle timeout in seconds.
    pub idle_timeout_secs: u64,
}

/// `base` joined with the relative path `part`, as `PathBuf::join` does on
/// Unix.
pub open spec fn path_join(base: Seq<char>, part: Seq<char>) -> Seq<char> {
    if base.len() == 0 {
        part
    } else if base.last() == '/' {
        base + part
    } else {
        base + "/"@ + part
    }
}

/// The default data directory under a home directory (`/tmp` without one).
pub open spec fn default_data_dir_spec(home: Option<Seq<char>>) -> Seq<char> {
    let h = match home {
        Some(h) => h,
        None => "/tmp"@,
    };
    path_join(path_join(h, ".jcowork"@), "data"@)
}

fn path_join_chars(base: &Vec<char>, part: &str) -> (r: Vec<char>)
    ensures
        r@ == path_join(base@, part@),
{
    let mut out: Vec<char> = Vec::new();
    crate::text::push_chars(&mut out, base);
    if base.len() > 0 && base[base.len() - 1] != '/' {
        out.push('/');
        proof {
            reveal_strlit("/");
        }
        assert(out@ =~= base@ + "/"@);
    }
    push_str(&mut out, part);
    out
}

/// The data directory under the home directory `home`.
pub fn default_data_dir(home: Option<&str>) -> (r: String)
    ensures
        r@ == default_data_dir_spec(match home {
            Some(h) => Some(h@),
            None => None,
        }),
{
    let h = match home {
        Some(h) => chars_of(h),
        None => chars_of("/tmp"),
    };
    let a = path_join_chars(&h, ".jcowork");
    string_of(&path_join_chars(&a, "data"))
}

/// A text value, or the default.
pub open spec fn text_or(v: Option<Seq<char>>, default: Seq<char>) -> Seq<char> {
    match v {
        Some(s) => s,
        None => default,
    }
}

/// A number parsed from a text value, or the default when the value is
/// missing or does not parse.
pub open spec fn number_or(v: Option<Seq<char>>, signed: bool, min: int, max: int, default: int) -> int {
    match v {
        Some(s) => match parse_int(s, signed, min, max) {
            Some(n) => n,
            None => default,
        },
        None => default,
    }
}

/// The view of an optional text.
pub open spec fn opt_str(v: Option<&str>) -> Option<Seq<char>> {
    match v {
        Some(s) => Some(s@),
        None => None,
    }
}

fn text_value(v: Option<&str>, default: &str) -> (r: String)
    ensures
        r@ == text_or(opt_str(v), default@),
{
    match v {
        Some(s) => string_of(&chars_of(s)),
        None => string_of(&chars_of(default)),
    }
}

fn number_value(v: Option<&str>, signed: bool, min: i128, max: i128, default: i128) -> (r: i128)
    requires
        -0x1_0000_0000_0000_0000 <= min <= 0 <= max <= 0x1_0000_0000_0000_0000,
    ensures
        r == number_or(opt_str(v), signed, min as int, max as int, default as int),
{
    match v {
        Some(s) => match parse_int_chars(&chars_of(s), signed, min, max) {
            Some(n) => n,
            None => default,
        },
        None => default,
    }
}

impl ServerConfig {
    /// The configuration from the values of `JCWORK_HOST`, `JCWORK_PORT`,
    /// `JCWORK_DATA_DIR`, `JCWORK_JWT_SECRET`, `JCWORK_TOKEN_DURATION_HOURS`,
    /// `JCWORK_DEFAULT_MODEL`, `JCWORK_IDLE_TIMEOUT` and `HOME`; a missing or
    /// unparsable value takes its default.
    pub fn from_values(
        host: Option<&str>,
        port: Option<&str>,
        data_dir: Option<&str>,
        jwt_secret: Option<&str>,
        token_hours: Option<&str>,
        default_model: Option<&str>,
        idle_timeout: Option<&str>,
        home: Option<&str>,
    ) -> (r: Self)
        ensures
            r.host@ == text_or(opt_str(host), "0.0.0.0"@),
            r.port == number_or(opt_str(port), false, 0, 65535, 3000),
            r.data_dir@ == text_or(opt_str(data_dir), default_data_dir_spec(opt_str(home))),
            r.jwt_secret@ == text_or(opt_str(jwt_secret), "change-me-in-production"@),
            r.token_duration_hours == number_or(opt_str(token_hours), true, i64::MIN as int, i64::MAX as int, 24),
            r.default_model@ == text_or(opt_str(default_model), "moonshot:kimi-k2.6"@),
            r.idle_timeout_secs == number_or(opt_str(idle_timeout), false, 0, u64::MAX as int, 300),
    {
        let dir = match data_dir {
            Some(d) => string_of(&chars_of(d)),
            None => default_data_dir(home),
        };
        let p = number_value(port, false, 0, 65535, 3000);
        let t = number_value(token_hours, true, i64::MIN as i128, i64::MAX as i128, 24);
        let i = number_value(idle_timeout, false, 0, u64::MAX as i128, 300);
        ServerConfig {
            host: text_value(host, "0.0.0.0"),
            port: p as u16,
            data_dir: dir,
            jwt_secret: text_value(jwt_secret, "change-me-in-production"),
            token_duration_hours: t as i64,
            default_model: text_value(default_model, "moonshot:kimi-k2.6"),
            idle_timeout_secs: i as u64,
        }
    }

    /// The defaults, with the data directory under `home`.
    pub fn defaults(home: Option<&str>) -> (r: Self)
        ensures
            r.host@ == "0.0.0.0"@,
            r.port == 3000,
            r.data_dir@ == default_data_dir_spec(opt_str(home)),
            r.jwt_secret@ == "change-me-in-production"@,
            r.token_duration_hours == 24,
            r.default_model@ == "moonshot:kimi-k2.6"@,
            r.idle_timeout_secs == 300,
    {
        ServerConfig::from_values(None, None, None, None, None, None, None, home)
    }
}

/// Default local time zone offset in minutes (UTC+8).
pub const DEFAULT_TZ_OFFSET_MINUTES: i32 = 480;

/// The offset in minutes from the value of `JCWORK_TZ_OFFSET`, or the
/// default when missing or unparsable.
pub fn offset_minutes(raw: Option<&str>) -> (r: i32)
    ensures
        r == number_or(opt_str(raw), true, i32::MIN as int, i32::MAX as int, 480),
{
    let m = number_value(raw, true, i32::MIN as i128, i32::MAX as i128, 480);
    m as i32
}

/// The offset in seconds for `minutes`: the default when it is not within a
/// day of UTC.
pub fn offset_seconds(minutes: i32) -> (r: i32)
    requires
        i32::MIN <= minutes * 60 <= i32::MAX,
    ensures
        r == (if -86400 < minutes * 60 < 86400 { minutes * 60 } else { 480int * 60 }),
        -86400 < r < 86400,
{
    let s = minutes * 60;
    if -86400 < s && s < 86400 {
        s
    } else {
        DEFAULT_TZ_OFFSET_MINUTES * 60
    }
}

} // verus!
