//! Building cron expressions from UI frequency settings, and converting
//! standard 5-field expressions to the 7-field syntax of the schedule parser.
use vstd::prelude::*;
use crate::text::{
    decimal, join, chars_of, string_of, push_str, push_chars, push_decimal, chars_eq, parse_u32,
    parse_u32_chars, uppercase, to_uppercase_string, trim, trim_chars, split_on, split_chars, words,
    words_chars, find, find_from_exec,
};

verus! {

/// View of an optional vector.
pub open spec fn opt_seq(v: Option<Vec<u32>>) -> Option<Seq<u32>> {
    match v {
        Some(x) => Some(x@),
        None => None,
    }
}

/// `s` holds a value that is no weekday.
pub open spec fn has_invalid_dow(s: Seq<u32>) -> bool {
    exists|d: u32| s.contains(d) && d > 6
}

/// Least element of `s` that is above 6 (only meaningful when one exists).
pub open spec fn least_invalid_dow(s: Seq<u32>) -> u32 {
    choose|m: u32| s.contains(m) && m > 6 && forall|d: u32| s.contains(d) && d > 6 ==> m <= d
}

/// The distinct weekdays of `s` (all at most 6), ascending, as decimal strings.
pub open spec fn dow_list(s: Seq<u32>) -> Seq<Seq<char>> {
    Seq::new(7, |d: int| d).filter(|d: int| s.contains(d as u32)).map_values(|d: int| decimal(d as nat))
}

pub open spec fn range_error(what: Seq<char>, v: u32, freq: Seq<char>, bound: Seq<char>) -> Seq<char> {
    "Invalid "@ + what + " "@ + decimal(v as nat) + " for "@ + freq + " (must be 0-"@ + bound + ")"@
}

/// True for the frequencies that take an hour setting.
pub open spec fn is_timed_frequency(f: Seq<char>) -> bool {
    f == "daily"@ || f == "weekly"@ || f == "monthly"@ || f == "yearly"@
}

/// The weekday field for a weekly schedule, or the error for bad weekdays.
pub open spec fn weekday_field(days_of_week: Option<Seq<u32>>) -> Result<Seq<char>, Seq<char>> {
    let dows = days_of_week.unwrap_or(seq![1u32]);
    if dows.len() == 0 {
        Err("days_of_week must not be empty for weekly"@)
    } else if has_invalid_dow(dows) {
        Err(
            "Invalid day_of_week "@ + decimal(least_invalid_dow(dows) as nat)
                + " for weekly (must be 0-6)"@,
        )
    } else {
        Ok(join(dow_list(dows), ","@))
    }
}

proof fn lemma_least_invalid_exists(s: Seq<u32>)
    requires
        has_invalid_dow(s),
    ensures
        exists|m: u32| s.contains(m) && m > 6 && forall|d: u32| s.contains(d) && d > 6 ==> m <= d,
    decreases s.len(),
{
    let last = s.last();
    let rest = s.drop_last();
    if has_invalid_dow(rest) {
        lemma_least_invalid_exists(rest);
        let m = choose|m: u32| rest.contains(m) && m > 6 && forall|d: u32| rest.contains(d) && d > 6 ==> m <= d;
        let i = choose|i: int| 0 <= i < rest.len() && rest[i] == m;
        assert(s[i] == m);
        let best = if last > 6 && last < m { last } else { m };
        assert forall|d: u32| s.contains(d) && d > 6 implies best <= d by {
            let j = choose|j: int| 0 <= j < s.len() && s[j] == d;
            if j < s.len() - 1 {
                assert(rest[j] == d);
                assert(rest.contains(d));
            } else {
                assert(d == last);
            }
        }
        assert(s.contains(best)) by {
            if best == last {
                assert(s[s.len() - 1] == last);
            }
        }
    } else {
        let d0 = choose|d: u32| s.contains(d) && d > 6;
        let j0 = choose|j: int| 0 <= j < s.len() && s[j] == d0;
        if j0 < s.len() - 1 {
            assert(rest[j0] == d0);
            assert(rest.contains(d0));
        }
        assert(last > 6);
        assert(s[s.len() - 1] == last);
        assert forall|d: u32| s.contains(d) && d > 6 implies last <= d by {
            let j = choose|j: int| 0 <= j < s.len() && s[j] == d;
            if j < s.len() - 1 {
                assert(rest[j] == d);
                assert(rest.contains(d));
            }
        }
    }
}


/// The weekday field of a weekly schedule depends only on which days are
/// given: their order and repetitions do not matter.
pub proof fn lemma_weekday_field_order_free(a: Seq<u32>, b: Seq<u32>)
    requires
        forall|d: u32| a.contains(d) <==> b.contains(d),
    ensures
        weekday_field(Some(a)) == weekday_field(Some(b)),
{
    if a.len() == 0 {
        if b.len() > 0 {
            assert(b.contains(b[0]));
        }
    }
    if b.len() == 0 {
        if a.len() > 0 {
            assert(a.contains(a[0]));
        }
    }
    assert(has_invalid_dow(a) == has_invalid_dow(b));
    let fa = |d: int| a.contains(d as u32);
    let fb = |d: int| b.contains(d as u32);
    assert(fa =~= fb);
    assert(dow_list(a) == dow_list(b));
    if has_invalid_dow(a) {
        lemma_least_invalid_exists(a);
        lemma_least_invalid_exists(b);
        let ma = least_invalid_dow(a);
        let mb = least_invalid_dow(b);
        assert(a.contains(mb) && b.contains(ma));
        assert(ma <= mb && mb <= ma);
    }
}


/// Expression for the daily, weekly, monthly and yearly frequencies, whose
/// seconds field `sec` is already checked.
pub open spec fn timed_expression(
    frequency: Seq<char>,
    sec: u32,
    minute: Option<u32>,
    hour: Option<u32>,
    day: Option<u32>,
    month: Option<u32>,
    days_of_week: Option<Seq<u32>>,
) -> Result<Seq<char>, Seq<char>> {
    let min = minute.unwrap_or(0);
    let hr = hour.unwrap_or(9);
    let dom0 = day.unwrap_or(1);
    let dom = if dom0 < 1 { 1 } else if dom0 > 28 { 28 } else { dom0 };
    let mon0 = month.unwrap_or(1);
    let mon = if mon0 < 1 { 1 } else if mon0 > 12 { 12 } else { mon0 };
    let sp = " "@;
    if min > 59 {
        Err(range_error("minute"@, min, frequency, "59"@))
    } else if hr > 23 {
        Err(range_error("hour"@, hr, frequency, "23"@))
    } else {
        let hms = decimal(sec as nat) + sp + decimal(min as nat) + sp + decimal(hr as nat);
        if frequency == "daily"@ {
            Ok(hms + " * * *"@)
        } else if frequency == "weekly"@ {
            match weekday_field(days_of_week) {
                Ok(w) => Ok(hms + " * * "@ + w),
                Err(e) => Err(e),
            }
        } else if frequency == "monthly"@ {
            Ok(hms + sp + decimal(dom as nat) + " * *"@)
        } else {
            Ok(hms + sp + decimal(dom as nat) + sp + decimal(mon as nat) + " *"@)
        }
    }
}

/// The 6-field expression (second minute hour dom month dow) for a frequency,
/// or the error message for invalid settings.
pub open spec fn cron_expression(
    frequency: Seq<char>,
    second: Option<u32>,
    minute: Option<u32>,
    hour: Option<u32>,
    day: Option<u32>,
    month: Option<u32>,
    days_of_week: Option<Seq<u32>>,
) -> Result<Seq<char>, Seq<char>> {
    let sec = second.unwrap_or(0);
    let min = minute.unwrap_or(0);
    if sec > 59 {
        Err("Invalid second "@ + decimal(sec as nat) + " (must be 0-59)"@)
    } else if frequency == "hourly"@ {
        if min > 59 {
            Err(range_error("minute"@, min, frequency, "59"@))
        } else {
            Ok(decimal(sec as nat) + " "@ + decimal(min as nat) + " * * * *"@)
        }
    } else if is_timed_frequency(frequency) {
        timed_expression(frequency, sec, minute, hour, day, month, days_of_week)
    } else {
        Err(
            "Invalid frequency '"@ + frequency
                + "'. Use: hourly, daily, weekly, monthly, yearly"@,
        )
    }
}

fn range_error_exec(what: &str, v: u32, freq: &str, bound: &str) -> (r: String)
    ensures
        r@ == range_error(what@, v, freq@, bound@),
{
    let mut out: Vec<char> = Vec::new();
    push_str(&mut out, "Invalid ");
    push_str(&mut out, what);
    push_str(&mut out, " ");
    push_decimal(&mut out, v as u64);
    push_str(&mut out, " for ");
    push_str(&mut out, freq);
    push_str(&mut out, " (must be 0-");
    push_str(&mut out, bound);
    push_str(&mut out, ")");
    string_of(&out)
}

/// Ascending distinct weekdays of `dows`, or the least value above 6.
fn sorted_weekdays(dows: &Vec<u32>) -> (r: Result<Vec<char>, u32>)
    requires
        dows.len() > 0,
    ensures
        r matches Ok(list) ==> !has_invalid_dow(dows@) && list@ == join(
            dow_list(dows@),
            ","@,
        ),
        r matches Err(m) ==> has_invalid_dow(dows@) && m
            == least_invalid_dow(dows@),
{
    let mut present: Vec<bool> = Vec::new();
    let mut k: usize = 0;
    while k < 7
        invariant
            k <= 7,
            present.len() == k,
            forall|j: int| 0 <= j < k ==> !present@[j],
        decreases 7 - k,
    {
        present.push(false);
        k += 1;
    }
    let mut least: Option<u32> = None;
    let mut i: usize = 0;
    while i < dows.len()
        invariant
            i <= dows.len(),
            present.len() == 7,
            forall|j: int| 0 <= j < 7 ==> present@[j] == dows@.take(i as int).contains(j as u32),
            least matches Some(m) ==> dows@.take(i as int).contains(m) && m > 6 && forall|d: u32|
                dows@.take(i as int).contains(d) && d > 6 ==> m <= d,
            least is None ==> forall|d: u32| dows@.take(i as int).contains(d) ==> d <= 6,
        decreases dows.len() - i,
    {
        let d = dows[i];
        let ghost prev = dows@.take(i as int);
        assert(dows@.take(i as int + 1) =~= prev.push(d));
        if d <= 6 {
            present.set(d as usize, true);
        } else {
            match least {
                Some(m) => {
                    if d < m {
                        least = Some(d);
                    }
                },
                None => {
                    least = Some(d);
                },
            }
        }
        i += 1;
        assert forall|x: u32| #[trigger] dows@.take(i as int).contains(x) <==> (prev.contains(x)
            || x == d) by {
            if dows@.take(i as int).contains(x) {
                let k = choose|k: int| 0 <= k < dows@.take(i as int).len() && dows@.take(i as int)[k] == x;
                if k < prev.len() {
                    assert(prev[k] == x);
                }
            }
            if x == d {
                assert(dows@.take(i as int)[prev.len() as int] == d);
            }
            if prev.contains(x) {
                let k = choose|k: int| 0 <= k < prev.len() && prev[k] == x;
                assert(dows@.take(i as int)[k] == x);
            }
        }
    }
    assert(dows@.take(dows.len() as int) =~= dows@);
    match least {
        Some(m) => {
            assert(dows@.contains(m) && m > 6);
            let ghost lm = least_invalid_dow(dows@);
            assert(dows@.contains(lm) && lm > 6 && forall|d: u32| dows@.contains(d) && d > 6 ==> lm <= d);
            assert(m == lm) by {
                assert(m <= lm);
                assert(lm <= m);
            }
            Err(m)
        },
        None => {
            let mut out: Vec<char> = Vec::new();
            let mut first = true;
            let mut j: u32 = 0;
            let ghost all = Seq::new(7, |d: int| d);
            let ghost pred = |d: int| dows@.contains(d as u32);
            while j < 7
                invariant
                    j <= 7,
                    present.len() == 7,
                    forall|x: int| 0 <= x < 7 ==> present@[x] == dows@.contains(x as u32),
                    all == Seq::new(7, |d: int| d),
                    pred == (|d: int| dows@.contains(d as u32)),
                    first == (all.take(j as int).filter(pred).len() == 0),
                    out@ == join(
                        all.take(j as int).filter(pred).map_values(|d: int| decimal(d as nat)),
                        ","@,
                    ),
                decreases 7 - j,
            {
                let ghost before = all.take(j as int).filter(pred);
                assert(all.take(j as int + 1) =~= all.take(j as int).push(j as int));
                reveal_with_fuel(Seq::<_>::filter, 1);
                assert(all.take(j as int + 1).drop_last() =~= all.take(j as int));
                if present[j as usize] {
                    let ghost after = before.push(j as int);
                    assert(all.take(j as int + 1).filter(pred) =~= after);
                    assert(after.map_values(|d: int| decimal(d as nat)).drop_last() =~= before.map_values(
                        |d: int| decimal(d as nat),
                    ));
                    if !first {
                        push_str(&mut out, ",");
                    } else {
                        assert(before.map_values(|d: int| decimal(d as nat)) =~= Seq::<Seq<char>>::empty());
                        assert(out@ =~= Seq::<char>::empty());
                    }
                    push_decimal(&mut out, j as u64);
                    first = false;
                } else {
                    assert(all.take(j as int + 1).filter(pred) =~= before);
                }
                j += 1;
            }
            assert(all.take(7) =~= all);
            Ok(out)
        },
    }
}

fn weekday_field_exec(days_of_week: Option<Vec<u32>>) -> (r: Result<Vec<char>, String>)
    ensures
        r matches Ok(w) ==> weekday_field(opt_seq(days_of_week)) == Ok::<Seq<char>, Seq<char>>(w@),
        r matches Err(e) ==> weekday_field(opt_seq(days_of_week)) == Err::<Seq<char>, Seq<char>>(e@),
{
    let dows = match days_of_week {
        Some(v) => v,
        None => {
            let mut v = Vec::new();
            v.push(1u32);
            assert(v@ =~= seq![1u32]);
            v
        },
    };
    assert(opt_seq(days_of_week).unwrap_or(seq![1u32]) == dows@);
    if dows.len() == 0 {
        return Err(string_of(&chars_of("days_of_week must not be empty for weekly")));
    }
    match sorted_weekdays(&dows) {
        Ok(list) => Ok(list),
        Err(m) => {
            let mut err: Vec<char> = Vec::new();
            push_str(&mut err, "Invalid day_of_week ");
            push_decimal(&mut err, m as u64);
            push_str(&mut err, " for weekly (must be 0-6)");
            assert(err@ =~= "Invalid day_of_week "@ + decimal(m as nat) + " for weekly (must be 0-6)"@);
            Err(string_of(&err))
        },
    }
}

fn timed_expression_exec(
    frequency: &str,
    sec: u32,
    minute: Option<u32>,
    hour: Option<u32>,
    day: Option<u32>,
    month: Option<u32>,
    days_of_week: Option<Vec<u32>>,
) -> (r: Result<String, String>)
    requires
        is_timed_frequency(frequency@),
    ensures
        r matches Ok(s) ==> timed_expression(frequency@, sec, minute, hour, day, month, opt_seq(days_of_week))
            == Ok::<Seq<char>, Seq<char>>(s@),
        r matches Err(e) ==> timed_expression(frequency@, sec, minute, hour, day, month, opt_seq(days_of_week))
            == Err::<Seq<char>, Seq<char>>(e@),
{
    let freq = chars_of(frequency);
    let min = match minute { Some(m) => m, None => 0 };
    let hr = match hour { Some(h) => h, None => 9 };
    if min > 59 {
        return Err(range_error_exec("minute", min, frequency, "59"));
    }
    if hr > 23 {
        return Err(range_error_exec("hour", hr, frequency, "23"));
    }
    let mut out: Vec<char> = Vec::new();
    push_decimal(&mut out, sec as u64);
    push_str(&mut out, " ");
    push_decimal(&mut out, min as u64);
    push_str(&mut out, " ");
    push_decimal(&mut out, hr as u64);
    let ghost hms = out@;
    if chars_eq(&freq, &chars_of("daily")) {
        push_str(&mut out, " * * *");
        return Ok(string_of(&out));
    }
    if chars_eq(&freq, &chars_of("weekly")) {
        match weekday_field_exec(days_of_week) {
            Ok(w) => {
                push_str(&mut out, " * * ");
                push_chars(&mut out, &w);
                return Ok(string_of(&out));
            },
            Err(e) => {
                return Err(e);
            },
        }
    }
    let day0 = match day { Some(d) => d, None => 1 };
    let dom = if day0 < 1 { 1 } else if day0 > 28 { 28 } else { day0 };
    push_str(&mut out, " ");
    push_decimal(&mut out, dom as u64);
    if chars_eq(&freq, &chars_of("monthly")) {
        push_str(&mut out, " * *");
        return Ok(string_of(&out));
    }
    let mon0 = match month { Some(m) => m, None => 1 };
    let mon = if mon0 < 1 { 1 } else if mon0 > 12 { 12 } else { mon0 };
    push_str(&mut out, " ");
    push_decimal(&mut out, mon as u64);
    push_str(&mut out, " *");
    Ok(string_of(&out))
}

/// Converts a frequency and time settings into a 6-field cron expression.
pub fn build_cron_expression(
    frequency: &str,
    second: Option<u32>,
    minute: Option<u32>,
    hour: Option<u32>,
    day: Option<u32>,
    month: Option<u32>,
    days_of_week: Option<Vec<u32>>,
) -> (r: Result<String, String>)
    ensures
        r matches Ok(s) ==> cron_expression(frequency@, second, minute, hour, day, month, opt_seq(days_of_week))
            == Ok::<Seq<char>, Seq<char>>(s@),
        r matches Err(e) ==> cron_expression(frequency@, second, minute, hour, day, month, opt_seq(days_of_week))
            == Err::<Seq<char>, Seq<char>>(e@),
{
    let sec = match second { Some(s) => s, None => 0 };
    if sec > 59 {
        let mut out: Vec<char> = Vec::new();
        push_str(&mut out, "Invalid second ");
        push_decimal(&mut out, sec as u64);
        push_str(&mut out, " (must be 0-59)");
        return Err(string_of(&out));
    }
    let freq = chars_of(frequency);
    if chars_eq(&freq, &chars_of("hourly")) {
        let min = match minute { Some(m) => m, None => 0 };
        if min > 59 {
            return Err(range_error_exec("minute", min, frequency, "59"));
        }
        let mut out: Vec<char> = Vec::new();
        push_decimal(&mut out, sec as u64);
        push_str(&mut out, " ");
        push_decimal(&mut out, min as u64);
        push_str(&mut out, " * * * *");
        return Ok(string_of(&out));
    }
    let timed = chars_eq(&freq, &chars_of("daily")) || chars_eq(&freq, &chars_of("weekly"))
        || chars_eq(&freq, &chars_of("monthly")) || chars_eq(&freq, &chars_of("yearly"));
    if !timed {
        let mut err: Vec<char> = Vec::new();
        push_str(&mut err, "Invalid frequency '");
        push_str(&mut err, frequency);
        push_str(&mut err, "'. Use: hourly, daily, weekly, monthly, yearly");
        return Err(string_of(&err));
    }
    timed_expression_exec(frequency, sec, minute, hour, day, month, days_of_week)
}


/// Remaps one weekday value from standard cron numbering (0=Sun..6=Sat) to
/// the schedule parser's numbering (1=Sun..7=Sat); names are upper-cased.
/// The increment wraps at the top of the 32-bit range.
pub open spec fn remap_value_spec(val: Seq<char>) -> Seq<char> {
    match parse_u32(val) {
        Some(n) => decimal(((n as nat + 1) % 0x1_0000_0000) as nat),
        None => uppercase(val),
    }
}

/// Remaps a weekday item: a single value or a `start-end` range.
pub open spec fn remap_item_spec(item: Seq<char>) -> Seq<char> {
    let parts = split_on(item, '-');
    if item.contains('-') && parts.len() == 2 {
        remap_value_spec(trim(parts[0])) + "-"@ + remap_value_spec(trim(parts[1]))
    } else {
        remap_value_spec(item)
    }
}

/// Remaps a whole weekday field (`*`, comma lists and `/step` suffixes).
pub open spec fn remap_dow_spec(dow: Seq<char>) -> Seq<char> {
    if dow == "*"@ {
        "*"@
    } else {
        let (range, step) = match find(dow, "/"@) {
            Some(p) => (dow.take(p), dow.skip(p)),
            None => (dow, Seq::<char>::empty()),
        };
        let items = split_on(range, ',');
        join(Seq::new(items.len(), |k: int| remap_item_spec(trim(items[k]))), ","@) + step
    }
}

/// The 7-field form of a 5-field expression: a zero seconds field in front,
/// the weekday field remapped, and a `*` year field; other input unchanged.
pub open spec fn convert_5field_spec(expr: Seq<char>) -> Seq<char> {
    let parts = words(expr);
    if parts.len() != 5 {
        expr
    } else {
        "0 "@ + parts[0] + " "@ + parts[1] + " "@ + parts[2] + " "@ + parts[3] + " "@
            + remap_dow_spec(parts[4]) + " *"@
    }
}

/// Remaps a single weekday value.
pub fn remap_dow_value(val: &str) -> (r: String)
    ensures
        r@ == remap_value_spec(val@),
{
    let cs = chars_of(val);
    match parse_u32_chars(&cs) {
        Some(n) => {
            let m = n.wrapping_add(1);
            assert(m as nat == ((n as nat + 1) % 0x1_0000_0000) as nat);
            string_of(&crate::text::decimal_chars(m as u64))
        },
        None => to_uppercase_string(val),
    }
}

fn remap_dow_value_chars(val: &Vec<char>) -> (r: Vec<char>)
    ensures
        r@ == remap_value_spec(val@),
{
    let s = string_of(val);
    chars_of(remap_dow_value(s.as_str()).as_str())
}

fn contains_char(s: &[char], c: char) -> (r: bool)
    ensures
        r == s@.contains(c),
{
    let mut i: usize = 0;
    while i < s.len()
        invariant
            i <= s.len(),
            forall|j: int| 0 <= j < i ==> s@[j] != c,
        decreases s.len() - i,
    {
        if s[i] == c {
            assert(s@[i as int] == c);
            return true;
        }
        i += 1;
    }
    false
}

/// Remaps a single weekday item (value or range).
pub fn remap_dow_item(item: &str) -> (r: String)
    ensures
        r@ == remap_item_spec(item@),
{
    let cs = chars_of(item);
    if contains_char(&cs, '-') {
        let parts = split_chars(&cs, '-');
        if parts.len() == 2 {
            let mut out = remap_dow_value_chars(&trim_chars(&parts[0]));
            push_str(&mut out, "-");
            let end = remap_dow_value_chars(&trim_chars(&parts[1]));
            push_chars(&mut out, &end);
            return string_of(&out);
        }
    }
    remap_dow_value(item)
}

/// Remaps a weekday field from standard cron numbering to the parser's.
pub fn remap_dow(dow: &str) -> (r: String)
    ensures
        r@ == remap_dow_spec(dow@),
{
    let cs = chars_of(dow);
    if chars_eq(&cs, &chars_of("*")) {
        return string_of(&chars_of("*"));
    }
    let slash = chars_of("/");
    let (range, step): (Vec<char>, Vec<char>) = match find_from_exec(&cs, &slash, 0) {
        Some(p) => {
            proof {
                crate::text::lemma_find_from_correct(cs@, slash@, 0);
            }
            let mut a: Vec<char> = Vec::new();
            let mut b: Vec<char> = Vec::new();
            let mut i: usize = 0;
            while i < cs.len()
                invariant
                    p <= cs.len(),
                    i <= cs.len(),
                    a@ == cs@.take(if i < p { i as int } else { p as int }),
                    b@ == (if i < p { Seq::<char>::empty() } else { cs@.subrange(p as int, i as int) }),
                decreases cs.len() - i,
            {
                if i < p {
                    a.push(cs[i]);
                    assert(cs@.take(i + 1) =~= cs@.take(i as int).push(cs@[i as int]));
                } else {
                    b.push(cs[i]);
                    assert(cs@.subrange(p as int, i + 1) =~= cs@.subrange(p as int, i as int).push(cs@[i as int]));
                }
                i += 1;
            }
            proof {
                crate::text::lemma_find_from_correct(cs@, slash@, 0);
                if p == cs.len() {
                    assert(cs@.subrange(p as int, p as int) =~= Seq::<char>::empty());
                }
                assert(cs@.subrange(p as int, cs.len() as int) =~= cs@.skip(p as int));
            }
            (a, b)
        },
        None => (cs.clone(), Vec::new()),
    };
    let items = split_chars(&range, ',');
    let ghost spec_items = split_on(range@, ',');
    let ghost mapped = Seq::new(spec_items.len(), |k: int| remap_item_spec(trim(spec_items[k])));
    let mut out: Vec<char> = Vec::new();
    let mut k: usize = 0;
    while k < items.len()
        invariant
            k <= items.len(),
            items@.len() == spec_items.len(),
            forall|j: int| 0 <= j < items@.len() ==> #[trigger] items@[j]@ == spec_items[j],
            mapped == Seq::new(spec_items.len(), |k: int| remap_item_spec(trim(spec_items[k]))),
            out@ == join(mapped.take(k as int), ","@),
        decreases items.len() - k,
    {
        let t = trim_chars(&items[k]);
        let piece = remap_dow_item(string_of(&t).as_str());
        assert(mapped.take(k + 1).drop_last() =~= mapped.take(k as int));
        if k > 0 {
            push_str(&mut out, ",");
        } else {
            assert(mapped.take(0) =~= Seq::<Seq<char>>::empty());
        }
        push_chars(&mut out, &chars_of(piece.as_str()));
        k += 1;
    }
    assert(mapped.take(items.len() as int) =~= mapped);
    push_chars(&mut out, &step);
    string_of(&out)
}

/// Converts a 5-field expression to 7 fields; any other expression is
/// returned unchanged.
pub fn convert_5field_to_7field(expr: &str) -> (r: String)
    ensures
        r@ == convert_5field_spec(expr@),
{
    let cs = chars_of(expr);
    let parts = words_chars(&cs);
    if parts.len() != 5 {
        return string_of(&cs);
    }
    let mut out: Vec<char> = Vec::new();
    push_str(&mut out, "0 ");
    push_chars(&mut out, &parts[0]);
    push_str(&mut out, " ");
    push_chars(&mut out, &parts[1]);
    push_str(&mut out, " ");
    push_chars(&mut out, &parts[2]);
    push_str(&mut out, " ");
    push_chars(&mut out, &parts[3]);
    push_str(&mut out, " ");
    let dow = remap_dow(string_of(&parts[4]).as_str());
    push_chars(&mut out, &chars_of(dow.as_str()));
    push_str(&mut out, " *");
    string_of(&out)
}

} // verus!
