//! Character-sequence helpers shared by the text-processing modules.
//!
//! Strings are modelled by their `Seq<char>` view. Executable code works on
//! `Vec<char>` buffers and converts at the edges.
use vstd::prelude::*;

verus! {

/// The ASCII digit for a value below ten.
pub open spec fn digit_char(d: nat) -> char {
    if d == 0 { '0' }
    else if d == 1 { '1' }
    else if d == 2 { '2' }
    else if d == 3 { '3' }
    else if d == 4 { '4' }
    else if d == 5 { '5' }
    else if d == 6 { '6' }
    else if d == 7 { '7' }
    else if d == 8 { '8' }
    else { '9' }
}

/// Decimal rendering of a natural number, most significant digit first.
pub open spec fn decimal(n: nat) -> Seq<char>
    decreases n,
{
    if n < 10 {
        seq![digit_char(n)]
    } else {
        decimal(n / 10).push(digit_char(n % 10))
    }
}

/// True when `c` is an ASCII decimal digit.
pub open spec fn is_digit(c: char) -> bool {
    '0' <= c && c <= '9'
}

/// The value of an ASCII digit.
pub open spec fn digit_value(c: char) -> nat {
    ((c as u32) - ('0' as u32)) as nat
}

/// Concatenation of `parts` with `sep` between consecutive parts.
pub open spec fn join(parts: Seq<Seq<char>>, sep: Seq<char>) -> Seq<char>
    decreases parts.len(),
{
    if parts.len() == 0 {
        seq![]
    } else if parts.len() == 1 {
        parts[0]
    } else {
        join(parts.drop_last(), sep) + sep + parts.last()
    }
}

/// Number of UTF-8 bytes used to encode `c`.
pub open spec fn char_width(c: char) -> nat {
    if (c as u32) <= 0x7F {
        1
    } else if (c as u32) <= 0x7FF {
        2
    } else if (c as u32) <= 0xFFFF {
        3
    } else {
        4
    }
}

/// Number of UTF-8 bytes used to encode `s`.
pub open spec fn byte_len(s: Seq<char>) -> nat
    decreases s.len(),
{
    if s.len() == 0 {
        0
    } else {
        byte_len(s.drop_last()) + char_width(s.last())
    }
}

/// `s` holds `p` at position `i`.
pub open spec fn occurs_at(s: Seq<char>, p: Seq<char>, i: int) -> bool {
    0 <= i && i + p.len() <= s.len() && s.subrange(i, i + p.len()) == p
}

/// Index of the first occurrence of `p` in `s` at or after `from`.
pub open spec fn find_from(s: Seq<char>, p: Seq<char>, from: int) -> Option<int>
    decreases s.len() + 1 - from,
{
    if from < 0 || from + p.len() > s.len() {
        None
    } else if occurs_at(s, p, from) {
        Some(from)
    } else {
        find_from(s, p, from + 1)
    }
}

/// Index of the first occurrence of `p` in `s`.
pub open spec fn find(s: Seq<char>, p: Seq<char>) -> Option<int> {
    find_from(s, p, 0)
}

/// `s` contains `p` somewhere.
pub open spec fn contains_seq(s: Seq<char>, p: Seq<char>) -> bool {
    exists|i: int| occurs_at(s, p, i)
}

/// `s` begins with `p`.
pub open spec fn starts_with(s: Seq<char>, p: Seq<char>) -> bool {
    occurs_at(s, p, 0)
}

pub proof fn lemma_byte_len_append(a: Seq<char>, b: Seq<char>)
    ensures
        byte_len(a + b) == byte_len(a) + byte_len(b),
    decreases b.len(),
{
    if b.len() == 0 {
        assert(a + b =~= a);
    } else {
        lemma_byte_len_append(a, b.drop_last());
        assert((a + b).drop_last() =~= a + b.drop_last());
        assert((a + b).last() == b.last());
    }
}

pub proof fn lemma_byte_len_push(a: Seq<char>, c: char)
    ensures
        byte_len(a.push(c)) == byte_len(a) + char_width(c),
{
    assert(a.push(c).drop_last() =~= a);
}

pub proof fn lemma_byte_len_prefix_monotone(s: Seq<char>, i: int, j: int)
    requires
        0 <= i <= j <= s.len(),
    ensures
        byte_len(s.take(i)) <= byte_len(s.take(j)),
        byte_len(s.take(j)) - byte_len(s.take(i)) >= j - i,
    decreases j - i,
{
    if i < j {
        lemma_byte_len_prefix_monotone(s, i, j - 1);
        assert(s.take(j) =~= s.take(j - 1).push(s[j - 1]));
        lemma_byte_len_push(s.take(j - 1), s[j - 1]);
    }
}

/// The bytes of a UTF-8 encoding have the length given by `byte_len`.
pub proof fn lemma_encode_utf8_len(s: Seq<char>)
    ensures
        vstd::utf8::encode_utf8(s).len() == byte_len(s),
    decreases s.len(),
{
    if s.len() > 0 {
        lemma_encode_utf8_len(s.drop_first());
        let c = s[0];
        vstd::utf8::char_is_scalar(c);
        assert(vstd::utf8::encode_scalar(c as u32).len() == char_width(c));
        assert(vstd::utf8::encode_utf8(s) == vstd::utf8::encode_scalar(c as u32)
            + vstd::utf8::encode_utf8(s.drop_first()));
        assert(s =~= seq![c] + s.drop_first());
        lemma_byte_len_append(seq![c], s.drop_first());
        assert(seq![c].drop_last() =~= Seq::<char>::empty());
        assert(byte_len(Seq::<char>::empty()) == 0);
        assert(byte_len(seq![c]) == char_width(c));
        assert(byte_len(s) == char_width(c) + byte_len(s.drop_first()));
    }
}

pub proof fn lemma_find_from_correct(s: Seq<char>, p: Seq<char>, from: int)
    requires
        0 <= from,
    ensures
        find_from(s, p, from) matches Some(i) ==> from <= i && occurs_at(s, p, i) && forall|j: int|
            from <= j < i ==> !occurs_at(s, p, j),
        find_from(s, p, from) is None ==> forall|j: int| from <= j ==> !occurs_at(s, p, j),
    decreases s.len() + 1 - from,
{
    if from + p.len() > s.len() {
    } else if occurs_at(s, p, from) {
    } else {
        lemma_find_from_correct(s, p, from + 1);
    }
}

/// The first occurrence at or after `from` is at `k` when `p` occurs at `k`
/// and nowhere in between.
pub proof fn lemma_find_first(s: Seq<char>, p: Seq<char>, from: int, k: int)
    requires
        0 <= from <= k,
        occurs_at(s, p, k),
        forall|j: int| from <= j < k ==> !occurs_at(s, p, j),
    ensures
        find_from(s, p, from) == Some(k),
    decreases k - from,
{
    if from < k {
        lemma_find_first(s, p, from + 1, k);
    }
}

/// Unicode `White_Space`, the property behind `char::is_whitespace`.
pub open spec fn is_ws(c: char) -> bool {
    ('\u{9}' <= c && c <= '\u{d}') || c == ' ' || c == '\u{85}' || c == '\u{a0}' || c == '\u{1680}'
        || ('\u{2000}' <= c && c <= '\u{200a}') || c == '\u{2028}' || c == '\u{2029}' || c == '\u{202f}'
        || c == '\u{205f}' || c == '\u{3000}'
}

/// Number of leading whitespace characters of `s`.
pub open spec fn leading_ws(s: Seq<char>) -> nat
    decreases s.len(),
{
    if s.len() == 0 || !is_ws(s[0]) {
        0
    } else {
        1 + leading_ws(s.drop_first())
    }
}

/// `s` without trailing whitespace.
pub open spec fn trim_end(s: Seq<char>) -> Seq<char>
    decreases s.len(),
{
    if s.len() == 0 || !is_ws(s.last()) {
        s
    } else {
        trim_end(s.drop_last())
    }
}

/// `s` without leading whitespace.
pub open spec fn trim_start(s: Seq<char>) -> Seq<char> {
    s.skip(leading_ws(s) as int)
}

/// `s` without leading and trailing whitespace (`str::trim`).
pub open spec fn trim(s: Seq<char>) -> Seq<char> {
    trim_end(trim_start(s))
}

/// The pieces of `s` between occurrences of `sep` (`str::split` on a char).
pub open spec fn split_on(s: Seq<char>, sep: char) -> Seq<Seq<char>>
    decreases s.len(),
{
    if s.len() == 0 {
        seq![Seq::<char>::empty()]
    } else {
        let prev = split_on(s.drop_last(), sep);
        if s.last() == sep {
            prev.push(Seq::<char>::empty())
        } else {
            prev.update(prev.len() - 1, prev.last().push(s.last()))
        }
    }
}

/// The maximal runs of non-whitespace characters of `s` (`str::split_whitespace`).
pub open spec fn words(s: Seq<char>) -> Seq<Seq<char>>
    decreases s.len(),
{
    if s.len() == 0 {
        seq![]
    } else {
        let prev = words(s.drop_last());
        let c = s.last();
        if is_ws(c) {
            prev
        } else if s.len() == 1 || is_ws(s[s.len() - 2]) {
            prev.push(seq![c])
        } else {
            prev.update(prev.len() - 1, prev.last().push(c))
        }
    }
}

pub proof fn lemma_split_on_nonempty(s: Seq<char>, sep: char)
    ensures
        split_on(s, sep).len() >= 1,
    decreases s.len(),
{
    if s.len() > 0 {
        lemma_split_on_nonempty(s.drop_last(), sep);
    }
}

/// `c` is whitespace.
pub fn is_ws_exec(c: char) -> (r: bool)
    ensures
        r == is_ws(c),
{
    ('\u{9}' <= c && c <= '\u{d}') || c == ' ' || c == '\u{85}' || c == '\u{a0}' || c == '\u{1680}'
        || ('\u{2000}' <= c && c <= '\u{200a}') || c == '\u{2028}' || c == '\u{2029}' || c == '\u{202f}'
        || c == '\u{205f}' || c == '\u{3000}'
}

pub proof fn lemma_leading_ws_bound(s: Seq<char>)
    ensures
        leading_ws(s) <= s.len(),
        forall|j: int| 0 <= j < leading_ws(s) ==> is_ws(#[trigger] s[j]),
        leading_ws(s) < s.len() ==> !is_ws(s[leading_ws(s) as int]),
    decreases s.len(),
{
    if s.len() > 0 && is_ws(s[0]) {
        lemma_leading_ws_bound(s.drop_first());
        assert forall|j: int| 0 <= j < leading_ws(s) implies is_ws(#[trigger] s[j]) by {
            if j > 0 {
                assert(s[j] == s.drop_first()[j - 1]);
            }
        }
    }
}

/// `s` with surrounding whitespace removed.
pub fn trim_chars(s: &[char]) -> (r: Vec<char>)
    ensures
        r@ == trim(s@),
{
    let mut start: usize = 0;
    assert(s@.skip(0) =~= s@);
    while start < s.len() && is_ws_exec(s[start])
        invariant
            start <= s.len(),
            leading_ws(s@) == start + leading_ws(s@.skip(start as int)),
        decreases s.len() - start,
    {
        assert(s@.skip(start as int).drop_first() =~= s@.skip(start as int + 1));
        start += 1;
    }
    proof {
        if start < s.len() {
            assert(s@.skip(start as int)[0] == s@[start as int]);
        }
    }
    let mut end: usize = s.len();
    let ghost t = s@.skip(start as int);
    assert(trim_start(s@) == t);
    while end > start && is_ws_exec(s[end - 1])
        invariant
            start <= end <= s.len(),
            t == s@.skip(start as int),
            trim_end(t) == trim_end(s@.subrange(start as int, end as int)),
        decreases end,
    {
        assert(s@.subrange(start as int, end as int).drop_last() =~= s@.subrange(start as int, end - 1));
        end -= 1;
    }
    let mut r: Vec<char> = Vec::new();
    let mut i = start;
    while i < end
        invariant
            start <= i <= end <= s.len(),
            r@ == s@.subrange(start as int, i as int),
        decreases end - i,
    {
        r.push(s[i]);
        assert(s@.subrange(start as int, i + 1) =~= s@.subrange(start as int, i as int).push(s@[i as int]));
        i += 1;
    }
    assert(trim_end(s@.subrange(start as int, end as int)) == s@.subrange(start as int, end as int));
    r
}

/// The pieces of `s` between occurrences of `sep`.
pub fn split_chars(s: &[char], sep: char) -> (r: Vec<Vec<char>>)
    ensures
        r@.len() == split_on(s@, sep).len(),
        forall|k: int| 0 <= k < r@.len() ==> #[trigger] r@[k]@ == split_on(s@, sep)[k],
{
    let mut r: Vec<Vec<char>> = Vec::new();
    r.push(Vec::new());
    let mut i: usize = 0;
    assert(s@.take(0) =~= Seq::<char>::empty());
    while i < s.len()
        invariant
            i <= s.len(),
            r@.len() == split_on(s@.take(i as int), sep).len(),
            r@.len() >= 1,
            forall|k: int| 0 <= k < r@.len() ==> #[trigger] r@[k]@ == split_on(s@.take(i as int), sep)[k],
        decreases s.len() - i,
    {
        let c = s[i];
        assert(s@.take(i + 1).drop_last() =~= s@.take(i as int));
        assert(s@.take(i + 1).last() == c);
        if c == sep {
            r.push(Vec::new());
        } else {
            let last = r.len() - 1;
            let mut piece = r.remove(last);
            piece.push(c);
            r.push(piece);
        }
        i += 1;
    }
    assert(s@.take(s.len() as int) =~= s@);
    r
}

/// The maximal runs of non-whitespace characters of `s`.
pub fn words_chars(s: &[char]) -> (r: Vec<Vec<char>>)
    ensures
        r@.len() == words(s@).len(),
        forall|k: int| 0 <= k < r@.len() ==> #[trigger] r@[k]@ == words(s@)[k],
{
    let mut r: Vec<Vec<char>> = Vec::new();
    let mut i: usize = 0;
    assert(s@.take(0) =~= Seq::<char>::empty());
    while i < s.len()
        invariant
            i <= s.len(),
            r@.len() == words(s@.take(i as int)).len(),
            forall|k: int| 0 <= k < r@.len() ==> #[trigger] r@[k]@ == words(s@.take(i as int))[k],
            i > 0 && !is_ws(s@[i - 1]) ==> r@.len() >= 1,
        decreases s.len() - i,
    {
        let c = s[i];
        let ghost t = s@.take(i + 1);
        assert(t.drop_last() =~= s@.take(i as int));
        assert(t.last() == c);
        if is_ws_exec(c) {
        } else if i == 0 || is_ws_exec(s[i - 1]) {
            assert(i > 0 ==> t[t.len() - 2] == s@[i - 1]);
            let mut w = Vec::new();
            w.push(c);
            assert(w@ =~= seq![c]);
            r.push(w);
        } else {
            assert(t[t.len() - 2] == s@[i - 1]);
            let last = r.len() - 1;
            let mut piece = r.remove(last);
            piece.push(c);
            r.push(piece);
        }
        i += 1;
    }
    assert(s@.take(s.len() as int) =~= s@);
    r
}

/// Value of a sequence of decimal digits.
pub open spec fn digits_value(s: Seq<char>) -> nat
    decreases s.len(),
{
    if s.len() == 0 {
        0
    } else {
        digits_value(s.drop_last()) * 10 + digit_value(s.last())
    }
}

/// Every character of `s` is a decimal digit.
pub open spec fn all_digits(s: Seq<char>) -> bool {
    forall|i: int| 0 <= i < s.len() ==> is_digit(#[trigger] s[i])
}

/// What `str::parse::<u32>` gives for `s`: an optional `+` followed by at
/// least one digit, with a value that fits in 32 bits.
pub open spec fn parse_u32(s: Seq<char>) -> Option<u32> {
    let d = if s.len() > 0 && s[0] == '+' { s.drop_first() } else { s };
    if d.len() == 0 || !all_digits(d) || digits_value(d) > u32::MAX {
        None
    } else {
        Some(digits_value(d) as u32)
    }
}

pub proof fn lemma_digits_value_prefix(s: Seq<char>, i: int)
    requires
        0 <= i <= s.len(),
    ensures
        digits_value(s.take(i)) <= digits_value(s),
    decreases s.len() - i,
{
    if i < s.len() {
        lemma_digits_value_prefix(s, i + 1);
        assert(s.take(i + 1).drop_last() =~= s.take(i));
    } else {
        assert(s.take(i) =~= s);
    }
}

/// `str::parse::<u32>` on a character sequence.
pub fn parse_u32_chars(s: &[char]) -> (r: Option<u32>)
    ensures
        r == parse_u32(s@),
{
    let mut start: usize = 0;
    if s.len() > 0 && s[0] == '+' {
        start = 1;
    }
    let ghost d = if s@.len() > 0 && s@[0] == '+' { s@.drop_first() } else { s@ };
    assert(d =~= s@.skip(start as int));
    assert(parse_u32(s@) == (if d.len() == 0 || !all_digits(d) || digits_value(d) > u32::MAX {
        None
    } else {
        Some(digits_value(d) as u32)
    }));
    if start >= s.len() {
        return None;
    }
    let mut acc: u64 = 0;
    let mut i = start;
    while i < s.len()
        invariant
            start <= i <= s.len(),
            d == s@.skip(start as int),
            parse_u32(s@) == (if d.len() == 0 || !all_digits(d) || digits_value(d) > u32::MAX {
                None
            } else {
                Some(digits_value(d) as u32)
            }),
            all_digits(s@.subrange(start as int, i as int)),
            acc == digits_value(s@.subrange(start as int, i as int)),
            acc <= u32::MAX,
        decreases s.len() - i,
    {
        let c = s[i];
        if !('0' <= c && c <= '9') {
            assert(d[i - start] == s@[i as int]);
            assert(!is_digit(d[i - start]));
            assert(!all_digits(d));
            assert(parse_u32(s@) is None);
            return None;
        }
        let ghost pre = s@.subrange(start as int, i as int);
        assert(s@.subrange(start as int, i + 1).drop_last() =~= pre);
        let v = (c as u32 - '0' as u32) as u64;
        assert(digits_value(s@.subrange(start as int, i + 1)) == digits_value(pre) * 10 + v);
        assert(all_digits(s@.subrange(start as int, i + 1))) by {
            assert forall|k: int| 0 <= k < i + 1 - start implies is_digit(#[trigger] s@.subrange(start as int, i + 1)[k]) by {
                if k < i - start {
                    assert(s@.subrange(start as int, i + 1)[k] == pre[k]);
                }
            }
        }
        acc = acc * 10 + v;
        i += 1;
        if acc > 0xFFFF_FFFF {
            proof {
                assert(d.take(i - start) =~= s@.subrange(start as int, i as int));
                lemma_digits_value_prefix(d, i - start);
                assert(digits_value(d) > u32::MAX);
                assert(parse_u32(s@) is None);
            }
            return None;
        }
    }
    assert(s@.subrange(start as int, s.len() as int) =~= d);
    Some(acc as u32)
}

/// The upper-case form of `s` (`str::to_uppercase`).
pub uninterp spec fn uppercase(s: Seq<char>) -> Seq<char>;

/// Unicode upper-casing through `str::to_uppercase`; the mapping is named,
/// not stated.
#[verifier::external_body]
pub fn to_uppercase_string(s: &str) -> (r: String)
    ensures
        r@ == uppercase(s@),
{
    s.to_uppercase()
}

/// The longest prefix of `s` whose UTF-8 encoding fits in `limit` bytes,
/// i.e. `s` cut at the last character boundary at or below `limit`.
pub open spec fn byte_prefix(s: Seq<char>, limit: nat) -> Seq<char>
    decreases s.len(),
{
    if byte_len(s) <= limit || s.len() == 0 {
        s
    } else {
        byte_prefix(s.drop_last(), limit)
    }
}

pub proof fn lemma_byte_prefix_at(s: Seq<char>, limit: nat, k: int, j: int)
    requires
        0 <= k < j <= s.len(),
        byte_len(s.take(k)) <= limit,
        byte_len(s.take(k + 1)) > limit,
    ensures
        byte_prefix(s.take(j), limit) == s.take(k),
    decreases j - k,
{
    lemma_byte_len_prefix_monotone(s, k + 1, j);
    assert(s.take(j).drop_last() =~= s.take(j - 1));
    if j - 1 == k {
        assert(byte_prefix(s.take(k), limit) == s.take(k));
    } else {
        lemma_byte_prefix_at(s, limit, k, j - 1);
    }
}

pub proof fn lemma_byte_prefix_facts(s: Seq<char>, limit: nat)
    ensures
        byte_len(byte_prefix(s, limit)) <= limit || byte_prefix(s, limit).len() == 0,
        s.len() > 0 ==> byte_prefix(s, limit) == s || byte_len(byte_prefix(s, limit)) <= limit,
        exists|k: int| 0 <= k <= s.len() && byte_prefix(s, limit) == s.take(k),
    decreases s.len(),
{
    if byte_len(s) <= limit || s.len() == 0 {
        assert(s.take(s.len() as int) =~= s);
    } else {
        lemma_byte_prefix_facts(s.drop_last(), limit);
        let k = choose|k: int| 0 <= k <= s.drop_last().len() && byte_prefix(s.drop_last(), limit) == s.drop_last().take(k);
        assert(s.drop_last().take(k) =~= s.take(k));
        if s.drop_last().len() == 0 {
            assert(byte_len(s.drop_last()) == 0);
        }
    }
}

/// UTF-8 width of `c` (`char::len_utf8`).
pub fn char_width_exec(c: char) -> (r: usize)
    ensures
        r == char_width(c),
{
    let v = c as u32;
    if v <= 0x7F {
        1
    } else if v <= 0x7FF {
        2
    } else if v <= 0xFFFF {
        3
    } else {
        4
    }
}

/// The longest prefix of `s` that fits in `limit` UTF-8 bytes, and whether
/// that prefix is all of `s`.
pub fn byte_prefix_chars(s: &[char], limit: usize) -> (r: (Vec<char>, bool))
    ensures
        r.0@ == byte_prefix(s@, limit as nat),
        r.1 == (byte_len(s@) <= limit),
{
    let mut out: Vec<char> = Vec::new();
    let mut used: usize = 0;
    let mut i: usize = 0;
    while i < s.len()
        invariant
            i <= s.len(),
            out@ == s@.take(i as int),
            used == byte_len(s@.take(i as int)),
            used <= limit,
        decreases s.len() - i,
    {
        let w = char_width_exec(s[i]);
        proof {
            assert(s@.take(i + 1) =~= s@.take(i as int).push(s@[i as int]));
            lemma_byte_len_push(s@.take(i as int), s@[i as int]);
        }
        if w > limit - used {
            proof {
                lemma_byte_prefix_at(s@, limit as nat, i as int, s.len() as int);
                assert(s@.take(s.len() as int) =~= s@);
                lemma_byte_len_prefix_monotone(s@, i + 1, s.len() as int);
            }
            return (out, false);
        }
        out.push(s[i]);
        used = used + w;
        i += 1;
    }
    assert(s@.take(s.len() as int) =~= s@);
    (out, true)
}

/// The characters of `s`.
#[verifier::external_body]
pub fn chars_of(s: &str) -> (r: Vec<char>)
    ensures
        r@ == s@,
{
    s.chars().collect()
}

/// A string holding the characters of `v`.
#[verifier::external_body]
pub fn string_of(v: &Vec<char>) -> (r: String)
    ensures
        r@ == v@,
{
    v.iter().collect()
}

/// Appends the characters of `s` to `out`.
pub fn push_str(out: &mut Vec<char>, s: &str)
    ensures
        final(out)@ == old(out)@ + s@,
{
    let cs = chars_of(s);
    push_chars(out, &cs);
}

/// Appends `cs` to `out`.
pub fn push_chars(out: &mut Vec<char>, cs: &Vec<char>)
    ensures
        final(out)@ == old(out)@ + cs@,
{
    let ghost start = out@;
    let mut i: usize = 0;
    while i < cs.len()
        invariant
            i <= cs.len(),
            out@ == start + cs@.take(i as int),
        decreases cs.len() - i,
    {
        out.push(cs[i]);
        assert(cs@.take(i as int + 1) =~= cs@.take(i as int).push(cs@[i as int]));
        i += 1;
    }
    assert(cs@.take(cs.len() as int) =~= cs@);
}

/// The ASCII digit for `d`.
pub fn digit_to_char(d: u32) -> (c: char)
    requires
        d < 10,
    ensures
        c == digit_char(d as nat),
{
    if d == 0 { '0' }
    else if d == 1 { '1' }
    else if d == 2 { '2' }
    else if d == 3 { '3' }
    else if d == 4 { '4' }
    else if d == 5 { '5' }
    else if d == 6 { '6' }
    else if d == 7 { '7' }
    else if d == 8 { '8' }
    else { '9' }
}

/// Decimal digits of `n`.
pub fn decimal_chars(n: u64) -> (r: Vec<char>)
    ensures
        r@ == decimal(n as nat),
    decreases n,
{
    if n < 10 {
        let mut v = Vec::new();
        v.push(digit_to_char(n as u32));
        v
    } else {
        let mut v = decimal_chars(n / 10);
        v.push(digit_to_char((n % 10) as u32));
        v
    }
}

/// Appends the decimal digits of `n` to `out`.
pub fn push_decimal(out: &mut Vec<char>, n: u64)
    ensures
        final(out)@ == old(out)@ + decimal(n as nat),
{
    let d = decimal_chars(n);
    push_chars(out, &d);
}

/// `a` and `b` hold the same characters.
pub fn chars_eq(a: &[char], b: &[char]) -> (r: bool)
    ensures
        r == (a@ == b@),
{
    if a.len() != b.len() {
        return false;
    }
    let mut i: usize = 0;
    while i < a.len()
        invariant
            a.len() == b.len(),
            i <= a.len(),
            forall|j: int| 0 <= j < i ==> a@[j] == b@[j],
        decreases a.len() - i,
    {
        if a[i] != b[i] {
            return false;
        }
        i += 1;
    }
    assert(a@ =~= b@);
    true
}

/// `s` holds `p` at `i`.
pub fn occurs_at_exec(s: &[char], p: &[char], i: usize) -> (r: bool)
    ensures
        r == occurs_at(s@, p@, i as int),
{
    if i > s.len() || p.len() > s.len() - i {
        return false;
    }
    let mut k: usize = 0;
    while k < p.len()
        invariant
            i + p.len() <= s.len(),
            k <= p.len(),
            forall|j: int| 0 <= j < k ==> s@[i + j] == p@[j],
        decreases p.len() - k,
    {
        if s[i + k] != p[k] {
            assert(s@.subrange(i as int, i + p.len())[k as int] != p@[k as int]);
            return false;
        }
        k += 1;
    }
    assert(s@.subrange(i as int, i + p.len()) =~= p@);
    true
}

/// Index of the first occurrence of `p` in `s` at or after `from`.
pub fn find_from_exec(s: &[char], p: &[char], from: usize) -> (r: Option<usize>)
    ensures
        r matches Some(i) ==> find_from(s@, p@, from as int) == Some(i as int),
        r is None ==> find_from(s@, p@, from as int) is None,
{
    let mut i = from;
    while i <= s.len() && p.len() <= s.len() - i
        invariant
            from <= i,
            find_from(s@, p@, from as int) == find_from(s@, p@, i as int),
        decreases s.len() + 1 - i,
    {
        if occurs_at_exec(s, p, i) {
            return Some(i);
        }
        if i == s.len() {
            assert(s@.subrange(i as int, i as int + p.len()) =~= p@);
            assert(false);
        }
        i += 1;
    }
    None
}

/// `lines` joined with `sep` between consecutive lines.
pub fn join_chars(lines: &Vec<Vec<char>>, sep: &str) -> (r: Vec<char>)
    ensures
        r@ == join(lines@.map_values(|x: Vec<char>| x@), sep@),
{
    let ghost lv = lines@.map_values(|x: Vec<char>| x@);
    let mut out: Vec<char> = Vec::new();
    let mut k: usize = 0;
    while k < lines.len()
        invariant
            k <= lines.len(),
            lv == lines@.map_values(|x: Vec<char>| x@),
            out@ == join(lv.take(k as int), sep@),
        decreases lines.len() - k,
    {
        assert(lv.take(k + 1).drop_last() =~= lv.take(k as int));
        if k > 0 {
            push_str(&mut out, sep);
        } else {
            assert(lv.take(0) =~= Seq::<Seq<char>>::empty());
        }
        push_chars(&mut out, &lines[k]);
        k += 1;
    }
    assert(lv.take(lines.len() as int) =~= lv);
    out
}

/// The lines of `s` as `str::lines` splits them at `\n`, except that a `\r`
/// before the `\n` stays; the whitespace trim that every line then gets
/// removes it.
pub open spec fn line_pieces(s: Seq<char>) -> Seq<Seq<char>> {
    if s.len() == 0 {
        seq![]
    } else if s.last() == '\n' {
        split_on(s, '\n').drop_last()
    } else {
        split_on(s, '\n')
    }
}


/// The lines of `s`, as `line_pieces` splits them.
pub fn lines_chars(s: &[char]) -> (r: Vec<Vec<char>>)
    ensures
        r@.len() == line_pieces(s@).len(),
        forall|k: int| 0 <= k < r@.len() ==> #[trigger] r@[k]@ == line_pieces(s@)[k],
{
    if s.len() == 0 {
        return Vec::new();
    }
    let mut pieces = split_chars(s, '\n');
    proof {
        lemma_split_on_nonempty(s@, '\n');
    }
    if s[s.len() - 1] == '\n' {
        let ghost before = pieces@;
        pieces.pop();
        assert(pieces@ =~= before.drop_last());
    }
    pieces
}

} // verus!
