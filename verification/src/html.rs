//! Text extraction from HTML pages: the page title and a plain-text
//! rendering for language-model context.
use vstd::prelude::*;
use crate::text::{
    byte_len, byte_prefix, chars_eq, chars_of, find_from, occurs_at, is_ws, join, push_chars, split_on, string_of, trim,
    trim_chars, words,
};

verus! {

/// `c` with ASCII upper-case letters lowered.
pub open spec fn ascii_lower(c: char) -> char {
    if 'A' <= c && c <= 'Z' {
        ((c as u32) + 32) as char
    } else {
        c
    }
}

/// `s` with ASCII upper-case letters lowered.
pub open spec fn ascii_lower_seq(s: Seq<char>) -> Seq<char> {
    s.map_values(|c: char| ascii_lower(c))
}

/// `c` with ASCII upper-case letters lowered.
pub fn ascii_lower_char(c: char) -> (r: char)
    ensures
        r == ascii_lower(c),
{
    if 'A' <= c && c <= 'Z' {
        let v = c as u32 + 32;
        assert(0x61 <= v <= 0x7a);
        let r = char_from_ascii(v as u8);
        r
    } else {
        c
    }
}

/// The character of an ASCII code.
fn char_from_ascii(b: u8) -> (r: char)
    requires
        b < 128,
    ensures
        r == b as char,
{
    b as char
}

/// `s` with ASCII upper-case letters lowered.
pub fn ascii_lower_chars(s: &[char]) -> (r: Vec<char>)
    ensures
        r@ == ascii_lower_seq(s@),
{
    let mut out: Vec<char> = Vec::new();
    let mut i: usize = 0;
    while i < s.len()
        invariant
            i <= s.len(),
            out@ == ascii_lower_seq(s@.take(i as int)),
        decreases s.len() - i,
    {
        out.push(ascii_lower_char(s[i]));
        assert(ascii_lower_seq(s@.take(i + 1)) =~= ascii_lower_seq(s@.take(i as int)).push(ascii_lower(s@[i as int])));
        i += 1;
    }
    assert(s@.take(s.len() as int) =~= s@);
    out
}

/// The page title of an HTML text: the trimmed text between the first
/// `<title ...>` tag and the next `</title>`, matched without regard to ASCII
/// case; `Untitled` when there is none.
pub open spec fn title_spec(html: Seq<char>) -> Seq<char> {
    let lower = ascii_lower_seq(html);
    match find_from(lower, "<title"@, 0) {
        None => "Untitled"@,
        Some(st) => match find_from(lower, ">"@, st) {
            None => "Untitled"@,
            Some(gt) => match find_from(lower, "</title>"@, gt + 1) {
                None => "Untitled"@,
                Some(e) => trim(html.subrange(gt + 1, e)),
            },
        },
    }
}

/// Extracts the page title from HTML.
pub fn extract_title(html: &str) -> (r: String)
    ensures
        r@ == title_spec(html@),
{
    let h = chars_of(html);
    let lower = ascii_lower_chars(&h);
    let open_tag = chars_of("<title");
    let gt = chars_of(">");
    let close_tag = chars_of("</title>");
    proof {
        reveal_strlit(">");
    }
    match crate::text::find_from_exec(&lower, &open_tag, 0) {
        None => string_of(&chars_of("Untitled")),
        Some(st) => match crate::text::find_from_exec(&lower, &gt, st) {
            None => string_of(&chars_of("Untitled")),
            Some(g) => {
                proof {
                    crate::text::lemma_find_from_correct(lower@, gt@, st as int);
                    assert(gt@.len() == 1);
                    assert(g < lower.len());
                }
                match crate::text::find_from_exec(&lower, &close_tag, g + 1) {
                    None => string_of(&chars_of("Untitled")),
                    Some(e) => {
                        proof {
                            crate::text::lemma_find_from_correct(lower@, close_tag@, g + 1);
                            assert(lower@.len() == h@.len());
                        }
                        let mut raw: Vec<char> = Vec::new();
                        let mut i = g + 1;
                        while i < e
                            invariant
                                g + 1 <= i <= e <= h.len(),
                                raw@ == h@.subrange(g + 1, i as int),
                            decreases e - i,
                        {
                            raw.push(h[i]);
                            assert(h@.subrange(g + 1, i + 1) =~= h@.subrange(g + 1, i as int).push(h@[i as int]));
                            i += 1;
                        }
                        string_of(&trim_chars(&raw))
                    },
                }
            },
        },
    }
}

/// Appends `s[a..b]` to `out`.
pub(crate) fn push_range(out: &mut Vec<char>, s: &[char], a: usize, b: usize)
    requires
        a <= b <= s.len(),
    ensures
        final(out)@ == old(out)@ + s@.subrange(a as int, b as int),
{
    let ghost start = out@;
    let mut i = a;
    while i < b
        invariant
            a <= i <= b <= s.len(),
            out@ == start + s@.subrange(a as int, i as int),
        decreases b - i,
    {
        out.push(s[i]);
        assert(s@.subrange(a as int, i + 1) =~= s@.subrange(a as int, i as int).push(s@[i as int]));
        i += 1;
    }
}

/// `s` from `from` on, each occurrence of a non-empty `p` met by a
/// left-to-right scan replaced by `r`, as `str::replace` does.
pub open spec fn replace_from(s: Seq<char>, p: Seq<char>, r: Seq<char>, from: int) -> Seq<char>
    decreases s.len() - from,
{
    if p.len() == 0 || from < 0 || from > s.len() {
        s.subrange(from, s.len() as int)
    } else {
        match find_from(s, p, from) {
            None => s.subrange(from, s.len() as int),
            Some(j) => {
                proof {
                    crate::text::lemma_find_from_correct(s, p, from);
                }
                s.subrange(from, j) + r + replace_from(s, p, r, j + p.len())
            },
        }
    }
}

/// `s` with every occurrence of a non-empty `p` replaced by `r`.
pub open spec fn replace_all(s: Seq<char>, p: Seq<char>, r: Seq<char>) -> Seq<char> {
    replace_from(s, p, r, 0)
}

/// `s` with every occurrence of `p` replaced by `r`; an empty `p` leaves `s`
/// as it is.
pub fn replace_all_chars(s: &Vec<char>, p: &Vec<char>, r: &Vec<char>) -> (out: Vec<char>)
    ensures
        out@ == replace_all(s@, p@, r@),
{
    let mut out: Vec<char> = Vec::new();
    if p.len() == 0 {
        push_range(&mut out, s, 0, s.len());
        return out;
    }
    let mut i: usize = 0;
    loop
        invariant_except_break
            i <= s.len(),
            out@ + replace_from(s@, p@, r@, i as int) == replace_from(s@, p@, r@, 0),
        invariant
            p.len() > 0,
        ensures
            out@ == replace_from(s@, p@, r@, 0),
        decreases s.len() - i,
    {
        match crate::text::find_from_exec(s, p, i) {
            None => {
                let ghost before = out@;
                push_range(&mut out, s, i, s.len());
                assert(before + replace_from(s@, p@, r@, i as int) == out@);
                break;
            },
            Some(j) => {
                proof {
                    crate::text::lemma_find_from_correct(s@, p@, i as int);
                }
                let ghost before = out@;
                push_range(&mut out, s, i, j);
                push_chars(&mut out, r);
                let ghost rest = replace_from(s@, p@, r@, j + p.len());
                assert(before + (s@.subrange(i as int, j as int) + r@ + rest) =~= out@ + rest);
                i = j + p.len();
            },
        }
    }
    out
}

/// Applies the replacements of `rules` one after the other, each over the
/// whole text.
pub open spec fn replace_rules(s: Seq<char>, rules: Seq<(Seq<char>, Seq<char>)>) -> Seq<char>
    decreases rules.len(),
{
    if rules.len() == 0 {
        s
    } else {
        replace_rules(replace_all(s, rules[0].0, rules[0].1), rules.drop_first())
    }
}

/// The views of a list of replacement rules.
pub open spec fn rule_views(rules: Seq<(Vec<char>, Vec<char>)>) -> Seq<(Seq<char>, Seq<char>)> {
    rules.map_values(|x: (Vec<char>, Vec<char>)| (x.0@, x.1@))
}

fn apply_rules(s: Vec<char>, rules: &Vec<(Vec<char>, Vec<char>)>) -> (out: Vec<char>)
    ensures
        out@ == replace_rules(s@, rule_views(rules@)),
{
    let ghost views = rule_views(rules@);
    let mut cur = s;
    let mut k: usize = 0;
    assert(views.skip(0) =~= views);
    while k < rules.len()
        invariant
            k <= rules.len(),
            views == rule_views(rules@),
            replace_rules(cur@, views.skip(k as int)) == replace_rules(s@, views),
        decreases rules.len() - k,
    {
        let next = replace_all_chars(&cur, &rules[k].0, &rules[k].1);
        assert(views.skip(k as int)[0] == views[k as int]);
        assert(views.skip(k as int).drop_first() =~= views.skip(k + 1));
        cur = next;
        k += 1;
    }
    assert(views.skip(rules.len() as int) =~= Seq::<(Seq<char>, Seq<char>)>::empty());
    cur
}

fn rule(p: &str, r: &str) -> (x: (Vec<char>, Vec<char>))
    ensures
        x.0@ == p@,
        x.1@ == r@,
{
    (chars_of(p), chars_of(r))
}

/// A character that ends a tag name.
pub open spec fn ends_tag_name(c: char) -> bool {
    c == '>' || c == '/' || c == ' ' || c == '\t' || c == '\n' || c == '\r'
}

/// Where the tag name starting at `k` ends: the first character from `k` on
/// that ends a tag name, or the end of `s`.
pub open spec fn name_end(s: Seq<char>, k: int) -> int
    decreases s.len() - k,
{
    if k < 0 || k >= s.len() || ends_tag_name(s[k]) {
        k
    } else {
        name_end(s, k + 1)
    }
}

/// The elements that start a new line: line breaks, paragraphs, divisions,
/// list items, headings and table rows.
pub open spec fn line_element(name: Seq<char>) -> bool {
    name == "br"@ || name == "p"@ || name == "div"@ || name == "li"@ || name == "h1"@ || name == "h2"@
        || name == "h3"@ || name == "h4"@ || name == "h5"@ || name == "h6"@ || name == "tr"@
}

/// A tag starts at `i` that opens a line element, or closes one other than
/// `br`; the whole tag name is compared, so `<pre>` or `<path>` is no `<p>`.
pub open spec fn line_tag_at(s: Seq<char>, i: int) -> bool {
    &&& 0 <= i < s.len()
    &&& s[i] == '<'
    &&& if i + 1 < s.len() && s[i + 1] == '/' {
        let name = s.subrange(i + 2, name_end(s, i + 2));
        line_element(name) && name != "br"@
    } else {
        line_element(s.subrange(i + 1, name_end(s, i + 1)))
    }
}

/// The first `n` characters of `s`, with a line break put before each tag
/// that starts a new line; the tag itself stays, to be dropped whole with the
/// rest of the markup.
pub open spec fn line_marked(s: Seq<char>, n: int) -> Seq<char>
    decreases n,
{
    if n <= 0 {
        seq![]
    } else {
        line_marked(s, n - 1) + if line_tag_at(s, n - 1) {
            seq!['\n', s[n - 1]]
        } else {
            seq![s[n - 1]]
        }
    }
}

proof fn lemma_name_end_bounds(s: Seq<char>, k: int)
    requires
        0 <= k <= s.len(),
    ensures
        k <= name_end(s, k) <= s.len(),
    decreases s.len() - k,
{
    if k < s.len() && !ends_tag_name(s[k]) {
        lemma_name_end_bounds(s, k + 1);
    }
}

fn name_end_exec(s: &Vec<char>, k: usize) -> (e: usize)
    requires
        k <= s.len(),
    ensures
        e as int == name_end(s@, k as int),
        k <= e <= s.len(),
{
    let mut j = k;
    while j < s.len() && !(s[j] == '>' || s[j] == '/' || s[j] == ' ' || s[j] == '\t' || s[j] == '\n' || s[j] == '\r')
        invariant
            k <= j <= s.len(),
            name_end(s@, k as int) == name_end(s@, j as int),
        decreases s.len() - j,
    {
        j += 1;
    }
    j
}

fn is_line_element(s: &Vec<char>, a: usize, b: usize) -> (r: bool)
    requires
        a <= b <= s.len(),
    ensures
        r == line_element(s@.subrange(a as int, b as int)),
{
    let mut n: Vec<char> = Vec::new();
    push_range(&mut n, s.as_slice(), a, b);
    assert(n@ =~= s@.subrange(a as int, b as int));
    chars_eq(&n, &chars_of("br")) || chars_eq(&n, &chars_of("p")) || chars_eq(&n, &chars_of("div"))
        || chars_eq(&n, &chars_of("li")) || chars_eq(&n, &chars_of("h1")) || chars_eq(&n, &chars_of("h2"))
        || chars_eq(&n, &chars_of("h3")) || chars_eq(&n, &chars_of("h4")) || chars_eq(&n, &chars_of("h5"))
        || chars_eq(&n, &chars_of("h6")) || chars_eq(&n, &chars_of("tr"))
}

fn line_tag_at_exec(s: &Vec<char>, i: usize) -> (r: bool)
    requires
        i < s.len(),
    ensures
        r == line_tag_at(s@, i as int),
{
    if s[i] != '<' {
        return false;
    }
    if i + 1 < s.len() && s[i + 1] == '/' {
        let e = name_end_exec(s, i + 2);
        let el = is_line_element(s, i + 2, e);
        let mut n: Vec<char> = Vec::new();
        push_range(&mut n, s.as_slice(), i + 2, e);
        assert(n@ =~= s@.subrange(i + 2, e as int));
        el && !chars_eq(&n, &chars_of("br"))
    } else {
        let e = name_end_exec(s, i + 1);
        is_line_element(s, i + 1, e)
    }
}

/// `s` with a line break before each tag that starts a new line.
fn mark_line_tags(s: &Vec<char>) -> (r: Vec<char>)
    ensures
        r@ == line_marked(s@, s@.len() as int),
{
    let mut out: Vec<char> = Vec::new();
    let mut i: usize = 0;
    while i < s.len()
        invariant
            i <= s.len(),
            out@ == line_marked(s@, i as int),
        decreases s.len() - i,
    {
        if line_tag_at_exec(s, i) {
            out.push('\n');
        }
        out.push(s[i]);
        i += 1;
    }
    out
}

/// The HTML entities that are decoded, in the order they are decoded.
pub open spec fn entity_rules() -> Seq<(Seq<char>, Seq<char>)> {
    seq![
        ("&amp;"@, "&"@), ("&lt;"@, "<"@), ("&gt;"@, ">"@), ("&quot;"@, "\""@), ("&#39;"@, "'"@),
        ("&nbsp;"@, " "@), ("&#x27;"@, "'"@), ("&mdash;"@, "\u{2014}"@), ("&ndash;"@, "\u{2013}"@),
        ("&hellip;"@, "\u{2026}"@), ("&copy;"@, "\u{00A9}"@), ("&reg;"@, "\u{00AE}"@),
    ]
}

/// Text that holds neither `&` nor `;`.
pub open spec fn entity_free(s: Seq<char>) -> bool {
    forall|i: int| 0 <= i < s.len() ==> #[trigger] s[i] != '&' && s[i] != ';'
}

/// An entity: `&`, then characters other than `&` and `;`, then `;`.
pub open spec fn entity_shaped(e: Seq<char>) -> bool {
    &&& e.len() >= 2
    &&& e[0] == '&'
    &&& e[e.len() - 1] == ';'
    &&& forall|i: int| 0 < i < e.len() - 1 ==> #[trigger] e[i] != '&' && e[i] != ';'
}

proof fn lemma_replace_absent(s: Seq<char>, p: Seq<char>, r: Seq<char>)
    requires
        p.len() > 0,
        forall|k: int| !occurs_at(s, p, k),
    ensures
        replace_all(s, p, r) == s,
{
    crate::text::lemma_find_from_correct(s, p, 0);
    assert(s.subrange(0, s.len() as int) =~= s);
}

proof fn lemma_entity_needs_semicolon(s: Seq<char>, q: Seq<char>, k: int)
    requires
        entity_shaped(q),
        !s.contains(';'),
    ensures
        !occurs_at(s, q, k),
{
    if occurs_at(s, q, k) {
        assert(s.subrange(k, k + q.len())[q.len() - 1] == q[q.len() - 1]);
        assert(s[k + q.len() - 1] == ';');
    }
}

/// In `a + e + b` with `a` and `b` free of `&` and `;`, an entity occurs
/// only as `e` itself, where `e` stands.
proof fn lemma_entity_occurs_only_as_itself(a: Seq<char>, e: Seq<char>, b: Seq<char>, q: Seq<char>, k: int)
    requires
        entity_free(a),
        entity_free(b),
        entity_shaped(e),
        entity_shaped(q),
        occurs_at(a + e + b, q, k),
    ensures
        k == a.len(),
        q == e,
{
    let s = a + e + b;
    let w = s.subrange(k, k + q.len());
    assert(w[0] == q[0]);
    assert(s[k] == '&');
    if k < a.len() {
        assert(s[k] == a[k]);
    } else if k >= a.len() + e.len() {
        assert(s[k] == b[k - a.len() - e.len()]);
    } else if k > a.len() {
        assert(s[k] == e[k - a.len()]);
    }
    assert(k == a.len());
    let last = k + q.len() - 1;
    assert(w[q.len() - 1] == q[q.len() - 1]);
    assert(s[last] == ';');
    if last < a.len() + e.len() - 1 {
        assert(s[last] == e[last - a.len()]);
    } else if last >= a.len() + e.len() {
        assert(s[last] == b[last - a.len() - e.len()]);
    }
    assert(q.len() == e.len());
    assert forall|i: int| 0 <= i < q.len() implies q[i] == e[i] by {
        assert(w[i] == q[i]);
        assert(s[k + i] == e[i]);
    }
    assert(q =~= e);
}

/// Replacing the entity `e` in `a + e + b` puts `d` in its place.
proof fn lemma_replace_entity(a: Seq<char>, e: Seq<char>, b: Seq<char>, d: Seq<char>)
    requires
        entity_free(a),
        entity_free(b),
        entity_shaped(e),
    ensures
        replace_all(a + e + b, e, d) == a + d + b,
{
    let s = a + e + b;
    let k = a.len() as int;
    assert(s.subrange(k, k + e.len()) =~= e);
    assert forall|j: int| 0 <= j < k implies !occurs_at(s, e, j) by {
        if occurs_at(s, e, j) {
            lemma_entity_occurs_only_as_itself(a, e, b, e, j);
        }
    }
    crate::text::lemma_find_first(s, e, 0, k);
    let rest = k + e.len();
    assert forall|j: int| rest <= j implies !occurs_at(s, e, j) by {
        if occurs_at(s, e, j) {
            lemma_entity_occurs_only_as_itself(a, e, b, e, j);
        }
    }
    crate::text::lemma_find_from_correct(s, e, rest);
    if find_from(s, e, rest) is Some {
        assert(false);
    }
    assert(replace_from(s, e, d, rest) == s.subrange(rest, s.len() as int));
    assert(s.subrange(0, k) =~= a);
    assert(s.subrange(rest, s.len() as int) =~= b);
}

/// Rules whose patterns are all entities leave text without `;` alone.
proof fn lemma_rules_skip_plain(t: Seq<char>, rules: Seq<(Seq<char>, Seq<char>)>)
    requires
        !t.contains(';'),
        forall|j: int| 0 <= j < rules.len() ==> entity_shaped(#[trigger] rules[j].0),
    ensures
        replace_rules(t, rules) == t,
    decreases rules.len(),
{
    if rules.len() > 0 {
        assert(entity_shaped(rules[0].0));
        assert forall|k: int| !occurs_at(t, rules[0].0, k) by {
            lemma_entity_needs_semicolon(t, rules[0].0, k);
        }
        lemma_replace_absent(t, rules[0].0, rules[0].1);
        assert forall|j: int| 0 <= j < rules.drop_first().len() implies entity_shaped(
            #[trigger] rules.drop_first()[j].0,
        ) by {
            assert(rules.drop_first()[j] == rules[j + 1]);
        }
        lemma_rules_skip_plain(t, rules.drop_first());
    }
}

/// Decoding with entity rules turns `a + e + b` into `a + d + b`, when `e`
/// is the pattern of rule `k`, `d` its replacement, and no other rule has
/// the pattern `e`.
proof fn lemma_rules_decode(a: Seq<char>, e: Seq<char>, d: Seq<char>, b: Seq<char>, rules: Seq<(Seq<char>, Seq<char>)>, k: int)
    requires
        entity_free(a),
        entity_free(b),
        !d.contains(';'),
        0 <= k < rules.len(),
        rules[k] == (e, d),
        forall|j: int| 0 <= j < rules.len() ==> entity_shaped(#[trigger] rules[j].0),
        forall|j: int| 0 <= j < k ==> (#[trigger] rules[j]).0 != e,
    ensures
        replace_rules(a + e + b, rules) == a + d + b,
    decreases k,
{
    let s = a + e + b;
    assert(entity_shaped(rules[k].0));
    assert forall|j: int| 0 <= j < rules.drop_first().len() implies entity_shaped(
        #[trigger] rules.drop_first()[j].0,
    ) by {
        assert(rules.drop_first()[j] == rules[j + 1]);
    }
    if k == 0 {
        lemma_replace_entity(a, e, b, d);
        let t = a + d + b;
        assert forall|i: int| 0 <= i < t.len() implies t[i] != ';' by {
            if i < a.len() {
                assert(t[i] == a[i]);
            } else if i < a.len() + d.len() {
                assert(t[i] == d[i - a.len()]);
            } else {
                assert(t[i] == b[i - a.len() - d.len()]);
            }
        }
        lemma_rules_skip_plain(t, rules.drop_first());
    } else {
        let q = rules[0].0;
        assert(rules[0].0 != e);
        assert(entity_shaped(q));
        assert forall|j: int| !occurs_at(s, q, j) by {
            if occurs_at(s, q, j) {
                lemma_entity_occurs_only_as_itself(a, e, b, q, j);
            }
        }
        lemma_replace_absent(s, q, rules[0].1);
        assert forall|j: int| 0 <= j < k - 1 implies (#[trigger] rules.drop_first()[j]).0 != e by {
            assert(rules.drop_first()[j] == rules[j + 1]);
        }
        lemma_rules_decode(a, e, d, b, rules.drop_first(), k - 1);
    }
}

/// Each common entity written in the text between tags is decoded to its
/// character: `&amp;` to `&`, `&lt;` to `<`, `&gt;` to `>`, `&quot;` to `"`,
/// `&#39;` and `&#x27;` to an apostrophe, `&nbsp;` to a space, `&mdash;`,
/// `&ndash;`, `&hellip;`, `&copy;` and `&reg;` to their signs, wherever it
/// stands in text that holds no other `&` or `;`.
pub proof fn lemma_entities_decoded(a: Seq<char>, b: Seq<char>)
    requires
        entity_free(a),
        entity_free(b),
    ensures
        replace_rules(a + "&amp;"@ + b, entity_rules()) == a + "&"@ + b,
        replace_rules(a + "&lt;"@ + b, entity_rules()) == a + "<"@ + b,
        replace_rules(a + "&gt;"@ + b, entity_rules()) == a + ">"@ + b,
        replace_rules(a + "&quot;"@ + b, entity_rules()) == a + "\""@ + b,
        replace_rules(a + "&#39;"@ + b, entity_rules()) == a + "'"@ + b,
        replace_rules(a + "&nbsp;"@ + b, entity_rules()) == a + " "@ + b,
        replace_rules(a + "&#x27;"@ + b, entity_rules()) == a + "'"@ + b,
        replace_rules(a + "&mdash;"@ + b, entity_rules()) == a + "\u{2014}"@ + b,
        replace_rules(a + "&ndash;"@ + b, entity_rules()) == a + "\u{2013}"@ + b,
        replace_rules(a + "&hellip;"@ + b, entity_rules()) == a + "\u{2026}"@ + b,
        replace_rules(a + "&copy;"@ + b, entity_rules()) == a + "\u{00A9}"@ + b,
        replace_rules(a + "&reg;"@ + b, entity_rules()) == a + "\u{00AE}"@ + b,
{
    let rules = entity_rules();
    reveal_strlit("&amp;");
    reveal_strlit("&lt;");
    reveal_strlit("&gt;");
    reveal_strlit("&quot;");
    reveal_strlit("&#39;");
    reveal_strlit("&nbsp;");
    reveal_strlit("&#x27;");
    reveal_strlit("&mdash;");
    reveal_strlit("&ndash;");
    reveal_strlit("&hellip;");
    reveal_strlit("&copy;");
    reveal_strlit("&reg;");
    reveal_strlit("&");
    reveal_strlit("<");
    reveal_strlit(">");
    reveal_strlit("\"");
    reveal_strlit("'");
    reveal_strlit(" ");
    reveal_strlit("\u{2014}");
    reveal_strlit("\u{2013}");
    reveal_strlit("\u{2026}");
    reveal_strlit("\u{00A9}");
    reveal_strlit("\u{00AE}");
    assert forall|j: int| 0 <= j < rules.len() implies entity_shaped(#[trigger] rules[j].0) by {}
    assert forall|j: int| 0 <= j < rules.len() implies !(#[trigger] rules[j]).1.contains(';') by {}
    assert forall|j: int, k: int| 0 <= j < k < rules.len() implies #[trigger] rules[j].0 != #[trigger] rules[k].0 by {
        if rules[j].0.len() == rules[k].0.len() {
            assert(rules[j].0[1] != rules[k].0[1] || rules[j].0[2] != rules[k].0[2]);
        }
    }
    assert forall|k: int| 0 <= k < rules.len() implies replace_rules(a + (#[trigger] rules[k]).0 + b, rules) == a
        + rules[k].1 + b by {
        assert forall|j: int| 0 <= j < k implies (#[trigger] rules[j]).0 != rules[k].0 by {}
        lemma_rules_decode(a, rules[k].0, rules[k].1, b, rules, k);
    }
    assert(rules[0] == ("&amp;"@, "&"@));
    assert(rules[1] == ("&lt;"@, "<"@));
    assert(rules[2] == ("&gt;"@, ">"@));
    assert(rules[3] == ("&quot;"@, "\""@));
    assert(rules[4] == ("&#39;"@, "'"@));
    assert(rules[5] == ("&nbsp;"@, " "@));
    assert(rules[6] == ("&#x27;"@, "'"@));
    assert(rules[7] == ("&mdash;"@, "\u{2014}"@));
    assert(rules[8] == ("&ndash;"@, "\u{2013}"@));
    assert(rules[9] == ("&hellip;"@, "\u{2026}"@));
    assert(rules[10] == ("&copy;"@, "\u{00A9}"@));
    assert(rules[11] == ("&reg;"@, "\u{00AE}"@));
}

fn entity_rule_list() -> (r: Vec<(Vec<char>, Vec<char>)>)
    ensures
        rule_views(r@) == entity_rules(),
{
    let r = vec![
        rule("&amp;", "&"), rule("&lt;", "<"), rule("&gt;", ">"), rule("&quot;", "\""), rule("&#39;", "'"),
        rule("&nbsp;", " "), rule("&#x27;", "'"), rule("&mdash;", "\u{2014}"), rule("&ndash;", "\u{2013}"),
        rule("&hellip;", "\u{2026}"), rule("&copy;", "\u{00A9}"), rule("&reg;", "\u{00AE}"),
    ];
    assert(rule_views(r@) =~= entity_rules());
    r
}

/// Drops markup: the characters from each `<` through the next `>`. Returns
/// the text kept and whether the scan ends inside a tag.
pub open spec fn strip_tags_state(s: Seq<char>) -> (Seq<char>, bool)
    decreases s.len(),
{
    if s.len() == 0 {
        (seq![], false)
    } else {
        let prev = strip_tags_state(s.drop_last());
        let c = s.last();
        if c == '<' {
            (prev.0, true)
        } else if c == '>' {
            (prev.0, false)
        } else if !prev.1 {
            (prev.0.push(c), false)
        } else {
            prev
        }
    }
}

fn strip_tags_chars(s: &Vec<char>) -> (r: Vec<char>)
    ensures
        r@ == strip_tags_state(s@).0,
{
    let mut out: Vec<char> = Vec::new();
    let mut in_tag = false;
    let mut i: usize = 0;
    assert(s@.take(0) =~= Seq::<char>::empty());
    while i < s.len()
        invariant
            i <= s.len(),
            (out@, in_tag) == strip_tags_state(s@.take(i as int)),
        decreases s.len() - i,
    {
        let c = s[i];
        assert(s@.take(i + 1).drop_last() =~= s@.take(i as int));
        assert(s@.take(i + 1).last() == c);
        if c == '<' {
            in_tag = true;
        } else if c == '>' {
            in_tag = false;
        } else if !in_tag {
            out.push(c);
        }
        i += 1;
    }
    assert(s@.take(s.len() as int) =~= s@);
    out
}

/// The tag that opens an element named `name`, without its closing bracket.
pub open spec fn open_tag(name: Seq<char>) -> Seq<char> {
    seq!['<'] + name
}

/// The tag that closes an element named `name`.
pub open spec fn close_tag(name: Seq<char>) -> Seq<char> {
    seq!['<', '/'] + name + seq!['>']
}

/// `t` with every element named `name` removed, content included, each
/// replaced by one space. The tags are found without regard to ASCII case.
/// An element that is never closed loses only its opening tag; an opening
/// tag that is never ended by `>` stops the removal.
pub open spec fn strip_block(t: Seq<char>, name: Seq<char>) -> Seq<char>
    decreases t.len(),
{
    let lower = ascii_lower_seq(t);
    match find_from(lower, open_tag(name), 0) {
        None => t,
        Some(st) => {
            proof {
                crate::text::lemma_find_from_correct(lower, open_tag(name), 0);
            }
            match find_from(lower, close_tag(name), st) {
                Some(e) => {
                    proof {
                        crate::text::lemma_find_from_correct(lower, close_tag(name), st);
                    }
                    strip_block(t.take(st) + seq![' '] + t.skip(e + close_tag(name).len()), name)
                },
                None => match find_from(t, seq!['>'], st + 1) {
                    Some(g) => {
                        proof {
                            crate::text::lemma_find_from_correct(t, seq!['>'], st + 1);
                        }
                        strip_block(t.take(st) + seq![' '] + t.skip(g + 1), name)
                    },
                    None => t,
                },
            }
        },
    }
}

/// `a` followed by one space and `b[from..]`.
fn splice_space(a: &Vec<char>, upto: usize, from: usize) -> (r: Vec<char>)
    requires
        upto <= from <= a.len(),
    ensures
        r@ == a@.take(upto as int) + seq![' '] + a@.skip(from as int),
{
    let mut r: Vec<char> = Vec::new();
    push_range(&mut r, a, 0, upto);
    r.push(' ');
    push_range(&mut r, a, from, a.len());
    assert(a@.subrange(0, upto as int) =~= a@.take(upto as int));
    assert(a@.subrange(from as int, a.len() as int) =~= a@.skip(from as int));
    r
}

fn strip_block_chars(t: Vec<char>, name: &Vec<char>) -> (r: Vec<char>)
    ensures
        r@ == strip_block(t@, name@),
{
    let mut open: Vec<char> = Vec::new();
    open.push('<');
    push_chars(&mut open, name);
    let mut close: Vec<char> = Vec::new();
    close.push('<');
    close.push('/');
    push_chars(&mut close, name);
    close.push('>');
    let mut gt: Vec<char> = Vec::new();
    gt.push('>');
    assert(open@ =~= open_tag(name@));
    assert(close@ =~= close_tag(name@));
    assert(gt@ =~= seq!['>']);
    let mut cur = t;
    loop
        invariant
            open@ == open_tag(name@),
            close@ == close_tag(name@),
            gt@ == seq!['>'],
            strip_block(cur@, name@) == strip_block(t@, name@),
        ensures
            cur@ == strip_block(t@, name@),
        decreases cur.len(),
    {
        let lower = ascii_lower_chars(&cur);
        match crate::text::find_from_exec(&lower, &open, 0) {
            None => {
                break;
            },
            Some(st) => {
                proof {
                    crate::text::lemma_find_from_correct(lower@, open@, 0);
                }
                match crate::text::find_from_exec(&lower, &close, st) {
                    Some(e) => {
                        proof {
                            crate::text::lemma_find_from_correct(lower@, close@, st as int);
                        }
                        let next = splice_space(&cur, st, e + close.len());
                        cur = next;
                    },
                    None => {
                        match crate::text::find_from_exec(&cur, &gt, st + 1) {
                            Some(g) => {
                                proof {
                                    crate::text::lemma_find_from_correct(cur@, gt@, st + 1);
                                }
                                let next = splice_space(&cur, st, g + 1);
                                cur = next;
                            },
                            None => {
                                break;
                            },
                        }
                    },
                }
            },
        }
    }
    cur
}

/// Rebuilds text from lines: each non-blank line trimmed, its whitespace runs
/// collapsed to single spaces, and ended by `\n`; a run of blank lines becomes
/// one `\n`. Returns the text and whether the last line seen was blank.
pub open spec fn collapse_lines(ls: Seq<Seq<char>>) -> (Seq<char>, bool)
    decreases ls.len(),
{
    if ls.len() == 0 {
        (seq![], false)
    } else {
        let prev = collapse_lines(ls.drop_last());
        let t = trim(ls.last());
        if t.len() == 0 {
            if !prev.1 {
                (prev.0.push('\n'), true)
            } else {
                prev
            }
        } else {
            (prev.0 + join(words(t), " "@) + seq!['\n'], false)
        }
    }
}

fn collapse_text(s: &Vec<char>) -> (r: Vec<char>)
    ensures
        r@ == collapse_lines(crate::text::line_pieces(s@)).0,
{
    let pieces = crate::text::split_chars(s, '\n');
    proof {
        crate::text::lemma_split_on_nonempty(s@, '\n');
    }
    let n = if s.len() == 0 {
        0
    } else if s[s.len() - 1] == '\n' {
        pieces.len() - 1
    } else {
        pieces.len()
    };
    let ghost ls = crate::text::line_pieces(s@);
    assert(ls.len() == n);
    assert(forall|k: int| 0 <= k < n ==> #[trigger] ls[k] == pieces@[k]@);
    let mut out: Vec<char> = Vec::new();
    let mut prev_blank = false;
    let mut k: usize = 0;
    assert(ls.take(0) =~= Seq::<Seq<char>>::empty());
    while k < n
        invariant
            k <= n <= pieces.len(),
            ls.len() == n,
            forall|j: int| 0 <= j < n ==> #[trigger] ls[j] == pieces@[j]@,
            (out@, prev_blank) == collapse_lines(ls.take(k as int)),
        decreases n - k,
    {
        assert(ls.take(k + 1).drop_last() =~= ls.take(k as int));
        assert(ls.take(k + 1).last() == pieces@[k as int]@);
        let t = trim_chars(&pieces[k]);
        if t.len() == 0 {
            if !prev_blank {
                out.push('\n');
                prev_blank = true;
            }
        } else {
            let ws = crate::text::words_chars(&t);
            let joined = crate::text::join_chars(&ws, " ");
            assert(ws@.map_values(|x: Vec<char>| x@) =~= words(t@));
            push_chars(&mut out, &joined);
            out.push('\n');
            prev_blank = false;
        }
        k += 1;
    }
    assert(ls.take(n as int) =~= ls);
    out
}

/// The byte limit of the text handed on from a page.
pub const PAGE_TEXT_LIMIT: usize = 102400;

/// `t` cut to the limit, with a note saying so, when it is longer: the cut
/// keeps the longest run of whole characters that fits in the limit.
pub open spec fn cap_text(t: Seq<char>) -> Seq<char> {
    if byte_len(t) <= PAGE_TEXT_LIMIT {
        t
    } else {
        byte_prefix(t, PAGE_TEXT_LIMIT as nat) + "\n\n[... CONTENT TRUNCATED: page exceeds 100KB ...]"@
    }
}

/// The elements whose content is dropped with them.
pub open spec fn script_free(html: Seq<char>) -> Seq<char> {
    strip_block(strip_block(strip_block(strip_block(html, "script"@), "style"@), "noscript"@), "head"@)
}

/// The readable text of an HTML page before the length cap: scripts, styles
/// and the head removed, a line break put before each tag of a line element,
/// all tags dropped whole, common entities decoded, and whitespace collapsed.
pub open spec fn page_text_spec(html: Seq<char>) -> Seq<char> {
    let a = script_free(html);
    let b = line_marked(a, a.len() as int);
    let c = strip_tags_state(b).0;
    let d = replace_rules(c, entity_rules());
    trim(collapse_lines(crate::text::line_pieces(d)).0)
}

/// The readable text of an HTML page, before the length cap.
pub fn page_text(html: &str) -> (r: String)
    ensures
        r@ == page_text_spec(html@),
{
    let text = chars_of(html);
    let names = vec![chars_of("script"), chars_of("style"), chars_of("noscript"), chars_of("head")];
    let a0 = strip_block_chars(text, &names[0]);
    let a1 = strip_block_chars(a0, &names[1]);
    let a2 = strip_block_chars(a1, &names[2]);
    let a3 = strip_block_chars(a2, &names[3]);
    let b = mark_line_tags(&a3);
    let c = strip_tags_chars(&b);
    let d = apply_rules(c, &entity_rule_list());
    let e = collapse_text(&d);
    string_of(&trim_chars(&e))
}

/// Cuts `text` to the limit at the last character boundary within it and
/// notes the cut; text within the limit is returned unchanged.
pub fn cap_page_text(text: &str) -> (r: String)
    ensures
        r@ == cap_text(text@),
{
    let cs = chars_of(text);
    let (mut prefix, whole) = crate::text::byte_prefix_chars(&cs, PAGE_TEXT_LIMIT);
    if whole {
        return string_of(&cs);
    }
    crate::text::push_str(&mut prefix, "\n\n[... CONTENT TRUNCATED: page exceeds 100KB ...]");
    string_of(&prefix)
}

/// Converts HTML to plain text for a language model: the readable text of the
/// page, cut to 100 KiB.
pub fn html_to_text(html: &str) -> (r: String)
    ensures
        r@ == cap_text(page_text_spec(html@)),
{
    let t = page_text(html);
    cap_page_text(t.as_str())
}

} // verus!
