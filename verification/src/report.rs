//! Report indexing helpers: full-text query escaping, overlapping chunking of
//! extracted text, and document type / year inference from file names.
use vstd::prelude::*;
use crate::text::{
    all_digits, chars_of, contains_seq, digits_value, is_digit, join, push_chars, push_str,
    string_of, trim, trim_chars, uppercase, words, words_chars,
};

verus! {

/// Chunk size in characters.
pub const CHUNK_SIZE: usize = 1000;
/// Overlap between consecutive chunks in characters.
pub const CHUNK_OVERLAP: usize = 100;

/// A search request.
#[derive(Debug, Clone)]
pub struct SearchQuery {
    pub q: String,
    pub company: Option<String>,
    pub doc_type: Option<String>,
    pub limit: Option<i64>,
}

/// `t` with each double quote doubled.
pub open spec fn double_quotes(t: Seq<char>) -> Seq<char>
    decreases t.len(),
{
    if t.len() == 0 {
        seq![]
    } else if t.last() == '"' {
        double_quotes(t.drop_last()) + seq!['"', '"']
    } else {
        double_quotes(t.drop_last()).push(t.last())
    }
}

/// A token quoted as an FTS5 phrase and marked for prefix matching.
pub open spec fn quote_token(t: Seq<char>) -> Seq<char> {
    seq!['"'] + double_quotes(t) + seq!['"', '*']
}

/// The FTS5 query for raw user input: each whitespace-separated token as a
/// quoted phrase matched as a prefix (`"tok"*`), joined with ` OR `; `""`
/// when there is no token.
pub open spec fn fts5_query_spec(raw: Seq<char>) -> Seq<char> {
    let tokens = words(raw);
    if tokens.len() == 0 {
        seq!['"', '"']
    } else {
        join(tokens.map_values(|t: Seq<char>| quote_token(t)), " OR "@)
    }
}

fn quote_token_exec(t: &Vec<char>) -> (r: Vec<char>)
    ensures
        r@ == quote_token(t@),
{
    let mut out: Vec<char> = Vec::new();
    out.push('"');
    let mut i: usize = 0;
    while i < t.len()
        invariant
            i <= t.len(),
            out@ == seq!['"'] + double_quotes(t@.take(i as int)),
        decreases t.len() - i,
    {
        let c = t[i];
        assert(t@.take(i + 1).drop_last() =~= t@.take(i as int));
        assert(t@.take(i + 1).last() == c);
        if c == '"' {
            out.push('"');
            out.push('"');
        } else {
            out.push(c);
        }
        assert(out@ =~= seq!['"'] + double_quotes(t@.take(i + 1)));
        i += 1;
    }
    assert(t@.take(t.len() as int) =~= t@);
    out.push('"');
    out.push('*');
    out
}

/// Escapes user input for an FTS5 `MATCH` query.
pub fn escape_fts5_query(raw: &str) -> (r: String)
    ensures
        r@ == fts5_query_spec(raw@),
{
    let tokens = words_chars(&chars_of(raw));
    if tokens.len() == 0 {
        proof {
            reveal_strlit("\"\"");
        }
        assert("\"\""@ =~= seq!['"', '"']);
        return string_of(&chars_of("\"\""));
    }
    let ghost tv = words(raw@);
    let ghost quoted = tv.map_values(|t: Seq<char>| quote_token(t));
    let mut out: Vec<char> = Vec::new();
    let mut i: usize = 0;
    while i < tokens.len()
        invariant
            i <= tokens.len(),
            tokens@.len() == tv.len(),
            forall|k: int| 0 <= k < tokens@.len() ==> #[trigger] tokens@[k]@ == tv[k],
            quoted == tv.map_values(|t: Seq<char>| quote_token(t)),
            out@ == join(quoted.take(i as int), " OR "@),
        decreases tokens.len() - i,
    {
        let q = quote_token_exec(&tokens[i]);
        assert(quoted.take(i + 1).drop_last() =~= quoted.take(i as int));
        if i > 0 {
            push_str(&mut out, " OR ");
        } else {
            assert(quoted.take(0) =~= Seq::<Seq<char>>::empty());
        }
        push_chars(&mut out, &q);
        i += 1;
    }
    assert(quoted.take(tokens.len() as int) =~= quoted);
    string_of(&out)
}

/// Position of the last occurrence of `c` in `s`.
pub open spec fn last_index(s: Seq<char>, c: char) -> Option<int>
    decreases s.len(),
{
    if s.len() == 0 {
        None
    } else if s.last() == c {
        Some(s.len() - 1)
    } else {
        last_index(s.drop_last(), c)
    }
}

/// Where the chunk starting at `start` ends: `CHUNK_SIZE` characters on, or
/// just after the last newline in the final fifth of that window.
pub open spec fn split_point(t: Seq<char>, start: int) -> int {
    let end = if start + CHUNK_SIZE < t.len() { start + CHUNK_SIZE } else { t.len() as int };
    if end < t.len() {
        let ss = start + CHUNK_SIZE * 4 / 5;
        match last_index(t.subrange(ss, end), '\n') {
            Some(p) => if ss + p + 1 < t.len() { ss + p + 1 } else { t.len() as int },
            None => end,
        }
    } else {
        end
    }
}

pub proof fn lemma_last_index_bound(s: Seq<char>, c: char)
    ensures
        last_index(s, c) matches Some(p) ==> 0 <= p < s.len() && s[p] == c,
    decreases s.len(),
{
    if s.len() > 0 && s.last() != c {
        lemma_last_index_bound(s.drop_last(), c);
    }
}

pub proof fn lemma_split_point(t: Seq<char>, start: int)
    requires
        0 <= start < t.len(),
    ensures
        start < split_point(t, start) <= t.len(),
        split_point(t, start) <= start + CHUNK_SIZE,
        split_point(t, start) < t.len() ==> split_point(t, start) >= start + 801,
{
    let end = if start + CHUNK_SIZE < t.len() { start + CHUNK_SIZE } else { t.len() as int };
    if end < t.len() {
        let ss = start + CHUNK_SIZE * 4 / 5;
        lemma_last_index_bound(t.subrange(ss, end), '\n');
    }
}

/// The trimmed, non-empty chunks of `t` from position `start` on; each chunk
/// begins `CHUNK_OVERLAP` characters before the end of the previous one.
pub open spec fn chunks_from(t: Seq<char>, start: int) -> Seq<Seq<char>>
    decreases t.len() - start,
{
    if start < 0 || start >= t.len() {
        seq![]
    } else {
        let sp = split_point(t, start);
        let c = trim(t.subrange(start, sp));
        proof {
            lemma_split_point(t, start);
        }
        let rest = if sp >= t.len() { seq![] } else { chunks_from(t, sp - CHUNK_OVERLAP) };
        if c.len() > 0 {
            seq![c] + rest
        } else {
            rest
        }
    }
}

/// The chunks of a whole text.
pub open spec fn chunks_spec(t: Seq<char>) -> Seq<Seq<char>> {
    chunks_from(t, 0)
}

proof fn lemma_trim_shorter(s: Seq<char>)
    ensures
        trim(s).len() <= s.len(),
{
    crate::text::lemma_leading_ws_bound(s);
    lemma_trim_end_shorter(crate::text::trim_start(s));
}

proof fn lemma_trim_end_shorter(s: Seq<char>)
    ensures
        crate::text::trim_end(s).len() <= s.len(),
    decreases s.len(),
{
    if s.len() > 0 && crate::text::is_ws(s.last()) {
        lemma_trim_end_shorter(s.drop_last());
    }
}

/// Index of the last newline in `t[a..b]`, relative to `a`.
fn last_newline(t: &Vec<char>, a: usize, b: usize) -> (r: Option<usize>)
    requires
        a <= b <= t.len(),
    ensures
        r matches Some(p) ==> last_index(t@.subrange(a as int, b as int), '\n') == Some(p as int),
        r is None ==> last_index(t@.subrange(a as int, b as int), '\n') is None,
{
    let mut k = b;
    while k > a
        invariant
            a <= k <= b <= t.len(),
            last_index(t@.subrange(a as int, b as int), '\n') == last_index(t@.subrange(a as int, k as int), '\n'),
        decreases k,
    {
        assert(t@.subrange(a as int, k as int).drop_last() =~= t@.subrange(a as int, k - 1));
        if t[k - 1] == '\n' {
            return Some(k - 1 - a);
        }
        k -= 1;
    }
    None
}

/// Splits extracted text into overlapping chunks of about `CHUNK_SIZE`
/// characters, preferring to cut after a newline.
pub fn split_into_chunks(text: &str) -> (r: Vec<String>)
    ensures
        r@.len() == chunks_spec(text@).len(),
        forall|k: int| 0 <= k < r@.len() ==> #[trigger] r@[k]@ == chunks_spec(text@)[k],
        forall|k: int| 0 <= k < r@.len() ==> 0 < (#[trigger] r@[k])@.len() <= CHUNK_SIZE,
{
    let t = chars_of(text);
    let total = t.len();
    let mut chunks: Vec<String> = Vec::new();
    if total == 0 {
        return chunks;
    }
    let mut start: usize = 0;
    loop
        invariant_except_break
            chunks@.map_values(|x: String| x@) + chunks_from(t@, start as int) == chunks_from(t@, 0),
        invariant
            t@ == text@,
            total == t.len(),
            start < total,
            forall|k: int| 0 <= k < chunks@.len() ==> 0 < (#[trigger] chunks@[k])@.len() <= CHUNK_SIZE,
        ensures
            chunks@.map_values(|x: String| x@) == chunks_from(t@, 0),
            forall|k: int| 0 <= k < chunks@.len() ==> 0 < (#[trigger] chunks@[k])@.len() <= CHUNK_SIZE,
        decreases total - start,
    {
        proof {
            lemma_split_point(t@, start as int);
        }
        let end = if total - start > CHUNK_SIZE { start + CHUNK_SIZE } else { total };
        let split_at = if end < total {
            let search_start = start + CHUNK_SIZE * 4 / 5;
            match last_newline(&t, search_start, end) {
                Some(p) => if search_start + p + 1 < total { search_start + p + 1 } else { total },
                None => end,
            }
        } else {
            end
        };
        assert(split_at == split_point(t@, start as int));
        let mut raw: Vec<char> = Vec::new();
        let mut i = start;
        while i < split_at
            invariant
                start <= i <= split_at <= total,
                total == t.len(),
                raw@ == t@.subrange(start as int, i as int),
            decreases split_at - i,
        {
            raw.push(t[i]);
            assert(t@.subrange(start as int, i + 1) =~= t@.subrange(start as int, i as int).push(t@[i as int]));
            i += 1;
        }
        let c = trim_chars(&raw);
        let ghost before = chunks@.map_values(|x: String| x@);
        proof {
            lemma_trim_shorter(raw@);
        }
        if c.len() > 0 {
            chunks.push(string_of(&c));
            assert(chunks@.map_values(|x: String| x@) =~= before.push(c@));
            assert(before.push(c@) + chunks_from(t@, split_at as int - CHUNK_OVERLAP) =~= before + (seq![c@]
                + chunks_from(t@, split_at as int - CHUNK_OVERLAP)));
        }
        if split_at >= total {
            if c.len() > 0 {
                assert(chunks@.map_values(|x: String| x@) =~= before + seq![c@]);
            }
            assert(chunks@.map_values(|x: String| x@) =~= chunks_from(t@, 0));
            break;
        }
        start = split_at - CHUNK_OVERLAP;
    }
    chunks
}

/// Document type keyword of a file name (matched on its lower-case form).
pub open spec fn doc_type_spec(lower: Seq<char>) -> Seq<char> {
    if contains_seq(lower, "年报"@) || contains_seq(lower, "年度报告"@) || contains_seq(lower, "annual"@) {
        "年报"@
    } else if contains_seq(lower, "季报"@) || contains_seq(lower, "季度报告"@) || contains_seq(lower, "半年报"@)
        || contains_seq(lower, "半年度报告"@) || contains_seq(lower, "quarterly"@) {
        "季报"@
    } else if contains_seq(lower, "研报"@) || contains_seq(lower, "研究报告"@) || contains_seq(lower, "报告"@) {
        "研报"@
    } else if contains_seq(lower, "招股"@) || contains_seq(lower, "prospectus"@) {
        "招股书"@
    } else {
        "other"@
    }
}

/// A file name that names a quarterly report (季报, 季度报告 or quarterly)
/// and no annual one (年报, 年度报告 or annual) is typed as a quarterly
/// report, whatever else it contains.
pub proof fn lemma_quarterly_names_are_quarterly(lower: Seq<char>)
    requires
        contains_seq(lower, "季报"@) || contains_seq(lower, "季度报告"@) || contains_seq(lower, "quarterly"@),
        !contains_seq(lower, "年报"@),
        !contains_seq(lower, "年度报告"@),
        !contains_seq(lower, "annual"@),
    ensures
        doc_type_spec(lower) == "季报"@,
{
}

/// A file name with an annual-report keyword (年报, 年度报告 or annual) is
/// typed as an annual report, whatever else it contains.
pub proof fn lemma_annual_names_are_annual(lower: Seq<char>)
    requires
        contains_seq(lower, "年报"@) || contains_seq(lower, "年度报告"@) || contains_seq(lower, "annual"@),
    ensures
        doc_type_spec(lower) == "年报"@,
{
}

/// A file name with a research-report keyword (研报, 研究报告 or 报告) and
/// none of the annual or quarterly keywords is typed as a research report; a
/// prospectus keyword (招股 or prospectus) without any of those types it as a
/// prospectus; a name with none of the keywords is `other`.
pub proof fn lemma_other_document_types(lower: Seq<char>)
    requires
        !contains_seq(lower, "年报"@),
        !contains_seq(lower, "年度报告"@),
        !contains_seq(lower, "annual"@),
        !contains_seq(lower, "季报"@),
        !contains_seq(lower, "季度报告"@),
        !contains_seq(lower, "半年报"@),
        !contains_seq(lower, "半年度报告"@),
        !contains_seq(lower, "quarterly"@),
    ensures
        contains_seq(lower, "研报"@) || contains_seq(lower, "研究报告"@) || contains_seq(lower, "报告"@) ==> doc_type_spec(
            lower,
        ) == "研报"@,
        !(contains_seq(lower, "研报"@) || contains_seq(lower, "研究报告"@) || contains_seq(lower, "报告"@)) && (
        contains_seq(lower, "招股"@) || contains_seq(lower, "prospectus"@)) ==> doc_type_spec(lower) == "招股书"@,
        !(contains_seq(lower, "研报"@) || contains_seq(lower, "研究报告"@) || contains_seq(lower, "报告"@)
            || contains_seq(lower, "招股"@) || contains_seq(lower, "prospectus"@)) ==> doc_type_spec(lower) == "other"@,
{
}

/// The lower-case form of `s` (`str::to_lowercase`).
pub uninterp spec fn lowercase(s: Seq<char>) -> Seq<char>;

/// Unicode lower-casing through `str::to_lowercase`; the mapping is named,
/// not stated.
#[verifier::external_body]
pub fn to_lowercase_string(s: &str) -> (r: String)
    ensures
        r@ == lowercase(s@),
{
    s.to_lowercase()
}

fn contains_str(s: &Vec<char>, p: &str) -> (r: bool)
    ensures
        r == contains_seq(s@, p@),
{
    let pc = chars_of(p);
    match crate::text::find_from_exec(s, &pc, 0) {
        Some(i) => {
            proof {
                crate::text::lemma_find_from_correct(s@, pc@, 0);
            }
            true
        },
        None => {
            proof {
                crate::text::lemma_find_from_correct(s@, pc@, 0);
            }
            false
        },
    }
}

/// Infers the document type from keywords of a file name.
pub fn infer_doc_type(filename: &str) -> (r: &'static str)
    ensures
        r@ == doc_type_spec(lowercase(filename@)),
{
    let lower = chars_of(to_lowercase_string(filename).as_str());
    if contains_str(&lower, "年报") || contains_str(&lower, "年度报告") || contains_str(&lower, "annual") {
        "年报"
    } else if contains_str(&lower, "季报") || contains_str(&lower, "季度报告") || contains_str(&lower, "半年报")
        || contains_str(&lower, "半年度报告") || contains_str(&lower, "quarterly") {
        "季报"
    } else if contains_str(&lower, "研报") || contains_str(&lower, "研究报告") || contains_str(&lower, "报告") {
        "研报"
    } else if contains_str(&lower, "招股") || contains_str(&lower, "prospectus") {
        "招股书"
    } else {
        "other"
    }
}

/// Four characters at `i` spell a year from 2000 to 2099 (what parsing
/// those four characters as an integer accepts in that range).
pub open spec fn year_at(s: Seq<char>, i: int) -> bool {
    0 <= i && i + 4 <= s.len() && all_digits(s.subrange(i, i + 4)) && 2000 <= digits_value(
        s.subrange(i, i + 4),
    ) <= 2099
}

/// The first four-character window of `s` holding a year in 2000..=2099.
pub open spec fn first_year_from(s: Seq<char>, i: int) -> Option<int>
    decreases s.len() - i,
{
    if i < 0 || i + 4 > s.len() {
        None
    } else if year_at(s, i) {
        Some(digits_value(s.subrange(i, i + 4)) as int)
    } else {
        first_year_from(s, i + 1)
    }
}

/// Extracts the first 4-digit year from 2000 to 2099 in a file name.
pub fn infer_year(filename: &str) -> (r: Option<i64>)
    ensures
        r matches Some(y) ==> first_year_from(filename@, 0) == Some(y as int),
        r is None ==> first_year_from(filename@, 0) is None,
{
    let cs = chars_of(filename);
    let n = if cs.len() >= 3 { cs.len() - 3 } else { 0 };
    let mut i: usize = 0;
    while i < n
        invariant
            cs@ == filename@,
            n == (if cs.len() >= 3 { cs.len() - 3 } else { 0 }),
            i <= n,
            first_year_from(cs@, 0) == first_year_from(cs@, i as int),
        decreases n - i,
    {
        let mut v: u64 = 0;
        let mut all = true;
        let mut k: usize = 0;
        while k < 4
            invariant
                i + 4 <= cs.len(),
                k <= 4,
                all == all_digits(cs@.subrange(i as int, i + k)),
                all ==> v == digits_value(cs@.subrange(i as int, i + k)),
                all ==> v < 10000,
                v < 100000,
            decreases 4 - k,
        {
            let c = cs[i + k];
            let ghost pre = cs@.subrange(i as int, i + k);
            let ghost cur = cs@.subrange(i as int, i + k + 1);
            assert(cur.drop_last() =~= pre);
            assert(cur.last() == c);
            if '0' <= c && c <= '9' {
                if all {
                    assert(all_digits(cur)) by {
                        assert forall|j: int| 0 <= j < cur.len() implies is_digit(#[trigger] cur[j]) by {
                            if j < pre.len() {
                                assert(cur[j] == pre[j]);
                            }
                        }
                    }
                    proof {
                        lemma_digits_small(pre);
                    }
                    v = v * 10 + (c as u32 - '0' as u32) as u64;
                }
            } else {
                assert(!is_digit(cur[k as int]));
                all = false;
            }
            if !all {
                assert(!all_digits(cur)) by {
                    if all_digits(cur) {
                        assert forall|j: int| 0 <= j < pre.len() implies is_digit(#[trigger] pre[j]) by {
                            assert(cur[j] == pre[j]);
                        }
                    }
                }
            }
            k += 1;
        }
        if all && 2000 <= v && v <= 2099 {
            return Some(v as i64);
        }
        i += 1;
    }
    proof {
        assert(first_year_from(cs@, i as int) is None);
    }
    None
}

proof fn lemma_digits_small(s: Seq<char>)
    requires
        s.len() <= 3,
        all_digits(s),
    ensures
        digits_value(s) < (if s.len() == 0 { 1int } else if s.len() == 1 { 10 } else if s.len() == 2 { 100 } else { 1000 }),
    decreases s.len(),
{
    if s.len() > 0 {
        assert(all_digits(s.drop_last())) by {
            assert forall|j: int| 0 <= j < s.drop_last().len() implies is_digit(#[trigger] s.drop_last()[j]) by {
                assert(s.drop_last()[j] == s[j]);
            }
        }
        lemma_digits_small(s.drop_last());
        assert(is_digit(s[s.len() - 1]));
    }
}

} // verus!
