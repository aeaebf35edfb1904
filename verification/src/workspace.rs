//! What the workspace file endpoints answer: the entries of a directory
//! listing, and a downloaded file's content type, disposition and body, with
//! HTML pages given a script that sends their relative requests back to the
//! download endpoint.
use vstd::prelude::*;
use crate::connectors::pairs_view;
use crate::html::push_range;
use crate::report::last_index;
use crate::session::{ends_with, ends_with_exec};
use crate::sync::strings_view;
use crate::text::{chars_of, digit_char, find, find_from, occurs_at, push_chars, push_str, string_of};
use crate::upload::last_piece;

verus! {

/// The lower-case hexadecimal digit for `n < 16`.
pub open spec fn hex_digit(n: nat) -> char {
    if n < 10 {
        digit_char(n)
    } else if n == 10 {
        'a'
    } else if n == 11 {
        'b'
    } else if n == 12 {
        'c'
    } else if n == 13 {
        'd'
    } else if n == 14 {
        'e'
    } else {
        'f'
    }
}

/// How a JSON string literal writes `c`: `"` and `\` behind a backslash,
/// the control characters below U+0020 as `\b`, `\t`, `\n`, `\f`, `\r` or
/// `\u00xx`, every other character as it is.
pub open spec fn json_escape(c: char) -> Seq<char> {
    if c == '"' {
        seq!['\\', '"']
    } else if c == '\\' {
        seq!['\\', '\\']
    } else if c == '\u{8}' {
        seq!['\\', 'b']
    } else if c == '\t' {
        seq!['\\', 't']
    } else if c == '\n' {
        seq!['\\', 'n']
    } else if c == '\u{c}' {
        seq!['\\', 'f']
    } else if c == '\r' {
        seq!['\\', 'r']
    } else if (c as u32) < 0x20 {
        seq!['\\', 'u', '0', '0', hex_digit((c as u32 / 16) as nat), hex_digit((c as u32 % 16) as nat)]
    } else {
        seq![c]
    }
}

/// The characters of `s`, each written as in a JSON string literal.
pub open spec fn json_escaped(s: Seq<char>) -> Seq<char>
    decreases s.len(),
{
    if s.len() == 0 {
        seq![]
    } else {
        json_escaped(s.drop_last()) + json_escape(s.last())
    }
}

/// The JSON string literal of `s`.
pub open spec fn json_quote(s: Seq<char>) -> Seq<char> {
    seq!['"'] + json_escaped(s) + seq!['"']
}

/// `serde_json::to_string` on a string slice: the JSON string literal of the
/// text, escaped as `json_escape` says (the escape table of serde_json's
/// serializer). Writing a string into memory has no error to report.
#[verifier::external_body]
fn json_string_literal(s: &str) -> (r: String)
    ensures
        r@ == json_quote(s@),
{
    serde_json::to_string(s).unwrap_or_default()
}

/// A path of an HTML page.
pub open spec fn is_html_path(path: Seq<char>) -> bool {
    ends_with(path, ".html"@) || ends_with(path, ".htm"@)
}

/// A path of an image, sent as a download.
pub open spec fn is_image_path(path: Seq<char>) -> bool {
    ends_with(path, ".png"@) || ends_with(path, ".jpg"@) || ends_with(path, ".jpeg"@) || ends_with(path, ".gif"@)
        || ends_with(path, ".webp"@) || ends_with(path, ".ico"@)
}

/// The content type a workspace file is served with, by its extension.
pub open spec fn content_type_of(path: Seq<char>) -> Seq<char> {
    if is_html_path(path) {
        "text/html; charset=utf-8"@
    } else if ends_with(path, ".css"@) {
        "text/css; charset=utf-8"@
    } else if ends_with(path, ".js"@) || ends_with(path, ".mjs"@) {
        "application/javascript; charset=utf-8"@
    } else if ends_with(path, ".json"@) {
        "application/json; charset=utf-8"@
    } else if ends_with(path, ".svg"@) {
        "image/svg+xml"@
    } else if is_image_path(path) {
        "application/octet-stream"@
    } else {
        "text/plain; charset=utf-8"@
    }
}

/// The content type a workspace file is served with.
pub fn download_content_type(path: &str) -> (r: &'static str)
    ensures
        r@ == content_type_of(path@),
{
    let p = chars_of(path);
    if ends_with_exec(&p, ".html") || ends_with_exec(&p, ".htm") {
        "text/html; charset=utf-8"
    } else if ends_with_exec(&p, ".css") {
        "text/css; charset=utf-8"
    } else if ends_with_exec(&p, ".js") || ends_with_exec(&p, ".mjs") {
        "application/javascript; charset=utf-8"
    } else if ends_with_exec(&p, ".json") {
        "application/json; charset=utf-8"
    } else if ends_with_exec(&p, ".svg") {
        "image/svg+xml"
    } else if ends_with_exec(&p, ".png") || ends_with_exec(&p, ".jpg") || ends_with_exec(&p, ".jpeg")
        || ends_with_exec(&p, ".gif") || ends_with_exec(&p, ".webp") || ends_with_exec(&p, ".ico")
    {
        "application/octet-stream"
    } else {
        "text/plain; charset=utf-8"
    }
}

/// The `Content-Disposition` of a downloaded file: shown inline, under the
/// name after the path's last `/`.
pub open spec fn disposition_of(path: Seq<char>) -> Seq<char> {
    "inline; filename=\""@ + last_piece(path, '/') + "\""@
}

/// The `Content-Disposition` of a downloaded file.
pub fn download_disposition(path: &str) -> (r: String)
    ensures
        r@ == disposition_of(path@),
{
    let name = crate::upload::path_file_name(path);
    let mut out: Vec<char> = Vec::new();
    push_str(&mut out, "inline; filename=\"");
    push_str(&mut out, name.as_str());
    push_str(&mut out, "\"");
    string_of(&out)
}

/// The directory part of a path: what comes before its last `/`, or nothing.
pub open spec fn dir_of(path: Seq<char>) -> Seq<char> {
    match last_index(path, '/') {
        Some(i) => path.take(i),
        None => seq![],
    }
}

/// Position of the last `c` in `s`.
fn last_index_of(s: &Vec<char>, c: char) -> (r: Option<usize>)
    ensures
        r matches Some(i) ==> last_index(s@, c) == Some(i as int),
        r is None ==> last_index(s@, c) is None,
{
    let mut k = s.len();
    assert(s@.take(k as int) =~= s@);
    while k > 0
        invariant
            k <= s.len(),
            last_index(s@, c) == last_index(s@.take(k as int), c),
        decreases k,
    {
        let ghost t = s@.take(k as int);
        if s[k - 1] == c {
            assert(t.last() == c);
            return Some(k - 1);
        }
        assert(t.drop_last() =~= s@.take(k - 1));
        k -= 1;
    }
    None
}

/// The script put into an HTML page: its relative `fetch` and
/// `XMLHttpRequest` URLs are resolved against the page's directory
/// `dir_json` and sent to the download endpoint with the token `token_json`
/// (both JSON string literals).
pub open spec fn override_script(dir_json: Seq<char>, token_json: Seq<char>) -> Seq<char> {
    "<script>\n(function(){\n  var __dir="@ + dir_json + ";\n  var __token="@ + token_json
        + ";\n  var __orig=window.fetch;\n  function __resolve(u){var c=u.split('?')[0].split('#')[0];return __dir?__dir+'/'+c:c;}\n  window.fetch=function(u,o){\n    if(typeof u==='string'&&!u.startsWith('/')&&!u.startsWith('http')&&!u.startsWith('blob:')&&!u.startsWith('data:')){\n      u='/api/workspace/download?path='+encodeURIComponent(__resolve(u))+'&token='+encodeURIComponent(__token);\n    }\n    return __orig.call(this,u,o);\n  };\n  var __xo=XMLHttpRequest.prototype.open;\n  XMLHttpRequest.prototype.open=function(m,u){\n    if(typeof u==='string'&&!u.startsWith('/')&&!u.startsWith('http')&&!u.startsWith('blob:')&&!u.startsWith('data:')){\n      u='/api/workspace/download?path='+encodeURIComponent(__resolve(u))+'&token='+encodeURIComponent(__token);\n    }\n    return __xo.apply(this,arguments);\n  };\n})();\n</script>"@
}

/// `script` put right after the page's first `<head>` tag, else after its
/// first `<HEAD>` tag, else in front of the page.
pub open spec fn with_script(content: Seq<char>, script: Seq<char>) -> Seq<char> {
    match find(content, "<head>"@) {
        Some(p) => content.take(p + 6) + script + content.skip(p + 6),
        None => match find(content, "<HEAD>"@) {
            Some(p) => content.take(p + 6) + script + content.skip(p + 6),
            None => script + content,
        },
    }
}

/// The body a downloaded file is sent with: an HTML page, unless asked for
/// raw, with the override script for its directory and the caller's token;
/// any other file as it is.
pub open spec fn download_body_spec(path: Seq<char>, content: Seq<char>, token: Seq<char>, raw: bool) -> Seq<char> {
    if is_html_path(path) && !raw {
        with_script(content, override_script(json_quote(dir_of(path)), json_quote(token)))
    } else {
        content
    }
}

/// `content` with `script` after the first occurrence of the tag `tag`,
/// when there is one.
fn insert_after_tag(content: &Vec<char>, tag: &str, script: &Vec<char>) -> (r: Option<Vec<char>>)
    requires
        tag@.len() == 6,
    ensures
        r matches Some(v) ==> find(content@, tag@) matches Some(p) && v@ == content@.take(p + 6) + script@
            + content@.skip(p + 6),
        r is None ==> find(content@, tag@) is None,
{
    let t = chars_of(tag);
    match crate::text::find_from_exec(content.as_slice(), t.as_slice(), 0) {
        Some(p) => {
            proof {
                crate::text::lemma_find_from_correct(content@, tag@, 0);
                assert(find_from(content@, t@, 0) == Some(p as int));
                assert(occurs_at(content@, tag@, p as int));
                assert(p + tag@.len() <= content@.len());
            }
            let n = content.len();
            let end: usize = p + 6;
            let mut out: Vec<char> = Vec::new();
            push_range(&mut out, content.as_slice(), 0, end);
            push_chars(&mut out, script);
            push_range(&mut out, content.as_slice(), end, content.len());
            assert(content@.subrange(0, p + 6) =~= content@.take(p + 6));
            assert(content@.subrange(p + 6, content@.len() as int) =~= content@.skip(p + 6));
            Some(out)
        },
        None => None,
    }
}

/// The body a downloaded workspace file is sent with.
pub fn download_body(path: &str, content: &str, token: &str, raw: bool) -> (r: String)
    ensures
        r@ == download_body_spec(path@, content@, token@, raw),
{
    let p = chars_of(path);
    let html = ends_with_exec(&p, ".html") || ends_with_exec(&p, ".htm");
    if !html || raw {
        return string_of(&chars_of(content));
    }
    let dir: Vec<char> = match last_index_of(&p, '/') {
        Some(i) => {
            proof {
                crate::report::lemma_last_index_bound(p@, '/');
            }
            let mut d: Vec<char> = Vec::new();
            push_range(&mut d, p.as_slice(), 0, i);
            assert(d@ =~= p@.take(i as int));
            d
        },
        None => Vec::new(),
    };
    assert(dir@ == dir_of(path@));
    let dir_json = json_string_literal(string_of(&dir).as_str());
    let token_json = json_string_literal(token);
    let mut script: Vec<char> = Vec::new();
    push_str(&mut script, "<script>\n(function(){\n  var __dir=");
    push_str(&mut script, dir_json.as_str());
    push_str(&mut script, ";\n  var __token=");
    push_str(&mut script, token_json.as_str());
    push_str(
        &mut script,
        ";\n  var __orig=window.fetch;\n  function __resolve(u){var c=u.split('?')[0].split('#')[0];return __dir?__dir+'/'+c:c;}\n  window.fetch=function(u,o){\n    if(typeof u==='string'&&!u.startsWith('/')&&!u.startsWith('http')&&!u.startsWith('blob:')&&!u.startsWith('data:')){\n      u='/api/workspace/download?path='+encodeURIComponent(__resolve(u))+'&token='+encodeURIComponent(__token);\n    }\n    return __orig.call(this,u,o);\n  };\n  var __xo=XMLHttpRequest.prototype.open;\n  XMLHttpRequest.prototype.open=function(m,u){\n    if(typeof u==='string'&&!u.startsWith('/')&&!u.startsWith('http')&&!u.startsWith('blob:')&&!u.startsWith('data:')){\n      u='/api/workspace/download?path='+encodeURIComponent(__resolve(u))+'&token='+encodeURIComponent(__token);\n    }\n    return __xo.apply(this,arguments);\n  };\n})();\n</script>",
    );
    assert(script@ =~= override_script(json_quote(dir_of(path@)), json_quote(token@)));
    let c = chars_of(content);
    proof {
        reveal_strlit("<head>");
        reveal_strlit("<HEAD>");
    }
    match insert_after_tag(&c, "<head>", &script) {
        Some(v) => string_of(&v),
        None => match insert_after_tag(&c, "<HEAD>", &script) {
            Some(v) => string_of(&v),
            None => {
                let mut out = script;
                push_chars(&mut out, &c);
                string_of(&out)
            },
        },
    }
}

/// A directory listing entry `name<TAB>type` as its name and type; an entry
/// without a tab stands for nothing.
pub open spec fn listing_item(e: Seq<char>) -> Option<(Seq<char>, Seq<char>)> {
    match find(e, seq!['\t']) {
        Some(i) => Some((e.take(i), e.skip(i + 1))),
        None => None,
    }
}

/// The items of a directory listing, in order.
pub open spec fn listing_items(es: Seq<Seq<char>>) -> Seq<(Seq<char>, Seq<char>)>
    decreases es.len(),
{
    if es.len() == 0 {
        seq![]
    } else {
        let rest = listing_items(es.drop_last());
        match listing_item(es.last()) {
            Some(item) => rest.push(item),
            None => rest,
        }
    }
}

/// The name and type of each directory listing entry that has them.
pub fn workspace_items(entries: &Vec<String>) -> (r: Vec<(String, String)>)
    ensures
        pairs_view(r@) == listing_items(strings_view(entries@)),
{
    let mut out: Vec<(String, String)> = Vec::new();
    let tab: Vec<char> = vec!['\t'];
    assert(tab@ =~= seq!['\t']);
    let mut k: usize = 0;
    while k < entries.len()
        invariant
            k <= entries.len(),
            tab@ == seq!['\t'],
            pairs_view(out@) == listing_items(strings_view(entries@).take(k as int)),
        decreases entries.len() - k,
    {
        let ghost es = strings_view(entries@).take(k as int + 1);
        assert(es.drop_last() =~= strings_view(entries@).take(k as int));
        assert(es.last() == entries@[k as int]@);
        let e = chars_of(entries[k].as_str());
        match crate::text::find_from_exec(e.as_slice(), tab.as_slice(), 0) {
            Some(i) => {
                proof {
                    crate::text::lemma_find_from_correct(e@, tab@, 0);
                    assert(find_from(e@, tab@, 0) == Some(i as int));
                    assert(occurs_at(e@, tab@, i as int));
                    assert(tab@.len() == 1);
                    assert(i + tab@.len() <= e@.len());
                }
                let mut name: Vec<char> = Vec::new();
                push_range(&mut name, e.as_slice(), 0, i);
                let n = e.len();
                let after: usize = i + 1;
                let mut kind: Vec<char> = Vec::new();
                push_range(&mut kind, e.as_slice(), after, e.len());
                assert(name@ =~= e@.take(i as int));
                assert(kind@ =~= e@.skip(i + 1));
                out.push((string_of(&name), string_of(&kind)));
                assert(pairs_view(out@) =~= listing_items(es));
            },
            None => {
                assert(pairs_view(out@) =~= listing_items(es));
            },
        }
        k += 1;
    }
    assert(strings_view(entries@).take(entries.len() as int) =~= strings_view(entries@));
    out
}

} // verus!
