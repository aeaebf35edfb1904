//! Framing of MCP responses delivered as server-sent events.
use vstd::prelude::*;
use crate::feishu::{json_string_field, json_string_member};
use crate::text::{chars_eq, chars_of, decimal, join, line_pieces, push_decimal, push_str, starts_with, string_of, trim};

verus! {

/// Whether `serde_json` reads `text` as JSON with a top-level member `key`.
pub uninterp spec fn json_has_member(text: Seq<char>, key: Seq<char>) -> bool;

/// Parses `text` with `serde_json::from_str` and looks up `key` with
/// `Value::get`; false when the text is not JSON or has no such member.
#[verifier::external_body]
fn has_json_member(text: &str, key: &str) -> (r: bool)
    ensures
        r == json_has_member(text@, key@),
{
    match serde_json::from_str::<serde_json::Value>(text) {
        Ok(v) => v.get(key).is_some(),
        Err(_) => false,
    }
}

/// The payload of an SSE `data:` line, trimmed.
pub open spec fn sse_data(line: Seq<char>) -> Option<Seq<char>> {
    let t = trim(line);
    if starts_with(t, "data:"@) {
        Some(trim(t.skip(5)))
    } else {
        None
    }
}

/// The first non-empty `data:` payload that is a JSON-RPC message.
pub open spec fn first_rpc_message(lines: Seq<Seq<char>>) -> Option<Seq<char>>
    decreases lines.len(),
{
    if lines.len() == 0 {
        None
    } else {
        match sse_data(lines[0]) {
            Some(d) => if d.len() > 0 && json_has_member(d, "jsonrpc"@) {
                Some(d)
            } else {
                first_rpc_message(lines.drop_first())
            },
            None => first_rpc_message(lines.drop_first()),
        }
    }
}

/// The JSON text of the first JSON-RPC message of an SSE body, as in the
/// streamable-HTTP shape `event: message` / `data: {json}`.
pub fn parse_sse_response(body: &str) -> (r: Option<String>)
    ensures
        match r {
            Some(t) => first_rpc_message(line_pieces(body@)) == Some(t@),
            None => first_rpc_message(line_pieces(body@)) is None,
        },
{
    let cs = chars_of(body);
    let lines = crate::text::lines_chars(&cs);
    let prefix = chars_of("data:");
    proof {
        reveal_strlit("data:");
    }
    let ghost ls = line_pieces(body@);
    let mut i: usize = 0;
    assert(ls.skip(0) =~= ls);
    while i < lines.len()
        invariant
            i <= lines@.len(),
            ls == line_pieces(body@),
            lines@.len() == ls.len(),
            forall|k: int| 0 <= k < lines@.len() ==> #[trigger] lines@[k]@ == ls[k],
            prefix@ == "data:"@,
            prefix@.len() == 5,
            first_rpc_message(ls) == first_rpc_message(ls.skip(i as int)),
        decreases lines.len() - i,
    {
        assert(ls.skip(i as int).drop_first() =~= ls.skip(i + 1));
        assert(ls.skip(i as int)[0] == ls[i as int]);
        let t = crate::text::trim_chars(&lines[i]);
        if crate::text::occurs_at_exec(&t, &prefix, 0) {
            let mut rest: Vec<char> = Vec::new();
            let mut j: usize = 5;
            while j < t.len()
                invariant
                    5 <= j <= t@.len(),
                    rest@ == t@.subrange(5, j as int),
                decreases t.len() - j,
            {
                rest.push(t[j]);
                assert(t@.subrange(5, j + 1) =~= t@.subrange(5, j as int).push(t@[j as int]));
                j += 1;
            }
            assert(t@.subrange(5, t@.len() as int) =~= t@.skip(5));
            let d = crate::text::trim_chars(&rest);
            if d.len() > 0 {
                let text = string_of(&d);
                if has_json_member(text.as_str(), "jsonrpc") {
                    return Some(text);
                }
            }
        }
        i += 1;
    }
    assert(ls.skip(i as int) =~= Seq::<Seq<char>>::empty());
    None
}

/// The member `key` of the JSON object `text` as compact JSON text, as
/// `serde_json` reads and writes it; `None` when the text is no JSON or has
/// no such member.
pub uninterp spec fn json_member(text: Seq<char>, key: Seq<char>) -> Option<Seq<char>>;

/// Parses `text` with `serde_json::from_str`, looks up `key` with
/// `Value::get` and writes the member back with `to_string`. The member
/// text is named, not stated.
#[verifier::external_body]
fn json_member_text(text: &str, key: &str) -> (r: Option<String>)
    ensures
        match r {
            Some(m) => json_member(text@, key@) == Some(m@),
            None => json_member(text@, key@) is None,
        },
{
    match serde_json::from_str::<serde_json::Value>(text) {
        Ok(v) => v.get(key).map(|m| m.to_string()),
        Err(_) => None,
    }
}

/// The JSON value `text` as an unsigned 64-bit integer (`Value::as_u64`);
/// `None` when it is no such number.
pub uninterp spec fn json_u64(text: Seq<char>) -> Option<u64>;

/// Parses `text` with `serde_json::from_str` and reads it with
/// `Value::as_u64`; which texts give which numbers is named, not stated.
#[verifier::external_body]
fn json_as_u64(text: &str) -> (r: Option<u64>)
    ensures
        r == json_u64(text@),
{
    match serde_json::from_str::<serde_json::Value>(text) {
        Ok(v) => v.as_u64(),
        Err(_) => None,
    }
}

/// The items of the JSON array `text`, each as compact JSON text; `None`
/// when it is no array.
pub uninterp spec fn json_items(text: Seq<char>) -> Option<Seq<Seq<char>>>;

/// Parses `text` with `serde_json::from_str`, reads it with
/// `Value::as_array` and writes each item back with `to_string`. The item
/// texts are named, not stated.
#[verifier::external_body]
fn json_array_items(text: &str) -> (r: Option<Vec<String>>)
    ensures
        match r {
            Some(v) => json_items(text@) == Some(v@.map_values(|x: String| x@)),
            None => json_items(text@) is None,
        },
{
    match serde_json::from_str::<serde_json::Value>(text) {
        Ok(v) => v.as_array().map(|a| a.iter().map(|x| x.to_string()).collect()),
        Err(_) => None,
    }
}

/// The result of a JSON-RPC reply to the request with id `id`, as JSON text:
/// an `error` member gives its message, an `id` member must be `id`, and a
/// missing `result` is `null`.
pub open spec fn rpc_result_spec(id: u64, msg: Seq<char>) -> Result<Seq<char>, Seq<char>> {
    match json_member(msg, "error"@) {
        Some(err) => Err("MCP error: "@ + match json_string_field(err, "message"@) {
            Some(m) => m,
            None => "unknown MCP error"@,
        }),
        None => match json_member(msg, "id"@) {
            Some(got) => if json_u64(got) != Some(id) {
                Err("MCP response id mismatch: expected "@ + decimal(id as nat) + ", got "@ + got)
            } else {
                Ok(match json_member(msg, "result"@) {
                    Some(r) => r,
                    None => "null"@,
                })
            },
            None => Ok(match json_member(msg, "result"@) {
                Some(r) => r,
                None => "null"@,
            }),
        },
    }
}

/// The result of the JSON-RPC reply `msg` to the request with id `id`.
pub fn extract_rpc_result(id: u64, msg: &str) -> (r: Result<String, String>)
    ensures
        match r {
            Ok(t) => rpc_result_spec(id, msg@) == Ok::<Seq<char>, Seq<char>>(t@),
            Err(e) => rpc_result_spec(id, msg@) == Err::<Seq<char>, Seq<char>>(e@),
        },
{
    match json_member_text(msg, "error") {
        Some(err) => {
            let mut m = chars_of("MCP error: ");
            match json_string_member(err.as_str(), "message") {
                Some(text) => push_str(&mut m, text.as_str()),
                None => push_str(&mut m, "unknown MCP error"),
            }
            return Err(string_of(&m));
        },
        None => {},
    }
    match json_member_text(msg, "id") {
        Some(got) => {
            let same = match json_as_u64(got.as_str()) {
                Some(n) => n == id,
                None => false,
            };
            if !same {
                let mut m = chars_of("MCP response id mismatch: expected ");
                push_decimal(&mut m, id);
                push_str(&mut m, ", got ");
                push_str(&mut m, got.as_str());
                return Err(string_of(&m));
            }
        },
        None => {},
    }
    match json_member_text(msg, "result") {
        Some(r) => Ok(r),
        None => Ok(string_of(&chars_of("null"))),
    }
}

/// The texts of the `text` items of a content list.
pub open spec fn text_items(items: Seq<Seq<char>>) -> Seq<Seq<char>>
    decreases items.len(),
{
    if items.len() == 0 {
        seq![]
    } else {
        let prev = text_items(items.drop_last());
        let it = items.last();
        if json_string_field(it, "type"@) == Some("text"@) {
            match json_string_field(it, "text"@) {
                Some(t) => prev.push(t),
                None => prev,
            }
        } else {
            prev
        }
    }
}

/// The text a `tools/call` result carries: its `text` content items joined
/// with newlines; empty without a content list.
pub open spec fn call_text_spec(result: Seq<char>) -> Seq<char> {
    match json_member(result, "content"@) {
        Some(c) => match json_items(c) {
            Some(items) => join(text_items(items), "\n"@),
            None => seq![],
        },
        None => seq![],
    }
}

/// The text of a `tools/call` result.
pub fn extract_text(result: &str) -> (r: String)
    ensures
        r@ == call_text_spec(result@),
{
    let content = match json_member_text(result, "content") {
        Some(c) => c,
        None => {
            return String::new();
        },
    };
    let items = match json_array_items(content.as_str()) {
        Some(v) => v,
        None => {
            return String::new();
        },
    };
    let ghost iv = items@.map_values(|x: String| x@);
    let mut texts: Vec<String> = Vec::new();
    let mut i: usize = 0;
    while i < items.len()
        invariant
            i <= items@.len(),
            iv == items@.map_values(|x: String| x@),
            texts@.map_values(|x: String| x@) == text_items(iv.take(i as int)),
        decreases items@.len() - i,
    {
        assert(iv.take(i + 1).drop_last() =~= iv.take(i as int));
        assert(iv.take(i + 1).last() == items@[i as int]@);
        let is_text = match json_string_member(items[i].as_str(), "type") {
            Some(t) => chars_eq(&chars_of(t.as_str()), &chars_of("text")),
            None => false,
        };
        if is_text {
            match json_string_member(items[i].as_str(), "text") {
                Some(t) => {
                    let ghost before = texts@.map_values(|x: String| x@);
                    texts.push(t);
                    assert(texts@.map_values(|x: String| x@) =~= before.push(texts@.last()@));
                },
                None => {},
            }
        }
        i += 1;
    }
    assert(iv.take(i as int) =~= iv);
    let ghost tv = texts@.map_values(|x: String| x@);
    let mut out: Vec<char> = Vec::new();
    let mut k: usize = 0;
    while k < texts.len()
        invariant
            k <= texts@.len(),
            tv == texts@.map_values(|x: String| x@),
            out@ == join(tv.take(k as int), "\n"@),
        decreases texts@.len() - k,
    {
        assert(tv.take(k + 1).drop_last() =~= tv.take(k as int));
        if k > 0 {
            push_str(&mut out, "\n");
        } else {
            assert(tv.take(0) =~= Seq::<Seq<char>>::empty());
        }
        push_str(&mut out, texts[k].as_str());
        assert(out@ =~= join(tv.take(k + 1), "\n"@));
        k += 1;
    }
    assert(tv.take(k as int) =~= tv);
    string_of(&out)
}

} // verus!
