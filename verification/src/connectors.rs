//! Connector tool naming, URL/body templating and configuration checks.
//!
//! A connector exposes tools to the agent: API connectors hold manually
//! defined HTTP tools, MCP connectors point at a Model Context Protocol server.
//! Registered tools get a globally unique name that embeds an 8-byte prefix of
//! the connector id.
use vstd::prelude::*;
use vstd::string::StrSliceExecFns;
use crate::llm::{FunctionDefinition, ToolDefinition};
use crate::text::{
    byte_len, byte_prefix, byte_prefix_chars, chars_eq, chars_of, find, find_from, find_from_exec,
    occurs_at, push_chars, push_str, starts_with, string_of, trim, trim_chars,
};

verus! {

/// Connector type of HTTP API tools.
pub const TYPE_API: &'static str = "api";
/// Connector type of MCP servers.
pub const TYPE_MCP: &'static str = "mcp";

/// Maximum response body size handed back to the model, in bytes.
pub const MAX_RESPONSE_BYTES: usize = 204800;

/// Characters allowed in LLM function names.
pub open spec fn is_tool_name_char(c: char) -> bool {
    ('a' <= c && c <= 'z') || ('A' <= c && c <= 'Z') || ('0' <= c && c <= '9') || c == '_' || c == '-'
}

/// `name` with every character outside `[a-zA-Z0-9_-]` replaced by `_`;
/// `tool` for an empty name.
pub open spec fn sanitize_spec(name: Seq<char>) -> Seq<char> {
    if name.len() == 0 {
        "tool"@
    } else {
        Seq::new(name.len(), |i: int| if is_tool_name_char(name[i]) { name[i] } else { '_' })
    }
}

/// The registry name of a connector tool.
pub open spec fn global_name_spec(connector_id: Seq<char>, tool_name: Seq<char>) -> Seq<char> {
    let n = if connector_id.len() < 8 { connector_id.len() as int } else { 8 };
    "connector_"@ + connector_id.take(n) + "_"@ + sanitize_spec(tool_name)
}

/// The (id prefix, tool name) embedded in a registry name, if it has the
/// connector shape: `connector_`, an 8-byte prefix, `_`, the rest.
pub open spec fn parse_global_spec(name: Seq<char>) -> Option<(Seq<char>, Seq<char>)> {
    if !starts_with(name, "connector_"@) {
        None
    } else {
        let rest = name.skip(10);
        match find(rest, "_"@) {
            None => None,
            Some(p) => if byte_len(rest.take(p)) == 8 {
                Some((rest.take(p), rest.skip(p + 1)))
            } else {
                None
            },
        }
    }
}

/// Replaces characters that LLM function names may not hold.
pub fn sanitize_tool_name(name: &str) -> (r: String)
    ensures
        r@ == sanitize_spec(name@),
{
    let cs = chars_of(name);
    if cs.len() == 0 {
        return string_of(&chars_of("tool"));
    }
    let mut out: Vec<char> = Vec::new();
    let mut i: usize = 0;
    while i < cs.len()
        invariant
            i <= cs.len(),
            cs@ == name@,
            out@.len() == i,
            forall|j: int| 0 <= j < i ==> out@[j] == (if is_tool_name_char(cs@[j]) { cs@[j] } else { '_' }),
        decreases cs.len() - i,
    {
        let c = cs[i];
        let ok = ('a' <= c && c <= 'z') || ('A' <= c && c <= 'Z') || ('0' <= c && c <= '9') || c == '_'
            || c == '-';
        if ok {
            out.push(c);
        } else {
            out.push('_');
        }
        i += 1;
    }
    assert(out@ =~= sanitize_spec(name@));
    string_of(&out)
}

/// The globally unique registry name for a connector tool.
pub fn global_tool_name(connector_id: &str, tool_name: &str) -> (r: String)
    ensures
        r@ == global_name_spec(connector_id@, tool_name@),
{
    let id = chars_of(connector_id);
    let n: usize = if id.len() < 8 { id.len() } else { 8 };
    let mut out: Vec<char> = Vec::new();
    push_str(&mut out, "connector_");
    let mut i: usize = 0;
    let ghost base = out@;
    while i < n
        invariant
            n <= id.len(),
            i <= n,
            out@ == base + id@.take(i as int),
        decreases n - i,
    {
        out.push(id[i]);
        assert(id@.take(i + 1) =~= id@.take(i as int).push(id@[i as int]));
        i += 1;
    }
    push_str(&mut out, "_");
    let s = sanitize_tool_name(tool_name);
    push_str(&mut out, s.as_str());
    string_of(&out)
}

/// Byte length of the characters of `cs`.
fn byte_len_chars(cs: &[char]) -> (r: usize)
    requires
        byte_len(cs@) <= usize::MAX,
    ensures
        r == byte_len(cs@),
{
    let mut total: usize = 0;
    let mut i: usize = 0;
    while i < cs.len()
        invariant
            i <= cs.len(),
            total == byte_len(cs@.take(i as int)),
            byte_len(cs@) <= usize::MAX,
        decreases cs.len() - i,
    {
        proof {
            assert(cs@.take(i + 1) =~= cs@.take(i as int).push(cs@[i as int]));
            crate::text::lemma_byte_len_push(cs@.take(i as int), cs@[i as int]);
            crate::text::lemma_byte_len_prefix_monotone(cs@, i + 1, cs.len() as int);
            assert(cs@.take(cs.len() as int) =~= cs@);
        }
        total = total + crate::text::char_width_exec(cs[i]);
        i += 1;
    }
    assert(cs@.take(cs.len() as int) =~= cs@);
    total
}

/// Splits a registry name into the embedded connector id prefix and the tool
/// name; `None` for names that are not connector tools.
pub fn parse_global_tool_name(global_name: &str) -> (r: Option<(&str, &str)>)
    ensures
        r matches Some((a, b)) ==> parse_global_spec(global_name@) == Some((a@, b@)),
        r is None ==> parse_global_spec(global_name@) is None,
{
    let cs = chars_of(global_name);
    let prefix = chars_of("connector_");
    proof {
        reveal_strlit("connector_");
        reveal_strlit("_");
    }
    if !crate::text::occurs_at_exec(&cs, &prefix, 0) {
        return None;
    }
    assert("connector_"@.len() == 10);
    assert(cs@.len() >= 10);
    assert("_"@.len() == 1);
    let ghost rest = cs@.skip(10);
    let underscore = chars_of("_");
    match find_from_exec(&cs, &underscore, 10) {
        None => {
            proof {
                crate::text::lemma_find_from_correct(cs@, underscore@, 10);
                crate::text::lemma_find_from_correct(rest, underscore@, 0);
                if let Some(p) = find(rest, "_"@) {
                    assert(occurs_at(cs@, "_"@, p + 10)) by {
                        assert(cs@.subrange(p + 10, p + 11) =~= rest.subrange(p, p + 1));
                    }
                }
            }
            None
        },
        Some(q) => {
            proof {
                crate::text::lemma_find_from_correct(cs@, underscore@, 10);
                crate::text::lemma_find_from_correct(rest, underscore@, 0);
                let p = q - 10;
                assert(occurs_at(rest, "_"@, p)) by {
                    assert(cs@.subrange(q as int, q + 1) =~= rest.subrange(p, p + 1));
                }
                assert forall|j: int| 0 <= j < p implies !occurs_at(rest, "_"@, j) by {
                    if occurs_at(rest, "_"@, j) {
                        assert(cs@.subrange(j + 10, j + 11) =~= rest.subrange(j, j + 1));
                        assert(occurs_at(cs@, "_"@, j + 10));
                    }
                }
                assert(find(rest, "_"@) == Some(p));
            }
            if q - 10 > 8 {
                proof {
                    crate::text::lemma_byte_len_prefix_monotone(rest, 0, (q - 10) as int);
                    assert(rest.take(0) =~= Seq::<char>::empty());
                    assert(byte_len(Seq::<char>::empty()) == 0);
                }
                return None;
            }
            let mut head: Vec<char> = Vec::new();
            let mut i: usize = 10;
            while i < q
                invariant
                    10 <= i <= q,
                    q <= cs.len(),
                    head@ == cs@.subrange(10, i as int),
                decreases q - i,
            {
                head.push(cs[i]);
                assert(cs@.subrange(10, i + 1) =~= cs@.subrange(10, i as int).push(cs@[i as int]));
                i += 1;
            }
            proof {
                assert(head@ =~= rest.take(q - 10));
                crate::text::lemma_byte_len_prefix_monotone(head@, 0, head@.len() as int);
                assert(head@.take(head@.len() as int) =~= head@);
                assert(head@.take(0) =~= Seq::<char>::empty());
                assert(byte_len(Seq::<char>::empty()) == 0);
                assert forall|t: Seq<char>| t.len() <= 8 implies byte_len(t) <= 32 by {
                    lemma_byte_len_bound(t);
                }
            }
            if byte_len_chars(&head) != 8 {
                return None;
            }
            assert(cs@.subrange(q + 1, cs.len() as int) =~= rest.skip(q - 10 + 1));
            Some((global_name.substring_char(10, q), global_name.substring_char(q + 1, cs.len())))
        },
    }
}

proof fn lemma_byte_len_bound(t: Seq<char>)
    ensures
        byte_len(t) <= 4 * t.len(),
    decreases t.len(),
{
    if t.len() > 0 {
        lemma_byte_len_bound(t.drop_last());
    }
}

/// True when `name` is a connector tool's registry name.
pub fn is_connector_tool(name: &str) -> (r: bool)
    ensures
        r == parse_global_spec(name@) is Some,
{
    parse_global_tool_name(name).is_some()
}


/// View of a list of string pairs.
pub open spec fn pairs_view(v: Seq<(String, String)>) -> Seq<(Seq<char>, Seq<char>)> {
    v.map_values(|p: (String, String)| (p.0@, p.1@))
}

/// The value bound to `key` (the first binding, as keys are unique in use).
pub open spec fn lookup(args: Seq<(Seq<char>, Seq<char>)>, key: Seq<char>) -> Option<Seq<char>>
    decreases args.len(),
{
    if args.len() == 0 {
        None
    } else if args[0].0 == key {
        Some(args[0].1)
    } else {
        lookup(args.drop_first(), key)
    }
}

/// `{{name}}` placeholders of `t` from position `pos` on rendered from `args`;
/// the error names the first placeholder without a value. An unclosed `{{`
/// and everything after it is kept literally.
pub open spec fn render_from(t: Seq<char>, pos: int, args: Seq<(Seq<char>, Seq<char>)>) -> Result<
    Seq<char>,
    Seq<char>,
>
    decreases t.len() - pos,
{
    if pos < 0 || pos > t.len() {
        Ok(seq![])
    } else {
        match find_from(t, "{{"@, pos) {
            None => Ok(t.skip(pos)),
            Some(st) => match find_from(t, "}}"@, st + 2) {
                None => Ok(t.skip(pos)),
                Some(e) => {
                    let key = trim(t.subrange(st + 2, e));
                    match lookup(args, key) {
                        None => Err("Missing required parameter: "@ + key),
                        Some(v) => {
                            proof {
                                crate::text::lemma_find_from_correct(t, "{{"@, pos);
                                crate::text::lemma_find_from_correct(t, "}}"@, st + 2);
                            }
                            if e + 2 <= pos || e + 2 > t.len() {
                                Ok(seq![])
                            } else {
                                match render_from(t, e + 2, args) {
                                    Ok(r) => Ok(t.subrange(pos, st) + v + r),
                                    Err(m) => Err(m),
                                }
                            }
                        },
                    }
                },
            },
        }
    }
}

/// `t` with its placeholders rendered from `args`.
pub open spec fn render_spec(t: Seq<char>, args: Seq<(Seq<char>, Seq<char>)>) -> Result<Seq<char>, Seq<char>> {
    render_from(t, 0, args)
}

/// Names of the closed placeholders of `t` from position `pos` on.
pub open spec fn placeholders_from(t: Seq<char>, pos: int) -> Seq<Seq<char>>
    decreases t.len() - pos,
{
    if pos < 0 || pos > t.len() {
        seq![]
    } else {
        match find_from(t, "{{"@, pos) {
            None => seq![],
            Some(st) => match find_from(t, "}}"@, st + 2) {
                None => seq![],
                Some(e) => {
                    proof {
                        crate::text::lemma_find_from_correct(t, "{{"@, pos);
                        crate::text::lemma_find_from_correct(t, "}}"@, st + 2);
                    }
                    if e + 2 <= pos || e + 2 > t.len() {
                        seq![]
                    } else {
                        seq![trim(t.subrange(st + 2, e))] + placeholders_from(t, e + 2)
                    }
                },
            },
        }
    }
}

/// Names of the closed placeholders of `t`, in order.
pub open spec fn placeholders_spec(t: Seq<char>) -> Seq<Seq<char>> {
    placeholders_from(t, 0)
}

proof fn lemma_render_placeholders_from(t: Seq<char>, pos: int, args: Seq<(Seq<char>, Seq<char>)>)
    requires
        0 <= pos <= t.len(),
    ensures
        render_from(t, pos, args) is Ok <==> forall|i: int| 0 <= i < placeholders_from(t, pos).len()
            ==> lookup(args, #[trigger] placeholders_from(t, pos)[i]) is Some,
        placeholders_from(t, pos).len() == 0 ==> render_from(t, pos, args) == Ok::<Seq<char>, Seq<char>>(t.skip(pos)),
    decreases t.len() - pos,
{
    crate::text::lemma_find_from_correct(t, "{{"@, pos);
    match find_from(t, "{{"@, pos) {
        None => {},
        Some(st) => {
            crate::text::lemma_find_from_correct(t, "}}"@, st + 2);
            match find_from(t, "}}"@, st + 2) {
                None => {},
                Some(e) => {
                    reveal_strlit("{{");
                    reveal_strlit("}}");
                    let key = trim(t.subrange(st + 2, e));
                    lemma_render_placeholders_from(t, e + 2, args);
                    let rest = placeholders_from(t, e + 2);
                    let ps = placeholders_from(t, pos);
                    assert(ps == seq![key] + rest);
                    assert(ps[0] == key);
                    if forall|i: int| 0 <= i < ps.len() ==> lookup(args, #[trigger] ps[i]) is Some {
                        assert(lookup(args, ps[0]) is Some);
                        assert forall|i: int| 0 <= i < rest.len() implies lookup(args, #[trigger] rest[i]) is Some by {
                            assert(ps[i + 1] == rest[i]);
                        }
                    }
                    if render_from(t, pos, args) is Ok {
                        assert forall|i: int| 0 <= i < ps.len() implies lookup(args, #[trigger] ps[i]) is Some by {
                            if i > 0 {
                                assert(ps[i] == rest[i - 1]);
                            }
                        }
                    }
                },
            }
        },
    }
}

/// Rendering a template succeeds exactly when every placeholder it names
/// has a value.
pub proof fn lemma_render_ok_iff_bound(t: Seq<char>, args: Seq<(Seq<char>, Seq<char>)>)
    ensures
        render_spec(t, args) is Ok <==> forall|i: int| 0 <= i < placeholders_spec(t).len()
            ==> lookup(args, #[trigger] placeholders_spec(t)[i]) is Some,
{
    lemma_render_placeholders_from(t, 0, args);
}

/// A template without placeholders renders to itself, whatever the
/// arguments.
pub proof fn lemma_render_without_placeholders(t: Seq<char>, args: Seq<(Seq<char>, Seq<char>)>)
    requires
        placeholders_spec(t).len() == 0,
    ensures
        render_spec(t, args) == Ok::<Seq<char>, Seq<char>>(t),
{
    lemma_render_placeholders_from(t, 0, args);
    assert(t.skip(0) =~= t);
}

/// Sanitized names hold only allowed characters, and sanitizing them again
/// changes nothing.
pub proof fn lemma_sanitize_allowed_idempotent(name: Seq<char>)
    ensures
        forall|i: int| 0 <= i < sanitize_spec(name).len() ==> is_tool_name_char(#[trigger] sanitize_spec(name)[i]),
        sanitize_spec(sanitize_spec(name)) == sanitize_spec(name),
        sanitize_spec(name).len() > 0,
{
    reveal_strlit("tool");
    let s = sanitize_spec(name);
    assert forall|i: int| 0 <= i < s.len() implies is_tool_name_char(#[trigger] s[i]) by {}
    assert(sanitize_spec(s) =~= s);
}

proof fn lemma_ascii_byte_len(s: Seq<char>)
    requires
        forall|i: int| 0 <= i < s.len() ==> (#[trigger] s[i] as u32) < 128,
    ensures
        byte_len(s) == s.len(),
    decreases s.len(),
{
    if s.len() > 0 {
        lemma_ascii_byte_len(s.drop_last());
        assert((s.last() as u32) < 128);
    }
}

/// A registry name gives back the connector id prefix and the sanitized
/// tool name it was made from, and is recognised as a connector tool, when
/// the id's first eight characters are ASCII and not `_`.
pub proof fn lemma_global_name_roundtrip(id: Seq<char>, tool: Seq<char>)
    requires
        id.len() >= 8,
        forall|i: int| 0 <= i < 8 ==> (#[trigger] id[i] as u32) < 128 && id[i] != '_',
    ensures
        parse_global_spec(global_name_spec(id, tool)) == Some((id.take(8), sanitize_spec(tool))),
{
    reveal_strlit("connector_");
    reveal_strlit("_");
    let s = sanitize_spec(tool);
    let name = global_name_spec(id, tool);
    let p8 = id.take(8);
    assert(name == "connector_"@ + p8 + "_"@ + s);
    assert(name.subrange(0, 10) =~= "connector_"@);
    let rest = name.skip(10);
    assert(rest =~= p8 + "_"@ + s);
    assert(rest.subrange(8, 9) =~= "_"@);
    assert forall|j: int| 0 <= j < 8 implies !occurs_at(rest, "_"@, j) by {
        assert(rest.subrange(j, j + 1)[0] == id[j]);
    }
    crate::text::lemma_find_first(rest, "_"@, 0, 8);
    assert(rest.take(8) =~= p8);
    lemma_ascii_byte_len(p8);
    assert(rest.skip(9) =~= s);
}


fn lookup_exec(args: &Vec<(String, String)>, key: &Vec<char>) -> (r: Option<String>)
    ensures
        r matches Some(v) ==> lookup(pairs_view(args@), key@) == Some(v@),
        r is None ==> lookup(pairs_view(args@), key@) is None,
{
    let mut i: usize = 0;
    assert(pairs_view(args@).skip(0) =~= pairs_view(args@));
    while i < args.len()
        invariant
            i <= args.len(),
            lookup(pairs_view(args@), key@) == lookup(pairs_view(args@).skip(i as int), key@),
        decreases args.len() - i,
    {
        let k = chars_of(args[i].0.as_str());
        let ghost rest = pairs_view(args@).skip(i as int);
        assert(rest[0] == (args@[i as int].0@, args@[i as int].1@));
        assert(rest.drop_first() =~= pairs_view(args@).skip(i + 1));
        if chars_eq(&k, key) {
            return Some(args[i].1.clone());
        }
        i += 1;
    }
    assert(pairs_view(args@).skip(i as int) =~= Seq::<(Seq<char>, Seq<char>)>::empty());
    None
}

/// Appends `t[a..b]` to `out`.
fn push_range(out: &mut Vec<char>, t: &Vec<char>, a: usize, b: usize)
    requires
        a <= b <= t.len(),
    ensures
        final(out)@ == old(out)@ + t@.subrange(a as int, b as int),
{
    let ghost start = out@;
    let mut i = a;
    while i < b
        invariant
            a <= i <= b <= t.len(),
            out@ == start + t@.subrange(a as int, i as int),
        decreases b - i,
    {
        out.push(t[i]);
        assert(t@.subrange(a as int, i + 1) =~= t@.subrange(a as int, i as int).push(t@[i as int]));
        i += 1;
    }
}

/// `t[a..b]` as a vector.
fn slice_range(t: &Vec<char>, a: usize, b: usize) -> (r: Vec<char>)
    requires
        a <= b <= t.len(),
    ensures
        r@ == t@.subrange(a as int, b as int),
{
    let mut r: Vec<char> = Vec::new();
    push_range(&mut r, t, a, b);
    assert(r@ =~= t@.subrange(a as int, b as int));
    r
}

/// What `serde_json` makes of tool arguments: the text of the parse error,
/// or the members of a JSON object as name and value pairs, string values as
/// they are and other values as JSON text; `None` for JSON that is not an
/// object.
pub uninterp spec fn json_args(text: Seq<char>) -> Result<Option<Seq<(Seq<char>, Seq<char>)>>, Seq<char>>;

/// Parses `text` with `serde_json::from_str` into a `Value` and reads out the
/// members of an object with `Value::as_object`, rendering non-string values
/// with `to_string`.
#[verifier::external_body]
fn json_object_members(text: &str) -> (r: Result<Option<Vec<(String, String)>>, String>)
    ensures
        json_args(text@) == match r {
            Ok(Some(v)) => Ok(Some(pairs_view(v@))),
            Ok(None) => Ok(None),
            Err(e) => Err(e@),
        },
{
    match serde_json::from_str::<serde_json::Value>(text) {
        Err(e) => Err(e.to_string()),
        Ok(v) => Ok(v.as_object().map(|o| o.iter().map(|(k, v)| (k.clone(), match v {
            serde_json::Value::String(s) => s.clone(),
            other => other.to_string(),
        })).collect())),
    }
}

/// The arguments a tool call passes: none for blank text, else the members
/// of a JSON object.
pub open spec fn parse_args_spec(args: Seq<char>) -> Result<Seq<(Seq<char>, Seq<char>)>, Seq<char>> {
    let t = trim(args);
    if t.len() == 0 {
        Ok(seq![])
    } else {
        match json_args(t) {
            Err(e) => Err("Invalid tool arguments JSON: "@ + e),
            Ok(None) => Err("Tool arguments must be a JSON object"@),
            Ok(Some(p)) => Ok(p),
        }
    }
}

/// Parses tool-call arguments into name and value pairs.
pub fn parse_args(args: &str) -> (r: Result<Vec<(String, String)>, String>)
    ensures
        parse_args_spec(args@) == match r {
            Ok(v) => Ok(pairs_view(v@)),
            Err(e) => Err(e@),
        },
{
    let t = trim_chars(&chars_of(args));
    if t.len() == 0 {
        let v: Vec<(String, String)> = Vec::new();
        assert(pairs_view(v@) =~= Seq::<(Seq<char>, Seq<char>)>::empty());
        return Ok(v);
    }
    let text = string_of(&t);
    match json_object_members(text.as_str()) {
        Err(e) => {
            let mut m: Vec<char> = Vec::new();
            push_str(&mut m, "Invalid tool arguments JSON: ");
            push_str(&mut m, e.as_str());
            Err(string_of(&m))
        },
        Ok(None) => Err(string_of(&chars_of("Tool arguments must be a JSON object"))),
        Ok(Some(v)) => Ok(v),
    }
}


/// Renders `{{param}}` placeholders of `template` from `args`; the error names
/// the first placeholder that `args` has no value for.
pub fn render_template(template: &str, args: &Vec<(String, String)>) -> (r: Result<String, String>)
    ensures
        r matches Ok(s) ==> render_spec(template@, pairs_view(args@)) == Ok::<Seq<char>, Seq<char>>(s@),
        r matches Err(e) ==> render_spec(template@, pairs_view(args@)) == Err::<Seq<char>, Seq<char>>(e@),
{
    let t = chars_of(template);
    let open_p = chars_of("{{");
    let close_p = chars_of("}}");
    proof {
        reveal_strlit("{{");
        reveal_strlit("}}");
    }
    assert("{{"@.len() == 2);
    assert("}}"@.len() == 2);
    let ghost av = pairs_view(args@);
    let mut out: Vec<char> = Vec::new();
    let mut pos: usize = 0;
    loop
        invariant
            pos <= t.len(),
            t@ == template@,
            open_p@ == "{{"@,
            close_p@ == "}}"@,
            "{{"@.len() == 2,
            "}}"@.len() == 2,
            av == pairs_view(args@),
            render_from(t@, 0, av) == (match render_from(t@, pos as int, av) {
                Ok(r) => Ok(out@ + r),
                Err(m) => Err(m),
            }),
        decreases t.len() - pos,
    {
        match find_from_exec(&t, &open_p, pos) {
            None => {
                push_range(&mut out, &t, pos, t.len());
                assert(t@.subrange(pos as int, t.len() as int) =~= t@.skip(pos as int));
                return Ok(string_of(&out));
            },
            Some(st) => {
                proof {
                    crate::text::lemma_find_from_correct(t@, "{{"@, pos as int);
                }
                match find_from_exec(&t, &close_p, st + 2) {
                    None => {
                        push_range(&mut out, &t, pos, t.len());
                        assert(t@.subrange(pos as int, t.len() as int) =~= t@.skip(pos as int));
                        return Ok(string_of(&out));
                    },
                    Some(e) => {
                        proof {
                            crate::text::lemma_find_from_correct(t@, "}}"@, st + 2);
                        }
                        let raw = slice_range(&t, st + 2, e);
                        let key = trim_chars(&raw);
                        match lookup_exec(args, &key) {
                            None => {
                                let mut msg: Vec<char> = Vec::new();
                                push_str(&mut msg, "Missing required parameter: ");
                                push_chars(&mut msg, &key);
                                return Err(string_of(&msg));
                            },
                            Some(v) => {
                                let ghost old_out = out@;
                                push_range(&mut out, &t, pos, st);
                                push_str(&mut out, v.as_str());
                                proof {
                                    match render_from(t@, e + 2, av) {
                                        Ok(r) => {
                                            assert(out@ + r =~= old_out + (t@.subrange(pos as int, st as int) + v@ + r));
                                        },
                                        Err(m) => {},
                                    }
                                }
                                pos = e + 2;
                            },
                        }
                    },
                }
            },
        }
    }
}

/// Names of the placeholders referenced by `template`, in order.
pub fn template_placeholders(template: &str) -> (r: Vec<String>)
    ensures
        r@.len() == placeholders_spec(template@).len(),
        forall|k: int| 0 <= k < r@.len() ==> #[trigger] r@[k]@ == placeholders_spec(template@)[k],
{
    let t = chars_of(template);
    let open_p = chars_of("{{");
    let close_p = chars_of("}}");
    proof {
        reveal_strlit("{{");
        reveal_strlit("}}");
    }
    assert("{{"@.len() == 2);
    assert("}}"@.len() == 2);
    let mut names: Vec<String> = Vec::new();
    let mut pos: usize = 0;
    loop
        invariant
            pos <= t.len(),
            t@ == template@,
            open_p@ == "{{"@,
            close_p@ == "}}"@,
            "{{"@.len() == 2,
            "}}"@.len() == 2,
            names@.map_values(|x: String| x@) + placeholders_from(t@, pos as int) == placeholders_from(t@, 0),
        ensures
            names@.map_values(|x: String| x@) =~= placeholders_from(t@, 0),
        decreases t.len() - pos,
    {
        match find_from_exec(&t, &open_p, pos) {
            None => {
                assert(names@.map_values(|x: String| x@) + placeholders_from(t@, pos as int)
                    =~= names@.map_values(|x: String| x@));
                break;
            },
            Some(st) => {
                proof {
                    crate::text::lemma_find_from_correct(t@, "{{"@, pos as int);
                }
                match find_from_exec(&t, &close_p, st + 2) {
                    None => {
                        assert(names@.map_values(|x: String| x@) + placeholders_from(t@, pos as int)
                            =~= names@.map_values(|x: String| x@));
                        break;
                    },
                    Some(e) => {
                        proof {
                            crate::text::lemma_find_from_correct(t@, "}}"@, st + 2);
                        }
                        let raw = slice_range(&t, st + 2, e);
                        let key = trim_chars(&raw);
                        let ghost before = names@.map_values(|x: String| x@);
                        names.push(string_of(&key));
                        assert(names@.map_values(|x: String| x@) =~= before.push(key@));
                        assert(before.push(key@) + placeholders_from(t@, e + 2) =~= before + (seq![key@]
                            + placeholders_from(t@, e + 2)));
                        pos = e + 2;
                    },
                }
            },
        }
    }
    assert(names@.map_values(|x: String| x@) =~= placeholders_from(t@, 0));
    names
}

/// Cuts a response body to `MAX_RESPONSE_BYTES` at a character boundary and
/// marks the cut.
pub fn truncate_response(body: &str) -> (r: String)
    ensures
        byte_len(body@) <= MAX_RESPONSE_BYTES ==> r@ == body@,
        byte_len(body@) > MAX_RESPONSE_BYTES ==> r@ == byte_prefix(body@, MAX_RESPONSE_BYTES as nat)
            + "\n... [truncated]"@,
{
    let cs = chars_of(body);
    let (prefix, whole) = byte_prefix_chars(&cs, MAX_RESPONSE_BYTES);
    if whole {
        return string_of(&cs);
    }
    let mut out = prefix;
    push_str(&mut out, "\n... [truncated]");
    string_of(&out)
}


/// Configuration of an MCP connector.
#[derive(Debug, Clone)]
pub struct McpConfig {
    /// Transport: `stdio` or `http`.
    pub transport: String,
    /// stdio: command to launch.
    pub command: String,
    /// stdio: command arguments.
    pub args: Vec<String>,
    /// stdio: extra environment variables.
    pub env: Vec<(String, String)>,
    /// http: server endpoint URL.
    pub url: String,
    /// http: extra request headers.
    pub headers: Vec<(String, String)>,
}

/// Outcome of checking an MCP configuration.
pub open spec fn mcp_validate_spec(transport: Seq<char>, command: Seq<char>, url: Seq<char>) -> Result<(), Seq<char>> {
    if transport == "stdio"@ {
        if trim(command).len() == 0 {
            Err("stdio transport requires a non-empty command"@)
        } else {
            Ok(())
        }
    } else if transport == "http"@ {
        if !starts_with(url, "http://"@) && !starts_with(url, "https://"@) {
            Err("http transport requires a valid http(s) url"@)
        } else {
            Ok(())
        }
    } else {
        Err("unknown MCP transport: "@ + transport)
    }
}

fn starts_with_str(s: &Vec<char>, p: &str) -> (r: bool)
    ensures
        r == starts_with(s@, p@),
{
    crate::text::occurs_at_exec(s, &chars_of(p), 0)
}

impl McpConfig {
    /// Checks that the configuration has what its transport needs.
    pub fn validate(&self) -> (r: Result<(), String>)
        ensures
            r matches Ok(_) ==> mcp_validate_spec(self.transport@, self.command@, self.url@) == Ok::<(), Seq<char>>(()),
            r matches Err(e) ==> mcp_validate_spec(self.transport@, self.command@, self.url@) == Err::<(), Seq<char>>(e@),
    {
        let t = chars_of(self.transport.as_str());
        if chars_eq(&t, &chars_of("stdio")) {
            let c = trim_chars(&chars_of(self.command.as_str()));
            if c.len() == 0 {
                return Err(string_of(&chars_of("stdio transport requires a non-empty command")));
            }
            return Ok(());
        }
        if chars_eq(&t, &chars_of("http")) {
            let u = chars_of(self.url.as_str());
            if !starts_with_str(&u, "http://") && !starts_with_str(&u, "https://") {
                return Err(string_of(&chars_of("http transport requires a valid http(s) url")));
            }
            return Ok(());
        }
        let mut msg: Vec<char> = Vec::new();
        push_str(&mut msg, "unknown MCP transport: ");
        push_chars(&mut msg, &t);
        Err(string_of(&msg))
    }
}

/// A manually defined HTTP tool of an API connector.
#[derive(Debug)]
pub struct ApiToolDef {
    pub name: String,
    /// Description shown to the model.
    pub description: String,
    /// HTTP method (GET/POST/PUT/PATCH/DELETE).
    pub method: String,
    /// URL template with `{{param}}` placeholders.
    pub url: String,
    /// Literal request headers.
    pub headers: Vec<(String, String)>,
    /// JSON Schema of the tool parameters, as JSON text.
    pub params: String,
    /// Optional body template with `{{param}}` placeholders.
    pub body_template: Option<String>,
    /// Per-tool enabled state.
    pub enabled: bool,
}

/// Two tool definitions hold the same fields.
pub open spec fn same_tool(a: ApiToolDef, b: ApiToolDef) -> bool {
    &&& a.name == b.name && a.description == b.description && a.method == b.method && a.url == b.url
    &&& a.headers@ == b.headers@ && a.params == b.params && a.body_template == b.body_template
    &&& a.enabled == b.enabled
}

impl Clone for ApiToolDef {
    fn clone(&self) -> (r: Self)
        ensures
            same_tool(r, *self),
    {
        let mut headers: Vec<(String, String)> = Vec::new();
        let mut i: usize = 0;
        while i < self.headers.len()
            invariant
                i <= self.headers@.len(),
                headers@ == self.headers@.take(i as int),
            decreases self.headers@.len() - i,
        {
            headers.push((self.headers[i].0.clone(), self.headers[i].1.clone()));
            assert(headers@ =~= self.headers@.take(i + 1));
            i += 1;
        }
        assert(headers@ =~= self.headers@);
        ApiToolDef {
            name: self.name.clone(),
            description: self.description.clone(),
            method: self.method.clone(),
            url: self.url.clone(),
            headers,
            params: self.params.clone(),
            body_template: self.body_template.clone(),
            enabled: self.enabled,
        }
    }
}

/// Names of the `properties` of a JSON Schema text, as serde_json reads
/// them (none when the text is not a JSON object with an object
/// `properties` member).
pub uninterp spec fn json_property_names(schema: Seq<char>) -> Seq<Seq<char>>;

/// Reads the property names of a JSON Schema with serde_json; the result is
/// named, not stated.
#[verifier::external_body]
fn schema_property_names(schema: &str) -> (r: Vec<String>)
    ensures
        r@.map_values(|x: String| x@) == json_property_names(schema@),
{
    match serde_json::from_str::<serde_json::Value>(schema) {
        Ok(v) => match v.get("properties").and_then(|p| p.as_object()) {
            Some(o) => o.keys().cloned().collect(),
            None => Vec::new(),
        },
        Err(_) => Vec::new(),
    }
}

/// The first name of `names` that `declared` lacks.
pub open spec fn first_undeclared(names: Seq<Seq<char>>, declared: Seq<Seq<char>>) -> Option<Seq<char>>
    decreases names.len(),
{
    if names.len() == 0 {
        None
    } else if !declared.contains(names[0]) {
        Some(names[0])
    } else {
        first_undeclared(names.drop_first(), declared)
    }
}

/// Outcome of checking an API tool definition.
pub open spec fn api_tool_check(
    name: Seq<char>,
    url: Seq<char>,
    body_template: Option<Seq<char>>,
    declared: Seq<Seq<char>>,
) -> Result<(), Seq<char>> {
    if trim(name).len() == 0 {
        Err("Tool name must not be empty"@)
    } else if !starts_with(url, "http://"@) && !starts_with(url, "https://"@) {
        Err("Tool URL must start with http:// or https://"@)
    } else {
        let names = placeholders_spec(url) + match body_template {
            Some(b) => placeholders_spec(b),
            None => seq![],
        };
        match first_undeclared(names, declared) {
            Some(n) => Err("Placeholder '{{"@ + n + "}}' is not declared in the parameter schema"@),
            None => Ok(()),
        }
    }
}

/// View of an optional string.
pub open spec fn opt_view(o: Option<String>) -> Option<Seq<char>> {
    match o {
        Some(s) => Some(s@),
        None => None,
    }
}

/// Checks an API tool definition without sending anything: a name, an
/// http(s) URL, and every template placeholder declared in the schema.
pub fn validate_api_tool(tool: &ApiToolDef) -> (r: Result<(), String>)
    ensures
        r matches Ok(_) ==> api_tool_check(tool.name@, tool.url@, opt_view(tool.body_template),
            json_property_names(tool.params@)) == Ok::<(), Seq<char>>(()),
        r matches Err(e) ==> api_tool_check(tool.name@, tool.url@, opt_view(tool.body_template),
            json_property_names(tool.params@)) == Err::<(), Seq<char>>(e@),
{
    let name = trim_chars(&chars_of(tool.name.as_str()));
    if name.len() == 0 {
        return Err(string_of(&chars_of("Tool name must not be empty")));
    }
    let u = chars_of(tool.url.as_str());
    if !starts_with_str(&u, "http://") && !starts_with_str(&u, "https://") {
        return Err(string_of(&chars_of("Tool URL must start with http:// or https://")));
    }
    let declared = schema_property_names(tool.params.as_str());
    let ghost dv = declared@.map_values(|x: String| x@);
    let mut names = template_placeholders(tool.url.as_str());
    match &tool.body_template {
        Some(b) => {
            let mut more = template_placeholders(b.as_str());
            names.append(&mut more);
        },
        None => {},
    }
    let ghost nv = placeholders_spec(tool.url@) + match opt_view(tool.body_template) {
        Some(b) => placeholders_spec(b),
        None => seq![],
    };
    assert(names@.map_values(|x: String| x@) =~= nv);
    let mut i: usize = 0;
    assert(nv.skip(0) =~= nv);
    while i < names.len()
        invariant
            i <= names.len(),
            names@.map_values(|x: String| x@) == nv,
            dv == declared@.map_values(|x: String| x@),
            first_undeclared(nv, dv) == first_undeclared(nv.skip(i as int), dv),
            trim(tool.name@).len() != 0,
            starts_with(tool.url@, "http://"@) || starts_with(tool.url@, "https://"@),
            nv == placeholders_spec(tool.url@) + match opt_view(tool.body_template) {
                Some(b) => placeholders_spec(b),
                None => seq![],
            },
            dv == json_property_names(tool.params@),
        decreases names.len() - i,
    {
        let n = chars_of(names[i].as_str());
        let mut found = false;
        let mut j: usize = 0;
        while j < declared.len()
            invariant
                j <= declared.len(),
                dv == declared@.map_values(|x: String| x@),
                found == dv.take(j as int).contains(n@),
            decreases declared.len() - j,
        {
            let d = chars_of(declared[j].as_str());
            assert(dv.take(j + 1) =~= dv.take(j as int).push(d@));
            if chars_eq(&d, &n) {
                found = true;
            }
            proof {
                if found {
                    if dv.take(j as int).contains(n@) {
                        let k = choose|k: int| 0 <= k < j && #[trigger] dv.take(j as int)[k] == n@;
                        assert(dv.take(j + 1)[k] == n@);
                    } else {
                        assert(dv.take(j + 1)[j as int] == n@);
                    }
                } else {
                    if dv.take(j + 1).contains(n@) {
                        let k = choose|k: int| 0 <= k < j + 1 && #[trigger] dv.take(j + 1)[k] == n@;
                        if k < j {
                            assert(dv.take(j as int)[k] == n@);
                        }
                    }
                }
            }
            j += 1;
        }
        assert(dv.take(declared.len() as int) =~= dv);
        assert(nv.skip(i as int)[0] == n@);
        assert(nv.skip(i as int).drop_first() =~= nv.skip(i + 1));
        if !found {
            let mut msg: Vec<char> = Vec::new();
            push_str(&mut msg, "Placeholder '{{");
            push_chars(&mut msg, &n);
            push_str(&mut msg, "}}' is not declared in the parameter schema");
            assert(!dv.contains(n@));
            assert(first_undeclared(nv.skip(i as int), dv) == Some(n@));
            assert(msg@ =~= "Placeholder '{{"@ + n@ + "}}' is not declared in the parameter schema"@);
            return Err(string_of(&msg));
        }
        i += 1;
    }
    assert(nv.skip(i as int) =~= Seq::<Seq<char>>::empty());
    Ok(())
}

/// A connector owned by a user.
#[derive(Debug, Clone)]
pub struct Connector {
    pub id: String,
    pub user_id: String,
    pub name: String,
    /// Connector type: `api` or `mcp`.
    pub ctype: String,
    pub description: String,
    /// Connector configuration as JSON text.
    pub config: String,
    /// Per-tool enabled state of MCP connectors; absent tools are enabled.
    pub tool_states: Vec<(String, bool)>,
    /// Connector-level enabled flag.
    pub enabled: bool,
    pub created_at: String,
    pub updated_at: String,
}

/// The recorded state of `name` in `states` (first entry wins).
pub open spec fn tool_state(states: Seq<(String, bool)>, name: Seq<char>) -> Option<bool>
    decreases states.len(),
{
    if states.len() == 0 {
        None
    } else if states[0].0@ == name {
        Some(states[0].1)
    } else {
        tool_state(states.drop_first(), name)
    }
}

impl Connector {
    /// Tool-level enabled check; tools without a recorded state are enabled.
    pub fn tool_enabled(&self, tool_name: &str) -> (r: bool)
        ensures
            r == tool_state(self.tool_states@, tool_name@).unwrap_or(true),
    {
        let n = chars_of(tool_name);
        let mut i: usize = 0;
        assert(self.tool_states@.skip(0) =~= self.tool_states@);
        while i < self.tool_states.len()
            invariant
                i <= self.tool_states.len(),
                n@ == tool_name@,
                tool_state(self.tool_states@, tool_name@) == tool_state(self.tool_states@.skip(i as int), tool_name@),
            decreases self.tool_states.len() - i,
        {
            let k = chars_of(self.tool_states[i].0.as_str());
            assert(self.tool_states@.skip(i as int).drop_first() =~= self.tool_states@.skip(i + 1));
            if chars_eq(&k, &n) {
                return self.tool_states[i].1;
            }
            i += 1;
        }
        assert(self.tool_states@.skip(i as int) =~= Seq::<(String, bool)>::empty());
        true
    }
}

impl Default for Connector {
    fn default() -> (r: Self)
        ensures
            r.id@.len() == 0 && r.user_id@.len() == 0 && r.name@.len() == 0 && r.ctype@.len() == 0,
            r.description@.len() == 0 && r.created_at@.len() == 0 && r.updated_at@.len() == 0,
            r.config@ == "{}"@,
            r.tool_states@.len() == 0,
            !r.enabled,
    {
        Connector {
            id: String::new(),
            user_id: String::new(),
            name: String::new(),
            ctype: String::new(),
            description: String::new(),
            config: string_of(&chars_of("{}")),
            tool_states: Vec::new(),
            enabled: false,
            created_at: String::new(),
            updated_at: String::new(),
        }
    }
}

/// A connector tool as reported to the frontend.
#[derive(Debug, Clone)]
pub struct ConnectorToolInfo {
    /// Tool name within the connector.
    pub name: String,
    pub description: String,
    /// JSON Schema of the parameters, as JSON text.
    pub parameters: String,
    /// Effective tool-level enabled state.
    pub enabled: bool,
}

/// Tool definitions for the model from a connector's tools.
pub fn to_tool_definitions(connector_id: &str, tools: &[ConnectorToolInfo]) -> (r: Vec<ToolDefinition>)
    ensures
        r@.len() == tools@.len(),
        forall|k: int| 0 <= k < r@.len() ==> {
            &&& (#[trigger] r@[k]).kind@ == "function"@
            &&& r@[k].function.name@ == global_name_spec(connector_id@, tools@[k].name@)
            &&& r@[k].function.description@ == tools@[k].description@
            &&& r@[k].function.parameters@ == tools@[k].parameters@
        },
{
    let mut out: Vec<ToolDefinition> = Vec::new();
    let mut i: usize = 0;
    while i < tools.len()
        invariant
            i <= tools.len(),
            out@.len() == i,
            forall|k: int| 0 <= k < i ==> {
                &&& (#[trigger] out@[k]).kind@ == "function"@
                &&& out@[k].function.name@ == global_name_spec(connector_id@, tools@[k].name@)
                &&& out@[k].function.description@ == tools@[k].description@
                &&& out@[k].function.parameters@ == tools@[k].parameters@
            },
        decreases tools.len() - i,
    {
        let t = &tools[i];
        out.push(ToolDefinition {
            kind: string_of(&chars_of("function")),
            function: FunctionDefinition {
                name: global_tool_name(connector_id, t.name.as_str()),
                description: t.description.clone(),
                parameters: t.parameters.clone(),
            },
        });
        i += 1;
    }
    out
}

} // verus!
