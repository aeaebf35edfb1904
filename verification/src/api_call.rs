//! The HTTP request an API connector tool makes for a tool call, and the
//! text the model gets back from the response.
//!
//! The caller sends the request and hands the response's status, reason
//! and body to [`api_response_text`].
use vstd::prelude::*;
use crate::connectors::{
    pairs_view, parse_args, parse_args_spec, render_spec, render_template, truncate_response, ApiToolDef,
    MAX_RESPONSE_BYTES,
};
use crate::text::{byte_len, byte_prefix, chars_eq, chars_of, decimal, push_chars, push_decimal, push_str, string_of, to_uppercase_string, trim, trim_chars, uppercase};

verus! {

/// The HTTP methods a tool may use.
#[derive(PartialEq, Eq, Structural, Clone, Copy, Debug)]
pub enum HttpMethod {
    Get,
    Post,
    Put,
    Patch,
    Delete,
}

/// The method an upper-cased method name stands for.
pub open spec fn method_of(upper: Seq<char>) -> Option<HttpMethod> {
    if upper == "GET"@ {
        Some(HttpMethod::Get)
    } else if upper == "POST"@ {
        Some(HttpMethod::Post)
    } else if upper == "PUT"@ {
        Some(HttpMethod::Put)
    } else if upper == "PATCH"@ {
        Some(HttpMethod::Patch)
    } else if upper == "DELETE"@ {
        Some(HttpMethod::Delete)
    } else {
        None
    }
}

/// The method sends a body.
pub open spec fn has_body(m: HttpMethod) -> bool {
    m == HttpMethod::Post || m == HttpMethod::Put || m == HttpMethod::Patch
}

/// The compact JSON text `serde_json` writes for the JSON value of `text`,
/// or the parser's error text.
pub uninterp spec fn json_compact(text: Seq<char>) -> Result<Seq<char>, Seq<char>>;

/// Parses `text` with `serde_json::from_str` into a `Value` and writes it back
/// with `to_string`; the error is the parser's message. The text written is
/// named, not stated.
#[verifier::external_body]
pub(crate) fn compact_json(text: &str) -> (r: Result<String, String>)
    ensures
        json_compact(text@) == match r {
            Ok(s) => Ok::<Seq<char>, Seq<char>>(s@),
            Err(e) => Err::<Seq<char>, Seq<char>>(e@),
        },
{
    match serde_json::from_str::<serde_json::Value>(text) {
        Ok(v) => Ok(v.to_string()),
        Err(e) => Err(e.to_string()),
    }
}

/// A request to send.
#[derive(Debug)]
pub struct ApiRequest {
    pub method: HttpMethod,
    pub url: String,
    /// Headers in the order they are set.
    pub headers: Vec<(String, String)>,
    /// The body of a POST, PUT or PATCH request.
    pub body: Option<String>,
}

/// The body a request without a body template sends: the arguments as
/// compact JSON, `{}` for blank arguments.
pub open spec fn args_body(args_json: Seq<char>) -> Result<Seq<char>, Seq<char>> {
    json_compact(if trim(args_json).len() == 0 {
        "{}"@
    } else {
        args_json
    })
}

/// The request a tool call makes, as (method, URL, body, whether the body is
/// the JSON arguments), or the error that stops it: bad arguments, a missing
/// URL parameter, an unsupported method, a missing body parameter.
pub open spec fn request_spec(tool: ApiToolDef, args_json: Seq<char>) -> Result<
    (HttpMethod, Seq<char>, Option<Seq<char>>, bool),
    Seq<char>,
> {
    match parse_args_spec(args_json) {
        Err(e) => Err(e),
        Ok(args) => match render_spec(tool.url@, args) {
            Err(e) => Err(e),
            Ok(url) => match method_of(uppercase(tool.method@)) {
                None => Err("Unsupported HTTP method: "@ + uppercase(tool.method@)),
                Some(m) => if !has_body(m) {
                    Ok((m, url, None, false))
                } else {
                    match tool.body_template {
                        Some(tpl) => match render_spec(tpl@, args) {
                            Err(e) => Err(e),
                            Ok(b) => Ok((m, url, Some(b), false)),
                        },
                        None => match args_body(args_json) {
                            Err(e) => Err(e),
                            Ok(b) => Ok((m, url, Some(b), true)),
                        },
                    }
                },
            },
        },
    }
}

/// The headers of a request: the tool's, then the JSON content type when the
/// body is the JSON arguments.
pub open spec fn request_headers(tool: ApiToolDef, json: bool) -> Seq<(Seq<char>, Seq<char>)> {
    if json {
        pairs_view(tool.headers@).push(("Content-Type"@, "application/json"@))
    } else {
        pairs_view(tool.headers@)
    }
}

fn upper_method(m: &Vec<char>) -> (r: Option<HttpMethod>)
    ensures
        r == method_of(m@),
{
    if chars_eq(m, &chars_of("GET")) {
        Some(HttpMethod::Get)
    } else if chars_eq(m, &chars_of("POST")) {
        Some(HttpMethod::Post)
    } else if chars_eq(m, &chars_of("PUT")) {
        Some(HttpMethod::Put)
    } else if chars_eq(m, &chars_of("PATCH")) {
        Some(HttpMethod::Patch)
    } else if chars_eq(m, &chars_of("DELETE")) {
        Some(HttpMethod::Delete)
    } else {
        None
    }
}

fn clone_pairs(v: &Vec<(String, String)>) -> (r: Vec<(String, String)>)
    ensures
        pairs_view(r@) == pairs_view(v@),
{
    let mut out: Vec<(String, String)> = Vec::new();
    let mut i: usize = 0;
    while i < v.len()
        invariant
            i <= v@.len(),
            out@ == v@.take(i as int),
        decreases v@.len() - i,
    {
        out.push((v[i].0.clone(), v[i].1.clone()));
        assert(out@ =~= v@.take(i + 1));
        i += 1;
    }
    assert(v@.take(i as int) =~= v@);
    out
}

/// The request a call of `tool` with the JSON arguments `args_json` makes.
pub fn prepare_api_request(tool: &ApiToolDef, args_json: &str) -> (r: Result<ApiRequest, String>)
    ensures
        match r {
            Ok(req) => request_spec(*tool, args_json@) matches Ok((m, url, body, json)) && {
                &&& req.method == m && req.url@ == url
                &&& req.body matches Some(b) ==> body == Some(b@)
                &&& req.body is None ==> body is None
                &&& pairs_view(req.headers@) == request_headers(*tool, json)
            },
            Err(e) => request_spec(*tool, args_json@) == Err::<(HttpMethod, Seq<char>, Option<Seq<char>>, bool), Seq<char>>(e@),
        },
{
    let args = match parse_args(args_json) {
        Ok(a) => a,
        Err(e) => {
            return Err(e);
        },
    };
    let url = match render_template(tool.url.as_str(), &args) {
        Ok(u) => u,
        Err(e) => {
            return Err(e);
        },
    };
    let upper = to_uppercase_string(tool.method.as_str());
    let method = match upper_method(&chars_of(upper.as_str())) {
        Some(m) => m,
        None => {
            let mut m = chars_of("Unsupported HTTP method: ");
            push_str(&mut m, upper.as_str());
            return Err(string_of(&m));
        },
    };
    let mut headers = clone_pairs(&tool.headers);
    let sends_body = match method {
        HttpMethod::Post => true,
        HttpMethod::Put => true,
        HttpMethod::Patch => true,
        _ => false,
    };
    if !sends_body {
        return Ok(ApiRequest { method, url, headers, body: None });
    }
    let body = match &tool.body_template {
        Some(tpl) => match render_template(tpl.as_str(), &args) {
            Ok(b) => b,
            Err(e) => {
                return Err(e);
            },
        },
        None => {
            let blank = trim_chars(&chars_of(args_json)).len() == 0;
            let text = if blank {
                string_of(&chars_of("{}"))
            } else {
                string_of(&chars_of(args_json))
            };
            match compact_json(text.as_str()) {
                Ok(b) => {
                    let ghost before = pairs_view(headers@);
                    headers.push((string_of(&chars_of("Content-Type")), string_of(&chars_of("application/json"))));
                    assert(pairs_view(headers@) =~= before.push(("Content-Type"@, "application/json"@)));
                    b
                },
                Err(e) => {
                    return Err(e);
                },
            }
        },
    };
    Ok(ApiRequest { method, url, headers, body: Some(body) })
}

/// The text the model gets for a response: the body cut to
/// `MAX_RESPONSE_BYTES`, after an `HTTP {status} {reason}` line unless the
/// status is a success (2xx).
pub open spec fn response_text_spec(status: u16, reason: Seq<char>, body: Seq<char>) -> Seq<char> {
    let cut = if byte_len(body) <= MAX_RESPONSE_BYTES {
        body
    } else {
        byte_prefix(body, MAX_RESPONSE_BYTES as nat) + "\n... [truncated]"@
    };
    if 200 <= status <= 299 {
        cut
    } else {
        "HTTP "@ + decimal(status as nat) + " "@ + reason + "\n"@ + cut
    }
}

/// The text the model gets for a response with `status`, its reason phrase
/// (empty when it has none) and `body`.
pub fn api_response_text(status: u16, reason: &str, body: &str) -> (r: String)
    ensures
        r@ == response_text_spec(status, reason@, body@),
{
    let cut = truncate_response(body);
    if 200 <= status && status <= 299 {
        return cut;
    }
    let mut out = chars_of("HTTP ");
    push_decimal(&mut out, status as u64);
    push_str(&mut out, " ");
    push_str(&mut out, reason);
    push_str(&mut out, "\n");
    push_str(&mut out, cut.as_str());
    string_of(&out)
}

} // verus!
