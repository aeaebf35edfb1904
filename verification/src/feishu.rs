//! Feishu bot events: configuration, event payloads, text message parsing and
//! request signature checks.
use vstd::prelude::*;
use crate::text::{chars_eq, chars_of, is_ws, string_of, trim, trim_chars};

verus! {

/// Bot credentials and event verification settings.
#[derive(Debug, Clone)]
pub struct FeishuConfig {
    pub app_id: String,
    pub app_secret: String,
    /// Token used to verify event callbacks.
    pub verification_token: String,
    /// Key for encrypted event payloads (may be empty).
    pub encrypt_key: String,
}

impl FeishuConfig {
    /// The bot is configured when it has an app id and secret.
    pub fn is_configured(&self) -> (r: bool)
        ensures
            r == (self.app_id@.len() > 0 && self.app_secret@.len() > 0),
    {
        !self.app_id.as_str().is_empty() && !self.app_secret.as_str().is_empty()
    }
}

/// Event wrapper as delivered to the callback URL.
#[derive(Debug, Clone)]
pub struct FeishuEvent {
    pub schema: Option<String>,
    pub header: Option<EventHeader>,
    pub event: Option<EventPayload>,
    /// Present on URL verification requests.
    pub challenge: Option<String>,
    /// Present on URL verification requests.
    pub token: Option<String>,
    pub event_type: Option<String>,
}

/// Event metadata.
#[derive(Debug, Clone)]
pub struct EventHeader {
    pub event_id: Option<String>,
    pub event_type: Option<String>,
    pub create_time: Option<String>,
    pub token: Option<String>,
    pub app_id: Option<String>,
    pub tenant_key: Option<String>,
}

/// Payload of a received message event.
#[derive(Debug, Clone)]
pub struct EventPayload {
    pub sender: EventSender,
    pub message: EventMessage,
}

/// Sender of a message.
#[derive(Debug, Clone)]
pub struct EventSender {
    pub sender_id: SenderId,
    pub sender_type: Option<String>,
}

/// The sender's ids.
#[derive(Debug, Clone)]
pub struct SenderId {
    pub open_id: Option<String>,
    pub user_id: Option<String>,
    pub union_id: Option<String>,
}

/// A received message.
#[derive(Debug, Clone)]
pub struct EventMessage {
    pub message_id: Option<String>,
    pub chat_id: Option<String>,
    pub chat_type: Option<String>,
    pub message_type: Option<String>,
    /// JSON text, e.g. `{"text":"hello"}` for text messages.
    pub content: Option<String>,
    pub create_time: Option<String>,
}

/// A text message ready for the agent.
#[derive(Debug, Clone)]
pub struct ParsedMessage {
    pub open_id: String,
    pub chat_id: String,
    pub message_id: String,
    pub text: String,
}

/// The string member `key` of a JSON object text, as serde_json reads it
/// (`None` when the text is no JSON or the member is absent or no string).
pub uninterp spec fn json_string_field(json: Seq<char>, key: Seq<char>) -> Option<Seq<char>>;

/// Reads a string member of a JSON object with serde_json; the result is
/// named, not stated.
#[verifier::external_body]
pub(crate) fn json_string_member(json: &str, key: &str) -> (r: Option<String>)
    ensures
        r matches Some(s) ==> json_string_field(json@, key@) == Some(s@),
        r is None ==> json_string_field(json@, key@) is None,
{
    match serde_json::from_str::<serde_json::Value>(json) {
        Ok(v) => v.get(key).and_then(|t| t.as_str()).map(|t| t.to_string()),
        Err(_) => None,
    }
}

/// Unicode `Alphabetic` or `Numeric` (`char::is_alphanumeric`).
pub uninterp spec fn is_alphanumeric(c: char) -> bool;

/// `char::is_alphanumeric`; the Unicode property is named, not stated.
#[verifier::external_body]
fn is_alphanumeric_char(c: char) -> (r: bool)
    ensures
        r == is_alphanumeric(c),
{
    c.is_alphanumeric()
}

/// Number of leading characters of `s` that satisfy the mention-prefix test
/// of `phase` (0: `@`, 1: alphanumeric or `_`).
pub open spec fn leading_run(s: Seq<char>, phase: int) -> nat
    decreases s.len(),
{
    if s.len() == 0 {
        0
    } else if (phase == 0 && s[0] == '@') || (phase == 1 && (is_alphanumeric(s[0]) || s[0] == '_')) {
        1 + leading_run(s.drop_first(), phase)
    } else {
        0
    }
}

/// The text with an `@mention` prefix removed: when the trimmed text starts
/// with `@`, the leading `@`s and the alphanumeric/underscore run after them,
/// then surrounding whitespace; text without such a prefix is only trimmed.
/// The trimmed text itself when nothing is left.
pub open spec fn strip_mention(text: Seq<char>) -> Seq<char> {
    let t = trim(text);
    let a = t.skip(leading_run(t, 0) as int);
    let b = if leading_run(t, 0) > 0 {
        a.skip(leading_run(a, 1) as int)
    } else {
        a
    };
    let cleaned = trim(b);
    if cleaned.len() == 0 {
        t
    } else {
        cleaned
    }
}

proof fn lemma_leading_run_bound(s: Seq<char>, phase: int)
    ensures
        leading_run(s, phase) <= s.len(),
    decreases s.len(),
{
    if s.len() > 0 {
        lemma_leading_run_bound(s.drop_first(), phase);
    }
}

fn run_hit(c: char, phase: u8) -> (r: bool)
    ensures
        r == ((phase == 0 && c == '@') || (phase == 1 && (is_alphanumeric(c) || c == '_'))),
{
    if phase == 0 {
        c == '@'
    } else if phase == 1 {
        is_alphanumeric_char(c) || c == '_'
    } else {
        false
    }
}

fn skip_run(s: &Vec<char>, phase: u8) -> (r: Vec<char>)
    requires
        phase <= 1,
    ensures
        r@ == s@.skip(leading_run(s@, phase as int) as int),
{
    let mut i: usize = 0;
    assert(s@.skip(0) =~= s@);
    while i < s.len() && run_hit(s[i], phase)
        invariant
            i <= s.len(),
            phase <= 1,
            leading_run(s@, phase as int) == i + leading_run(s@.skip(i as int), phase as int),
        decreases s.len() - i,
    {
        assert(s@.skip(i as int)[0] == s@[i as int]);
        assert(s@.skip(i as int).drop_first() =~= s@.skip(i + 1));
        i += 1;
    }
    if i < s.len() {
        assert(s@.skip(i as int)[0] == s@[i as int]);
    }
    let mut r: Vec<char> = Vec::new();
    let mut j = i;
    while j < s.len()
        invariant
            i <= j <= s.len(),
            r@ == s@.subrange(i as int, j as int),
        decreases s.len() - j,
    {
        r.push(s[j]);
        assert(s@.subrange(i as int, j + 1) =~= s@.subrange(i as int, j as int).push(s@[j as int]));
        j += 1;
    }
    proof {
        if i < s.len() {
            assert(leading_run(s@.skip(i as int), phase as int) == 0);
        } else {
            assert(s@.skip(i as int) =~= Seq::<char>::empty());
        }
    }
    assert(r@ =~= s@.skip(i as int));
    r
}

/// Plain text of a text message's content JSON, without an `@mention` prefix.
pub fn extract_text_from_content(content: &str) -> (r: Option<String>)
    ensures
        r matches Some(t) ==> (json_string_field(content@, "text"@) matches Some(raw) && t@ == strip_mention(raw)),
        r is None ==> json_string_field(content@, "text"@) is None,
{
    let text = match json_string_member(content, "text") {
        Some(t) => t,
        None => return None,
    };
    let t = trim_chars(&chars_of(text.as_str()));
    let a = skip_run(&t, 0);
    proof {
        lemma_leading_run_bound(t@, 0);
    }
    let b = if a.len() < t.len() {
        skip_run(&a, 1)
    } else {
        a
    };
    let cleaned = trim_chars(&b);
    if cleaned.len() == 0 {
        Some(string_of(&t))
    } else {
        Some(string_of(&cleaned))
    }
}

/// What a parsed text message event yields.
pub open spec fn parse_message_spec(e: FeishuEvent) -> Option<(Seq<char>, Seq<char>, Seq<char>, Seq<char>)> {
    match e.event {
        None => None,
        Some(ev) => match (ev.sender.sender_id.open_id, ev.message.chat_id, ev.message.message_id) {
            (Some(o), Some(c), Some(m)) => {
                let mtype = match ev.message.message_type {
                    Some(t) => t@,
                    None => Seq::<char>::empty(),
                };
                let content = match ev.message.content {
                    Some(x) => x@,
                    None => "{}"@,
                };
                if mtype != "text"@ {
                    None
                } else {
                    match json_string_field(content, "text"@) {
                        Some(raw) => Some((o@, c@, m@, strip_mention(raw))),
                        None => None,
                    }
                }
            },
            _ => None,
        },
    }
}

impl FeishuEvent {
    /// URL verification requests carry a challenge.
    pub fn is_challenge(&self) -> (r: bool)
        ensures
            r == self.challenge is Some,
    {
        self.challenge.is_some()
    }

    /// The text message carried by the event; `None` for other events,
    /// non-text messages and missing ids.
    pub fn parse_message(&self) -> (r: Option<ParsedMessage>)
        ensures
            r matches Some(p) ==> parse_message_spec(*self) == Some((p.open_id@, p.chat_id@, p.message_id@, p.text@)),
            r is None ==> parse_message_spec(*self) is None,
    {
        let event = match &self.event {
            Some(e) => e,
            None => return None,
        };
        let open_id = match &event.sender.sender_id.open_id {
            Some(x) => x.clone(),
            None => return None,
        };
        let chat_id = match &event.message.chat_id {
            Some(x) => x.clone(),
            None => return None,
        };
        let message_id = match &event.message.message_id {
            Some(x) => x.clone(),
            None => return None,
        };
        let mtype = match &event.message.message_type {
            Some(t) => chars_of(t.as_str()),
            None => Vec::new(),
        };
        if !chars_eq(&mtype, &chars_of("text")) {
            return None;
        }
        let text = match &event.message.content {
            Some(c) => extract_text_from_content(c.as_str()),
            None => extract_text_from_content("{}"),
        };
        match text {
            Some(t) => Some(ParsedMessage { open_id, chat_id, message_id, text: t }),
            None => None,
        }
    }
}

/// SHA-256 digest of `data`.
pub uninterp spec fn sha256(data: Seq<u8>) -> Seq<u8>;

/// Hashes with `sha2::Sha256::digest`; the digest is named, not stated.
#[verifier::external_body]
fn sha256_digest(data: &[u8]) -> (r: Vec<u8>)
    ensures
        r@ == sha256(data@),
{
    <sha2::Sha256 as sha2::Digest>::digest(data).to_vec()
}

/// Lower-case hex digit for a value below 16.
pub open spec fn hex_digit(v: u8) -> char {
    if v < 10 {
        (('0' as u8) + v) as char
    } else {
        (('a' as u8) + v - 10) as char
    }
}

/// Lower-case hex encoding, two digits per byte.
pub open spec fn hex_lower(bytes: Seq<u8>) -> Seq<char>
    decreases bytes.len(),
{
    if bytes.len() == 0 {
        seq![]
    } else {
        hex_lower(bytes.drop_last()) + seq![hex_digit(bytes.last() / 16), hex_digit(bytes.last() % 16)]
    }
}

/// `hex::encode`: two lower-case hex digits per byte.
#[verifier::external_body]
fn hex_encode(bytes: &[u8]) -> (r: String)
    ensures
        r@ == hex_lower(bytes@),
{
    hex::encode(bytes)
}

/// Bytes of `s` (UTF-8).
fn str_bytes(s: &str) -> (r: Vec<u8>)
    ensures
        r@ == vstd::utf8::encode_utf8(s@),
{
    let b = s.as_bytes();
    let mut v: Vec<u8> = Vec::new();
    let mut i: usize = 0;
    while i < b.len()
        invariant
            i <= b.len(),
            b@ == vstd::utf8::encode_utf8(s@),
            v@ == b@.take(i as int),
        decreases b.len() - i,
    {
        v.push(b[i]);
        assert(b@.take(i + 1) =~= b@.take(i as int).push(b@[i as int]));
        i += 1;
    }
    assert(b@.take(b.len() as int) =~= b@);
    v
}

/// Whether `signature` is the hex SHA-256 of timestamp, nonce, body and
/// verification token concatenated.
pub fn verify_signature(body: &[u8], timestamp: &str, nonce: &str, signature: &str, verification_token: &str) -> (r: bool)
    ensures
        r == (hex_lower(sha256(vstd::utf8::encode_utf8(timestamp@) + vstd::utf8::encode_utf8(nonce@) + body@
            + vstd::utf8::encode_utf8(verification_token@))) == signature@),
{
    let mut data = str_bytes(timestamp);
    let mut n = str_bytes(nonce);
    data.append(&mut n);
    let mut i: usize = 0;
    let ghost base = data@;
    while i < body.len()
        invariant
            i <= body.len(),
            data@ == base + body@.take(i as int),
        decreases body.len() - i,
    {
        data.push(body[i]);
        assert(body@.take(i + 1) =~= body@.take(i as int).push(body@[i as int]));
        i += 1;
    }
    assert(body@.take(body.len() as int) =~= body@);
    let mut t = str_bytes(verification_token);
    data.append(&mut t);
    let digest = sha256_digest(data.as_slice());
    let computed = hex_encode(digest.as_slice());
    chars_eq(&chars_of(computed.as_str()), &chars_of(signature))
}

/// What an event callback leads to.
pub enum FeishuAction {
    /// Answer a URL verification request with the challenge and the
    /// verification token: the request's own, or, without one, the token
    /// configured for `app_id` (empty when there is no app id either).
    Challenge { challenge: String, token: Option<String>, app_id: Option<String> },
    /// Nothing to do (no app to route to, or no text message).
    Ignore,
    /// Run the agent on the message for the user owning the app `app_id`.
    Handle { app_id: String, message: ParsedMessage },
}

/// The app an event is for: the header's app id, else the event's token.
pub open spec fn event_app_id(e: FeishuEvent) -> Option<String> {
    match e.header {
        Some(h) => match h.app_id {
            Some(a) => Some(a),
            None => e.token,
        },
        None => e.token,
    }
}

/// What a callback event leads to: a challenge is answered; other events
/// need an app to route to and a text message to handle.
pub fn feishu_event_action(event: &FeishuEvent) -> (r: FeishuAction)
    ensures
        event.challenge matches Some(c) ==> (r matches FeishuAction::Challenge { challenge, token, app_id } && challenge
            == c && token == event.token && app_id == event_app_id(*event)),
        event.challenge is None && event_app_id(*event) is None ==> r is Ignore,
        event.challenge is None && event_app_id(*event) is Some && parse_message_spec(*event) is None ==> r is Ignore,
        event.challenge is None ==> (r matches FeishuAction::Handle { app_id, message } ==> (event_app_id(*event)
            == Some(app_id) && parse_message_spec(*event) == Some((message.open_id@, message.chat_id@, message.message_id@, message.text@)))),
        event.challenge is None && event_app_id(*event) is Some && parse_message_spec(*event) is Some ==> r is Handle,
{
    let app_id = match &event.header {
        Some(h) => match &h.app_id {
            Some(a) => Some(a.clone()),
            None => event.token.clone(),
        },
        None => event.token.clone(),
    };
    if event.is_challenge() {
        let challenge = match &event.challenge {
            Some(c) => c.clone(),
            None => String::new(),
        };
        return FeishuAction::Challenge { challenge, token: event.token.clone(), app_id };
    }
    let app_id = match app_id {
        Some(a) => a,
        None => {
            return FeishuAction::Ignore;
        },
    };
    match event.parse_message() {
        Some(message) => FeishuAction::Handle { app_id, message },
        None => FeishuAction::Ignore,
    }
}

/// The reply sent when the agent produced no text.
pub const FEISHU_FALLBACK_REPLY: &'static str = "抱歉，我暂时无法回复。";

/// The reply to a Feishu message: the agent's answer, or the fallback when
/// it is empty.
pub fn feishu_reply_text(response: &str) -> (r: String)
    ensures
        response@.len() > 0 ==> r@ == response@,
        response@.len() == 0 ==> r@ == FEISHU_FALLBACK_REPLY@,
{
    let cs = chars_of(response);
    if cs.len() > 0 {
        string_of(&cs)
    } else {
        string_of(&chars_of(FEISHU_FALLBACK_REPLY))
    }
}

/// Seconds before its expiry at which a tenant token is no longer used.
pub const TOKEN_EXPIRY_MARGIN_SECS: i64 = 300;

/// The cached tenant access token of a Feishu app.
pub struct TenantTokenCache {
    cached: Option<(String, i64)>,
}

impl TenantTokenCache {
    /// The cached token and the Unix time it is used until.
    pub closed spec fn cached(&self) -> Option<(Seq<char>, int)> {
        match self.cached {
            Some((t, e)) => Some((t@, e as int)),
            None => None,
        }
    }

    /// No token yet.
    pub fn new() -> (r: Self)
        ensures
            r.cached() is None,
    {
        TenantTokenCache { cached: None }
    }

    /// The cached token if it is still good at the Unix time `now`.
    pub fn valid_token(&self, now: i64) -> (r: Option<String>)
        ensures
            match self.cached() {
                Some((t, until)) => if until > now {
                    r matches Some(x) && x@ == t
                } else {
                    r is None
                },
                None => r is None,
            },
    {
        match &self.cached {
            Some((t, until)) => if *until > now {
                Some(t.clone())
            } else {
                None
            },
            None => None,
        }
    }

    /// Caches a token fetched at `now` that the server says expires in
    /// `expire` seconds; it is used until five minutes before that.
    pub fn store(&mut self, token: String, expire: i64, now: i64) -> (r: String)
        requires
            -1_000_000_000_000 <= expire <= 1_000_000_000_000,
            -7_000_000_000_000 <= now <= 7_000_000_000_000,
        ensures
            r == token,
            final(self).cached() == Some((token@, now + expire - TOKEN_EXPIRY_MARGIN_SECS)),
    {
        let until = now + (expire - TOKEN_EXPIRY_MARGIN_SECS);
        self.cached = Some((token.clone(), until));
        token
    }
}

} // verus!
