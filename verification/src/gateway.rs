//! Gateway helpers: request and response types of the HTTP and WebSocket
//! API, delivery routing, secret masking, and page title extraction.
use vstd::prelude::*;
use crate::llm::Usage;
use crate::text::{byte_len, chars_of, find_from, push_chars, string_of, trim, trim_chars};

verus! {

/// Platforms agent output can be delivered to.
#[derive(Debug, Clone, Copy)]
pub enum DeliveryPlatform {
    Api,
    Telegram,
    Discord,
    Slack,
    Webhook,
}

/// Routes agent output to delivery platforms.
#[derive(Debug, Clone, Copy)]
pub struct DeliveryRouter;

impl DeliveryRouter {
    pub fn new() -> (r: Self) {
        DeliveryRouter
    }

    /// Delivers a message; API output goes out over the live connection and
    /// the other platforms accept without sending, so delivery always succeeds.
    pub fn deliver(&self, platform: &DeliveryPlatform, user_id: &str, message: &str) -> (r: Result<(), String>)
        ensures
            r is Ok,
    {
        match platform {
            DeliveryPlatform::Api => Ok(()),
            DeliveryPlatform::Telegram => Ok(()),
            DeliveryPlatform::Discord => Ok(()),
            DeliveryPlatform::Slack => Ok(()),
            DeliveryPlatform::Webhook => Ok(()),
        }
    }
}

impl Default for DeliveryRouter {
    fn default() -> (r: Self) {
        DeliveryRouter
    }
}

/// Memory search parameters.
#[derive(Debug, Clone)]
pub struct MemorySearchQuery {
    pub query: Option<String>,
    pub limit: Option<u32>,
}

/// Memory update body.
#[derive(Debug, Clone)]
pub struct UpdateMemoryRequest {
    pub content: Option<String>,
    pub category: Option<String>,
}

/// Registration body.
#[derive(Debug, Clone)]
pub struct RegisterRequest {
    pub username: String,
    pub password: String,
}

/// Answer to a successful login or registration.
#[derive(Debug, Clone)]
pub struct AuthResponse {
    pub token: String,
    pub user_id: String,
    pub username: String,
}

/// Login body.
#[derive(Debug, Clone)]
pub struct LoginRequest {
    pub username: String,
    pub password: String,
}

/// Chat request body.
#[derive(Debug, Clone)]
pub struct ChatRequest {
    pub message: String,
    pub session_id: Option<String>,
    pub model: Option<String>,
}

/// Chat response body.
#[derive(Debug, Clone)]
pub struct ChatResponse {
    pub session_id: String,
    pub response: String,
}

/// A chat session as listed to clients.
#[derive(Debug, Clone)]
pub struct SessionInfo {
    pub id: String,
    pub title: Option<String>,
    pub created_at: String,
}

/// A memory entry as listed to clients.
#[derive(Debug, Clone)]
pub struct MemoryInfo {
    pub id: String,
    pub content: String,
    pub category: String,
}

/// A skill as listed to clients.
#[derive(Debug, Clone)]
pub struct SkillInfo {
    pub name: String,
    pub description: Option<String>,
    pub version: i32,
}

/// The authenticated caller of a request.
#[derive(Debug, Clone)]
pub struct AuthUser {
    pub user_id: String,
    pub username: String,
    pub token: String,
}

/// Incoming WebSocket message.
#[derive(Debug, Clone)]
pub struct WsInput {
    pub session_id: Option<String>,
    /// Message type (`type` on the wire).
    pub msg_type: Option<String>,
    pub content: Option<String>,
    pub model: Option<String>,
    pub context_documents: Option<Vec<ContextDocument>>,
    pub history: Option<Vec<HistoryMessage>>,
}

/// A reference document attached to a chat message.
#[derive(Debug, Clone)]
pub struct ContextDocument {
    pub name: String,
    pub path: Option<String>,
    pub content: String,
}

/// A past message sent by the client to restore a conversation.
#[derive(Debug, Clone)]
pub struct HistoryMessage {
    pub role: String,
    pub content: String,
}

/// Token usage sent to clients.
#[derive(Debug, Clone, Copy)]
pub struct UsageInfo {
    pub prompt_tokens: i32,
    pub completion_tokens: i32,
    pub total_tokens: i32,
}

/// Outgoing WebSocket message.
#[derive(Debug, Clone)]
pub enum WsOutput {
    TextDelta { content: String },
    ToolCallStart { name: String, call_id: String },
    ToolCallEnd { name: String, result: String },
    Reminder { id: String, message: String, fire_at: String },
    Done { usage: UsageInfo },
    Error { message: String },
}

/// JWT claims.
#[derive(Debug, Clone)]
pub struct Claims {
    /// User id.
    pub sub: String,
    pub username: String,
    /// Expiry (Unix seconds).
    pub exp: i64,
    /// Issue time (Unix seconds).
    pub iat: i64,
}

/// Token signing settings.
#[derive(Debug, Clone)]
pub struct AuthConfig {
    pub jwt_secret: String,
    pub token_duration_hours: i64,
}

impl Default for AuthConfig {
    fn default() -> (r: Self)
        ensures
            r.jwt_secret@ == "change-me-in-production"@,
            r.token_duration_hours == 24,
    {
        AuthConfig { jwt_secret: string_of(&chars_of("change-me-in-production")), token_duration_hours: 24 }
    }
}

/// A masked secret: `****` for at most 4 characters, otherwise one `*` per
/// character but the last 4, followed by the last 4 characters.
pub open spec fn mask_spec(s: Seq<char>) -> Seq<char> {
    if s.len() <= 4 {
        "****"@
    } else {
        Seq::new((s.len() - 4) as nat, |i: int| '*') + s.skip(s.len() - 4)
    }
}

/// Masks a secret, showing only its last 4 characters.
pub fn mask_secret(secret: &str) -> (r: String)
    ensures
        r@ == mask_spec(secret@),
{
    let cs = chars_of(secret);
    if cs.len() <= 4 {
        return string_of(&chars_of("****"));
    }
    let target = cs.len() - 4;
    let mut out: Vec<char> = Vec::new();
    let mut i: usize = 0;
    while i < target
        invariant
            i <= target,
            out@ == Seq::new(i as nat, |j: int| '*'),
        decreases target - i,
    {
        out.push('*');
        assert(out@ =~= Seq::new((i + 1) as nat, |j: int| '*'));
        i += 1;
    }
    let mut j = target;
    let ghost stars = out@;
    while j < cs.len()
        invariant
            target <= j <= cs.len(),
            out@ == stars + cs@.subrange(target as int, j as int),
        decreases cs.len() - j,
    {
        out.push(cs[j]);
        assert(cs@.subrange(target as int, j + 1) =~= cs@.subrange(target as int, j as int).push(cs@[j as int]));
        j += 1;
    }
    assert(cs@.subrange(target as int, cs.len() as int) =~= cs@.skip(target as int));
    string_of(&out)
}

} // verus!
