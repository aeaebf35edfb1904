//! Chat message, tool and provider types shared by the agent, and the model
//! string conventions (`provider:model`).
//!
//! JSON payloads that are only carried along (tool parameter schemas) are kept
//! as JSON text.
use vstd::prelude::*;
use vstd::string::StrSliceExecFns;
use crate::text::{chars_of, find, find_from_exec, string_of};

verus! {

/// A single message in a chat conversation.
#[derive(Debug)]
pub struct ChatMessage {
    pub role: String,
    pub content: String,
    pub tool_calls: Option<Vec<ToolCall>>,
    pub tool_call_id: Option<String>,
    /// Reasoning content of thinking models, sent back on later requests.
    pub reasoning_content: Option<String>,
}

/// A tool call requested by the model.
#[derive(Debug)]
pub struct ToolCall {
    pub id: String,
    pub kind: String,
    pub function: FunctionCall,
}

/// The function invoked by a tool call.
#[derive(Debug)]
pub struct FunctionCall {
    pub name: String,
    pub arguments: String,
}

impl Clone for FunctionCall {
    fn clone(&self) -> (r: Self)
        ensures
            r == *self,
    {
        FunctionCall { name: self.name.clone(), arguments: self.arguments.clone() }
    }
}

impl Clone for ToolCall {
    fn clone(&self) -> (r: Self)
        ensures
            r == *self,
    {
        ToolCall { id: self.id.clone(), kind: self.kind.clone(), function: self.function.clone() }
    }
}

/// A tool call by its id, kind, function name and arguments.
pub type CallView = (Seq<char>, Seq<char>, Seq<char>, Seq<char>);

impl View for ToolCall {
    type V = CallView;

    open spec fn view(&self) -> CallView {
        (self.id@, self.kind@, self.function.name@, self.function.arguments@)
    }
}

/// The views of a list of tool calls.
pub open spec fn calls_view(calls: Seq<ToolCall>) -> Seq<CallView> {
    calls.map_values(|c: ToolCall| c@)
}

/// A message by its role, content, tool calls, tool call id and reasoning.
pub type MessageView = (Seq<char>, Seq<char>, Option<Seq<CallView>>, Option<Seq<char>>, Option<Seq<char>>);

/// The view of an optional text.
pub open spec fn opt_text(o: Option<String>) -> Option<Seq<char>> {
    match o {
        Some(s) => Some(s@),
        None => None,
    }
}

impl View for ChatMessage {
    type V = MessageView;

    open spec fn view(&self) -> MessageView {
        (self.role@, self.content@, match self.tool_calls {
            Some(v) => Some(calls_view(v@)),
            None => None,
        }, opt_text(self.tool_call_id), opt_text(self.reasoning_content))
    }
}

/// The views of a list of messages.
pub open spec fn messages_view(ms: Seq<ChatMessage>) -> Seq<MessageView> {
    ms.map_values(|m: ChatMessage| m@)
}

fn clone_opt_text(o: &Option<String>) -> (r: Option<String>)
    ensures
        opt_text(r) == opt_text(*o),
{
    match o {
        Some(s) => Some(s.clone()),
        None => None,
    }
}

impl Clone for ChatMessage {
    fn clone(&self) -> (r: Self)
        ensures
            r@ == self@,
    {
        let tool_calls = match &self.tool_calls {
            Some(v) => {
                let c = v.clone();
                assert(c@ =~= v@);
                Some(c)
            },
            None => None,
        };
        ChatMessage {
            role: self.role.clone(),
            content: self.content.clone(),
            tool_calls,
            tool_call_id: clone_opt_text(&self.tool_call_id),
            reasoning_content: clone_opt_text(&self.reasoning_content),
        }
    }
}

/// A tool offered to the model.
#[derive(Debug)]
pub struct ToolDefinition {
    pub kind: String,
    pub function: FunctionDefinition,
}

/// The function of a tool definition; `parameters` is a JSON Schema text.
#[derive(Debug)]
pub struct FunctionDefinition {
    pub name: String,
    pub description: String,
    pub parameters: String,
}

impl Clone for FunctionDefinition {
    fn clone(&self) -> (r: Self)
        ensures
            r == *self,
    {
        FunctionDefinition {
            name: self.name.clone(),
            description: self.description.clone(),
            parameters: self.parameters.clone(),
        }
    }
}

impl Clone for ToolDefinition {
    fn clone(&self) -> (r: Self)
        ensures
            r == *self,
    {
        ToolDefinition { kind: self.kind.clone(), function: self.function.clone() }
    }
}

/// Token usage reported by a provider.
#[derive(Debug, Clone, Copy, PartialEq, Eq)]
pub struct Usage {
    pub prompt_tokens: i32,
    pub completion_tokens: i32,
    pub total_tokens: i32,
}

impl Default for Usage {
    fn default() -> (r: Self)
        ensures
            r.prompt_tokens == 0 && r.completion_tokens == 0 && r.total_tokens == 0,
    {
        Usage { prompt_tokens: 0, completion_tokens: 0, total_tokens: 0 }
    }
}

/// A piece of a streamed model response.
#[derive(Debug, Clone)]
pub enum StreamChunk {
    /// Text content.
    Delta(String),
    /// Tool call fragment: call id, function name, arguments fragment.
    ToolCallDelta(String, String, String),
    /// Reasoning content of thinking models.
    ReasoningDelta(String),
    /// End of the stream with its usage.
    Done(Usage),
}

/// A complete (non-streamed) response.
#[derive(Debug, Clone)]
pub struct ChatResponse {
    pub message: ChatMessage,
    pub usage: Usage,
}

/// A model offered by a provider.
#[derive(Debug)]
pub struct ModelInfo {
    pub id: String,
    pub name: String,
    pub context_length: usize,
    /// The model accepts images.
    pub vision: bool,
}

impl Clone for ModelInfo {
    fn clone(&self) -> (r: Self)
        ensures
            r == *self,
    {
        ModelInfo {
            id: self.id.clone(),
            name: self.name.clone(),
            context_length: self.context_length,
            vision: self.vision,
        }
    }
}

/// A provider definition (from the providers file).
#[derive(Debug, Clone)]
pub struct ProviderConfig {
    pub id: String,
    pub name: String,
    /// Name of the environment variable with the API key (empty: none needed).
    pub env_key: String,
    pub base_url: String,
    pub default_model: String,
    pub context_length: usize,
    pub models: Vec<ModelInfo>,
}

/// A provider as stored on disk, with its API key.
#[derive(Debug, Clone)]
pub struct ProviderEntry {
    pub id: String,
    pub name: String,
    pub api_key: String,
    pub base_url: String,
    pub default_model: String,
    pub context_length: usize,
    pub models: Vec<ModelInfo>,
}

/// A provider as listed to clients.
#[derive(Debug, Clone)]
pub struct ProviderInfo {
    pub id: String,
    pub name: String,
    pub models: Vec<ModelInfo>,
}

/// Settings of an OpenAI-compatible provider.
#[derive(Debug)]
pub struct OpenAiConfig {
    pub api_key: String,
    pub base_url: String,
    pub model: String,
    pub context_length: usize,
    /// Provider name reported for this provider.
    pub provider_name: String,
}

impl Clone for OpenAiConfig {
    fn clone(&self) -> (r: Self)
        ensures
            r == *self,
    {
        OpenAiConfig {
            api_key: self.api_key.clone(),
            base_url: self.base_url.clone(),
            model: self.model.clone(),
            context_length: self.context_length,
            provider_name: self.provider_name.clone(),
        }
    }
}

impl Default for OpenAiConfig {
    fn default() -> (r: Self)
        ensures
            r.api_key@ == Seq::<char>::empty(),
            r.base_url@ == "https://api.openai.com/v1"@,
            r.model@ == "gpt-4o"@,
            r.context_length == 128000,
            r.provider_name@ == "openai"@,
    {
        OpenAiConfig {
            api_key: String::new(),
            base_url: string_of(&chars_of("https://api.openai.com/v1")),
            model: string_of(&chars_of("gpt-4o")),
            context_length: 128000,
            provider_name: string_of(&chars_of("openai")),
        }
    }
}

/// The part of a `provider:model` string after the first colon; the whole
/// string when it has none.
pub open spec fn model_name_spec(model: Seq<char>) -> Seq<char> {
    match find(model, ":"@) {
        Some(p) => model.skip(p + 1),
        None => model,
    }
}

/// The provider named by a model string: the part before the first colon,
/// `openai` when there is none.
pub open spec fn provider_name_spec(model: Seq<char>) -> Seq<char> {
    match find(model, ":"@) {
        Some(p) => model.take(p),
        None => "openai"@,
    }
}

impl crate::router::LlmRouter {
    /// The model name of a `provider:model` string.
    pub fn extract_model_name(model: &str) -> (r: &str)
        ensures
            r@ == model_name_spec(model@),
    {
        let cs = chars_of(model);
        let colon = chars_of(":");
        proof {
            reveal_strlit(":");
        }
        match find_from_exec(&cs, &colon, 0) {
            Some(p) => {
                proof {
                    crate::text::lemma_find_from_correct(cs@, colon@, 0);
                }
                assert(p < cs.len());
                model.substring_char(p + 1, cs.len())
            },
            None => model,
        }
    }
}

/// The provider name of a model string (`openai` without a colon).
pub fn provider_name_of(model: &str) -> (r: &str)
    ensures
        r@ == provider_name_spec(model@),
{
    let cs = chars_of(model);
    let colon = chars_of(":");
    proof {
        reveal_strlit(":");
    }
    match find_from_exec(&cs, &colon, 0) {
        Some(p) => {
            proof {
                crate::text::lemma_find_from_correct(cs@, colon@, 0);
            }
            model.substring_char(0, p)
        },
        None => "openai",
    }
}

/// A provider for tests that answers with fixed text.
#[derive(Debug, Clone, Copy)]
pub struct MockLlmProvider {
    context_len: usize,
}

impl MockLlmProvider {
    /// A mock provider with a 128000-token context.
    pub fn new() -> (r: Self)
        ensures
            r.spec_context_length() == 128000,
    {
        MockLlmProvider { context_len: 128000 }
    }

    /// A mock provider with the given context length.
    pub fn with_context_length(context_len: usize) -> (r: Self)
        ensures
            r.spec_context_length() == context_len,
    {
        MockLlmProvider { context_len }
    }

    pub closed spec fn spec_context_length(&self) -> usize {
        self.context_len
    }

    /// The provider name, `mock`.
    pub fn name(&self) -> (r: &'static str)
        ensures
            r@ == "mock"@,
    {
        "mock"
    }

    /// The context length the provider was made with.
    pub fn context_length(&self) -> (r: usize)
        ensures
            r == self.spec_context_length(),
    {
        self.context_len
    }

    /// The fixed complete response.
    pub fn chat(&self, messages: &[ChatMessage], tools: &[ToolDefinition]) -> (r: ChatResponse)
        ensures
            r.message.role@ == "assistant"@,
            r.message.content@ == "This is a mock response for testing."@,
            r.message.tool_calls is None,
            r.message.tool_call_id is None,
            r.message.reasoning_content is None,
            r.usage == (Usage { prompt_tokens: 10, completion_tokens: 5, total_tokens: 15 }),
    {
        ChatResponse {
            message: ChatMessage {
                role: string_of(&chars_of("assistant")),
                content: string_of(&chars_of("This is a mock response for testing.")),
                tool_calls: None,
                tool_call_id: None,
                reasoning_content: None,
            },
            usage: Usage { prompt_tokens: 10, completion_tokens: 5, total_tokens: 15 },
        }
    }

    /// The fixed streamed response.
    pub fn chat_stream(&self, messages: &[ChatMessage], tools: &[ToolDefinition]) -> (r: Vec<StreamChunk>)
        ensures
            r@.len() == 4,
            r@[0] matches StreamChunk::Delta(t) && t@ == "Mock "@,
            r@[1] matches StreamChunk::Delta(t) && t@ == "response "@,
            r@[2] matches StreamChunk::Delta(t) && t@ == "for testing."@,
            r@[3] == StreamChunk::Done(Usage { prompt_tokens: 10, completion_tokens: 3, total_tokens: 13 }),
    {
        let mut v = Vec::new();
        v.push(StreamChunk::Delta(string_of(&chars_of("Mock "))));
        v.push(StreamChunk::Delta(string_of(&chars_of("response "))));
        v.push(StreamChunk::Delta(string_of(&chars_of("for testing."))));
        v.push(StreamChunk::Done(Usage { prompt_tokens: 10, completion_tokens: 3, total_tokens: 13 }));
        v
    }
}

impl Default for MockLlmProvider {
    fn default() -> (r: Self)
        ensures
            r.spec_context_length() == 128000,
    {
        Self::new()
    }
}

} // verus!
