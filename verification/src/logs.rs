//! Summaries of model requests and tool calls for the structured log.
use vstd::prelude::*;
use crate::text::{byte_len, byte_prefix, byte_prefix_chars, chars_eq, chars_of, push_str, string_of};

verus! {

/// Maximum length of a logged text field, in bytes.
pub const MAX_CONTENT_LEN: usize = 2000;

/// A logged text field: unchanged when it fits in `MAX_CONTENT_LEN` bytes,
/// otherwise cut at the last character boundary within the limit and
/// followed by `...`.
pub open spec fn truncate_spec(s: Seq<char>) -> Seq<char> {
    if byte_len(s) <= MAX_CONTENT_LEN {
        s
    } else {
        byte_prefix(s, MAX_CONTENT_LEN as nat) + "..."@
    }
}

/// Cuts a text field for the log.
pub fn truncate(s: &str) -> (r: String)
    ensures
        r@ == truncate_spec(s@),
{
    let cs = chars_of(s);
    let (prefix, whole) = byte_prefix_chars(&cs, MAX_CONTENT_LEN);
    if whole {
        return string_of(&cs);
    }
    let mut out = prefix;
    push_str(&mut out, "...");
    string_of(&out)
}

/// A message of the logged conversation.
#[derive(Debug, Clone)]
pub struct ContextMessage {
    /// Message role (system, user, assistant, tool).
    pub role: String,
    /// Cut message content.
    pub content: String,
}

/// Summary of the messages sent to the model.
#[derive(Debug, Clone)]
pub struct LlmInput {
    /// Number of messages in the request.
    pub message_count: usize,
    /// Cut content of the last user message (empty without one).
    pub last_user_message: String,
    /// All messages with cut content.
    pub messages: Vec<ContextMessage>,
}

/// Token usage summary.
#[derive(Debug, Clone, Copy)]
pub struct UsageSummary {
    pub prompt_tokens: i32,
    pub completion_tokens: i32,
    pub total_tokens: i32,
}

/// Summary of the model's response.
#[derive(Debug, Clone)]
pub struct LlmLogOutput {
    /// Cut assistant text.
    pub content: String,
    /// Number of tool calls in the response.
    pub tool_call_count: usize,
    /// Names of the called tools.
    pub tool_names: Vec<String>,
    /// Token usage.
    pub usage: UsageSummary,
}

/// Content of the last message with role `user`, if any.
pub open spec fn last_user_content(msgs: Seq<(String, String)>) -> Option<Seq<char>>
    decreases msgs.len(),
{
    if msgs.len() == 0 {
        None
    } else if msgs.last().0@ == "user"@ {
        Some(msgs.last().1@)
    } else {
        last_user_content(msgs.drop_last())
    }
}

/// Builds the input summary from (role, content) pairs.
pub fn build_llm_input(messages: &[(String, String)]) -> (r: LlmInput)
    ensures
        r.message_count == messages@.len(),
        r.last_user_message@ == match last_user_content(messages@) {
            Some(c) => truncate_spec(c),
            None => Seq::<char>::empty(),
        },
        r.messages@.len() == messages@.len(),
        forall|k: int| 0 <= k < r.messages@.len() ==> {
            &&& (#[trigger] r.messages@[k]).role@ == messages@[k].0@
            &&& r.messages@[k].content@ == truncate_spec(messages@[k].1@)
        },
{
    let user = chars_of("user");
    let mut last: Option<usize> = None;
    let mut context: Vec<ContextMessage> = Vec::new();
    let mut i: usize = 0;
    while i < messages.len()
        invariant
            i <= messages.len(),
            user@ == "user"@,
            context@.len() == i,
            forall|k: int| 0 <= k < i ==> {
                &&& (#[trigger] context@[k]).role@ == messages@[k].0@
                &&& context@[k].content@ == truncate_spec(messages@[k].1@)
            },
            last matches Some(j) ==> j < i && last_user_content(messages@.take(i as int)) == Some(
                messages@[j as int].1@,
            ),
            last is None ==> last_user_content(messages@.take(i as int)) is None,
        decreases messages.len() - i,
    {
        let role = chars_of(messages[i].0.as_str());
        assert(messages@.take(i + 1).drop_last() =~= messages@.take(i as int));
        assert(messages@.take(i + 1).last() == messages@[i as int]);
        if chars_eq(&role, &user) {
            last = Some(i);
        }
        context.push(ContextMessage {
            role: messages[i].0.clone(),
            content: truncate(messages[i].1.as_str()),
        });
        i += 1;
    }
    assert(messages@.take(messages.len() as int) =~= messages@);
    let last_user_message = match last {
        Some(j) => truncate(messages[j].1.as_str()),
        None => String::new(),
    };
    LlmInput { message_count: messages.len(), last_user_message, messages: context }
}

/// Builds the output summary; missing usage counts as zero.
pub fn build_llm_output(
    content: &str,
    tool_call_count: usize,
    tool_names: Vec<String>,
    usage: Option<(i32, i32, i32)>,
) -> (r: LlmLogOutput)
    ensures
        r.content@ == truncate_spec(content@),
        r.tool_call_count == tool_call_count,
        r.tool_names@ == tool_names@,
        r.usage.prompt_tokens == (match usage { Some(u) => u.0, None => 0 }),
        r.usage.completion_tokens == (match usage { Some(u) => u.1, None => 0 }),
        r.usage.total_tokens == (match usage { Some(u) => u.2, None => 0 }),
{
    let (prompt_tokens, completion_tokens, total_tokens) = match usage {
        Some(u) => u,
        None => (0, 0, 0),
    };
    LlmLogOutput {
        content: truncate(content),
        tool_call_count,
        tool_names,
        usage: UsageSummary { prompt_tokens, completion_tokens, total_tokens },
    }
}

/// Builder for a tool call log record.
#[derive(Debug, Clone)]
pub struct ToolCallEntry {
    pub user_id: String,
    pub tool: String,
    pub duration_ms: u64,
    pub input: String,
    pub output: String,
}

impl Default for ToolCallEntry {
    fn default() -> (r: Self)
        ensures
            r.user_id@.len() == 0 && r.tool@.len() == 0 && r.duration_ms == 0,
            r.input@.len() == 0 && r.output@.len() == 0,
    {
        ToolCallEntry {
            user_id: String::new(),
            tool: String::new(),
            duration_ms: 0,
            input: String::new(),
            output: String::new(),
        }
    }
}

/// A line of the structured log.
#[derive(Debug)]
pub enum LogEntry {
    /// A model request and its streamed response.
    LlmRequest {
        /// RFC 3339 time the request started.
        timestamp: String,
        user_id: String,
        /// Provider name, e.g. `deepseek`.
        provider: String,
        /// Full model string, e.g. `deepseek:deepseek-chat`.
        model: String,
        duration_ms: u64,
        input: LlmInput,
        output: LlmLogOutput,
    },
    /// A tool run.
    ToolCall {
        /// RFC 3339 time the run started.
        timestamp: String,
        user_id: String,
        tool: String,
        duration_ms: u64,
        /// Cut arguments (JSON text).
        input: String,
        /// Cut result.
        output: String,
    },
    /// Raw data from an outside source, e.g. web search results.
    RawData {
        timestamp: String,
        source: String,
        /// The data as JSON text.
        data: String,
    },
}

impl ToolCallEntry {
    /// The log line of this tool run started at `timestamp`, with the given
    /// input, output and duration, input and output cut for the log.
    pub fn into_log_entry_with(self, timestamp: String, input: &str, output: &str, duration_ms: u64) -> (r: LogEntry)
        ensures
            r matches LogEntry::ToolCall { timestamp: t, user_id, tool, duration_ms: d, input: i, output: o } && {
                &&& t == timestamp && user_id == self.user_id && tool == self.tool && d == duration_ms
                &&& i@ == truncate_spec(input@) && o@ == truncate_spec(output@)
            },
    {
        LogEntry::ToolCall {
            timestamp,
            user_id: self.user_id,
            tool: self.tool,
            duration_ms,
            input: truncate(input),
            output: truncate(output),
        }
    }

    /// The log line of this tool run started at `timestamp`, from its own
    /// input, output and duration, input and output cut for the log.
    pub fn into_log_entry(self, timestamp: String) -> (r: LogEntry)
        ensures
            r matches LogEntry::ToolCall { timestamp: t, user_id, tool, duration_ms: d, input: i, output: o } && {
                &&& t == timestamp && user_id == self.user_id && tool == self.tool && d == self.duration_ms
                &&& i@ == truncate_spec(self.input@) && o@ == truncate_spec(self.output@)
            },
    {
        let input = truncate(self.input.as_str());
        let output = truncate(self.output.as_str());
        LogEntry::ToolCall {
            timestamp,
            user_id: self.user_id,
            tool: self.tool,
            duration_ms: self.duration_ms,
            input,
            output,
        }
    }

    /// A record for `tool` called by `user_id`, with empty input and output.
    pub fn new(user_id: &str, tool: &str) -> (r: Self)
        ensures
            r.user_id@ == user_id@,
            r.tool@ == tool@,
            r.duration_ms == 0,
            r.input@.len() == 0,
            r.output@.len() == 0,
    {
        ToolCallEntry {
            user_id: string_of(&chars_of(user_id)),
            tool: string_of(&chars_of(tool)),
            duration_ms: 0,
            input: String::new(),
            output: String::new(),
        }
    }
}

} // verus!
