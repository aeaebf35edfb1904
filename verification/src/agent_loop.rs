//! The decisions of the channel-based agent loop: a conversation kept by the
//! agent, output events for each piece of the streamed response, and tool
//! results fed back until the model answers without tool calls.
use vstd::prelude::*;
use crate::agent::AgentOutput;
use crate::llm::{calls_view, messages_view, ChatMessage, FunctionCall, MessageView, StreamChunk, ToolCall};
use crate::text::{chars_of, push_chars, push_str, string_of};
use crate::turn::{assistant_message, call_index, call_of, ids_unique, tool_message, tool_result_text, PartialCall};

verus! {

/// Applies a tool-call fragment: the first fragment of an id opens the call
/// with its name; later fragments only append arguments.
pub open spec fn add_fragment_keep_name(calls: Seq<PartialCall>, id: Seq<char>, name: Seq<char>, args: Seq<char>) -> Seq<PartialCall> {
    match call_index(calls, id) {
        Some(k) => calls.update(k, (id, calls[k].1, calls[k].2 + args)),
        None => calls.push((id, name, args)),
    }
}

/// The conversation a run starts from: the system prompt set (or added as
/// the first message), then the user's message.
pub open spec fn run_start(h: Seq<MessageView>, system_prompt: Seq<char>, user: Seq<char>) -> Seq<MessageView> {
    let with_system = if h.len() == 0 {
        seq![("system"@, system_prompt, None, None, None)]
    } else {
        h.update(0, (h[0].0, system_prompt, h[0].2, h[0].3, h[0].4))
    };
    with_system.push(("user"@, user, None, None, None))
}

/// Where a run stands.
#[derive(PartialEq, Eq, Structural, Clone, Copy, Debug)]
pub enum RunPhase {
    Ready,
    Streaming,
    Dispatching,
    Running,
    Finished,
}

/// The state of one run of the agent loop.
pub struct AgentRun {
    messages: Vec<ChatMessage>,
    max_turns: usize,
    turns: usize,
    phase: RunPhase,
    content: Vec<char>,
    reasoning: Vec<char>,
    calls: Vec<(Vec<char>, Vec<char>, Vec<char>)>,
    tools: Vec<ToolCall>,
    next: usize,
}

impl AgentRun {
    pub closed spec fn history(&self) -> Seq<MessageView> {
        messages_view(self.messages@)
    }

    pub closed spec fn turns(&self) -> nat {
        self.turns as nat
    }

    pub closed spec fn max_turns(&self) -> nat {
        self.max_turns as nat
    }

    pub closed spec fn phase(&self) -> RunPhase {
        self.phase
    }

    pub closed spec fn content(&self) -> Seq<char> {
        self.content@
    }

    pub closed spec fn reasoning(&self) -> Seq<char> {
        self.reasoning@
    }

    pub closed spec fn partial_calls(&self) -> Seq<PartialCall> {
        self.calls@.map_values(|c: (Vec<char>, Vec<char>, Vec<char>)| (c.0@, c.1@, c.2@))
    }

    pub closed spec fn round_calls(&self) -> Seq<crate::llm::CallView> {
        calls_view(self.tools@)
    }

    pub closed spec fn answered(&self) -> nat {
        self.next as nat
    }

    pub closed spec fn wf(&self) -> bool {
        &&& self.turns <= self.max_turns
        &&& ids_unique(self.partial_calls())
        &&& self.next <= self.tools@.len()
        &&& (self.phase == RunPhase::Running ==> self.next < self.tools@.len())
    }

    /// Starts a run: sets the system prompt and adds the user's message.
    pub fn start(messages: Vec<ChatMessage>, system_prompt: &str, user_message: &str, max_turns: usize) -> (r: Self)
        ensures
            r.wf(),
            r.history() == run_start(messages_view(messages@), system_prompt@, user_message@),
            r.turns() == 0,
            r.max_turns() == max_turns,
            r.phase() == RunPhase::Ready,
    {
        let mut messages = messages;
        let ghost h = messages_view(messages@);
        if messages.len() == 0 {
            messages.push(ChatMessage {
                role: string_of(&chars_of("system")),
                content: string_of(&chars_of(system_prompt)),
                tool_calls: None,
                tool_call_id: None,
                reasoning_content: None,
            });
            assert(messages_view(messages@) =~= seq![("system"@, system_prompt@, None, None, None)]);
        } else {
            let mut first = messages.remove(0);
            first.content = string_of(&chars_of(system_prompt));
            let ghost fv = first@;
            messages.insert(0, first);
            assert(messages_view(messages@) =~= h.update(0, (h[0].0, system_prompt@, h[0].2, h[0].3, h[0].4)));
        }
        let ghost before = messages_view(messages@);
        messages.push(ChatMessage {
            role: string_of(&chars_of("user")),
            content: string_of(&chars_of(user_message)),
            tool_calls: None,
            tool_call_id: None,
            reasoning_content: None,
        });
        assert(messages_view(messages@) =~= before.push(("user"@, user_message@, None, None, None)));
        let r = AgentRun {
            messages,
            max_turns,
            turns: 0,
            phase: RunPhase::Ready,
            content: Vec::new(),
            reasoning: Vec::new(),
            calls: Vec::new(),
            tools: Vec::new(),
            next: 0,
        };
        assert(r.partial_calls() =~= Seq::<PartialCall>::empty());
        r
    }

    /// The conversation so far, to send to the model.
    pub fn conversation(&self) -> (r: Vec<ChatMessage>)
        ensures
            messages_view(r@) == self.history(),
    {
        let c = self.messages.clone();
        assert(messages_view(c@) =~= messages_view(self.messages@));
        c
    }

    /// Starts the next round; past the turn limit the run ends with an error.
    pub fn begin_round(&mut self) -> (r: Option<AgentOutput>)
        requires
            old(self).wf(),
            old(self).phase() == RunPhase::Ready,
        ensures
            final(self).wf(),
            final(self).history() == old(self).history(),
            final(self).max_turns() == old(self).max_turns(),
            old(self).turns() == old(self).max_turns() ==> (r matches Some(AgentOutput::Error(m))
                && m@ == "Max turns reached"@ && final(self).phase() == RunPhase::Finished),
            old(self).turns() < old(self).max_turns() ==> (r is None && final(self).turns() == old(self).turns() + 1
                && final(self).phase() == RunPhase::Streaming && final(self).content().len() == 0
                && final(self).reasoning().len() == 0 && final(self).partial_calls().len() == 0),
    {
        if self.turns >= self.max_turns {
            self.phase = RunPhase::Finished;
            return Some(AgentOutput::Error(string_of(&chars_of("Max turns reached"))));
        }
        self.turns = self.turns + 1;
        self.phase = RunPhase::Streaming;
        self.content = Vec::new();
        self.reasoning = Vec::new();
        self.calls = Vec::new();
        assert(self.partial_calls() =~= Seq::<PartialCall>::empty());
        None
    }

    /// Compresses the conversation at the start of a round, before the model
    /// is called: the first `protect_first_n` and the last `protect_last_n`
    /// messages kept and an assistant note in place of the rest, as
    /// `compress_history` does. The caller decides when the context has grown
    /// too large; the rest of the run is unchanged.
    pub fn compress(&mut self, protect_first_n: usize, protect_last_n: usize)
        requires
            old(self).wf(),
            old(self).phase() == RunPhase::Streaming,
            protect_first_n + 1 + protect_last_n <= usize::MAX,
        ensures
            final(self).wf(),
            final(self).history() == crate::agent::compressed_view(
                old(self).history(),
                protect_first_n as nat,
                protect_last_n as nat,
            ),
            final(self).phase() == old(self).phase(),
            final(self).turns() == old(self).turns(),
            final(self).max_turns() == old(self).max_turns(),
            final(self).content() == old(self).content(),
            final(self).reasoning() == old(self).reasoning(),
            final(self).partial_calls() == old(self).partial_calls(),
            final(self).round_calls() == old(self).round_calls(),
            final(self).answered() == old(self).answered(),
    {
        let mut messages: Vec<ChatMessage> = Vec::new();
        std::mem::swap(&mut messages, &mut self.messages);
        let ghost before = messages@;
        let compressed = crate::agent::compress_history(messages, protect_first_n, protect_last_n);
        proof {
            crate::agent::lemma_compress_history_view(before, compressed@, protect_first_n as nat, protect_last_n as nat);
        }
        self.messages = compressed;
    }

    /// The model call failed: the run ends with the error.
    pub fn call_failed(&mut self, error: &str) -> (r: AgentOutput)
        requires
            old(self).wf(),
            old(self).phase() == RunPhase::Streaming,
        ensures
            final(self).wf(),
            final(self).phase() == RunPhase::Finished,
            final(self).history() == old(self).history(),
            r matches AgentOutput::Error(m) && m@ == "LLM error: "@ + error@,
    {
        self.phase = RunPhase::Finished;
        let mut m: Vec<char> = Vec::new();
        push_str(&mut m, "LLM error: ");
        push_str(&mut m, error);
        AgentOutput::Error(string_of(&m))
    }

    fn find_call(&self, id: &Vec<char>) -> (r: Option<usize>)
        ensures
            r matches Some(k) ==> k < self.calls@.len() && self.partial_calls()[k as int].0 == id@,
            r is None ==> call_index(self.partial_calls(), id@) is None,
    {
        let mut k: usize = 0;
        while k < self.calls.len()
            invariant
                k <= self.calls@.len(),
                forall|j: int| 0 <= j < k ==> self.partial_calls()[j].0 != id@,
            decreases self.calls.len() - k,
        {
            if crate::text::chars_eq(&self.calls[k].0, id) {
                return Some(k);
            }
            k += 1;
        }
        None
    }

    /// Takes one piece of the streamed response; returns the event to send.
    pub fn on_chunk(&mut self, chunk: &StreamChunk) -> (r: Option<AgentOutput>)
        requires
            old(self).wf(),
            old(self).phase() == RunPhase::Streaming,
        ensures
            final(self).wf(),
            final(self).phase() == RunPhase::Streaming,
            final(self).history() == old(self).history(),
            final(self).turns() == old(self).turns(),
            match chunk {
                StreamChunk::Delta(t) => final(self).content() == old(self).content() + t@
                    && (r matches Some(AgentOutput::TextDelta(x)) && x@ == t@)
                    && final(self).reasoning() == old(self).reasoning()
                    && final(self).partial_calls() == old(self).partial_calls(),
                StreamChunk::ReasoningDelta(t) => final(self).reasoning() == old(self).reasoning() + t@ && r is None
                    && final(self).content() == old(self).content()
                    && final(self).partial_calls() == old(self).partial_calls(),
                StreamChunk::ToolCallDelta(id, name, args) => final(self).partial_calls() == add_fragment_keep_name(
                    old(self).partial_calls(), id@, name@, args@) && (r matches Some(
                    AgentOutput::ToolCallStart { name: n, call_id: c }) && n@ == name@ && c@ == id@)
                    && final(self).content() == old(self).content()
                    && final(self).reasoning() == old(self).reasoning(),
                StreamChunk::Done(u) => (r matches Some(AgentOutput::Done { usage: x }) && x == u)
                    && final(self).content() == old(self).content()
                    && final(self).reasoning() == old(self).reasoning()
                    && final(self).partial_calls() == old(self).partial_calls(),
            },
    {
        match chunk {
            StreamChunk::Delta(t) => {
                push_str(&mut self.content, t.as_str());
                Some(AgentOutput::TextDelta(t.clone()))
            },
            StreamChunk::ReasoningDelta(t) => {
                push_str(&mut self.reasoning, t.as_str());
                None
            },
            StreamChunk::ToolCallDelta(id, name, args) => {
                let idc = chars_of(id.as_str());
                let argc = chars_of(args.as_str());
                let ghost old_calls = self.partial_calls();
                match self.find_call(&idc) {
                    Some(k) => {
                        proof {
                            assert(call_index(old_calls, idc@) == Some(k as int));
                        }
                        let keep = self.calls[k].1.clone();
                        let mut new_args = self.calls[k].2.clone();
                        push_chars(&mut new_args, &argc);
                        self.calls.set(k, (idc, keep, new_args));
                        assert(self.partial_calls() =~= add_fragment_keep_name(old_calls, id@, name@, args@));
                    },
                    None => {
                        self.calls.push((idc, chars_of(name.as_str()), argc));
                        assert(self.partial_calls() =~= add_fragment_keep_name(old_calls, id@, name@, args@));
                    },
                }
                Some(AgentOutput::ToolCallStart { name: name.clone(), call_id: id.clone() })
            },
            StreamChunk::Done(u) => Some(AgentOutput::Done { usage: *u }),
        }
    }

    /// The stream failed: the error to send; the round goes on with what was
    /// received.
    pub fn stream_failed(&self, error: &str) -> (r: AgentOutput)
        ensures
            r matches AgentOutput::Error(m) && m@ == "Stream error: "@ + error@,
    {
        let mut m: Vec<char> = Vec::new();
        push_str(&mut m, "Stream error: ");
        push_str(&mut m, error);
        AgentOutput::Error(string_of(&m))
    }

    /// The stream ended: records the assistant message; without tool calls
    /// the run is over, otherwise the returned calls are to be run.
    pub fn end_stream(&mut self) -> (r: Vec<ToolCall>)
        requires
            old(self).wf(),
            old(self).phase() == RunPhase::Streaming,
        ensures
            final(self).wf(),
            final(self).turns() == old(self).turns(),
            calls_view(r@) == old(self).partial_calls().map_values(|p: PartialCall| call_of(p)),
            final(self).history() == old(self).history().push(assistant_message(old(self).content(),
                old(self).reasoning(), calls_view(r@))),
            r@.len() == 0 ==> final(self).phase() == RunPhase::Finished,
            r@.len() > 0 ==> final(self).phase() == RunPhase::Dispatching && final(self).round_calls() == calls_view(r@)
                && final(self).answered() == 0,
    {
        let ghost parts = self.partial_calls();
        let mut tools: Vec<ToolCall> = Vec::new();
        let mut i: usize = 0;
        while i < self.calls.len()
            invariant
                i <= self.calls@.len(),
                parts == self.calls@.map_values(|c: (Vec<char>, Vec<char>, Vec<char>)| (c.0@, c.1@, c.2@)),
                calls_view(tools@) == parts.take(i as int).map_values(|p: PartialCall| call_of(p)),
            decreases self.calls.len() - i,
        {
            let tc = ToolCall {
                id: string_of(&self.calls[i].0),
                kind: string_of(&chars_of("function")),
                function: FunctionCall { name: string_of(&self.calls[i].1), arguments: string_of(&self.calls[i].2) },
            };
            assert(tc@ == call_of(parts[i as int]));
            let ghost old_tools = tools@;
            tools.push(tc);
            assert(calls_view(tools@) =~= calls_view(old_tools).push(call_of(parts[i as int])));
            assert(parts.take(i + 1) =~= parts.take(i as int).push(parts[i as int]));
            assert(calls_view(tools@) =~= parts.take(i + 1).map_values(|p: PartialCall| call_of(p)));
            i += 1;
        }
        assert(parts.take(self.calls@.len() as int) =~= parts);
        let tool_calls = if tools.len() == 0 {
            None
        } else {
            let c = tools.clone();
            assert(c@ =~= tools@);
            Some(c)
        };
        let reasoning_content = if self.reasoning.len() == 0 { None } else { Some(string_of(&self.reasoning)) };
        let msg = ChatMessage {
            role: string_of(&chars_of("assistant")),
            content: string_of(&self.content),
            tool_calls,
            tool_call_id: None,
            reasoning_content,
        };
        let ghost before = self.messages@;
        self.messages.push(msg);
        assert(messages_view(self.messages@) =~= messages_view(before).push(assistant_message(self.content@,
            self.reasoning@, calls_view(tools@))));
        self.next = 0;
        if tools.len() == 0 {
            self.phase = RunPhase::Finished;
            self.tools = Vec::new();
        } else {
            let c = tools.clone();
            assert(c@ =~= tools@);
            self.tools = c;
            self.phase = RunPhase::Dispatching;
        }
        tools
    }

    /// The next tool call to run, or `None` once every call of the round is
    /// answered, after which the next round can start.
    pub fn next_tool(&mut self) -> (r: Option<ToolCall>)
        requires
            old(self).wf(),
            old(self).phase() == RunPhase::Dispatching,
        ensures
            final(self).wf(),
            final(self).history() == old(self).history(),
            final(self).turns() == old(self).turns(),
            final(self).round_calls() == old(self).round_calls(),
            final(self).answered() == old(self).answered(),
            old(self).answered() == old(self).round_calls().len() ==> r is None && final(self).phase() == RunPhase::Ready,
            old(self).answered() < old(self).round_calls().len() ==> (r matches Some(tc)
                && tc@ == old(self).round_calls()[old(self).answered() as int] && final(self).phase() == RunPhase::Running),
    {
        if self.next == self.tools.len() {
            self.phase = RunPhase::Ready;
            return None;
        }
        self.phase = RunPhase::Running;
        let tc = self.tools[self.next].clone();
        assert(self.round_calls()[self.next as int] == self.tools@[self.next as int]@);
        Some(tc)
    }

    /// The running tool ended with `result`: records it and returns the
    /// event to send.
    pub fn tool_finished(&mut self, result: Result<String, String>) -> (r: AgentOutput)
        requires
            old(self).wf(),
            old(self).phase() == RunPhase::Running,
        ensures
            final(self).wf(),
            final(self).phase() == RunPhase::Dispatching,
            final(self).turns() == old(self).turns(),
            final(self).round_calls() == old(self).round_calls(),
            final(self).answered() == old(self).answered() + 1,
            ({
                let text = tool_result_text(match result {
                    Ok(x) => Ok(x@),
                    Err(e) => Err(e@),
                });
                let c = old(self).round_calls()[old(self).answered() as int];
                &&& r matches AgentOutput::ToolCallEnd { name: n, result: t } && n@ == c.2 && t@ == text
                &&& final(self).history() == old(self).history().push(tool_message(text, c.0))
            }),
    {
        let text = match result {
            Ok(x) => x,
            Err(e) => {
                let mut out: Vec<char> = Vec::new();
                push_str(&mut out, "Error: ");
                push_str(&mut out, e.as_str());
                string_of(&out)
            },
        };
        let n = self.next;
        let len = self.tools.len();
        assert(n < len);
        let id = self.tools[n].id.clone();
        let name = self.tools[n].function.name.clone();
        assert(self.round_calls()[n as int] == self.tools@[n as int]@);
        let ghost before = self.messages@;
        let ghost tv = text@;
        let reply = text.clone();
        self.messages.push(ChatMessage {
            role: string_of(&chars_of("tool")),
            content: text,
            tool_calls: None,
            tool_call_id: Some(id),
            reasoning_content: None,
        });
        assert(messages_view(self.messages@) =~= messages_view(before).push(tool_message(tv,
            self.tools@[n as int].id@)));
        self.next = n + 1;
        self.phase = RunPhase::Dispatching;
        AgentOutput::ToolCallEnd { name, result: reply }
    }

    /// Ends the run and gives back the conversation.
    pub fn into_messages(self) -> (r: Vec<ChatMessage>)
        ensures
            messages_view(r@) == self.history(),
    {
        self.messages
    }
}

/// A run makes at most its turn limit of model calls.
pub proof fn lemma_run_turns_within_limit(r: &AgentRun)
    requires
        r.wf(),
    ensures
        r.turns() <= r.max_turns(),
{
}

} // verus!
