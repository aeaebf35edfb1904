//! The decisions of one agent turn: model call, streamed response, tool
//! dispatch, repeated until the model answers without tool calls or the turn
//! limit is reached.
//!
//! The caller performs the outside work (the model call, its stream, the tool
//! runs, the output events) and reports each outcome to an [`AgentTurn`],
//! which keeps the conversation and says what comes next.
use vstd::prelude::*;
use crate::agent::AgentTurnResult;
use crate::llm::{
    calls_view, messages_view, CallView, ChatMessage, FunctionCall, MessageView, StreamChunk, ToolCall,
};
use crate::text::{chars_of, is_ws_exec, push_chars, push_decimal, push_str, string_of, trim};

verus! {

/// A tool call assembled from stream fragments: call id, function name,
/// arguments.
pub type PartialCall = (Seq<char>, Seq<char>, Seq<char>);

/// Position of the call with id `id`, if any.
pub open spec fn call_index(calls: Seq<PartialCall>, id: Seq<char>) -> Option<int> {
    if exists|k: int| 0 <= k < calls.len() && calls[k].0 == id {
        Some(choose|k: int| 0 <= k < calls.len() && calls[k].0 == id)
    } else {
        None
    }
}

/// No two calls share an id.
pub open spec fn ids_unique(calls: Seq<PartialCall>) -> bool {
    forall|i: int, j: int| 0 <= i < j < calls.len() ==> calls[i].0 != calls[j].0
}

/// Applies a tool-call fragment: the first fragment of an id opens a call; a
/// non-blank name sets the call's name; the arguments fragment is appended.
pub open spec fn add_call_fragment(calls: Seq<PartialCall>, id: Seq<char>, name: Seq<char>, args: Seq<char>) -> Seq<PartialCall> {
    match call_index(calls, id) {
        Some(k) => calls.update(k, (id, if trim(name).len() > 0 { name } else { calls[k].1 }, calls[k].2 + args)),
        None => calls.push((id, if trim(name).len() > 0 { name } else { seq![] }, args)),
    }
}

/// The tool call a finished fragment list makes.
pub open spec fn call_of(p: PartialCall) -> CallView {
    (p.0, "function"@, p.1, p.2)
}

/// The history sent to the model: the pre-context message, if any, goes right
/// after the system prompt of a non-empty history.
pub open spec fn effective_history(h: Seq<MessageView>, pre: Option<MessageView>) -> Seq<MessageView> {
    match pre {
        Some(p) => if h.len() >= 1 { h.insert(1, p) } else { h },
        None => h,
    }
}

/// The assistant message closing a round.
pub open spec fn assistant_message(content: Seq<char>, reasoning: Seq<char>, calls: Seq<CallView>) -> MessageView {
    ("assistant"@, content, if calls.len() == 0 { None } else { Some(calls) }, None, if reasoning.len() == 0 {
        None
    } else {
        Some(reasoning)
    })
}

/// The message answering a tool call.
pub open spec fn tool_message(content: Seq<char>, call_id: Seq<char>) -> MessageView {
    ("tool"@, content, None, Some(call_id), None)
}

/// `h` ends with the assistant message of a round with the tool calls
/// `calls`, followed by one tool message for each of the first `n` calls, in
/// order, each carrying its call's id.
pub open spec fn round_answers(h: Seq<MessageView>, calls: Seq<CallView>, n: nat) -> bool {
    &&& n <= calls.len()
    &&& h.len() >= n + 1
    &&& h[h.len() - n - 1].0 == "assistant"@
    &&& h[h.len() - n - 1].2 == Some(calls)
    &&& forall|i: int| 0 <= i < n ==> (#[trigger] h.skip(h.len() - n)[i]).0 == "tool"@ && h.skip(h.len() - n)[i].3
        == Some(calls[i].0)
}

/// Answering the next call of a round keeps the pairing, one call further.
pub proof fn lemma_round_answers_push(h: Seq<MessageView>, calls: Seq<CallView>, n: nat, content: Seq<char>)
    requires
        round_answers(h, calls, n),
        n < calls.len(),
    ensures
        round_answers(h.push(tool_message(content, calls[n as int].0)), calls, n + 1),
{
    let h2 = h.push(tool_message(content, calls[n as int].0));
    assert(h2[h2.len() - (n + 1) - 1] == h[h.len() - n - 1]);
    assert(h2.skip(h2.len() - (n + 1)) =~= h.skip(h.len() - n).push(tool_message(content, calls[n as int].0)));
    assert forall|i: int| 0 <= i < n + 1 implies (#[trigger] h2.skip(h2.len() - (n + 1))[i]).0 == "tool"@ && h2.skip(
        h2.len() - (n + 1),
    )[i].3 == Some(calls[i].0) by {
        if i < n {
            assert(h2.skip(h2.len() - (n + 1))[i] == h.skip(h.len() - n)[i]);
        }
    }
}

/// The text a tool run leaves in the conversation.
pub open spec fn tool_result_text(result: Result<Seq<char>, Seq<char>>) -> Seq<char> {
    match result {
        Ok(r) => r,
        Err(e) => "Error: "@ + e,
    }
}

/// Where a turn stands.
#[derive(PartialEq, Eq, Structural, Clone, Copy, Debug)]
pub enum TurnPhase {
    /// About to call the model.
    Ready,
    /// The model's response is streaming.
    Streaming,
    /// Tool calls of the round are being handled.
    Dispatching,
    /// A tool is running.
    Running,
    /// The turn is over.
    Finished,
}

/// What to do with the next tool call of a round.
pub enum ToolStep {
    /// Run the tool.
    Dispatch(ToolCall),
    /// The call was answered without running, with this text.
    Skipped(String),
    /// Every call of the round is answered; the next round can start.
    RoundDone,
}

/// The state of one agent turn.
pub struct AgentTurn {
    history: Vec<ChatMessage>,
    pre_context: Option<ChatMessage>,
    max_turns: usize,
    turns_used: usize,
    final_response: String,
    final_usage: Option<(i32, i32, i32)>,
    completed: bool,
    phase: TurnPhase,
    content: Vec<char>,
    reasoning: Vec<char>,
    calls: Vec<(Vec<char>, Vec<char>, Vec<char>)>,
    tools: Vec<ToolCall>,
    next: usize,
}

/// The view of an optional message.
pub open spec fn opt_message(m: Option<ChatMessage>) -> Option<MessageView> {
    match m {
        Some(x) => Some(x@),
        None => None,
    }
}

impl AgentTurn {
    pub closed spec fn history(&self) -> Seq<MessageView> {
        messages_view(self.history@)
    }

    pub closed spec fn pre_context(&self) -> Option<MessageView> {
        opt_message(self.pre_context)
    }

    pub closed spec fn max_turns(&self) -> nat {
        self.max_turns as nat
    }

    pub closed spec fn turns_used(&self) -> nat {
        self.turns_used as nat
    }

    pub closed spec fn phase(&self) -> TurnPhase {
        self.phase
    }

    pub closed spec fn completed(&self) -> bool {
        self.completed
    }

    pub closed spec fn final_response(&self) -> Seq<char> {
        self.final_response@
    }

    pub closed spec fn final_usage(&self) -> Option<(i32, i32, i32)> {
        self.final_usage
    }

    /// Text of the response streamed so far in this round.
    pub closed spec fn content(&self) -> Seq<char> {
        self.content@
    }

    /// Reasoning streamed so far in this round.
    pub closed spec fn reasoning(&self) -> Seq<char> {
        self.reasoning@
    }

    /// Tool calls assembled so far in this round.
    pub closed spec fn partial_calls(&self) -> Seq<PartialCall> {
        self.calls@.map_values(|c: (Vec<char>, Vec<char>, Vec<char>)| (c.0@, c.1@, c.2@))
    }

    /// Tool calls of the round being handled.
    pub closed spec fn round_calls(&self) -> Seq<CallView> {
        calls_view(self.tools@)
    }

    /// Number of tool calls of the round answered so far.
    pub closed spec fn answered(&self) -> nat {
        self.next as nat
    }

    /// The turn's state is consistent.
    pub closed spec fn wf(&self) -> bool {
        &&& self.turns_used <= self.max_turns
        &&& ids_unique(self.partial_calls())
        &&& self.next <= self.tools@.len()
        &&& (self.phase == TurnPhase::Running ==> self.next < self.tools@.len())
        &&& ((self.phase == TurnPhase::Dispatching || self.phase == TurnPhase::Running) ==> round_answers(
            self.history(),
            self.round_calls(),
            self.next as nat,
        ))
    }

    /// Starts a turn over `history`, whose first message is the system prompt.
    pub fn new(history: Vec<ChatMessage>, pre_context: Option<ChatMessage>, max_turns: usize) -> (r: Self)
        ensures
            r.wf(),
            r.history() == messages_view(history@),
            r.pre_context() == opt_message(pre_context),
            r.max_turns() == max_turns,
            r.turns_used() == 0,
            r.phase() == TurnPhase::Ready,
            !r.completed(),
            r.final_response().len() == 0,
            r.final_usage() is None,
    {
        AgentTurn {
            history,
            pre_context,
            max_turns,
            turns_used: 0,
            final_response: String::new(),
            final_usage: None,
            completed: false,
            phase: TurnPhase::Ready,
            content: Vec::new(),
            reasoning: Vec::new(),
            calls: Vec::new(),
            tools: Vec::new(),
            next: 0,
        }
    }

    /// Starts the next round: the history to send to the model, or `None`
    /// when the turn limit is reached, which ends the turn.
    pub fn begin_round(&mut self) -> (r: Option<Vec<ChatMessage>>)
        requires
            old(self).wf(),
            old(self).phase() == TurnPhase::Ready,
        ensures
            final(self).wf(),
            final(self).history() == old(self).history(),
            final(self).pre_context() == old(self).pre_context(),
            final(self).max_turns() == old(self).max_turns(),
            final(self).completed() == old(self).completed(),
            final(self).final_response() == old(self).final_response(),
            final(self).final_usage() == old(self).final_usage(),
            old(self).turns_used() == old(self).max_turns() ==> r is None && final(self).phase() == TurnPhase::Finished
                && final(self).turns_used() == old(self).turns_used(),
            old(self).turns_used() < old(self).max_turns() ==> (r matches Some(h) && messages_view(h@)
                == effective_history(old(self).history(), old(self).pre_context())
                && final(self).phase() == TurnPhase::Streaming
                && final(self).turns_used() == old(self).turns_used() + 1
                && final(self).content().len() == 0 && final(self).reasoning().len() == 0
                && final(self).partial_calls().len() == 0),
    {
        if self.turns_used == self.max_turns {
            self.phase = TurnPhase::Finished;
            return None;
        }
        self.turns_used = self.turns_used + 1;
        self.phase = TurnPhase::Streaming;
        self.content = Vec::new();
        self.reasoning = Vec::new();
        self.calls = Vec::new();
        assert(self.partial_calls() =~= Seq::<PartialCall>::empty());
        let mut h = self.history.clone();
        assert(messages_view(h@) =~= messages_view(self.history@));
        match &self.pre_context {
            Some(p) => {
                if h.len() >= 1 {
                    let ghost before = h@;
                    h.insert(1, p.clone());
                    assert(messages_view(h@) =~= messages_view(before).insert(1, p@));
                }
            },
            None => {},
        }
        Some(h)
    }

    /// The status line shown when round `turns_used` starts.
    pub fn status_text(&self, provider_name: &str) -> (r: String)
        requires
            self.wf(),
        ensures
            self.turns_used() <= 1 ==> r@ == "\u{1f916} 正在调用 "@ + provider_name@ + " ..."@,
            self.turns_used() > 1 ==> r@ == "\u{1f504} 工具调用完成，继续思考 (第"@
                + crate::text::decimal(self.turns_used()) + "轮)..."@,
    {
        let mut out: Vec<char> = Vec::new();
        if self.turns_used <= 1 {
            push_str(&mut out, "\u{1f916} 正在调用 ");
            push_str(&mut out, provider_name);
            push_str(&mut out, " ...");
        } else {
            push_str(&mut out, "\u{1f504} 工具调用完成，继续思考 (第");
            push_decimal(&mut out, self.turns_used as u64);
            push_str(&mut out, "轮)...");
        }
        string_of(&out)
    }

    /// The model call failed or timed out before streaming: the turn ends.
    pub fn call_failed(&mut self)
        requires
            old(self).wf(),
            old(self).phase() == TurnPhase::Streaming,
        ensures
            final(self).wf(),
            final(self).phase() == TurnPhase::Finished,
            final(self).history() == old(self).history(),
            final(self).turns_used() == old(self).turns_used(),
            final(self).completed() == old(self).completed(),
            final(self).final_response() == old(self).final_response(),
            final(self).final_usage() == old(self).final_usage(),
    {
        self.phase = TurnPhase::Finished;
    }

    fn find_call(&self, id: &Vec<char>) -> (r: Option<usize>)
        ensures
            r matches Some(k) ==> k < self.calls@.len() && self.partial_calls()[k as int].0 == id@,
            r is None ==> call_index(self.partial_calls(), id@) is None,
    {
        let mut k: usize = 0;
        while k < self.calls.len()
            invariant
                k <= self.calls@.len(),
                forall|j: int| 0 <= j < k ==> self.partial_calls()[j].0 != id@,
            decreases self.calls.len() - k,
        {
            if crate::text::chars_eq(&self.calls[k].0, id) {
                return Some(k);
            }
            k += 1;
        }
        None
    }

    /// Takes one piece of the streamed response; returns text to show.
    pub fn on_chunk(&mut self, chunk: &StreamChunk) -> (r: Option<String>)
        requires
            old(self).wf(),
            old(self).phase() == TurnPhase::Streaming,
        ensures
            final(self).wf(),
            final(self).phase() == TurnPhase::Streaming,
            final(self).history() == old(self).history(),
            final(self).turns_used() == old(self).turns_used(),
            final(self).completed() == old(self).completed(),
            final(self).final_response() == old(self).final_response(),
            match chunk {
                StreamChunk::Delta(t) => final(self).content() == old(self).content() + t@ && (r matches Some(x)
                    && x@ == t@) && final(self).reasoning() == old(self).reasoning()
                    && final(self).partial_calls() == old(self).partial_calls()
                    && final(self).final_usage() == old(self).final_usage(),
                StreamChunk::ReasoningDelta(t) => final(self).reasoning() == old(self).reasoning() + t@ && r is None
                    && final(self).content() == old(self).content()
                    && final(self).partial_calls() == old(self).partial_calls()
                    && final(self).final_usage() == old(self).final_usage(),
                StreamChunk::ToolCallDelta(id, name, args) => final(self).partial_calls() == add_call_fragment(
                    old(self).partial_calls(), id@, name@, args@) && r is None
                    && final(self).content() == old(self).content()
                    && final(self).reasoning() == old(self).reasoning()
                    && final(self).final_usage() == old(self).final_usage(),
                StreamChunk::Done(u) => final(self).final_usage() == Some((u.prompt_tokens, u.completion_tokens,
                    u.total_tokens)) && r is None && final(self).content() == old(self).content()
                    && final(self).reasoning() == old(self).reasoning()
                    && final(self).partial_calls() == old(self).partial_calls(),
            },
    {
        match chunk {
            StreamChunk::Delta(t) => {
                push_str(&mut self.content, t.as_str());
                Some(t.clone())
            },
            StreamChunk::ReasoningDelta(t) => {
                push_str(&mut self.reasoning, t.as_str());
                None
            },
            StreamChunk::ToolCallDelta(id, name, args) => {
                let idc = chars_of(id.as_str());
                let namec = chars_of(name.as_str());
                let argc = chars_of(args.as_str());
                let named = crate::text::trim_chars(&namec).len() > 0;
                let ghost old_calls = self.partial_calls();
                match self.find_call(&idc) {
                    Some(k) => {
                        proof {
                            assert(call_index(old_calls, idc@) == Some(k as int));
                        }
                        let new_name = if named { namec } else { self.calls[k].1.clone() };
                        let mut new_args = self.calls[k].2.clone();
                        push_chars(&mut new_args, &argc);
                        self.calls.set(k, (idc, new_name, new_args));
                        assert(self.partial_calls() =~= add_call_fragment(old_calls, id@, name@, args@));
                    },
                    None => {
                        let new_name = if named { namec } else { Vec::new() };
                        self.calls.push((idc, new_name, argc));
                        assert(self.partial_calls() =~= add_call_fragment(old_calls, id@, name@, args@));
                    },
                }
                None
            },
            StreamChunk::Done(u) => {
                self.final_usage = Some((u.prompt_tokens, u.completion_tokens, u.total_tokens));
                None
            },
        }
    }

    /// The stream failed or timed out: the text received so far, if any,
    /// becomes the response and the turn ends.
    pub fn stream_failed(&mut self)
        requires
            old(self).wf(),
            old(self).phase() == TurnPhase::Streaming,
        ensures
            final(self).wf(),
            final(self).phase() == TurnPhase::Finished,
            final(self).history() == old(self).history(),
            final(self).turns_used() == old(self).turns_used(),
            final(self).completed() == old(self).completed(),
            final(self).final_usage() == old(self).final_usage(),
            old(self).content().len() > 0 ==> final(self).final_response() == old(self).content(),
            old(self).content().len() == 0 ==> final(self).final_response() == old(self).final_response(),
    {
        if self.content.len() > 0 {
            self.final_response = string_of(&self.content);
        }
        self.phase = TurnPhase::Finished;
    }

    /// The stream ended: records the assistant message. Without tool calls the
    /// turn is complete and its text is the response; otherwise the returned
    /// calls are to be handled.
    pub fn end_stream(&mut self) -> (r: Vec<ToolCall>)
        requires
            old(self).wf(),
            old(self).phase() == TurnPhase::Streaming,
        ensures
            final(self).wf(),
            calls_view(r@) == old(self).partial_calls().map_values(|p: PartialCall| call_of(p)),
            final(self).history() == old(self).history().push(assistant_message(old(self).content(),
                old(self).reasoning(), calls_view(r@))),
            final(self).turns_used() == old(self).turns_used(),
            final(self).final_usage() == old(self).final_usage(),
            r@.len() == 0 ==> final(self).phase() == TurnPhase::Finished && final(self).completed()
                && final(self).final_response() == old(self).content(),
            r@.len() > 0 ==> final(self).phase() == TurnPhase::Dispatching && final(self).round_calls()
                == calls_view(r@) && final(self).answered() == 0
                && final(self).completed() == old(self).completed()
                && final(self).final_response() == old(self).final_response(),
    {
        let ghost parts = self.partial_calls();
        let mut tools: Vec<ToolCall> = Vec::new();
        let mut i: usize = 0;
        while i < self.calls.len()
            invariant
                i <= self.calls@.len(),
                parts == self.calls@.map_values(|c: (Vec<char>, Vec<char>, Vec<char>)| (c.0@, c.1@, c.2@)),
                calls_view(tools@) == parts.take(i as int).map_values(|p: PartialCall| call_of(p)),
            decreases self.calls.len() - i,
        {
            let tc = ToolCall {
                id: string_of(&self.calls[i].0),
                kind: string_of(&chars_of("function")),
                function: FunctionCall { name: string_of(&self.calls[i].1), arguments: string_of(&self.calls[i].2) },
            };
            assert(tc@ == call_of(parts[i as int]));
            let ghost old_tools = tools@;
            tools.push(tc);
            assert(calls_view(tools@) =~= calls_view(old_tools).push(call_of(parts[i as int])));
            assert(parts.take(i + 1) =~= parts.take(i as int).push(parts[i as int]));
            assert(calls_view(tools@) =~= parts.take(i + 1).map_values(|p: PartialCall| call_of(p)));
            i += 1;
        }
        assert(parts.take(self.calls@.len() as int) =~= parts);
        let content = string_of(&self.content);
        let tool_calls = if tools.len() == 0 {
            None
        } else {
            let c = tools.clone();
            assert(c@ =~= tools@);
            Some(c)
        };
        let reasoning_content = if self.reasoning.len() == 0 { None } else { Some(string_of(&self.reasoning)) };
        let msg = ChatMessage {
            role: string_of(&chars_of("assistant")),
            content,
            tool_calls,
            tool_call_id: None,
            reasoning_content,
        };
        let ghost before = self.history@;
        self.history.push(msg);
        assert(messages_view(self.history@) =~= messages_view(before).push(assistant_message(self.content@,
            self.reasoning@, calls_view(tools@))));
        if tools.len() == 0 {
            self.final_response = string_of(&self.content);
            self.completed = true;
            self.phase = TurnPhase::Finished;
            self.tools = Vec::new();
            self.next = 0;
            tools
        } else {
            let c = tools.clone();
            assert(c@ =~= tools@);
            self.tools = c;
            self.next = 0;
            self.phase = TurnPhase::Dispatching;
            proof {
                let h = self.history();
                assert(h[h.len() - 0 - 1] == h.last());
            }
            tools
        }
    }

    fn answer(&mut self, content: String)
        requires
            old(self).next < old(self).tools@.len(),
        ensures
            messages_view(final(self).history@) == messages_view(old(self).history@).push(tool_message(content@,
                old(self).tools@[old(self).next as int].id@)),
            final(self).next == old(self).next + 1,
            final(self).tools == old(self).tools,
            final(self).turns_used == old(self).turns_used,
            final(self).max_turns == old(self).max_turns,
            final(self).calls == old(self).calls,
            final(self).phase == old(self).phase,
            final(self).completed == old(self).completed,
            final(self).final_response == old(self).final_response,
            final(self).final_usage == old(self).final_usage,
            final(self).pre_context == old(self).pre_context,
    {
        let n = self.next;
        let len = self.tools.len();
        assert(n < len);
        let id = self.tools[n].id.clone();
        let ghost before = self.history@;
        self.history.push(ChatMessage { role: string_of(&chars_of("tool")), content, tool_calls: None,
            tool_call_id: Some(id), reasoning_content: None });
        assert(messages_view(self.history@) =~= messages_view(before).push(tool_message(content@,
            self.tools@[self.next as int].id@)));
        self.next = n + 1;
    }
    /// The next tool call of the round: run it, or answer it at once when its
    /// name or its arguments are blank; `RoundDone` once every call is
    /// answered, after which the next round can start.
    pub fn next_tool(&mut self) -> (r: ToolStep)
        requires
            old(self).wf(),
            old(self).phase() == TurnPhase::Dispatching,
        ensures
            final(self).wf(),
            final(self).turns_used() == old(self).turns_used(),
            final(self).completed() == old(self).completed(),
            final(self).final_response() == old(self).final_response(),
            final(self).final_usage() == old(self).final_usage(),
            final(self).round_calls() == old(self).round_calls(),
            old(self).answered() == old(self).round_calls().len() ==> r is RoundDone
                && final(self).phase() == TurnPhase::Ready && final(self).history() == old(self).history()
                && round_answers(old(self).history(), old(self).round_calls(), old(self).round_calls().len()),
            old(self).answered() < old(self).round_calls().len() ==> {
                let c = old(self).round_calls()[old(self).answered() as int];
                if trim(c.2).len() == 0 {
                    r matches ToolStep::Skipped(t) && t@ == "Error: tool call had empty name, skipped"@
                        && final(self).history() == old(self).history().push(tool_message(t@, c.0))
                        && final(self).answered() == old(self).answered() + 1
                        && final(self).phase() == TurnPhase::Dispatching
                } else if trim(c.3).len() == 0 {
                    r matches ToolStep::Skipped(t) && t@ == "Error: tool call had empty arguments, skipped"@
                        && final(self).history() == old(self).history().push(tool_message(t@, c.0))
                        && final(self).answered() == old(self).answered() + 1
                        && final(self).phase() == TurnPhase::Dispatching
                } else {
                    r matches ToolStep::Dispatch(tc) && tc@ == c && final(self).history() == old(self).history()
                        && final(self).answered() == old(self).answered()
                        && final(self).phase() == TurnPhase::Running
                }
            },
    {
        if self.next == self.tools.len() {
            self.phase = TurnPhase::Ready;
            return ToolStep::RoundDone;
        }
        let n = self.next;
        let name = chars_of(self.tools[n].function.name.as_str());
        let args = chars_of(self.tools[n].function.arguments.as_str());
        proof {
            assert(self.round_calls()[n as int] == self.tools@[n as int]@);
        }
        if crate::text::trim_chars(&name).len() == 0 {
            let text = string_of(&chars_of("Error: tool call had empty name, skipped"));
            let reply = text.clone();
            proof {
                lemma_round_answers_push(self.history(), self.round_calls(), n as nat, text@);
            }
            self.answer(text);
            return ToolStep::Skipped(reply);
        }
        if crate::text::trim_chars(&args).len() == 0 {
            let text = string_of(&chars_of("Error: tool call had empty arguments, skipped"));
            let reply = text.clone();
            proof {
                lemma_round_answers_push(self.history(), self.round_calls(), n as nat, text@);
            }
            self.answer(text);
            return ToolStep::Skipped(reply);
        }
        self.phase = TurnPhase::Running;
        ToolStep::Dispatch(self.tools[n].clone())
    }

    /// A tool run ended with `result`; records its text, which is returned.
    pub fn tool_finished(&mut self, result: Result<String, String>) -> (r: String)
        requires
            old(self).wf(),
            old(self).phase() == TurnPhase::Running,
        ensures
            final(self).wf(),
            final(self).phase() == TurnPhase::Dispatching,
            r@ == tool_result_text(match result {
                Ok(x) => Ok(x@),
                Err(e) => Err(e@),
            }),
            final(self).history() == old(self).history().push(tool_message(r@,
                old(self).round_calls()[old(self).answered() as int].0)),
            final(self).answered() == old(self).answered() + 1,
            final(self).round_calls() == old(self).round_calls(),
            final(self).turns_used() == old(self).turns_used(),
            final(self).completed() == old(self).completed(),
            final(self).final_response() == old(self).final_response(),
            final(self).final_usage() == old(self).final_usage(),
    {
        let text = match result {
            Ok(x) => x,
            Err(e) => {
                let mut out: Vec<char> = Vec::new();
                push_str(&mut out, "Error: ");
                push_str(&mut out, e.as_str());
                string_of(&out)
            },
        };
        let reply = text.clone();
        proof {
            assert(self.round_calls()[self.next as int] == self.tools@[self.next as int]@);
            lemma_round_answers_push(self.history(), self.round_calls(), self.next as nat, text@);
        }
        self.answer(text);
        self.phase = TurnPhase::Dispatching;
        reply
    }

    /// Ends the turn: the conversation and the turn's result.
    pub fn finish(self) -> (r: (Vec<ChatMessage>, AgentTurnResult))
        requires
            self.wf(),
            self.phase() == TurnPhase::Finished,
        ensures
            messages_view(r.0@) == self.history(),
            r.1.response@ == self.final_response(),
            r.1.usage == self.final_usage(),
            r.1.turns_used == self.turns_used(),
            r.1.completed == self.completed(),
    {
        let result = AgentTurnResult {
            response: self.final_response,
            usage: self.final_usage,
            turns_used: self.turns_used,
            completed: self.completed,
        };
        (self.history, result)
    }
}

/// A turn calls the model at most its turn limit times.
pub proof fn lemma_turns_within_limit(t: &AgentTurn)
    requires
        t.wf(),
    ensures
        t.turns_used() <= t.max_turns(),
{
}

/// The names of the tool calls, separated by `", "`.
pub open spec fn call_names(calls: Seq<CallView>) -> Seq<char>
    decreases calls.len(),
{
    if calls.len() == 0 {
        seq![]
    } else if calls.len() == 1 {
        calls[0].2
    } else {
        call_names(calls.drop_last()) + ", "@ + calls.last().2
    }
}

/// The status line shown while a round's tools run.
pub fn tools_status(calls: &Vec<ToolCall>) -> (r: String)
    ensures
        r@ == "\u{1f527} 正在执行工具: "@ + call_names(calls_view(calls@)),
{
    let mut out: Vec<char> = Vec::new();
    push_str(&mut out, "\u{1f527} 正在执行工具: ");
    let ghost start = out@;
    let ghost cv = calls_view(calls@);
    let mut i: usize = 0;
    while i < calls.len()
        invariant
            i <= calls@.len(),
            cv == calls_view(calls@),
            out@ == start + call_names(cv.take(i as int)),
        decreases calls.len() - i,
    {
        assert(cv.take(i + 1).drop_last() =~= cv.take(i as int));
        if i > 0 {
            push_str(&mut out, ", ");
        } else {
            assert(cv.take(0) =~= Seq::<CallView>::empty());
        }
        push_str(&mut out, calls[i].function.name.as_str());
        assert(out@ =~= start + call_names(cv.take(i + 1)));
        i += 1;
    }
    assert(cv.take(calls@.len() as int) =~= cv);
    string_of(&out)
}

} // verus!
