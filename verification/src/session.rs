//! The decisions of a WebSocket chat connection: the conversation it keeps,
//! how a client's history is restored, how a user message is prepared for an
//! agent turn, and what a reminder for the connection's user leads to.
//!
//! The caller reads the socket, runs the agent turns and sends the replies;
//! a [`ChatSession`] holds the conversation between those steps.
use vstd::prelude::*;
use crate::agent::{
    build_excel_analysis_guidance, doc_block, doc_parts, doc_view, inject_documents_to_system_prompt, mentions_excel,
    AgentTurnResult, EXCEL_GUIDANCE,
};
use crate::cron::Reminder;
use crate::gateway::{ContextDocument, HistoryMessage, WsOutput};
use crate::llm::{messages_view, opt_text, ChatMessage, MessageView};
use crate::text::{chars_eq, chars_of, decimal, join, push_chars, push_decimal, push_str, string_of, trim, trim_chars};

verus! {

/// A message with only a role and content: no tool calls, call id or reasoning.
pub open spec fn plain_message(role: Seq<char>, content: Seq<char>) -> MessageView {
    (role, content, None, None, None)
}

/// `m` with its content replaced by `content`.
pub open spec fn with_content(m: MessageView, content: Seq<char>) -> MessageView {
    (m.0, content, m.2, m.3, m.4)
}

/// A client-sent message is kept on restore: a user or assistant message
/// whose content is not blank.
pub open spec fn restorable(role: Seq<char>, content: Seq<char>) -> bool {
    (role == "user"@ || role == "assistant"@) && trim(content).len() > 0
}

/// The messages restored from a client's history, in order.
pub open spec fn restored(msgs: Seq<HistoryMessage>) -> Seq<MessageView>
    decreases msgs.len(),
{
    if msgs.len() == 0 {
        seq![]
    } else {
        let prev = restored(msgs.drop_last());
        let m = msgs.last();
        if restorable(m.role@, m.content@) {
            prev.push(plain_message(m.role@, m.content@))
        } else {
            prev
        }
    }
}

/// `s` ends with `p`.
pub open spec fn ends_with(s: Seq<char>, p: Seq<char>) -> bool {
    s.len() >= p.len() && s.subrange(s.len() - p.len(), s.len() as int) == p
}

/// A file name or path of a spreadsheet.
pub open spec fn spreadsheet_name(s: Seq<char>) -> bool {
    ends_with(s, ".xlsx"@) || ends_with(s, ".xls"@)
}

/// The document is a spreadsheet, by name or by path.
pub open spec fn is_spreadsheet(d: ContextDocument) -> bool {
    spreadsheet_name(d.name@) || (d.path matches Some(p) && spreadsheet_name(p@))
}

/// Some attached document is a spreadsheet.
pub open spec fn has_spreadsheet(docs: Seq<ContextDocument>) -> bool {
    exists|k: int| 0 <= k < docs.len() && is_spreadsheet(#[trigger] docs[k])
}

/// The attached documents as (name, path, content).
pub open spec fn doc_views(docs: Seq<ContextDocument>) -> Seq<(Seq<char>, Option<Seq<char>>, Seq<char>)> {
    docs.map_values(|d: ContextDocument| (d.name@, opt_text(d.path), d.content@))
}

/// The system prompt of a turn: the connection's prompt, the attached
/// documents with content, then the spreadsheet guidance where the message
/// or an attached document calls for it.
pub open spec fn turn_prompt(system_prompt: Seq<char>, user: Seq<char>, docs: Option<Seq<ContextDocument>>) -> Seq<char> {
    let with_docs = match docs {
        Some(d) => if d.len() > 0 && doc_parts(doc_views(d)).len() > 0 {
            system_prompt + doc_block(doc_views(d))
        } else {
            system_prompt
        },
        None => system_prompt,
    };
    let sheets = match docs {
        Some(d) => has_spreadsheet(d),
        None => false,
    };
    if mentions_excel(user) || sheets {
        with_docs + EXCEL_GUIDANCE@
    } else {
        with_docs
    }
}

/// The conversation a user message starts a turn on: the first message gets
/// the turn's system prompt and the user message is appended.
pub open spec fn turn_start(
    h: Seq<MessageView>,
    system_prompt: Seq<char>,
    user: Seq<char>,
    docs: Option<Seq<ContextDocument>>,
) -> Seq<MessageView> {
    if h.len() == 0 {
        seq![plain_message("user"@, user)]
    } else {
        h.update(0, with_content(h[0], turn_prompt(system_prompt, user, docs))).push(plain_message("user"@, user))
    }
}

/// What a client message asks for.
#[derive(PartialEq, Eq, Structural, Clone, Copy, Debug)]
pub enum InputKind {
    /// Stop the running answer.
    Stop,
    /// Replace the conversation with the client's saved history.
    LoadHistory,
    /// A chat message to answer.
    Chat,
}

/// The kind of a client message by its `type`.
pub fn input_kind(msg_type: Option<&str>) -> (r: InputKind)
    ensures
        r == (match msg_type {
            Some(t) => if t@ == "stop"@ {
                InputKind::Stop
            } else if t@ == "load_history"@ {
                InputKind::LoadHistory
            } else {
                InputKind::Chat
            },
            None => InputKind::Chat,
        }),
{
    match msg_type {
        Some(t) => {
            let cs = chars_of(t);
            if chars_eq(&cs, &chars_of("stop")) {
                InputKind::Stop
            } else if chars_eq(&cs, &chars_of("load_history")) {
                InputKind::LoadHistory
            } else {
                InputKind::Chat
            }
        },
        None => InputKind::Chat,
    }
}

/// Most model calls of a turn answering a chat message.
pub const CHAT_MAX_TURNS: usize = 10;

/// Most model calls of a turn running a reminder's action.
pub const REMINDER_MAX_TURNS: usize = 5;

/// The reply when a turn ended after tool calls without a final answer.
pub const FALLBACK_AFTER_TOOLS: &'static str = "我已完成多轮工具探查，但还没来得及生成最终结论。你可以基于当前结果继续追问，或让我直接根据最近一次工具调用结果做总结。";

/// The reply when a turn ended without a final answer and without tool calls.
pub const FALLBACK_NO_ANSWER: &'static str = "我已完成处理流程，但模型没有产出最终文本回答。请直接重试一次，或让我基于当前已获取的数据继续总结。";

/// The text sent in place of an answer when a turn did not complete: `None`
/// for a completed turn.
pub fn fallback_message(result: &AgentTurnResult) -> (r: Option<String>)
    ensures
        result.completed ==> r is None,
        !result.completed && result.turns_used > 0 ==> (r matches Some(m) && m@ == FALLBACK_AFTER_TOOLS@),
        !result.completed && result.turns_used == 0 ==> (r matches Some(m) && m@ == FALLBACK_NO_ANSWER@),
{
    if result.completed {
        None
    } else if result.turns_used > 0 {
        Some(string_of(&chars_of(FALLBACK_AFTER_TOOLS)))
    } else {
        Some(string_of(&chars_of(FALLBACK_NO_ANSWER)))
    }
}

/// The status line announcing attached documents.
pub open spec fn documents_status_spec(docs: Seq<ContextDocument>) -> Seq<char> {
    "📄 已加载 "@ + decimal(docs.len()) + " 个文档: "@ + join(docs.map_values(|d: ContextDocument| d.name@), ", "@)
}

/// The status line announcing attached documents: their number and names.
pub fn documents_status(docs: &Vec<ContextDocument>) -> (r: String)
    ensures
        r@ == documents_status_spec(docs@),
{
    let ghost names = docs@.map_values(|d: ContextDocument| d.name@);
    let mut out: Vec<char> = Vec::new();
    push_str(&mut out, "📄 已加载 ");
    push_decimal(&mut out, docs.len() as u64);
    push_str(&mut out, " 个文档: ");
    let ghost head = out@;
    let mut i: usize = 0;
    while i < docs.len()
        invariant
            i <= docs.len(),
            names == docs@.map_values(|d: ContextDocument| d.name@),
            out@ == head + join(names.take(i as int), ", "@),
        decreases docs.len() - i,
    {
        assert(names.take(i + 1).drop_last() =~= names.take(i as int));
        if i > 0 {
            push_str(&mut out, ", ");
        } else {
            assert(names.take(0) =~= Seq::<Seq<char>>::empty());
        }
        push_str(&mut out, docs[i].name.as_str());
        assert(out@ =~= head + join(names.take(i + 1), ", "@));
        i += 1;
    }
    assert(names.take(docs.len() as int) =~= names);
    string_of(&out)
}

/// The directory a user's tools work in.
pub open spec fn workspace_root_spec(data_dir: Seq<char>, user_id: Seq<char>) -> Seq<char> {
    data_dir + "/"@ + user_id + "/workspace"@
}

/// The directory a user's tools work in: `{data_dir}/{user_id}/workspace`.
pub fn workspace_root(data_dir: &str, user_id: &str) -> (r: String)
    ensures
        r@ == workspace_root_spec(data_dir@, user_id@),
{
    let mut out = chars_of(data_dir);
    push_str(&mut out, "/");
    push_str(&mut out, user_id);
    push_str(&mut out, "/workspace");
    string_of(&out)
}

pub(crate) fn ends_with_exec(s: &Vec<char>, p: &str) -> (r: bool)
    ensures
        r == ends_with(s@, p@),
{
    let pc = chars_of(p);
    if s.len() < pc.len() {
        return false;
    }
    let tail = s.len() - pc.len();
    let mut i: usize = 0;
    while i < pc.len()
        invariant
            tail + pc.len() == s.len(),
            i <= pc.len(),
            pc@ == p@,
            forall|j: int| 0 <= j < i ==> s@[tail + j] == pc@[j],
        decreases pc.len() - i,
    {
        if s[tail + i] != pc[i] {
            assert(s@.subrange(tail as int, s.len() as int)[i as int] != p@[i as int]);
            return false;
        }
        i += 1;
    }
    assert(s@.subrange(tail as int, s.len() as int) =~= p@);
    true
}

fn spreadsheet_name_exec(s: &str) -> (r: bool)
    ensures
        r == spreadsheet_name(s@),
{
    let cs = chars_of(s);
    ends_with_exec(&cs, ".xlsx") || ends_with_exec(&cs, ".xls")
}

/// Some attached document is a spreadsheet (`.xlsx` or `.xls`), by name or path.
pub fn has_excel_docs(docs: Option<&Vec<ContextDocument>>) -> (r: bool)
    ensures
        r == (match docs {
            Some(d) => has_spreadsheet(d@),
            None => false,
        }),
{
    match docs {
        None => false,
        Some(d) => {
            let mut i: usize = 0;
            while i < d.len()
                invariant
                    i <= d.len(),
                    docs == Some(d),
                    forall|k: int| 0 <= k < i ==> !is_spreadsheet(#[trigger] d@[k]),
                decreases d.len() - i,
            {
                let by_path = match &d[i].path {
                    Some(p) => spreadsheet_name_exec(p.as_str()),
                    None => false,
                };
                if spreadsheet_name_exec(d[i].name.as_str()) || by_path {
                    assert(is_spreadsheet(d@[i as int]));
                    return true;
                }
                i += 1;
            }
            false
        },
    }
}

/// The conversation of one WebSocket connection.
pub struct ChatSession {
    history: Vec<ChatMessage>,
    system_prompt: String,
}

fn plain(role: &str, content: String) -> (m: ChatMessage)
    ensures
        m@ == plain_message(role@, content@),
{
    ChatMessage {
        role: string_of(&chars_of(role)),
        content,
        tool_calls: None,
        tool_call_id: None,
        reasoning_content: None,
    }
}

impl ChatSession {
    /// The conversation, starting with the system prompt.
    pub closed spec fn history(&self) -> Seq<MessageView> {
        messages_view(self.history@)
    }

    /// The connection's system prompt.
    pub closed spec fn system_prompt(&self) -> Seq<char> {
        self.system_prompt@
    }

    /// A conversation holding only the system prompt.
    pub fn new(system_prompt: String) -> (r: Self)
        ensures
            r.history() == seq![plain_message("system"@, system_prompt@)],
            r.system_prompt() == system_prompt@,
    {
        let first = plain("system", system_prompt.clone());
        let mut history: Vec<ChatMessage> = Vec::new();
        history.push(first);
        let r = ChatSession { history, system_prompt };
        assert(r.history() =~= seq![plain_message("system"@, system_prompt@)]);
        r
    }

    /// The conversation's messages.
    pub fn messages(&self) -> (r: &Vec<ChatMessage>)
        ensures
            messages_view(r@) == self.history(),
    {
        &self.history
    }

    /// Replaces the conversation with a client's saved history: the first
    /// message (the system prompt) stays, then come the user and assistant
    /// messages of `msgs` with non-blank content, in order.
    pub fn restore_history(&mut self, msgs: &Vec<HistoryMessage>)
        ensures
            final(self).system_prompt() == old(self).system_prompt(),
            final(self).history() == old(self).history().take(
                if old(self).history().len() > 0 {
                    1
                } else {
                    0
                },
            ) + restored(msgs@),
    {
        let ghost keep = self.history().take(if self.history().len() > 0 { 1 } else { 0 });
        let mut next: Vec<ChatMessage> = Vec::new();
        if self.history.len() > 0 {
            next.push(self.history[0].clone());
        }
        assert(messages_view(next@) =~= keep);
        let mut i: usize = 0;
        while i < msgs.len()
            invariant
                i <= msgs.len(),
                messages_view(next@) == keep + restored(msgs@.take(i as int)),
            decreases msgs.len() - i,
        {
            assert(msgs@.take(i + 1).drop_last() =~= msgs@.take(i as int));
            let m = &msgs[i];
            let role = chars_of(m.role.as_str());
            let known = chars_eq(&role, &chars_of("user")) || chars_eq(&role, &chars_of("assistant"));
            let blank = trim_chars(&chars_of(m.content.as_str())).len() == 0;
            if known && !blank {
                let ghost before = messages_view(next@);
                next.push(
                    ChatMessage {
                        role: m.role.clone(),
                        content: m.content.clone(),
                        tool_calls: None,
                        tool_call_id: None,
                        reasoning_content: None,
                    },
                );
                assert(messages_view(next@) =~= before.push(plain_message(m.role@, m.content@)));
            }
            i += 1;
        }
        assert(msgs@.take(msgs.len() as int) =~= msgs@);
        self.history = next;
    }

    /// Prepares the conversation for a turn on `user_content`: the first
    /// message gets the connection's system prompt with the attached
    /// documents and, where called for, the spreadsheet guidance; the user
    /// message is appended.
    pub fn begin_user_turn(&mut self, user_content: &str, docs: Option<&Vec<ContextDocument>>)
        ensures
            final(self).system_prompt() == old(self).system_prompt(),
            final(self).history() == turn_start(
                old(self).history(),
                old(self).system_prompt(),
                user_content@,
                match docs {
                    Some(d) => Some(d@),
                    None => None,
                },
            ),
    {
        let ghost ds: Option<Seq<ContextDocument>> = match docs {
            Some(d) => Some(d@),
            None => None,
        };
        let ghost h0 = self.history();
        if self.history.len() > 0 {
            let mut first = self.history.remove(0);
            first.content = self.system_prompt.clone();
            self.history.insert(0, first);
            assert(self.history() =~= h0.update(0, with_content(h0[0], self.system_prompt@)));
        }
        let ghost h1 = self.history();
        match docs {
            Some(d) => {
                if d.len() > 0 && self.history.len() > 0 {
                    let mut tuples: Vec<(String, Option<String>, String)> = Vec::new();
                    let mut i: usize = 0;
                    while i < d.len()
                        invariant
                            i <= d.len(),
                            tuples@.len() == i,
                            forall|k: int|
                                0 <= k < i ==> doc_view(#[trigger] tuples@[k]) == doc_views(d@)[k],
                        decreases d.len() - i,
                    {
                        let path = match &d[i].path {
                            Some(p) => Some(p.clone()),
                            None => None,
                        };
                        tuples.push((d[i].name.clone(), path, d[i].content.clone()));
                        i += 1;
                    }
                    proof {
                        assert(tuples@.map_values(|t: (String, Option<String>, String)| doc_view(t)) =~= doc_views(
                            d@,
                        ));
                    }
                    let ghost hb = self.history@;
                    inject_documents_to_system_prompt(&mut self.history, tuples.as_slice());
                    proof {
                        if doc_parts(doc_views(d@)).len() > 0 {
                            assert(self.history() =~= h1.update(
                                0,
                                with_content(h1[0], self.system_prompt@ + doc_block(doc_views(d@))),
                            ));
                        } else {
                            assert(self.history@ == hb);
                        }
                    }
                }
            },
            None => {},
        }
        let ghost with_docs = match ds {
            Some(dd) => if dd.len() > 0 && doc_parts(doc_views(dd)).len() > 0 {
                self.system_prompt@ + doc_block(doc_views(dd))
            } else {
                self.system_prompt@
            },
            None => self.system_prompt@,
        };
        assert(h0.len() > 0 ==> self.history() == h0.update(0, with_content(h0[0], with_docs)));
        assert(h0.len() == 0 ==> self.history() == h0);
        let sheets = has_excel_docs(docs);
        match build_excel_analysis_guidance(user_content, sheets) {
            Some(g) => {
                if self.history.len() > 0 {
                    let ghost h2 = self.history();
                    let mut first = self.history.remove(0);
                    let mut content = chars_of(first.content.as_str());
                    push_chars(&mut content, &chars_of(g.as_str()));
                    first.content = string_of(&content);
                    self.history.insert(0, first);
                    assert(self.history() =~= h2.update(0, with_content(h2[0], h2[0].1 + EXCEL_GUIDANCE@)));
                }
            },
            None => {},
        }
        let ghost h3 = self.history();
        let user = plain("user", string_of(&chars_of(user_content)));
        self.history.push(user);
        assert(self.history() =~= h3.push(plain_message("user"@, user_content@)));
        assert(self.history() =~= turn_start(h0, self.system_prompt@, user_content@, ds));
    }

    /// Drops the last message: the user message of a turn whose model could
    /// not be resolved.
    pub fn provider_failed(&mut self)
        ensures
            final(self).system_prompt() == old(self).system_prompt(),
            final(self).history() == if old(self).history().len() > 0 {
                old(self).history().drop_last()
            } else {
                old(self).history()
            },
    {
        let ghost h = self.history();
        if self.history.len() > 0 {
            self.history.pop();
            assert(self.history() =~= h.drop_last());
        }
    }

    /// Hands the conversation to an agent turn, leaving it empty.
    pub fn take_history(&mut self) -> (r: Vec<ChatMessage>)
        ensures
            messages_view(r@) == old(self).history(),
            final(self).history().len() == 0,
            final(self).system_prompt() == old(self).system_prompt(),
    {
        let mut r: Vec<ChatMessage> = Vec::new();
        std::mem::swap(&mut r, &mut self.history);
        assert(messages_view(self.history@) =~= Seq::<MessageView>::empty());
        r
    }

    /// Takes back the conversation an agent turn ended with.
    pub fn put_history(&mut self, history: Vec<ChatMessage>)
        ensures
            final(self).history() == messages_view(history@),
            final(self).system_prompt() == old(self).system_prompt(),
    {
        self.history = history;
    }

    /// Handles a fired reminder: one for another user is ignored; one for the
    /// connection's user is announced, and a one-time reminder with an action
    /// also appends the action as a user message, to be answered by a turn of
    /// at most [`REMINDER_MAX_TURNS`] model calls.
    pub fn on_reminder(&mut self, user_id: &str, reminder: &Reminder) -> (r: ReminderStep)
        ensures
            final(self).system_prompt() == old(self).system_prompt(),
            reminder.user_id@ != user_id@ ==> (r is Ignore && final(self).history() == old(self).history()),
            reminder.user_id@ == user_id@ ==> match r {
                ReminderStep::Ignore => false,
                ReminderStep::Notify(out) => {
                    &&& announces(out, reminder)
                    &&& !(reminder.cron_job_id is None && reminder.action is Some)
                    &&& final(self).history() == old(self).history()
                },
                ReminderStep::NotifyAndRun(out) => {
                    &&& announces(out, reminder)
                    &&& reminder.cron_job_id is None
                    &&& reminder.action matches Some(a) && final(self).history() == old(self).history().push(
                        plain_message("user"@, a@),
                    )
                },
            },
    {
        if !chars_eq(&chars_of(reminder.user_id.as_str()), &chars_of(user_id)) {
            return ReminderStep::Ignore;
        }
        let out = WsOutput::Reminder {
            id: reminder.id.clone(),
            message: reminder.message.clone(),
            fire_at: reminder.fire_at.clone(),
        };
        if reminder.cron_job_id.is_none() {
            match &reminder.action {
                Some(a) => {
                    let ghost h = self.history();
                    self.history.push(plain("user", a.clone()));
                    assert(self.history() =~= h.push(plain_message("user"@, a@)));
                    return ReminderStep::NotifyAndRun(out);
                },
                None => {},
            }
        }
        ReminderStep::Notify(out)
    }
}

/// `out` announces `reminder` to the client: its id, message and fire time.
pub open spec fn announces(out: WsOutput, reminder: &Reminder) -> bool {
    out matches WsOutput::Reminder { id, message, fire_at } && id@ == reminder.id@ && message@
        == reminder.message@ && fire_at@ == reminder.fire_at@
}

/// What a fired reminder leads to on a connection.
pub enum ReminderStep {
    /// The reminder is for another user.
    Ignore,
    /// Send the announcement.
    Notify(WsOutput),
    /// Send the announcement, then run a turn on the appended action.
    NotifyAndRun(WsOutput),
}

/// A turn whose model could not be resolved leaves the conversation as it
/// was but for the system prompt of the turn: the messages after the first
/// are those before the user message was added.
pub proof fn lemma_failed_turn_keeps_conversation(
    h: Seq<MessageView>,
    system_prompt: Seq<char>,
    user: Seq<char>,
    docs: Option<Seq<ContextDocument>>,
)
    ensures
        turn_start(h, system_prompt, user, docs).drop_last().len() == h.len(),
        turn_start(h, system_prompt, user, docs).drop_last().skip(1) == h.skip(1),
{
    if h.len() == 0 {
        assert(turn_start(h, system_prompt, user, docs).drop_last() =~= h);
    } else {
        assert(turn_start(h, system_prompt, user, docs).drop_last().skip(1) =~= h.skip(1));
    }
}

/// An agent run kept apart from the connection that started it: the events
/// it produced, in order, for a reconnecting client to replay, the live
/// feeds of the clients attached to it, whether it is still going, and the
/// conversation it finished with.
///
/// Each attached client has a feed: the position up to which the events
/// have been handed to it. Attaching hands out the events so far as a
/// snapshot; receiving hands out the events produced since, so a client
/// sees every event once, in order.
pub struct RunningTask {
    start_message: String,
    events: Vec<String>,
    feeds: Vec<usize>,
    running: bool,
    final_history: Option<Vec<ChatMessage>>,
}

/// Handing out the snapshot and then each later piece of a feed gives every
/// event up to the last position exactly once, in order.
pub proof fn lemma_feed_hands_each_event_once(events: Seq<Seq<char>>, positions: Seq<int>)
    requires
        positions.len() > 0,
        forall|i: int, j: int|
            0 <= i <= j < positions.len() ==> 0 <= #[trigger] positions[i] <= #[trigger] positions[j] <= events.len(),
    ensures
        feed_pieces(events, positions) == events.take(positions.last()),
    decreases positions.len(),
{
    if positions.len() > 1 {
        lemma_feed_hands_each_event_once(events, positions.drop_last());
        assert(positions.drop_last().last() == positions[positions.len() - 2]);
        assert(events.take(positions[positions.len() - 2]) + events.subrange(positions[positions.len() - 2],
            positions.last()) =~= events.take(positions.last()));
    }
}

/// What a feed hands out when it is at the positions `positions` in turn:
/// the snapshot up to the first, then the events between each position and
/// the next.
pub open spec fn feed_pieces(events: Seq<Seq<char>>, positions: Seq<int>) -> Seq<Seq<char>>
    decreases positions.len(),
{
    if positions.len() <= 1 {
        if positions.len() == 1 {
            events.take(positions[0])
        } else {
            seq![]
        }
    } else {
        feed_pieces(events, positions.drop_last()) + events.subrange(
            positions[positions.len() - 2],
            positions.last(),
        )
    }
}

impl RunningTask {
    /// Every feed stands within the events produced; each operation keeps it.
    pub open spec fn wf(&self) -> bool {
        forall|i: int| 0 <= i < self.feeds().len() ==> #[trigger] self.feeds()[i] <= self.events().len()
    }

    /// The position of each attached client's feed: how many events it has
    /// been handed.
    pub closed spec fn feeds(&self) -> Seq<nat> {
        self.feeds@.map_values(|p: usize| p as nat)
    }

    /// The user message that started the run.
    pub closed spec fn start_text(&self) -> Seq<char> {
        self.start_message@
    }

    /// The user message that started the run.
    pub fn start_message(&self) -> (r: &String)
        ensures
            r@ == self.start_text(),
    {
        &self.start_message
    }

    /// The events produced so far, in order.
    pub closed spec fn events(&self) -> Seq<Seq<char>> {
        self.events@.map_values(|e: String| e@)
    }

    /// The run is still going.
    pub closed spec fn running(&self) -> bool {
        self.running
    }

    /// The conversation the run finished with, until it is taken.
    pub closed spec fn final_history(&self) -> Option<Seq<MessageView>> {
        match self.final_history {
            Some(h) => Some(messages_view(h@)),
            None => None,
        }
    }

    /// A run that is going, with no events and no final conversation.
    pub fn new(start_message: String) -> (r: Self)
        ensures
            r.start_text() == start_message@,
            r.events().len() == 0,
            r.running(),
            r.final_history() is None,
            r.feeds().len() == 0,
    {
        let r = RunningTask { start_message, events: Vec::new(), feeds: Vec::new(), running: true, final_history: None };
        assert(r.events() =~= Seq::<Seq<char>>::empty());
        assert(r.feeds() =~= Seq::<nat>::empty());
        r
    }

    /// Records an event; it reaches every attached client's feed.
    pub fn emit(&mut self, json: String)
        ensures
            final(self).events() == old(self).events().push(json@),
            final(self).feeds() == old(self).feeds(),
            final(self).running() == old(self).running(),
            final(self).final_history() == old(self).final_history(),
            final(self).start_text() == old(self).start_text(),
    {
        let ghost before = self.events();
        self.events.push(json);
        assert(self.events() =~= before.push(json@));
    }

    /// Attaches a client: the events produced so far as a snapshot, and a
    /// new feed, numbered after the existing ones, that stands right after
    /// them.
    pub fn attach(&mut self) -> (r: (usize, Vec<String>))
        requires
            old(self).wf(),
        ensures
            final(self).wf(),
            r.0 == old(self).feeds().len(),
            r.1@.map_values(|e: String| e@) == old(self).events(),
            final(self).feeds() == old(self).feeds().push(old(self).events().len()),
            final(self).events() == old(self).events(),
            final(self).running() == old(self).running(),
            final(self).final_history() == old(self).final_history(),
            final(self).start_text() == old(self).start_text(),
    {
        let mut out: Vec<String> = Vec::new();
        let mut i: usize = 0;
        while i < self.events.len()
            invariant
                i <= self.events@.len(),
                out@ == self.events@.take(i as int),
            decreases self.events@.len() - i,
        {
            out.push(self.events[i].clone());
            assert(out@ =~= self.events@.take(i + 1));
            i += 1;
        }
        assert(self.events@.take(i as int) =~= self.events@);
        let id = self.feeds.len();
        let ghost before = self.feeds();
        let n = self.events.len();
        self.feeds.push(n);
        assert(self.feeds() =~= before.push(n as nat));
        (id, out)
    }

    /// The events produced since the feed `feed` was last handed any, in
    /// order; afterwards the feed stands after all of them. `None` for a feed
    /// that does not exist.
    pub fn receive(&mut self, feed: usize) -> (r: Option<Vec<String>>)
        requires
            old(self).wf(),
        ensures
            final(self).wf(),
            feed >= old(self).feeds().len() ==> r is None && final(self).feeds() == old(self).feeds(),
            feed < old(self).feeds().len() ==> (r matches Some(v) && v@.map_values(|e: String| e@)
                == old(self).events().subrange(old(self).feeds()[feed as int] as int, old(self).events().len() as int)
                && final(self).feeds() == old(self).feeds().update(feed as int, old(self).events().len())),
            old(self).feeds().len() == final(self).feeds().len(),
            final(self).events() == old(self).events(),
            final(self).running() == old(self).running(),
            final(self).final_history() == old(self).final_history(),
            final(self).start_text() == old(self).start_text(),
    {
        if feed >= self.feeds.len() {
            return None;
        }
        let from = self.feeds[feed];
        assert(self.feeds()[feed as int] == from as nat);
        let mut out: Vec<String> = Vec::new();
        let mut i: usize = from;
        while i < self.events.len()
            invariant
                from <= i <= self.events@.len(),
                out@.map_values(|e: String| e@) == self.events().subrange(from as int, i as int),
            decreases self.events@.len() - i,
        {
            let ghost before = out@;
            let e = self.events[i].clone();
            out.push(e);
            assert(out@ == before.push(e));
            assert(out@.map_values(|e: String| e@) =~= before.map_values(|e: String| e@).push(e@));
            assert(self.events().subrange(from as int, i + 1) =~= self.events().subrange(from as int, i as int).push(
                self.events()[i as int],
            ));
            i += 1;
        }
        let n = self.events.len();
        let ghost before = self.feeds();
        self.feeds.set(feed, n);
        assert(self.feeds() =~= before.update(feed as int, n as nat));
        Some(out)
    }

    /// The run is still going.
    pub fn is_running(&self) -> (r: bool)
        ensures
            r == self.running(),
    {
        self.running
    }

    /// Marks the run as over.
    pub fn set_finished(&mut self)
        ensures
            !final(self).running(),
            final(self).events() == old(self).events(),
            final(self).final_history() == old(self).final_history(),
            final(self).feeds() == old(self).feeds(),
            final(self).start_text() == old(self).start_text(),
    {
        self.running = false;
    }

    /// Stops the run: true when it was going, in which case the caller
    /// aborts its task. Afterwards the run is over.
    pub fn abort(&mut self) -> (r: bool)
        ensures
            r == old(self).running(),
            !final(self).running(),
            final(self).events() == old(self).events(),
            final(self).final_history() == old(self).final_history(),
            final(self).feeds() == old(self).feeds(),
            final(self).start_text() == old(self).start_text(),
    {
        if !self.running {
            return false;
        }
        self.running = false;
        true
    }

    /// Keeps the conversation the run finished with.
    pub fn set_final_history(&mut self, history: Vec<ChatMessage>)
        ensures
            final(self).final_history() == Some(messages_view(history@)),
            final(self).events() == old(self).events(),
            final(self).running() == old(self).running(),
            final(self).feeds() == old(self).feeds(),
            final(self).start_text() == old(self).start_text(),
    {
        self.final_history = Some(history);
    }

    /// Hands out the finished conversation once: later calls get `None`.
    pub fn take_final_history(&mut self) -> (r: Option<Vec<ChatMessage>>)
        ensures
            match r {
                Some(h) => old(self).final_history() == Some(messages_view(h@)),
                None => old(self).final_history() is None,
            },
            final(self).final_history() is None,
            final(self).events() == old(self).events(),
            final(self).running() == old(self).running(),
            final(self).feeds() == old(self).feeds(),
            final(self).start_text() == old(self).start_text(),
    {
        let mut taken: Option<Vec<ChatMessage>> = None;
        std::mem::swap(&mut taken, &mut self.final_history);
        taken
    }
}

/// How long a finished run is kept for reconnecting clients, in seconds.
pub const FINISHED_TASK_RETENTION_SECS: u64 = 3600;

/// A run is kept while it is going or for an hour after it started.
pub fn task_retained(running: bool, age_secs: u64) -> (r: bool)
    ensures
        r == (running || age_secs < FINISHED_TASK_RETENTION_SECS),
{
    running || age_secs < FINISHED_TASK_RETENTION_SECS
}

} // verus!
