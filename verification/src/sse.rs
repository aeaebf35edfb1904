//! Decoding of a streamed chat-completion response: server-sent events are
//! framed out of the byte stream, their `data:` payloads handed over, and the
//! parsed deltas turned into stream chunks, assembling tool calls that arrive
//! in fragments.
use vstd::prelude::*;
use crate::llm::{opt_text, StreamChunk, Usage};
use crate::text::{chars_of, find_from, line_pieces, occurs_at, push_chars, starts_with, string_of};

verus! {

/// `p` without one trailing carriage return.
pub open spec fn strip_cr(p: Seq<char>) -> Seq<char> {
    if p.len() > 0 && p.last() == '\r' { p.drop_last() } else { p }
}

/// The lines of `s` as `str::lines` gives them: split at `\n`, a `\r` before
/// a `\n` dropped, no empty last line after a final `\n`.
pub open spec fn std_lines(s: Seq<char>) -> Seq<Seq<char>> {
    let pieces = line_pieces(s);
    Seq::new(pieces.len(), |i: int| if i < pieces.len() - 1 || s.last() == '\n' { strip_cr(pieces[i]) } else { pieces[i] })
}

/// The payload of a `data:` line, with or without a space after the colon.
pub open spec fn data_of(line: Seq<char>) -> Option<Seq<char>> {
    if starts_with(line, "data: "@) {
        Some(line.skip(6))
    } else if starts_with(line, "data:"@) {
        Some(line.skip(5))
    } else {
        None
    }
}

/// The payloads of the `data:` lines of an event, in order.
pub open spec fn event_payloads(lines: Seq<Seq<char>>) -> Seq<Seq<char>>
    decreases lines.len(),
{
    if lines.len() == 0 {
        seq![]
    } else {
        let prev = event_payloads(lines.drop_last());
        match data_of(lines.last()) {
            Some(d) => prev.push(d),
            None => prev,
        }
    }
}

/// Splits complete events, each ended by a blank line, off the front of `b`:
/// their payloads in order, and what is left for later.
pub open spec fn frame(b: Seq<char>) -> (Seq<Seq<char>>, Seq<char>)
    decreases b.len(),
{
    match find_from(b, "\n\n"@, 0) {
        None => (seq![], b),
        Some(p) => {
            proof {
                crate::text::lemma_find_from_correct(b, "\n\n"@, 0);
                reveal_strlit("\n\n");
            }
            let rest = frame(b.skip(p + 2));
            (event_payloads(std_lines(b.take(p))) + rest.0, rest.1)
        },
    }
}

/// The framing state of a response stream.
pub struct SseFramer {
    buffer: Vec<char>,
}

impl SseFramer {
    /// Text received but not yet part of a complete event.
    pub closed spec fn pending(&self) -> Seq<char> {
        self.buffer@
    }

    pub fn new() -> (r: Self)
        ensures
            r.pending().len() == 0,
    {
        SseFramer { buffer: Vec::new() }
    }

    /// Takes more text of the stream; returns the payloads of the events it
    /// completes.
    pub fn push_text(&mut self, text: &str) -> (r: Vec<String>)
        ensures
            r@.map_values(|s: String| s@) == frame(old(self).pending() + text@).0,
            final(self).pending() == frame(old(self).pending() + text@).1,
    {
        push_chars(&mut self.buffer, &chars_of(text));
        let ghost all = self.buffer@;
        let sep = chars_of("\n\n");
        proof {
            reveal_strlit("\n\n");
        }
        let mut out: Vec<String> = Vec::new();
        loop
            invariant
                sep@ == "\n\n"@,
                sep@.len() == 2,
                all == old(self).pending() + text@,
                out@.map_values(|s: String| s@) + frame(self.buffer@).0 == frame(all).0,
                frame(self.buffer@).1 == frame(all).1,
            ensures
                out@.map_values(|s: String| s@) == frame(all).0,
                self.buffer@ == frame(all).1,
            decreases self.buffer@.len(),
        {
            match crate::text::find_from_exec(&self.buffer, &sep, 0) {
                None => {
                    assert(frame(self.buffer@).0 =~= Seq::<Seq<char>>::empty());
                    assert(out@.map_values(|s: String| s@) + seq![] =~= out@.map_values(|s: String| s@));
                    break;
                },
                Some(p) => {
                    proof {
                        crate::text::lemma_find_from_correct(self.buffer@, sep@, 0);
                    }
                    let len = self.buffer.len();
                    assert(p + 2 <= len);
                    let event = slice(&self.buffer, 0, p);
                    let rest = slice(&self.buffer, p + 2, len);
                    assert(event@ =~= self.buffer@.take(p as int));
                    assert(rest@ =~= self.buffer@.skip(p + 2));
                    let payloads = event_data(&event);
                    let ghost before = out@.map_values(|s: String| s@);
                    let mut k: usize = 0;
                    while k < payloads.len()
                        invariant
                            k <= payloads@.len(),
                            out@.map_values(|s: String| s@) == before + payloads@.take(k as int).map_values(
                                |v: Vec<char>| v@),
                        decreases payloads.len() - k,
                    {
                        let ghost o = out@;
                        out.push(string_of(&payloads[k]));
                        assert(out@.map_values(|s: String| s@) =~= o.map_values(|s: String| s@).push(payloads@[k as int]@));
                        assert(payloads@.take(k + 1).map_values(|v: Vec<char>| v@) =~= payloads@.take(k as int).map_values(
                            |v: Vec<char>| v@).push(payloads@[k as int]@));
                        k += 1;
                    }
                    assert(payloads@.take(payloads@.len() as int) =~= payloads@);
                    let ghost b = self.buffer@;
                    self.buffer = rest;
                    assert(before + event_payloads(std_lines(b.take(p as int))) + frame(self.buffer@).0 =~= before
                        + (event_payloads(std_lines(b.take(p as int))) + frame(self.buffer@).0));
                },
            }
        }
        out
    }
}

/// `s[a..b]` as a vector.
fn slice(s: &Vec<char>, a: usize, b: usize) -> (r: Vec<char>)
    requires
        a <= b <= s.len(),
    ensures
        r@ == s@.subrange(a as int, b as int),
{
    let mut r: Vec<char> = Vec::new();
    let mut i = a;
    while i < b
        invariant
            a <= i <= b <= s.len(),
            r@ == s@.subrange(a as int, i as int),
        decreases b - i,
    {
        r.push(s[i]);
        assert(s@.subrange(a as int, i + 1) =~= s@.subrange(a as int, i as int).push(s@[i as int]));
        i += 1;
    }
    r
}

/// The payloads of the `data:` lines of one event.
fn event_data(event: &Vec<char>) -> (r: Vec<Vec<char>>)
    ensures
        r@.map_values(|v: Vec<char>| v@) == event_payloads(std_lines(event@)),
{
    let pieces = crate::text::lines_chars(event);
    let ghost ls = std_lines(event@);
    let with_space = chars_of("data: ");
    let bare = chars_of("data:");
    proof {
        reveal_strlit("data: ");
        reveal_strlit("data:");
    }
    let n = pieces.len();
    let mut out: Vec<Vec<char>> = Vec::new();
    let mut i: usize = 0;
    assert(ls.take(0) =~= Seq::<Seq<char>>::empty());
    while i < n
        invariant
            i <= n == pieces@.len(),
            n == line_pieces(event@).len(),
            ls == std_lines(event@),
            forall|k: int| 0 <= k < n ==> #[trigger] pieces@[k]@ == line_pieces(event@)[k],
            with_space@ == "data: "@,
            with_space@.len() == 6,
            bare@ == "data:"@,
            bare@.len() == 5,
            out@.map_values(|v: Vec<char>| v@) == event_payloads(ls.take(i as int)),
        decreases n - i,
    {
        let p = &pieces[i];
        let terminated = i + 1 < n || event[event.len() - 1] == '\n';
        let line = if terminated && p.len() > 0 && p[p.len() - 1] == '\r' {
            slice(p, 0, p.len() - 1)
        } else {
            slice(p, 0, p.len())
        };
        assert(line@ == ls[i as int]) by {
            assert(p@.subrange(0, p@.len() as int) =~= p@);
            assert(p@.len() > 0 ==> p@.subrange(0, p@.len() - 1) =~= p@.drop_last());
        }
        assert(ls.take(i + 1).drop_last() =~= ls.take(i as int));
        if crate::text::occurs_at_exec(&line, &with_space, 0) {
            let d = slice(&line, 6, line.len());
            assert(d@ =~= line@.skip(6));
            let ghost o = out@;
            out.push(d);
            assert(out@.map_values(|v: Vec<char>| v@) =~= o.map_values(|v: Vec<char>| v@).push(line@.skip(6)));
        } else if crate::text::occurs_at_exec(&line, &bare, 0) {
            let d = slice(&line, 5, line.len());
            assert(d@ =~= line@.skip(5));
            let ghost o = out@;
            out.push(d);
            assert(out@.map_values(|v: Vec<char>| v@) =~= o.map_values(|v: Vec<char>| v@).push(line@.skip(5)));
        }
        i += 1;
    }
    assert(ls.take(n as int) =~= ls);
    out
}

/// A stream chunk by its content.
pub enum ChunkView {
    Delta(Seq<char>),
    ToolCallDelta(Seq<char>, Seq<char>, Seq<char>),
    ReasoningDelta(Seq<char>),
    Done(i32, i32, i32),
}

impl View for StreamChunk {
    type V = ChunkView;

    open spec fn view(&self) -> ChunkView {
        match self {
            StreamChunk::Delta(t) => ChunkView::Delta(t@),
            StreamChunk::ToolCallDelta(i, n, a) => ChunkView::ToolCallDelta(i@, n@, a@),
            StreamChunk::ReasoningDelta(t) => ChunkView::ReasoningDelta(t@),
            StreamChunk::Done(u) => ChunkView::Done(u.prompt_tokens, u.completion_tokens, u.total_tokens),
        }
    }
}

/// The views of a list of chunks.
pub open spec fn chunks_view(v: Seq<StreamChunk>) -> Seq<ChunkView> {
    v.map_values(|c: StreamChunk| c@)
}

/// A tool-call fragment of a streamed delta.
pub struct ToolCallFragment {
    pub index: Option<i32>,
    pub id: Option<String>,
    pub name: Option<String>,
    pub arguments: Option<String>,
}

/// One choice of a streamed delta.
pub struct ChoiceDelta {
    pub content: Option<String>,
    pub reasoning_content: Option<String>,
    pub tool_calls: Option<Vec<ToolCallFragment>>,
    pub finish_reason: Option<String>,
}

/// A parsed `data:` payload of the stream.
pub struct StreamEvent {
    pub choices: Vec<ChoiceDelta>,
    /// Prompt, completion and total tokens, when reported.
    pub usage: Option<(i32, i32, i32)>,
}

/// A tool call being assembled: slot index, id, name, arguments, and how many
/// characters of the arguments were already handed on.
pub type SlotView = (i32, Seq<char>, Seq<char>, Seq<char>, nat);

/// A fragment by its slot, id, name and arguments.
pub type FragmentView = (i32, Option<Seq<char>>, Option<Seq<char>>, Option<Seq<char>>);

pub open spec fn fragment_view(f: ToolCallFragment) -> FragmentView {
    (match f.index {
        Some(i) => i,
        None => 0,
    }, opt_text(f.id), opt_text(f.name), opt_text(f.arguments))
}

/// Position of the slot with index `idx`.
pub open spec fn slot_index(slots: Seq<SlotView>, idx: i32) -> Option<int> {
    if exists|k: int| 0 <= k < slots.len() && slots[k].0 == idx {
        Some(choose|k: int| 0 <= k < slots.len() && slots[k].0 == idx)
    } else {
        None
    }
}

/// Slots have distinct indexes and never hand on more than they hold.
pub open spec fn slots_wf(slots: Seq<SlotView>) -> bool {
    &&& forall|i: int, j: int| 0 <= i < j < slots.len() ==> slots[i].0 != slots[j].0
    &&& forall|i: int| 0 <= i < slots.len() ==> #[trigger] slots[i].4 <= slots[i].3.len()
}

/// Applies a fragment to its slot: a non-empty id replaces the slot's id, a
/// non-empty name is appended to its name, arguments are appended. Once the
/// slot has an id and a name, the arguments not yet handed on go out as one
/// tool-call chunk.
pub open spec fn apply_fragment(slots: Seq<SlotView>, f: FragmentView) -> (Seq<SlotView>, Seq<ChunkView>) {
    let k = match slot_index(slots, f.0) {
        Some(k) => k,
        None => slots.len() as int,
    };
    let b = if k < slots.len() { slots[k] } else { (f.0, seq![], seq![], seq![], 0nat) };
    let id = match f.1 {
        Some(i) => if i.len() > 0 { i } else { b.1 },
        None => b.1,
    };
    let name = match f.2 {
        Some(n) => if n.len() > 0 { b.2 + n } else { b.2 },
        None => b.2,
    };
    let args = match f.3 {
        Some(a) => b.3 + a,
        None => b.3,
    };
    let fire = id.len() > 0 && name.len() > 0 && args.len() > b.4;
    let nb = (f.0, id, name, args, if fire { args.len() } else { b.4 });
    (if k < slots.len() { slots.update(k, nb) } else { slots.push(nb) }, if fire {
        seq![ChunkView::ToolCallDelta(id, name, args.skip(b.4 as int))]
    } else {
        seq![]
    })
}

/// Applies fragments in order.
pub open spec fn apply_fragments(slots: Seq<SlotView>, fs: Seq<FragmentView>) -> (Seq<SlotView>, Seq<ChunkView>)
    decreases fs.len(),
{
    if fs.len() == 0 {
        (slots, seq![])
    } else {
        let prev = apply_fragments(slots, fs.drop_last());
        let step = apply_fragment(prev.0, fs.last());
        (step.0, prev.1 + step.1)
    }
}

/// The tool-call fragments of a choice.
pub open spec fn choice_fragments(c: ChoiceDelta) -> Seq<FragmentView> {
    match c.tool_calls {
        Some(v) => v@.map_values(|f: ToolCallFragment| fragment_view(f)),
        None => seq![],
    }
}

/// The chunks of one choice: text, reasoning, assembled tool calls, and the
/// end of the response when the choice finishes with `stop` or `tool_calls`.
pub open spec fn apply_choice(slots: Seq<SlotView>, c: ChoiceDelta, usage: Option<(i32, i32, i32)>) -> (Seq<SlotView>, Seq<ChunkView>) {
    let tools = apply_fragments(slots, choice_fragments(c));
    (tools.0, choice_text(c) + choice_reasoning(c) + tools.1 + choice_done(c, usage))
}

/// The text chunk of a choice.
pub open spec fn choice_text(c: ChoiceDelta) -> Seq<ChunkView> {
    match c.content {
        Some(t) => seq![ChunkView::Delta(t@)],
        None => seq![],
    }
}

/// The reasoning chunk of a choice.
pub open spec fn choice_reasoning(c: ChoiceDelta) -> Seq<ChunkView> {
    match c.reasoning_content {
        Some(t) => seq![ChunkView::ReasoningDelta(t@)],
        None => seq![],
    }
}

/// The end-of-response chunk of a choice that finishes with `stop` or
/// `tool_calls`, with the reported usage or zeros.
pub open spec fn choice_done(c: ChoiceDelta, usage: Option<(i32, i32, i32)>) -> Seq<ChunkView> {
    match c.finish_reason {
        Some(r) => if r@ == "stop"@ || r@ == "tool_calls"@ {
            match usage {
                Some(u) => seq![ChunkView::Done(u.0, u.1, u.2)],
                None => seq![ChunkView::Done(0, 0, 0)],
            }
        } else {
            seq![]
        },
        None => seq![],
    }
}

/// The chunks of a parsed payload, choice by choice.
pub open spec fn apply_choices(slots: Seq<SlotView>, cs: Seq<ChoiceDelta>, usage: Option<(i32, i32, i32)>) -> (Seq<SlotView>, Seq<ChunkView>)
    decreases cs.len(),
{
    if cs.len() == 0 {
        (slots, seq![])
    } else {
        let prev = apply_choices(slots, cs.drop_last(), usage);
        let step = apply_choice(prev.0, cs.last(), usage);
        (step.0, prev.1 + step.1)
    }
}

pub open spec fn slot_view_of(s: (i32, Vec<char>, Vec<char>, Vec<char>, usize)) -> SlotView {
    (s.0, s.1@, s.2@, s.3@, s.4 as nat)
}

/// Tool calls being assembled across the payloads of one response.
pub struct DeltaAssembler {
    slots: Vec<(i32, Vec<char>, Vec<char>, Vec<char>, usize)>,
}

impl DeltaAssembler {
    pub closed spec fn slots(&self) -> Seq<SlotView> {
        self.slots@.map_values(|s: (i32, Vec<char>, Vec<char>, Vec<char>, usize)| slot_view_of(s))
    }

    pub closed spec fn wf(&self) -> bool {
        slots_wf(self.slots())
    }

    pub fn new() -> (r: Self)
        ensures
            r.wf(),
            r.slots().len() == 0,
    {
        let r = DeltaAssembler { slots: Vec::new() };
        assert(r.slots() =~= Seq::<SlotView>::empty());
        r
    }

    fn find_slot(&self, idx: i32) -> (r: Option<usize>)
        requires
            self.wf(),
        ensures
            r matches Some(k) ==> k < self.slots@.len() && slot_index(self.slots(), idx) == Some(k as int),
            r is None ==> slot_index(self.slots(), idx) is None,
    {
        let mut k: usize = 0;
        while k < self.slots.len()
            invariant
                k <= self.slots@.len(),
                self.wf(),
                forall|j: int| 0 <= j < k ==> self.slots()[j].0 != idx,
            decreases self.slots.len() - k,
        {
            if self.slots[k].0 == idx {
                proof {
                    let sl = self.slots();
                    assert(sl[k as int].0 == idx);
                    let c = choose|c: int| 0 <= c < sl.len() && sl[c].0 == idx;
                    if c != k as int {
                        if c < k as int {
                            assert(sl[c].0 != sl[k as int].0);
                        } else {
                            assert(sl[k as int].0 != sl[c].0);
                        }
                    }
                }
                return Some(k);
            }
            k += 1;
        }
        None
    }

    fn apply_one(&mut self, f: &ToolCallFragment, out: &mut Vec<StreamChunk>)
        requires
            old(self).wf(),
        ensures
            final(self).wf(),
            final(self).slots() == apply_fragment(old(self).slots(), fragment_view(*f)).0,
            chunks_view(final(out)@) == chunks_view(old(out)@) + apply_fragment(old(self).slots(), fragment_view(*f)).1,
    {
        let ghost fv = fragment_view(*f);
        let ghost old_slots = self.slots();
        let idx = match f.index {
            Some(i) => i,
            None => 0,
        };
        let found = self.find_slot(idx);
        let (mut id, mut name, mut args, emitted) = match found {
            Some(k) => (self.slots[k].1.clone(), self.slots[k].2.clone(), self.slots[k].3.clone(), self.slots[k].4),
            None => (Vec::new(), Vec::new(), Vec::new(), 0),
        };
        if let Some(i) = &f.id {
            let ic = chars_of(i.as_str());
            if ic.len() > 0 {
                id = ic;
            }
        }
        if let Some(n) = &f.name {
            let nc = chars_of(n.as_str());
            if nc.len() > 0 {
                push_chars(&mut name, &nc);
            }
        }
        if let Some(a) = &f.arguments {
            push_chars(&mut args, &chars_of(a.as_str()));
        }
        let ghost spec_step = apply_fragment(old_slots, fv);
        let fire = id.len() > 0 && name.len() > 0 && args.len() > emitted;
        let new_emitted = if fire { args.len() } else { emitted };
        if fire {
            let rest = slice(&args, emitted, args.len());
            assert(rest@ =~= args@.skip(emitted as int));
            let ghost o = out@;
            out.push(StreamChunk::ToolCallDelta(string_of(&id), string_of(&name), string_of(&rest)));
            assert(chunks_view(out@) =~= chunks_view(o) + spec_step.1);
        } else {
            assert(chunks_view(out@) =~= chunks_view(out@) + spec_step.1);
        }
        let ghost nb = (idx, id@, name@, args@, new_emitted as nat);
        match found {
            Some(k) => {
                self.slots.set(k, (idx, id, name, args, new_emitted));
                assert(self.slots() =~= old_slots.update(k as int, nb));
            },
            None => {
                self.slots.push((idx, id, name, args, new_emitted));
                assert(self.slots() =~= old_slots.push(nb));
            },
        }
        assert(self.slots() == spec_step.0);
    }
    /// Turns a parsed payload into stream chunks, in choice order.
    pub fn on_event(&mut self, ev: &StreamEvent) -> (r: Vec<StreamChunk>)
        requires
            old(self).wf(),
        ensures
            final(self).wf(),
            final(self).slots() == apply_choices(old(self).slots(), ev.choices@, ev.usage).0,
            chunks_view(r@) == apply_choices(old(self).slots(), ev.choices@, ev.usage).1,
    {
        let ghost start = self.slots();
        let mut out: Vec<StreamChunk> = Vec::new();
        let mut i: usize = 0;
        assert(ev.choices@.take(0) =~= Seq::<ChoiceDelta>::empty());
        assert(chunks_view(out@) =~= Seq::<ChunkView>::empty());
        while i < ev.choices.len()
            invariant
                i <= ev.choices@.len(),
                self.wf(),
                self.slots() == apply_choices(start, ev.choices@.take(i as int), ev.usage).0,
                chunks_view(out@) == apply_choices(start, ev.choices@.take(i as int), ev.usage).1,
            decreases ev.choices.len() - i,
        {
            let c = &ev.choices[i];
            assert(ev.choices@.take(i + 1).drop_last() =~= ev.choices@.take(i as int));
            let ghost slots0 = self.slots();
            let ghost out0 = chunks_view(out@);
            let ghost step = apply_choice(slots0, *c, ev.usage);
            if let Some(t) = &c.content {
                out.push(StreamChunk::Delta(t.clone()));
            }
            if let Some(t) = &c.reasoning_content {
                out.push(StreamChunk::ReasoningDelta(t.clone()));
            }
            let ghost out1 = chunks_view(out@);
            assert(out1 =~= out0 + choice_text(*c) + choice_reasoning(*c));
            let ghost fs = choice_fragments(*c);
            assert(fs.take(0) =~= Seq::<FragmentView>::empty());
            if let Some(v) = &c.tool_calls {
                let mut j: usize = 0;
                while j < v.len()
                    invariant
                        j <= v@.len(),
                        self.wf(),
                        fs == v@.map_values(|f: ToolCallFragment| fragment_view(f)),
                        self.slots() == apply_fragments(slots0, fs.take(j as int)).0,
                        chunks_view(out@) == out1 + apply_fragments(slots0, fs.take(j as int)).1,
                    decreases v.len() - j,
                {
                    assert(fs.take(j + 1).drop_last() =~= fs.take(j as int));
                    assert(fs.take(j + 1).last() == fragment_view(v@[j as int]));
                    let ghost before = chunks_view(out@);
                    let ghost prev = apply_fragments(slots0, fs.take(j as int));
                    self.apply_one(&v[j], &mut out);
                    assert(chunks_view(out@) =~= out1 + apply_fragments(slots0, fs.take(j + 1)).1);
                    j += 1;
                }
                assert(fs.take(v@.len() as int) =~= fs);
            } else {
                assert(chunks_view(out@) =~= out1 + apply_fragments(slots0, fs).1);
            }
            let ghost out2 = chunks_view(out@);
            let ghost tools_part = apply_fragments(slots0, fs).1;
            assert(out2 == out1 + tools_part);
            assert(self.slots() == apply_fragments(slots0, fs).0);
            if let Some(reason) = &c.finish_reason {
                let rc = chars_of(reason.as_str());
                if crate::text::chars_eq(&rc, &chars_of("stop")) || crate::text::chars_eq(&rc, &chars_of("tool_calls")) {
                    let u = match ev.usage {
                        Some(u) => Usage { prompt_tokens: u.0, completion_tokens: u.1, total_tokens: u.2 },
                        None => Usage { prompt_tokens: 0, completion_tokens: 0, total_tokens: 0 },
                    };
                    out.push(StreamChunk::Done(u));
                }
            }
            assert(chunks_view(out@) =~= out2 + choice_done(*c, ev.usage));
            assert(chunks_view(out@) =~= out0 + step.1);
            assert(self.slots() == step.0);
            i += 1;
        }
        assert(ev.choices@.take(ev.choices@.len() as int) =~= ev.choices@);
        out
    }
}

/// The payload that ends a response stream.
pub fn is_done_payload(payload: &str) -> (b: bool)
    ensures
        b == (payload@ == "[DONE]"@),
{
    crate::text::chars_eq(&chars_of(payload), &chars_of("[DONE]"))
}

/// What `serde_json` makes of a payload that is no delta: for a JSON object
/// with an `error` member, the error's `message` when it is a string.
pub uninterp spec fn json_error_message(text: Seq<char>) -> Option<Option<Seq<char>>>;

/// Reads `text` with `serde_json::from_str` into a `Value` and looks up
/// `error` and its `message` with `Value::get` and `Value::as_str`.
#[verifier::external_body]
fn error_message_of(text: &str) -> (r: Option<Option<String>>)
    ensures
        json_error_message(text@) == match r {
            Some(Some(m)) => Some(Some(m@)),
            Some(None) => Some(None),
            None => None,
        },
{
    let v = serde_json::from_str::<serde_json::Value>(text).ok()?;
    let err = v.get("error")?;
    Some(err.get("message").and_then(|m| m.as_str()).map(|m| m.to_string()))
}

/// The error a payload that is not a delta reports: `API error:` and the
/// provider's message (or `Unknown API error`); `None` when it reports none.
pub fn api_error_text(payload: &str) -> (r: Option<String>)
    ensures
        match json_error_message(payload@) {
            None => r is None,
            Some(None) => r matches Some(t) && t@ == "API error: Unknown API error"@,
            Some(Some(m)) => r matches Some(t) && t@ == "API error: "@ + m,
        },
{
    match error_message_of(payload) {
        None => None,
        Some(m) => {
            let mut out: Vec<char> = Vec::new();
            crate::text::push_str(&mut out, "API error: ");
            match m {
                Some(t) => crate::text::push_str(&mut out, t.as_str()),
                None => crate::text::push_str(&mut out, "Unknown API error"),
            }
            proof {
                reveal_strlit("API error: ");
                reveal_strlit("Unknown API error");
                reveal_strlit("API error: Unknown API error");
            }
            Some(string_of(&out))
        },
    }
}

/// What `String::from_utf8_lossy` makes of `bytes`.
pub uninterp spec fn utf8_lossy(bytes: Seq<u8>) -> Seq<char>;

/// Decodes bytes with `String::from_utf8_lossy`, which replaces invalid
/// sequences with U+FFFD and decodes valid UTF-8 exactly.
#[verifier::external_body]
pub(crate) fn lossy_text(bytes: &[u8]) -> (r: String)
    ensures
        r@ == utf8_lossy(bytes@),
        vstd::utf8::valid_utf8(bytes@) ==> r@ == vstd::utf8::decode_utf8(bytes@),
{
    String::from_utf8_lossy(bytes).into_owned()
}

impl SseFramer {
    /// Takes the next bytes of the stream; returns the payloads of the events
    /// they complete.
    pub fn push_bytes(&mut self, bytes: &[u8]) -> (r: Vec<String>)
        ensures
            r@.map_values(|s: String| s@) == frame(old(self).pending() + utf8_lossy(bytes@)).0,
            final(self).pending() == frame(old(self).pending() + utf8_lossy(bytes@)).1,
    {
        let text = lossy_text(bytes);
        self.push_text(text.as_str())
    }
}

proof fn lemma_frame_split(x: Seq<char>, y: Seq<char>)
    ensures
        frame(x + y).0 == frame(x).0 + frame(frame(x).1 + y).0,
        frame(x + y).1 == frame(frame(x).1 + y).1,
    decreases x.len(),
{
    reveal_strlit("\n\n");
    crate::text::lemma_find_from_correct(x, "\n\n"@, 0);
    match find_from(x, "\n\n"@, 0) {
        None => {
            assert(frame(x).0 + frame(x + y).0 =~= frame(x + y).0);
        },
        Some(p) => {
            let xy = x + y;
            assert(occurs_at(x, "\n\n"@, p));
            assert forall|j: int| 0 <= j < p implies !occurs_at(xy, "\n\n"@, j) by {
                assert(!occurs_at(x, "\n\n"@, j));
                assert(j + 2 <= x.len());
                assert(xy.subrange(j, j + 2) =~= x.subrange(j, j + 2));
            }
            assert(xy.subrange(p, p + 2) =~= x.subrange(p, p + 2));
            crate::text::lemma_find_first(xy, "\n\n"@, 0, p);
            assert(xy.take(p) =~= x.take(p));
            assert(xy.skip(p + 2) =~= x.skip(p + 2) + y);
            lemma_frame_split(x.skip(p + 2), y);
            let e = event_payloads(std_lines(x.take(p)));
            assert(frame(x + y).0 =~= e + (frame(x.skip(p + 2)).0 + frame(frame(x.skip(p + 2)).1 + y).0));
        },
    }
}

/// Framing does not depend on how the stream is cut into pieces: taking
/// `a` and then `b` gives the payloads and the pending text of taking `a`
/// and `b` at once.
pub proof fn lemma_framing_chunk_independent(pending: Seq<char>, a: Seq<char>, b: Seq<char>)
    ensures
        frame(pending + a).0 + frame(frame(pending + a).1 + b).0 == frame(pending + (a + b)).0,
        frame(frame(pending + a).1 + b).1 == frame(pending + (a + b)).1,
{
    lemma_frame_split(pending + a, b);
    assert(pending + a + b =~= pending + (a + b));
}


/// The arguments a fragment carries.
pub open spec fn fragment_args(f: FragmentView) -> Seq<char> {
    match f.3 {
        Some(a) => a,
        None => seq![],
    }
}

/// The arguments of the fragments for tool call `idx`, concatenated in order.
pub open spec fn args_for(fs: Seq<FragmentView>, idx: i32) -> Seq<char>
    decreases fs.len(),
{
    if fs.len() == 0 {
        seq![]
    } else {
        args_for(fs.drop_last(), idx) + if fs.last().0 == idx {
            fragment_args(fs.last())
        } else {
            seq![]
        }
    }
}

/// The arguments gathered so far for tool call `idx`; none without a slot.
pub open spec fn slot_args(slots: Seq<SlotView>, idx: i32) -> Seq<char> {
    match slot_index(slots, idx) {
        Some(k) => slots[k].3,
        None => seq![],
    }
}

/// No two slots share an index.
pub open spec fn distinct_slots(slots: Seq<SlotView>) -> bool {
    forall|i: int, j: int| 0 <= i < j < slots.len() ==> slots[i].0 != slots[j].0
}

proof fn lemma_slot_index_at(slots: Seq<SlotView>, idx: i32, k: int)
    requires
        distinct_slots(slots),
        0 <= k < slots.len(),
        slots[k].0 == idx,
    ensures
        slot_index(slots, idx) == Some(k),
{
    let c = choose|c: int| 0 <= c < slots.len() && slots[c].0 == idx;
    if c != k {
        if c < k {
            assert(slots[c].0 != slots[k].0);
        } else {
            assert(slots[k].0 != slots[c].0);
        }
    }
}

proof fn lemma_fragment_args(slots: Seq<SlotView>, f: FragmentView, idx: i32)
    requires
        distinct_slots(slots),
    ensures
        distinct_slots(apply_fragment(slots, f).0),
        slot_args(apply_fragment(slots, f).0, idx) == slot_args(slots, idx) + if f.0 == idx {
            fragment_args(f)
        } else {
            seq![]
        },
{
    let s2 = apply_fragment(slots, f).0;
    let k = match slot_index(slots, f.0) {
        Some(k) => k,
        None => slots.len() as int,
    };
    if k < slots.len() {
        assert(slots[k].0 == f.0);
        assert(s2.len() == slots.len());
        assert forall|i: int| 0 <= i < s2.len() implies #[trigger] s2[i].0 == slots[i].0 by {}
    } else {
        assert(forall|c: int| 0 <= c < slots.len() ==> slots[c].0 != f.0);
        assert(s2.len() == slots.len() + 1);
        assert forall|i: int| 0 <= i < slots.len() implies #[trigger] s2[i] == slots[i] by {}
    }
    assert(distinct_slots(s2));
    lemma_slot_index_at(s2, f.0, k);
    if idx == f.0 {
        if k < slots.len() {
            lemma_slot_index_at(slots, f.0, k);
        }
    } else {
        match slot_index(slots, idx) {
            Some(j) => {
                assert(slots[j].0 == idx);
                assert(j != k);
                assert(s2[j] == slots[j]);
                lemma_slot_index_at(s2, idx, j);
            },
            None => {
                assert forall|c: int| 0 <= c < s2.len() implies s2[c].0 != idx by {
                    if c < slots.len() {
                        assert(slots[c].0 != idx);
                    }
                }
                assert(slot_index(s2, idx) is None);
            },
        }
    }
}

/// The arguments of a tool call are the concatenation, in order, of the
/// argument fragments received for its index: each fragment's arguments are
/// appended to the slot of its index and to no other.
pub proof fn lemma_tool_call_arguments_concatenate(slots: Seq<SlotView>, fs: Seq<FragmentView>, idx: i32)
    requires
        slots_wf(slots),
    ensures
        slot_args(apply_fragments(slots, fs).0, idx) == slot_args(slots, idx) + args_for(fs, idx),
        distinct_slots(apply_fragments(slots, fs).0),
    decreases fs.len(),
{
    if fs.len() == 0 {
        assert(slot_args(slots, idx) + args_for(fs, idx) =~= slot_args(slots, idx));
    } else {
        lemma_tool_call_arguments_concatenate(slots, fs.drop_last(), idx);
        let prev = apply_fragments(slots, fs.drop_last()).0;
        lemma_fragment_args(prev, fs.last(), idx);
        assert(slot_args(slots, idx) + args_for(fs.drop_last(), idx) + (if fs.last().0 == idx {
            fragment_args(fs.last())
        } else {
            seq![]
        }) =~= slot_args(slots, idx) + args_for(fs, idx));
    }
}

/// Assembling tool calls does not depend on how the fragments are spread
/// over the payloads: the fragments `a` and then `b` leave the slots and give
/// the chunks that `a + b` at once gives.
pub proof fn lemma_fragments_chunk_independent(slots: Seq<SlotView>, a: Seq<FragmentView>, b: Seq<FragmentView>)
    ensures
        apply_fragments(apply_fragments(slots, a).0, b).0 == apply_fragments(slots, a + b).0,
        apply_fragments(slots, a).1 + apply_fragments(apply_fragments(slots, a).0, b).1 == apply_fragments(
            slots,
            a + b,
        ).1,
    decreases b.len(),
{
    if b.len() == 0 {
        assert(a + b =~= a);
        assert(apply_fragments(slots, a).1 + seq![] =~= apply_fragments(slots, a).1);
    } else {
        lemma_fragments_chunk_independent(slots, a, b.drop_last());
        assert((a + b).drop_last() =~= a + b.drop_last());
        assert((a + b).last() == b.last());
        let mid = apply_fragments(slots, a);
        let pb = apply_fragments(mid.0, b.drop_last());
        let step = apply_fragment(pb.0, b.last());
        assert(mid.1 + (pb.1 + step.1) =~= (mid.1 + pb.1) + step.1);
    }
}

/// A choice that finishes with `tool_calls` ends the response as one that
/// finishes with `stop` does: its chunks end with one `Done` chunk carrying
/// the reported usage, or zeros when none was reported, and it is the only
/// `Done` chunk of the choice.
pub proof fn lemma_finished_choice_ends_with_done(
    slots: Seq<SlotView>,
    c: ChoiceDelta,
    usage: Option<(i32, i32, i32)>,
)
    requires
        c.finish_reason matches Some(r) && (r@ == "stop"@ || r@ == "tool_calls"@),
    ensures
        apply_choice(slots, c, usage).1.len() > 0,
        apply_choice(slots, c, usage).1.last() == match usage {
            Some(u) => ChunkView::Done(u.0, u.1, u.2),
            None => ChunkView::Done(0, 0, 0),
        },
        forall|i: int|
            0 <= i < apply_choice(slots, c, usage).1.len() - 1 ==> !(#[trigger] apply_choice(slots, c, usage).1[i] is Done),
{
    let tools = apply_fragments(slots, choice_fragments(c));
    lemma_fragments_no_done(slots, choice_fragments(c));
    let pre = choice_text(c) + choice_reasoning(c) + tools.1;
    let all = apply_choice(slots, c, usage).1;
    assert(all == pre + choice_done(c, usage));
    assert forall|i: int| 0 <= i < all.len() - 1 implies !(#[trigger] all[i] is Done) by {
        assert(all[i] == pre[i]);
        if i < choice_text(c).len() + choice_reasoning(c).len() {
            assert(pre[i] == (choice_text(c) + choice_reasoning(c))[i]);
        } else {
            assert(pre[i] == tools.1[i - choice_text(c).len() - choice_reasoning(c).len()]);
        }
    }
}

/// Assembling tool calls gives only tool-call chunks.
proof fn lemma_fragments_no_done(slots: Seq<SlotView>, fs: Seq<FragmentView>)
    ensures
        forall|i: int| 0 <= i < apply_fragments(slots, fs).1.len() ==> (#[trigger] apply_fragments(slots, fs).1[i]) is ToolCallDelta,
    decreases fs.len(),
{
    if fs.len() > 0 {
        lemma_fragments_no_done(slots, fs.drop_last());
        let prev = apply_fragments(slots, fs.drop_last());
        let step = apply_fragment(prev.0, fs.last());
        assert forall|i: int| 0 <= i < apply_fragments(slots, fs).1.len() implies (#[trigger] apply_fragments(slots, fs).1[i]) is ToolCallDelta by {
            if i < prev.1.len() {
                assert(apply_fragments(slots, fs).1[i] == prev.1[i]);
            } else {
                assert(apply_fragments(slots, fs).1[i] == step.1[i - prev.1.len()]);
            }
        }
    }
}

/// The chunks of a choice begin with its text, then its reasoning, each as
/// one chunk when present; a choice without a finish reason of `stop` or
/// `tool_calls` gives no `Done` chunk.
pub proof fn lemma_choice_text_first(slots: Seq<SlotView>, c: ChoiceDelta, usage: Option<(i32, i32, i32)>)
    ensures
        c.content matches Some(t) ==> apply_choice(slots, c, usage).1.len() > 0 && apply_choice(slots, c, usage).1[0]
            == ChunkView::Delta(t@),
        c.content is None ==> (c.reasoning_content matches Some(t) ==> apply_choice(slots, c, usage).1.len() > 0
            && apply_choice(slots, c, usage).1[0] == ChunkView::ReasoningDelta(t@)),
        !(c.finish_reason matches Some(r) && (r@ == "stop"@ || r@ == "tool_calls"@)) ==> forall|i: int|
            0 <= i < apply_choice(slots, c, usage).1.len() ==> !(#[trigger] apply_choice(slots, c, usage).1[i] is Done),
{
    let tools = apply_fragments(slots, choice_fragments(c));
    lemma_fragments_no_done(slots, choice_fragments(c));
    let all = apply_choice(slots, c, usage).1;
    let pre = choice_text(c) + choice_reasoning(c);
    assert(all == pre + tools.1 + choice_done(c, usage));
    if !(c.finish_reason matches Some(r) && (r@ == "stop"@ || r@ == "tool_calls"@)) {
        assert(choice_done(c, usage) =~= Seq::<ChunkView>::empty());
        assert forall|i: int| 0 <= i < all.len() implies !(#[trigger] all[i] is Done) by {
            if i < pre.len() {
                assert(all[i] == pre[i]);
            } else {
                assert(all[i] == tools.1[i - pre.len()]);
            }
        }
    }
    if c.content is Some {
        assert(all[0] == pre[0]);
    } else if c.reasoning_content is Some {
        assert(all[0] == pre[0]);
    }
}

} // verus!
