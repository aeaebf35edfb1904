//! System prompt assembly: identity, memory, skills and context files, with
//! context files screened for prompt-injection phrases.
use vstd::prelude::*;
use crate::text::{chars_of, join, push_chars, push_decimal, push_str, string_of, decimal};

verus! {

/// Default agent identity.
pub const AGENT_IDENTITY: &'static str = "You are Jcowork Agent, an intelligent AI assistant. You are helpful, knowledgeable, and direct. You assist users with a wide range of tasks including answering questions, writing and editing code, analyzing information, creative work, and executing actions via your tools. You communicate clearly, admit uncertainty when appropriate, and prioritize being genuinely useful over being verbose unless otherwise directed below.";

/// Guidance on the persistent memory.
pub const MEMORY_GUIDANCE: &'static str = "You have persistent memory across sessions. Save durable facts using the memory tool: user preferences, environment details, tool quirks, and stable conventions. Memory is injected into every turn, so keep it compact and focused on facts that will still matter later.\nPrioritize what reduces future user steering — the most valuable memory is one that prevents the user from having to correct or remind you again.\nDo NOT save task progress, session outcomes, completed-work logs, or temporary TODO state to memory.\nWrite memories as declarative facts, not instructions to yourself. 'User prefers concise responses' — not 'Always respond concisely'.";

/// Guidance on skills.
pub const SKILLS_GUIDANCE: &'static str = "After completing a complex task (5+ tool calls), fixing a tricky error, or discovering a non-trivial workflow, save the approach as a skill with skill_manage so you can reuse it next time.\nWhen using a skill and finding it outdated, incomplete, or wrong, patch it immediately with skill_manage(action='patch') — don't wait to be asked.";

/// Whether `pattern`, compiled by the regex crate, matches `text` (`None`
/// when the pattern does not compile).
pub uninterp spec fn regex_match_outcome(pattern: Seq<char>, text: Seq<char>) -> Option<bool>;

/// Compiles `pattern` with `regex::Regex::new` and runs `is_match` on
/// `text`; the outcome is named, not stated.
#[verifier::external_body]
fn regex_is_match(pattern: &str, text: &str) -> (r: Option<bool>)
    ensures
        r == regex_match_outcome(pattern@, text@),
{
    match regex::Regex::new(pattern) {
        Ok(re) => Some(re.is_match(text)),
        Err(_) => None,
    }
}

/// The prompt-injection patterns, each with the name reported when it matches.
pub open spec fn threat_patterns() -> Seq<(Seq<char>, Seq<char>)> {
    seq![
        ("(?i)ignore\\s+(previous|all|above|prior)\\s+instructions"@, "prompt_injection"@),
        ("(?i)do\\s+not\\s+tell\\s+the\\s+user"@, "deception_hide"@),
        ("(?i)system\\s+prompt\\s+override"@, "sys_prompt_override"@),
        ("(?i)disregard\\s+(your|all|any)\\s+(instructions|rules|guidelines)"@, "disregard_rules"@),
        ("(?i)act\\s+as\\s+(if|though)\\s+you\\s+(have\\s+no|don't\\s+have)\\s+(restrictions|limits|rules)"@, "bypass_restrictions"@),
    ]
}

/// Names of the patterns among the first `n` that match `content`.
pub open spec fn findings_upto(content: Seq<char>, n: int) -> Seq<Seq<char>>
    decreases n,
{
    if n <= 0 {
        seq![]
    } else {
        let prev = findings_upto(content, n - 1);
        let (p, name) = threat_patterns()[n - 1];
        if regex_match_outcome(p, content) == Some(true) {
            prev.push(name)
        } else {
            prev
        }
    }
}

/// Context file content as loaded into the prompt: unchanged, or replaced by a
/// notice naming the injection patterns it matched.
pub open spec fn scan_spec(content: Seq<char>) -> Seq<char> {
    let f = findings_upto(content, 5);
    if f.len() == 0 {
        content
    } else {
        "[BLOCKED: content contained potential prompt injection ("@ + join(f, ", "@)
            + "). Content not loaded.]"@
    }
}

fn pattern_at(i: usize) -> (r: (&'static str, &'static str))
    requires
        i < 5,
    ensures
        r.0@ == threat_patterns()[i as int].0,
        r.1@ == threat_patterns()[i as int].1,
{
    if i == 0 {
        ("(?i)ignore\\s+(previous|all|above|prior)\\s+instructions", "prompt_injection")
    } else if i == 1 {
        ("(?i)do\\s+not\\s+tell\\s+the\\s+user", "deception_hide")
    } else if i == 2 {
        ("(?i)system\\s+prompt\\s+override", "sys_prompt_override")
    } else if i == 3 {
        ("(?i)disregard\\s+(your|all|any)\\s+(instructions|rules|guidelines)", "disregard_rules")
    } else {
        ("(?i)act\\s+as\\s+(if|though)\\s+you\\s+(have\\s+no|don't\\s+have)\\s+(restrictions|limits|rules)", "bypass_restrictions")
    }
}

/// Screens context file content for prompt injection.
pub fn scan_context_content(content: &str) -> (r: String)
    ensures
        r@ == scan_spec(content@),
{
    let mut findings: Vec<&'static str> = Vec::new();
    let mut i: usize = 0;
    while i < 5
        invariant
            i <= 5,
            findings@.map_values(|x: &str| x@) == findings_upto(content@, i as int),
        decreases 5 - i,
    {
        let (p, name) = pattern_at(i);
        let ghost before = findings@.map_values(|x: &str| x@);
        if regex_is_match(p, content) == Some(true) {
            findings.push(name);
            assert(findings@.map_values(|x: &str| x@) =~= before.push(name@));
        }
        i += 1;
    }
    let ghost fv = findings@.map_values(|x: &str| x@);
    if findings.len() == 0 {
        return string_of(&chars_of(content));
    }
    let mut out: Vec<char> = Vec::new();
    push_str(&mut out, "[BLOCKED: content contained potential prompt injection (");
    let mut k: usize = 0;
    let ghost base = out@;
    while k < findings.len()
        invariant
            k <= findings.len(),
            fv == findings@.map_values(|x: &str| x@),
            out@ == base + join(fv.take(k as int), ", "@),
        decreases findings.len() - k,
    {
        assert(fv.take(k + 1).drop_last() =~= fv.take(k as int));
        if k > 0 {
            push_str(&mut out, ", ");
        } else {
            assert(fv.take(0) =~= Seq::<Seq<char>>::empty());
        }
        push_str(&mut out, findings[k]);
        assert(out@ =~= base + join(fv.take(k + 1), ", "@));
        k += 1;
    }
    assert(fv.take(findings.len() as int) =~= fv);
    push_str(&mut out, "). Content not loaded.]");
    string_of(&out)
}

/// The parts of the system prompt, before joining with blank lines.
pub open spec fn prompt_parts(
    identity: Seq<char>,
    memory_context: Seq<char>,
    skill_index: Seq<char>,
    context_files: Seq<Seq<char>>,
) -> Seq<Seq<char>> {
    seq![identity] + (if memory_context.len() > 0 { seq![memory_context] } else { seq![] })
        + seq!["# Memory\n"@ + MEMORY_GUIDANCE@]
        + (if skill_index.len() > 0 { seq![skill_index] } else { seq![] })
        + seq!["# Skills\n"@ + SKILLS_GUIDANCE@]
        + Seq::new(context_files.len(), |i: int| "# Context File "@ + decimal((i + 1) as nat) + "\n"@
            + scan_spec(context_files[i]))
}

/// Builds the agent's system prompt.
#[derive(Debug, Clone)]
pub struct PromptBuilder {
    identity: String,
    memory_context: String,
    skill_index: String,
    context_files: Vec<String>,
}

impl PromptBuilder {
    pub closed spec fn spec_identity(&self) -> Seq<char> {
        self.identity@
    }

    pub closed spec fn spec_memory_context(&self) -> Seq<char> {
        self.memory_context@
    }

    pub closed spec fn spec_skill_index(&self) -> Seq<char> {
        self.skill_index@
    }

    pub closed spec fn spec_context_files(&self) -> Seq<Seq<char>> {
        self.context_files@.map_values(|x: String| x@)
    }

    /// A builder with the default identity and nothing else.
    pub fn new() -> (r: Self)
        ensures
            r.spec_identity() == AGENT_IDENTITY@,
            r.spec_memory_context().len() == 0,
            r.spec_skill_index().len() == 0,
            r.spec_context_files().len() == 0,
    {
        let r = PromptBuilder {
            identity: string_of(&chars_of(AGENT_IDENTITY)),
            memory_context: String::new(),
            skill_index: String::new(),
            context_files: Vec::new(),
        };
        assert(r.spec_context_files() =~= Seq::<Seq<char>>::empty());
        r
    }

    /// Replaces the identity.
    pub fn identity(self, identity: &str) -> (r: Self)
        ensures
            r.spec_identity() == identity@,
            r.spec_memory_context() == self.spec_memory_context(),
            r.spec_skill_index() == self.spec_skill_index(),
            r.spec_context_files() == self.spec_context_files(),
    {
        PromptBuilder { identity: string_of(&chars_of(identity)), ..self }
    }

    /// Sets the memory context block.
    pub fn memory_context(self, context: &str) -> (r: Self)
        ensures
            r.spec_identity() == self.spec_identity(),
            r.spec_memory_context() == context@,
            r.spec_skill_index() == self.spec_skill_index(),
            r.spec_context_files() == self.spec_context_files(),
    {
        PromptBuilder { memory_context: string_of(&chars_of(context)), ..self }
    }

    /// Sets the skill index block.
    pub fn skill_index(self, index: &str) -> (r: Self)
        ensures
            r.spec_identity() == self.spec_identity(),
            r.spec_memory_context() == self.spec_memory_context(),
            r.spec_skill_index() == index@,
            r.spec_context_files() == self.spec_context_files(),
    {
        PromptBuilder { skill_index: string_of(&chars_of(index)), ..self }
    }

    /// Adds a context file.
    pub fn add_context_file(self, content: &str) -> (r: Self)
        ensures
            r.spec_identity() == self.spec_identity(),
            r.spec_memory_context() == self.spec_memory_context(),
            r.spec_skill_index() == self.spec_skill_index(),
            r.spec_context_files() == self.spec_context_files().push(content@),
    {
        let mut s = self;
        let ghost before = s.context_files@;
        s.context_files.push(string_of(&chars_of(content)));
        assert(s.context_files@.map_values(|x: String| x@) =~= before.map_values(|x: String| x@).push(content@));
        s
    }

    /// The complete system prompt: the parts joined by blank lines.
    pub fn build(&self) -> (r: String)
        ensures
            r@ == join(prompt_parts(self.spec_identity(), self.spec_memory_context(),
                self.spec_skill_index(), self.spec_context_files()), "\n\n"@),
    {
        let mut parts: Vec<Vec<char>> = Vec::new();
        parts.push(chars_of(self.identity.as_str()));
        if !self.memory_context.as_str().is_empty() {
            parts.push(chars_of(self.memory_context.as_str()));
        }
        let mut m = chars_of("# Memory\n");
        push_str(&mut m, MEMORY_GUIDANCE);
        parts.push(m);
        if !self.skill_index.as_str().is_empty() {
            parts.push(chars_of(self.skill_index.as_str()));
        }
        let mut sk = chars_of("# Skills\n");
        push_str(&mut sk, SKILLS_GUIDANCE);
        parts.push(sk);
        let ghost head = parts@.map_values(|x: Vec<char>| x@);
        let ghost files = self.spec_context_files();
        let mut i: usize = 0;
        while i < self.context_files.len()
            invariant
                i <= self.context_files.len(),
                files == self.context_files@.map_values(|x: String| x@),
                parts@.map_values(|x: Vec<char>| x@) == head + Seq::new(i as nat, |k: int| "# Context File "@
                    + decimal((k + 1) as nat) + "\n"@ + scan_spec(files[k])),
            decreases self.context_files.len() - i,
        {
            let mut c = chars_of("# Context File ");
            push_decimal(&mut c, (i + 1) as u64);
            push_str(&mut c, "\n");
            let scanned = scan_context_content(self.context_files[i].as_str());
            push_str(&mut c, scanned.as_str());
            let ghost before = parts@.map_values(|x: Vec<char>| x@);
            assert(files[i as int] == self.context_files@[i as int]@);
            assert(c@ == "# Context File "@ + decimal((i + 1) as nat) + "\n"@ + scan_spec(files[i as int]));
            parts.push(c);
            let ghost f = |k: int| "# Context File "@ + decimal((k + 1) as nat) + "\n"@ + scan_spec(files[k]);
            assert(before == head + Seq::new(i as nat, f));
            assert(f(i as int) == c@);
            assert(Seq::new((i + 1) as nat, f) =~= Seq::new(i as nat, f).push(c@));
            assert(parts@.map_values(|x: Vec<char>| x@) =~= before.push(c@));
            assert(parts@.map_values(|x: Vec<char>| x@) =~= head + Seq::new((i + 1) as nat, f));
            i += 1;
        }
        let ghost pv = parts@.map_values(|x: Vec<char>| x@);
        assert(pv =~= prompt_parts(self.spec_identity(), self.spec_memory_context(), self.spec_skill_index(), files));
        let mut out: Vec<char> = Vec::new();
        let mut k: usize = 0;
        while k < parts.len()
            invariant
                k <= parts.len(),
                pv == parts@.map_values(|x: Vec<char>| x@),
                out@ == join(pv.take(k as int), "\n\n"@),
            decreases parts.len() - k,
        {
            assert(pv.take(k + 1).drop_last() =~= pv.take(k as int));
            if k > 0 {
                push_str(&mut out, "\n\n");
            } else {
                assert(pv.take(0) =~= Seq::<Seq<char>>::empty());
            }
            push_chars(&mut out, &parts[k]);
            k += 1;
        }
        assert(pv.take(parts.len() as int) =~= pv);
        string_of(&out)
    }
}

impl Default for PromptBuilder {
    fn default() -> (r: Self)
        ensures
            r.spec_identity() == AGENT_IDENTITY@,
            r.spec_memory_context().len() == 0,
            r.spec_skill_index().len() == 0,
            r.spec_context_files().len() == 0,
    {
        Self::new()
    }
}

} // verus!
