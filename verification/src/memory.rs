//! Persistent memory entries and the system-prompt blocks made from them.
use vstd::prelude::*;
use crate::text::{chars_eq, chars_of, join, join_chars, push_chars, push_str, string_of, trim, trim_chars};

verus! {

/// A single memory entry.
#[derive(Debug, Clone)]
pub struct MemoryEntry {
    pub id: String,
    pub user_id: String,
    pub content: String,
    pub category: String,
    pub created_at: String,
    pub updated_at: String,
}

/// The line of one memory in the prompt block.
pub open spec fn memory_line(m: MemoryEntry) -> Seq<char> {
    "- ["@ + m.category@ + "] "@ + m.content@
}

/// The note that opens a memory block.
pub open spec fn memory_note() -> Seq<char> {
    "<memory-context>\n[System note: The following is recalled memory context, NOT new user input. Treat as authoritative reference data \u{2014} this is the agent's persistent memory.]\n\n"@
}

/// The system-prompt block of recalled memories: empty when recall failed or
/// found nothing, else the memories one per line inside a `memory-context`
/// element.
pub open spec fn memory_block_spec(recalled: Option<Seq<MemoryEntry>>) -> Seq<char> {
    match recalled {
        None => seq![],
        Some(ms) => if ms.len() == 0 {
            seq![]
        } else {
            memory_note() + join(ms.map_values(|m: MemoryEntry| memory_line(m)), "\n"@) + "\n</memory-context>"@
        },
    }
}

/// Builds the memory block of a provider from what its recall returned.
pub fn memory_prompt_block(recalled: Option<&Vec<MemoryEntry>>) -> (r: String)
    ensures
        r@ == memory_block_spec(match recalled {
            Some(v) => Some(v@),
            None => None,
        }),
{
    let ms = match recalled {
        Some(v) => v,
        None => {
            return String::new();
        },
    };
    if ms.len() == 0 {
        return String::new();
    }
    let mut lines: Vec<Vec<char>> = Vec::new();
    let mut i: usize = 0;
    while i < ms.len()
        invariant
            i <= ms@.len(),
            lines@.map_values(|x: Vec<char>| x@) == ms@.take(i as int).map_values(|m: MemoryEntry| memory_line(m)),
        decreases ms.len() - i,
    {
        let mut line: Vec<char> = Vec::new();
        push_str(&mut line, "- [");
        push_str(&mut line, ms[i].category.as_str());
        push_str(&mut line, "] ");
        push_str(&mut line, ms[i].content.as_str());
        assert(line@ == memory_line(ms@[i as int]));
        assert(ms@.take(i + 1) =~= ms@.take(i as int).push(ms@[i as int]));
        let ghost before = lines@;
        let ghost lv = line@;
        lines.push(line);
        assert(lines@.map_values(|x: Vec<char>| x@) =~= before.map_values(|x: Vec<char>| x@).push(lv));
        assert(lines@.map_values(|x: Vec<char>| x@) =~= ms@.take(i + 1).map_values(|m: MemoryEntry| memory_line(m)));
        i += 1;
    }
    assert(ms@.take(ms@.len() as int) =~= ms@);
    let body = join_chars(&lines, "\n");
    let mut out: Vec<char> = Vec::new();
    push_str(&mut out, "<memory-context>\n[System note: The following is recalled memory context, NOT new user input. Treat as authoritative reference data \u{2014} this is the agent's persistent memory.]\n\n");
    push_chars(&mut out, &body);
    push_str(&mut out, "\n</memory-context>");
    string_of(&out)
}

/// The labelled block of one provider.
pub open spec fn labelled_block(name: Seq<char>, block: Seq<char>) -> Seq<char> {
    "["@ + name + "]\n"@ + block
}

/// The non-empty provider blocks, labelled, in provider order.
pub open spec fn labelled_blocks(blocks: Seq<(Seq<char>, Seq<char>)>) -> Seq<Seq<char>>
    decreases blocks.len(),
{
    if blocks.len() == 0 {
        seq![]
    } else {
        let prev = labelled_blocks(blocks.drop_last());
        let b = blocks.last();
        if b.1.len() == 0 {
            prev
        } else {
            prev.push(labelled_block(b.0, b.1))
        }
    }
}

/// The views of provider name and block pairs.
pub open spec fn block_pairs(v: Seq<(String, String)>) -> Seq<(Seq<char>, Seq<char>)> {
    v.map_values(|p: (String, String)| (p.0@, p.1@))
}

/// The combined memory prompt of all providers: each non-empty block under
/// its provider's name, separated by blank lines.
pub fn combine_memory_blocks(blocks: &Vec<(String, String)>) -> (r: String)
    ensures
        r@ == join(labelled_blocks(block_pairs(blocks@)), "\n\n"@),
{
    let ghost bp = block_pairs(blocks@);
    let mut parts: Vec<Vec<char>> = Vec::new();
    let mut i: usize = 0;
    assert(bp.take(0) =~= Seq::<(Seq<char>, Seq<char>)>::empty());
    while i < blocks.len()
        invariant
            i <= blocks@.len(),
            bp == block_pairs(blocks@),
            parts@.map_values(|x: Vec<char>| x@) == labelled_blocks(bp.take(i as int)),
        decreases blocks.len() - i,
    {
        assert(bp.take(i + 1).drop_last() =~= bp.take(i as int));
        if !blocks[i].1.as_str().is_empty() {
            let mut part: Vec<char> = Vec::new();
            push_str(&mut part, "[");
            push_str(&mut part, blocks[i].0.as_str());
            push_str(&mut part, "]\n");
            push_str(&mut part, blocks[i].1.as_str());
            let ghost before = parts@;
            parts.push(part);
            assert(parts@.map_values(|x: Vec<char>| x@) =~= labelled_blocks(bp.take(i as int)).push(
                labelled_block(bp[i as int].0, bp[i as int].1)));
        }
        i += 1;
    }
    assert(bp.take(blocks@.len() as int) =~= bp);
    string_of(&join_chars(&parts, "\n\n"))
}

/// An entry of `category` (and, when `content` is given, with that content).
pub open spec fn entry_matches(e: MemoryEntry, category: Seq<char>, content: Option<Seq<char>>) -> bool {
    e.category@ == category && match content {
        Some(c) => e.content@ == c,
        None => true,
    }
}

/// The ids of the entries of `category` (with `content`, when given), in
/// order: what setting the agent identity or switching a skill deletes first.
pub open spec fn ids_matching(entries: Seq<MemoryEntry>, category: Seq<char>, content: Option<Seq<char>>) -> Seq<Seq<char>>
    decreases entries.len(),
{
    if entries.len() == 0 {
        seq![]
    } else {
        let prev = ids_matching(entries.drop_last(), category, content);
        if entry_matches(entries.last(), category, content) {
            prev.push(entries.last().id@)
        } else {
            prev
        }
    }
}

/// The ids of the recalled entries of `category` (with `content`, when given).
pub fn entries_to_replace(entries: &Vec<MemoryEntry>, category: &str, content: Option<&str>) -> (r: Vec<String>)
    ensures
        r@.map_values(|x: String| x@) == ids_matching(entries@, category@, match content {
            Some(c) => Some(c@),
            None => None,
        }),
{
    let ghost cv: Option<Seq<char>> = match content {
        Some(c) => Some(c@),
        None => None,
    };
    let mut out: Vec<String> = Vec::new();
    let mut i: usize = 0;
    while i < entries.len()
        invariant
            i <= entries@.len(),
            cv == match content {
                Some(c) => Some(c@),
                None => None::<Seq<char>>,
            },
            out@.map_values(|x: String| x@) == ids_matching(entries@.take(i as int), category@, cv),
        decreases entries@.len() - i,
    {
        assert(entries@.take(i + 1).drop_last() =~= entries@.take(i as int));
        assert(entries@.take(i + 1).last() == entries@[i as int]);
        let e = &entries[i];
        let same_category = chars_eq(&chars_of(e.category.as_str()), &chars_of(category));
        let same_content = match content {
            Some(c) => chars_eq(&chars_of(e.content.as_str()), &chars_of(c)),
            None => true,
        };
        if same_category && same_content {
            let ghost before = out@.map_values(|x: String| x@);
            out.push(e.id.clone());
            assert(out@.map_values(|x: String| x@) =~= before.push(e.id@));
        }
        i += 1;
    }
    assert(entries@.take(entries@.len() as int) =~= entries@);
    out
}

/// The identity to store after a user sets it: the trimmed text, or none
/// (the identity is reset) when it is blank.
pub fn identity_to_save(identity: &str) -> (r: Option<String>)
    ensures
        trim(identity@).len() == 0 ==> r is None,
        trim(identity@).len() > 0 ==> (r matches Some(t) && t@ == trim(identity@)),
{
    let t = trim_chars(&chars_of(identity));
    if t.len() == 0 {
        None
    } else {
        Some(string_of(&t))
    }
}

/// The memory providers in use, by name: the built-in one and at most one
/// other.
pub struct MemoryProviders {
    names: Vec<String>,
    has_external: bool,
}

/// The built-in provider's name.
pub open spec fn builtin_name() -> Seq<char> {
    "builtin"@
}

impl MemoryProviders {
    /// The provider names, in the order they were added.
    pub closed spec fn names(&self) -> Seq<Seq<char>> {
        self.names@.map_values(|n: String| n@)
    }

    /// A provider other than the built-in one was added.
    pub closed spec fn has_external(&self) -> bool {
        self.has_external
    }

    /// No providers.
    pub fn new() -> (r: Self)
        ensures
            r.names().len() == 0,
            !r.has_external(),
    {
        let r = MemoryProviders { names: Vec::new(), has_external: false };
        assert(r.names() =~= Seq::<Seq<char>>::empty());
        r
    }

    /// Adds a provider; one other than the built-in is refused once another
    /// one was added. Returns whether it was added.
    pub fn add_provider(&mut self, name: &str) -> (r: bool)
        ensures
            r == (name@ == builtin_name() || !old(self).has_external()),
            r ==> final(self).names() == old(self).names().push(name@),
            !r ==> final(self).names() == old(self).names(),
            final(self).has_external() == (old(self).has_external() || name@ != builtin_name()),
    {
        let builtin = chars_eq(&chars_of(name), &chars_of("builtin"));
        if !builtin {
            if self.has_external {
                return false;
            }
            self.has_external = true;
        }
        let ghost before = self.names();
        self.names.push(string_of(&chars_of(name)));
        assert(self.names() =~= before.push(name@));
        true
    }

    /// The provider new memories are saved with: the first one added.
    pub fn save_target(&self) -> (r: Option<usize>)
        ensures
            self.names().len() == 0 ==> r is None,
            self.names().len() > 0 ==> r == Some(0usize),
    {
        if self.names.len() == 0 {
            None
        } else {
            Some(0)
        }
    }
}

/// What recalling from every provider gives: the entries of those whose
/// recall succeeded, in provider order.
pub open spec fn recalled_spec(results: Seq<Result<Vec<MemoryEntry>, String>>) -> Seq<MemoryEntry>
    decreases results.len(),
{
    if results.len() == 0 {
        seq![]
    } else {
        let prev = recalled_spec(results.drop_last());
        match results.last() {
            Ok(v) => prev + v@,
            Err(_) => prev,
        }
    }
}

/// Joins the recall results of the providers, skipping failed ones.
pub fn merge_recalled(results: Vec<Result<Vec<MemoryEntry>, String>>) -> (r: Vec<MemoryEntry>)
    ensures
        r@ == recalled_spec(results@),
{
    let ghost rs = results@;
    let mut out: Vec<MemoryEntry> = Vec::new();
    let mut results = results;
    let total: usize = results.len();
    let mut i: usize = 0;
    assert(rs.skip(0) =~= rs);
    while results.len() > 0
        invariant
            i <= rs.len(),
            rs.len() == total,
            results@ == rs.skip(i as int),
            out@ == recalled_spec(rs.take(i as int)),
        decreases results@.len(),
    {
        let r = results.remove(0);
        assert(rs.skip(i as int)[0] == rs[i as int]);
        assert(rs.skip(i as int).drop_first() =~= rs.skip(i + 1));
        assert(rs.take(i + 1).drop_last() =~= rs.take(i as int));
        assert(rs.take(i + 1).last() == rs[i as int]);
        match r {
            Ok(mut v) => {
                let ghost before = out@;
                let ghost vv = v@;
                out.append(&mut v);
                assert(out@ =~= before + vv);
            },
            Err(_) => {},
        }
        i += 1;
    }
    assert(rs.take(i as int) =~= rs);
    out
}

} // verus!
