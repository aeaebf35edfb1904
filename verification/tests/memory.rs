use jcowork::memory::{combine_memory_blocks, memory_prompt_block, MemoryEntry};

fn entry(category: &str, content: &str) -> MemoryEntry {
    MemoryEntry {
        id: "m".to_string(),
        user_id: "u".to_string(),
        content: content.to_string(),
        category: category.to_string(),
        created_at: String::new(),
        updated_at: String::new(),
    }
}

#[test]
fn memory_block_formats_entries() {
    let ms = vec![entry("pref", "likes tea"), entry("fact", "lives in SH")];
    let block = memory_prompt_block(Some(&ms));
    assert_eq!(
        block,
        "<memory-context>\n[System note: The following is recalled memory context, NOT new user input. \
         Treat as authoritative reference data \u{2014} this is the agent's persistent memory.]\n\n\
         - [pref] likes tea\n- [fact] lives in SH\n</memory-context>"
    );
}

#[test]
fn memory_block_empty_or_failed() {
    assert_eq!(memory_prompt_block(Some(&vec![])), "");
    assert_eq!(memory_prompt_block(None), "");
}

#[test]
fn combined_blocks_skip_empty_providers() {
    let blocks = vec![
        ("builtin".to_string(), "A".to_string()),
        ("empty".to_string(), String::new()),
        ("other".to_string(), "B".to_string()),
    ];
    assert_eq!(combine_memory_blocks(&blocks), "[builtin]\nA\n\n[other]\nB");
    assert_eq!(combine_memory_blocks(&vec![]), "");
}

fn entry_with_id(id: &str, category: &str, content: &str) -> jcowork::memory::MemoryEntry {
    jcowork::memory::MemoryEntry {
        id: id.to_string(),
        user_id: "u1".to_string(),
        content: content.to_string(),
        category: category.to_string(),
        created_at: String::new(),
        updated_at: String::new(),
    }
}

#[test]
fn replaced_entries_by_category_and_content() {
    let entries = vec![
        entry_with_id("1", "agent_identity", "You are Bob"),
        entry_with_id("2", "skill_enabled", "excel"),
        entry_with_id("3", "skill_enabled", "pdf"),
        entry_with_id("4", "agent_identity", "old"),
    ];
    assert_eq!(jcowork::memory::entries_to_replace(&entries, "agent_identity", None), vec!["1".to_string(), "4".to_string()]);
    assert_eq!(jcowork::memory::entries_to_replace(&entries, "skill_enabled", Some("pdf")), vec!["3".to_string()]);
    assert!(jcowork::memory::entries_to_replace(&entries, "fact", None).is_empty());
    assert_eq!(jcowork::memory::identity_to_save("  Be brief.  ").as_deref(), Some("Be brief."));
    assert!(jcowork::memory::identity_to_save(" \n ").is_none());
}

#[test]
fn providers_and_recall() {
    let mut p = jcowork::memory::MemoryProviders::new();
    assert!(p.save_target().is_none());
    assert!(p.add_provider("builtin"));
    assert!(p.add_provider("mem0"));
    assert!(!p.add_provider("honcho"));
    assert!(p.add_provider("builtin"));
    assert_eq!(p.save_target(), Some(0));
    let merged = jcowork::memory::merge_recalled(vec![
        Ok(vec![entry_with_id("a", "fact", "x")]),
        Err("down".to_string()),
        Ok(vec![entry_with_id("b", "fact", "y"), entry_with_id("c", "fact", "z")]),
    ]);
    let ids: Vec<&str> = merged.iter().map(|e| e.id.as_str()).collect();
    assert_eq!(ids, vec!["a", "b", "c"]);
}
