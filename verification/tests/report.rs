use jcowork::report::{escape_fts5_query, infer_doc_type, infer_year, split_into_chunks, CHUNK_SIZE};

#[test]
fn test_split_empty() {
    assert!(split_into_chunks("").is_empty());
}

#[test]
fn test_split_short() {
    let chunks = split_into_chunks("hello world");
    assert_eq!(chunks.len(), 1);
    assert_eq!(chunks[0], "hello world");
}

#[test]
fn test_split_long() {
    let text = "a".repeat(3500);
    let chunks = split_into_chunks(&text);
    assert!(chunks.len() > 2);
    for c in &chunks {
        assert!(c.chars().count() <= CHUNK_SIZE + 50);
    }
}

#[test]
fn split_overlaps_and_prefers_newlines() {
    let text = "a".repeat(2500);
    let chunks = split_into_chunks(&text);
    let lens: Vec<usize> = chunks.iter().map(|c| c.chars().count()).collect();
    assert_eq!(lens, vec![1000, 1000, 700]);
    let mut t = "b".repeat(900);
    t.push('\n');
    t.push_str(&"c".repeat(500));
    let chunks = split_into_chunks(&t);
    assert_eq!(chunks[0], "b".repeat(900));
    let mut second = "b".repeat(99);
    second.push('\n');
    second.push_str(&"c".repeat(500));
    assert_eq!(chunks[1], second);
    assert_eq!(chunks.len(), 2);
}

#[test]
fn fts5_escaping() {
    assert_eq!(escape_fts5_query(""), "\"\"");
    assert_eq!(escape_fts5_query("  "), "\"\"");
    assert_eq!(escape_fts5_query("a b"), "\"a\"* OR \"b\"*");
    assert_eq!(escape_fts5_query("foo bar"), "\"foo\"* OR \"bar\"*");
    assert_eq!(escape_fts5_query("say\"hi"), "\"say\"\"hi\"*");
}

#[test]
fn doc_types() {
    assert_eq!(infer_doc_type("公司2023年报.pdf"), "年报");
    assert_eq!(infer_doc_type("Q3 Quarterly.pdf"), "季报");
    assert_eq!(infer_doc_type("行业研究报告.pdf"), "研报");
    assert_eq!(infer_doc_type("招股说明书.pdf"), "招股书");
    assert_eq!(infer_doc_type("notes.pdf"), "other");
    assert_eq!(infer_doc_type("ANNUAL report.pdf"), "年报");
}

#[test]
fn years() {
    assert_eq!(infer_year("report_2024.pdf"), Some(2024));
    assert_eq!(infer_year("1999_2101_2050"), Some(2050));
    assert_eq!(infer_year("年报２０２４"), None);
    assert_eq!(infer_year("abc"), None);
    assert_eq!(infer_year("x+2024"), Some(2024));
}
