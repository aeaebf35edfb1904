use jcowork::html::{cap_page_text, extract_title, html_to_text, page_text, PAGE_TEXT_LIMIT};

#[test]
fn test_extract_title_basic() {
    assert_eq!(extract_title("<html><head><title>Hello World</title></head></html>"), "Hello World");
}

#[test]
fn test_extract_title_with_attributes() {
    assert_eq!(extract_title("<TITLE lang=\"en\">  My Page  </TITLE>"), "My Page");
}

#[test]
fn test_extract_title_missing() {
    assert_eq!(extract_title("<html><body>no title here</body></html>"), "Untitled");
}

#[test]
fn extract_title_unclosed_is_untitled() {
    assert_eq!(extract_title("<title>never closed"), "Untitled");
    assert_eq!(extract_title("<title"), "Untitled");
}

#[test]
fn test_html_to_text_strips_tags() {
    let text = html_to_text("<p>Hello <b>world</b></p>");
    assert!(text.contains("Hello world"), "got: {:?}", text);
    assert!(!text.contains('<'));
}

#[test]
fn test_html_to_text_removes_script_and_style() {
    let html = "<style>.a{color:red}</style><script>alert('x');</script><p>visible</p>";
    let text = html_to_text(html);
    assert!(text.contains("visible"));
    assert!(!text.contains("alert"));
    assert!(!text.contains("color:red"));
}

#[test]
fn test_html_to_text_decodes_entities() {
    let text = html_to_text("<p>a &amp; b &lt;c&gt; &quot;d&quot; &nbsp;e</p>");
    assert!(text.contains("a & b <c> \"d\""), "got: {:?}", text);
}

#[test]
fn test_html_to_text_collapses_blank_lines() {
    let text = html_to_text("<p>one</p><br><br><br><br><p>two</p>");
    assert!(!text.contains("\n\n\n"), "too many blank lines: {:?}", text);
}

#[test]
fn test_html_to_text_empty() {
    assert_eq!(html_to_text(""), "");
}

#[test]
fn html_to_text_exact_outputs() {
    assert_eq!(html_to_text("<p>one</p><br><br><br><br><p>two</p>"), "one\n\ntwo");
    assert_eq!(html_to_text("<p>a &amp; b &lt;c&gt; &quot;d&quot; &nbsp;e</p>"), "a & b <c> \"d\" e");
    assert_eq!(html_to_text("<HEAD><title>t</title></HEAD>  body   text "), "body text");
    assert_eq!(html_to_text("x<SCRIPT>bad()</script>y"), "x y");
    assert_eq!(html_to_text("a &mdash; b &copy;"), "a \u{2014} b \u{00A9}");
}

#[test]
fn html_to_text_unclosed_script_drops_only_the_tag() {
    assert_eq!(html_to_text("<script src=x>kept"), "kept");
    assert_eq!(html_to_text("before <script"), "before");
}

#[test]
fn page_text_is_capped_at_the_limit() {
    let long = "a".repeat(PAGE_TEXT_LIMIT + 10);
    let capped = cap_page_text(&long);
    assert!(capped.starts_with(&"a".repeat(PAGE_TEXT_LIMIT)));
    assert!(capped.ends_with("\n\n[... CONTENT TRUNCATED: page exceeds 100KB ...]"));
    assert_eq!(capped.len(), PAGE_TEXT_LIMIT + "\n\n[... CONTENT TRUNCATED: page exceeds 100KB ...]".len());
    assert_eq!(cap_page_text("short"), "short");
    assert_eq!(page_text(&long), long);
}

#[test]
fn cap_cuts_at_the_last_character_boundary() {
    let mut s = "a".repeat(PAGE_TEXT_LIMIT - 1);
    s.push('\u{e9}');
    s.push_str("tail");
    let capped = cap_page_text(&s);
    assert_eq!(capped, format!("{}\n\n[... CONTENT TRUNCATED: page exceeds 100KB ...]", "a".repeat(PAGE_TEXT_LIMIT - 1)));
    let cjk = "\u{4e2d}".repeat(40000);
    let out = html_to_text(&cjk);
    assert!(out.len() <= PAGE_TEXT_LIMIT + "\n\n[... CONTENT TRUNCATED: page exceeds 100KB ...]".len());
    assert!(out.starts_with(&"\u{4e2d}".repeat(34133)));
}

#[test]
fn html_to_text_strips_tags_whole() {
    assert_eq!(html_to_text("<pre>x</pre>"), "x");
    assert_eq!(html_to_text("<link rel=x>a<path d=y/>b"), "ab");
    assert_eq!(html_to_text("<p class='intro'>x</p>"), "x");
    assert_eq!(html_to_text("a<br/>b"), "a\nb");
    assert_eq!(html_to_text("<div>a</div><div>b</div>"), "a\n\nb");
}
