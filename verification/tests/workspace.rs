use jcowork::workspace::{download_body, download_content_type, download_disposition, workspace_items};

#[test]
fn workspace_content_types_by_extension() {
    assert_eq!(download_content_type("site/index.html"), "text/html; charset=utf-8");
    assert_eq!(download_content_type("old.htm"), "text/html; charset=utf-8");
    assert_eq!(download_content_type("a/style.css"), "text/css; charset=utf-8");
    assert_eq!(download_content_type("app.mjs"), "application/javascript; charset=utf-8");
    assert_eq!(download_content_type("data.json"), "application/json; charset=utf-8");
    assert_eq!(download_content_type("logo.svg"), "image/svg+xml");
    assert_eq!(download_content_type("photo.jpeg"), "application/octet-stream");
    assert_eq!(download_content_type("notes.txt"), "text/plain; charset=utf-8");
    assert_eq!(download_content_type("README"), "text/plain; charset=utf-8");
}

#[test]
fn workspace_disposition_uses_last_path_segment() {
    assert_eq!(download_disposition("docs/q1/report.md"), "inline; filename=\"report.md\"");
    assert_eq!(download_disposition("plain.csv"), "inline; filename=\"plain.csv\"");
}

#[test]
fn workspace_body_injects_script_after_head() {
    let page = "<html><head><title>t</title></head><body>x</body></html>";
    let body = download_body("site/charts/page.html", page, "tok\"1", false);
    assert!(body.starts_with("<html><head><script>\n(function(){\n  var __dir=\"site/charts\";\n  var __token=\"tok\\\"1\";"));
    assert!(body.ends_with("</script><title>t</title></head><body>x</body></html>"));
    assert!(body.contains("/api/workspace/download?path="));
}

#[test]
fn workspace_body_upper_case_head_and_no_head() {
    let upper = download_body("p.htm", "<HEAD></HEAD>", "t", false);
    assert!(upper.starts_with("<HEAD><script>\n(function(){\n  var __dir=\"\";"));
    assert!(upper.ends_with("</script></HEAD>"));

    let bare = download_body("p.html", "<p>hi</p>", "t", false);
    assert!(bare.starts_with("<script>"));
    assert!(bare.ends_with("</script><p>hi</p>"));
}

#[test]
fn workspace_body_escapes_control_characters() {
    let body = download_body("p.html", "", "a\u{1}b\nc", false);
    assert!(body.contains("var __token=\"a\\u0001b\\nc\";"));
}

#[test]
fn workspace_body_raw_and_other_files_unchanged() {
    let page = "<html><head></head></html>";
    assert_eq!(download_body("page.html", page, "t", true), page);
    assert_eq!(download_body("data.csv", "a,b\n1,2", "t", false), "a,b\n1,2");
}

#[test]
fn workspace_listing_entries_split_at_first_tab() {
    let entries = vec![
        "a.txt\tfile".to_string(),
        "broken".to_string(),
        "sub\tdir".to_string(),
        "odd\tname\tfile".to_string(),
    ];
    let items = workspace_items(&entries);
    assert_eq!(
        items,
        vec![
            ("a.txt".to_string(), "file".to_string()),
            ("sub".to_string(), "dir".to_string()),
            ("odd".to_string(), "name\tfile".to_string()),
        ]
    );
}
