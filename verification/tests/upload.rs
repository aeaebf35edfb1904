use jcowork::upload::{
    is_allowed_extension, path_file_name, pdf_upload_target, plan_uploads, safe_upload_name, upload_destination,
    upload_extension, upload_target_dir,
};

fn field(name: &str, filename: &str, data: &[u8]) -> (String, String, Vec<u8>) {
    (name.to_string(), filename.to_string(), data.to_vec())
}

#[test]
fn names_and_extensions() {
    assert_eq!(safe_upload_name("../a/b\\c.pdf"), "_a_b_c.pdf");
    assert_eq!(safe_upload_name("report.pdf"), "report.pdf");
    assert_eq!(upload_extension("Report.PDF"), "pdf");
    assert_eq!(upload_extension("a.tar.GZ"), "gz");
    assert_eq!(upload_extension("noext"), "noext");
    assert!(is_allowed_extension("xlsx"));
    assert!(!is_allowed_extension("exe"));
    assert_eq!(path_file_name("a/b/c.pdf"), "c.pdf");
    assert_eq!(path_file_name("c.pdf"), "c.pdf");
}

#[test]
fn destinations() {
    assert_eq!(upload_destination("/w", None, "a.pdf"), Some(("/w/a.pdf".to_string(), "a.pdf".to_string())));
    assert_eq!(upload_destination("/w", Some("."), "a.pdf"), Some(("/w/a.pdf".to_string(), "a.pdf".to_string())));
    assert_eq!(upload_destination("/w", Some(""), "a.pdf"), Some(("/w/a.pdf".to_string(), "a.pdf".to_string())));
    assert_eq!(
        upload_destination("/w", Some("docs"), "a.pdf"),
        Some(("/w/docs/a.pdf".to_string(), "docs/a.pdf".to_string()))
    );
    assert_eq!(upload_destination("/w", Some("../../victim/workspace"), "a.pdf"), None);
    assert_eq!(upload_destination("/w", Some("docs/../.."), "a.pdf"), None);
    assert_eq!(upload_destination("/w", Some("/etc"), "a.pdf"), None);
    assert_eq!(
        upload_destination("/w", Some("a..b"), "a.pdf"),
        Some(("/w/a..b/a.pdf".to_string(), "a..b/a.pdf".to_string()))
    );
    assert_eq!(
        pdf_upload_target("/w", None),
        ("uploaded.pdf".to_string(), "/w/uploads/uploaded.pdf".to_string(), "uploads/uploaded.pdf".to_string())
    );
    assert_eq!(pdf_upload_target("/w", Some("x/y.pdf")).2, "uploads/x_y.pdf");
}

#[test]
fn plan_with_target_directory() {
    let fields = vec![field("file", "a.pdf", b"1"), field("path", "", b" docs \n"), field("file", "b.md", b"22")];
    assert_eq!(upload_target_dir(&fields).as_deref(), Some("docs"));
    let (planned, err) = plan_uploads("/w/u/workspace", &fields);
    assert!(err.is_none());
    assert_eq!(planned.len(), 2);
    assert_eq!(planned[0].field, 0);
    assert_eq!(planned[0].file_path, "/w/u/workspace/docs/a.pdf");
    assert_eq!(planned[0].relative_path, "docs/a.pdf");
    assert_eq!(planned[1].field, 2);
    assert_eq!(planned[1].filename, "b.md");
}

#[test]
fn plan_stops_at_refused_type() {
    let fields = vec![field("file", "a.pdf", b"1"), field("file", "x.exe", b"2"), field("file", "c.pdf", b"3")];
    let (planned, err) = plan_uploads("/w", &fields);
    assert_eq!(planned.len(), 1);
    assert_eq!(planned[0].relative_path, "a.pdf");
    assert_eq!(err.as_deref(), Some("File type 'exe' not allowed. Allowed types: pdf, md, html, xlsx, xls, docx, doc"));
}

#[test]
fn plan_without_files() {
    let (planned, err) = plan_uploads("/w", &vec![field("path", "", b"docs"), field("note", "", b"x")]);
    assert!(planned.is_empty());
    assert_eq!(err.as_deref(), Some("No files uploaded"));
}

#[test]
fn image_names_and_asset_urls() {
    assert!(jcowork::upload::is_plain_file_name("page_1.png"));
    assert!(!jcowork::upload::is_plain_file_name("../secret.png"));
    assert!(!jcowork::upload::is_plain_file_name("a/b.png"));
    assert!(!jcowork::upload::is_plain_file_name("a\\b.png"));
    assert!(jcowork::upload::is_plain_file_name("a.b.png"));
    assert_eq!(
        jcowork::upload::docling_asset_url(None, "abc123", "p1.png"),
        "http://localhost:50060/assets/abc123/p1.png"
    );
    assert_eq!(jcowork::upload::docling_asset_url(Some("http://d:9"), "h", "x.png"), "http://d:9/assets/h/x.png");
}

#[test]
fn plan_rejects_directory_outside_workspace() {
    let fields = vec![field("path", "", b"../../victim/workspace"), field("file", "a.pdf", b"1")];
    let (planned, err) = plan_uploads("/w/u/workspace", &fields);
    assert!(planned.is_empty());
    assert_eq!(err.as_deref(), Some("Invalid upload path: ../../victim/workspace"));
    let (planned, err) = plan_uploads("/w", &vec![field("path", "", b"/tmp"), field("file", "a.pdf", b"1")]);
    assert!(planned.is_empty());
    assert_eq!(err.as_deref(), Some("Invalid upload path: /tmp"));
}
