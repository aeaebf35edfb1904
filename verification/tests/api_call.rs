use jcowork::api_call::{api_response_text, prepare_api_request, HttpMethod};
use jcowork::connectors::ApiToolDef;

fn tool(method: &str, url: &str, body_template: Option<&str>) -> ApiToolDef {
    ApiToolDef {
        name: "t".to_string(),
        description: "d".to_string(),
        method: method.to_string(),
        url: url.to_string(),
        headers: vec![("X-Api-Key".to_string(), "k".to_string())],
        params: "{}".to_string(),
        body_template: body_template.map(|b| b.to_string()),
        enabled: true,
    }
}

#[test]
fn get_request_renders_url() {
    let req = prepare_api_request(&tool("get", "https://api.example.com/w?city={{city}}", None), r#"{"city":"Paris"}"#)
        .unwrap();
    assert_eq!(req.method, HttpMethod::Get);
    assert_eq!(req.url, "https://api.example.com/w?city=Paris");
    assert!(req.body.is_none());
    assert_eq!(req.headers, vec![("X-Api-Key".to_string(), "k".to_string())]);
}

#[test]
fn post_without_template_sends_json_arguments() {
    let req = prepare_api_request(&tool("POST", "https://api.example.com/items", None), r#" { "b": 2, "a": "x" } "#)
        .unwrap();
    assert_eq!(req.method, HttpMethod::Post);
    assert_eq!(req.body.as_deref(), Some(r#"{"a":"x","b":2}"#));
    assert_eq!(req.headers.len(), 2);
    assert_eq!(req.headers[1], ("Content-Type".to_string(), "application/json".to_string()));
    let empty = prepare_api_request(&tool("PUT", "https://api.example.com/items", None), "  ").unwrap();
    assert_eq!(empty.body.as_deref(), Some("{}"));
}

#[test]
fn post_with_template_renders_body() {
    let req = prepare_api_request(
        &tool("patch", "https://api.example.com/items/{{id}}", Some("name={{name}}")),
        r#"{"id":"7","name":"lamp"}"#,
    )
    .unwrap();
    assert_eq!(req.method, HttpMethod::Patch);
    assert_eq!(req.url, "https://api.example.com/items/7");
    assert_eq!(req.body.as_deref(), Some("name=lamp"));
    assert_eq!(req.headers.len(), 1);
}

#[test]
fn request_errors() {
    let bad_method = prepare_api_request(&tool("fetch", "https://api.example.com", None), "{}").unwrap_err();
    assert_eq!(bad_method, "Unsupported HTTP method: FETCH");
    let missing = prepare_api_request(&tool("GET", "https://api.example.com/{{id}}", None), "{}").unwrap_err();
    assert_eq!(missing, "Missing required parameter: id");
    let bad_args = prepare_api_request(&tool("GET", "https://api.example.com", None), "[1]").unwrap_err();
    assert_eq!(bad_args, "Tool arguments must be a JSON object");
    let missing_body = prepare_api_request(&tool("POST", "https://api.example.com", Some("{{q}}")), "{}").unwrap_err();
    assert_eq!(missing_body, "Missing required parameter: q");
    let delete = prepare_api_request(&tool("DELETE", "https://api.example.com/x", Some("{{q}}")), "{}").unwrap();
    assert_eq!(delete.method, HttpMethod::Delete);
    assert!(delete.body.is_none());
}

#[test]
fn response_texts() {
    assert_eq!(api_response_text(200, "OK", "fine"), "fine");
    assert_eq!(api_response_text(404, "Not Found", "nope"), "HTTP 404 Not Found\nnope");
    assert_eq!(api_response_text(599, "", "x"), "HTTP 599 \nx");
    let big = "a".repeat(300 * 1024);
    let text = api_response_text(500, "Internal Server Error", &big);
    assert!(text.starts_with("HTTP 500 Internal Server Error\n"));
    assert!(text.ends_with("\n... [truncated]"));
}
