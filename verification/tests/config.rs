use jcowork::config::{default_data_dir, offset_minutes, offset_seconds, ServerConfig};

#[test]
fn config_defaults() {
    let c = ServerConfig::defaults(Some("/home/u"));
    assert_eq!(c.host, "0.0.0.0");
    assert_eq!(c.port, 3000);
    assert_eq!(c.data_dir, "/home/u/.jcowork/data");
    assert_eq!(c.jwt_secret, "change-me-in-production");
    assert_eq!(c.token_duration_hours, 24);
    assert_eq!(c.default_model, "moonshot:kimi-k2.6");
    assert_eq!(c.idle_timeout_secs, 300);
}

#[test]
fn config_values_and_fallbacks() {
    let c = ServerConfig::from_values(
        Some("127.0.0.1"),
        Some("8080"),
        Some("/data"),
        Some("s3cret"),
        Some("-5"),
        Some("openai:gpt"),
        Some("+60"),
        None,
    );
    assert_eq!(c.host, "127.0.0.1");
    assert_eq!(c.port, 8080);
    assert_eq!(c.data_dir, "/data");
    assert_eq!(c.jwt_secret, "s3cret");
    assert_eq!(c.token_duration_hours, -5);
    assert_eq!(c.default_model, "openai:gpt");
    assert_eq!(c.idle_timeout_secs, 60);
    let bad = ServerConfig::from_values(None, Some("70000"), None, None, Some("x"), None, Some("-1"), None);
    assert_eq!(bad.port, 3000);
    assert_eq!(bad.token_duration_hours, 24);
    assert_eq!(bad.idle_timeout_secs, 300);
    assert_eq!(bad.data_dir, "/tmp/.jcowork/data");
}

#[test]
fn data_dir_joins_like_paths() {
    assert_eq!(default_data_dir(Some("/root/")), "/root/.jcowork/data");
    assert_eq!(default_data_dir(Some("")), ".jcowork/data");
}

#[test]
fn offsets() {
    assert_eq!(offset_minutes(None), 480);
    assert_eq!(offset_minutes(Some("-300")), -300);
    assert_eq!(offset_minutes(Some("abc")), 480);
    assert_eq!(offset_seconds(-300), -18000);
    assert_eq!(offset_seconds(2000), 480 * 60);
}
