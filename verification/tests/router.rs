use jcowork::llm::{ModelInfo, OpenAiConfig, ProviderConfig, ProviderEntry};
use jcowork::router::{base_url_env_name, LlmRouter};

fn model(id: &str) -> ModelInfo {
    ModelInfo { id: id.to_string(), name: id.to_uppercase(), context_length: 1000, vision: false }
}

fn entry(id: &str, key: &str) -> ProviderEntry {
    ProviderEntry {
        id: id.to_string(),
        name: format!("{} name", id),
        api_key: key.to_string(),
        base_url: format!("https://{}.example/v1", id),
        default_model: format!("{}-chat", id),
        context_length: 64000,
        models: vec![model(&format!("{}-chat", id))],
    }
}

fn definition(id: &str, env_key: &str) -> ProviderConfig {
    ProviderConfig {
        id: id.to_string(),
        name: format!("{} name", id),
        env_key: env_key.to_string(),
        base_url: format!("https://{}.example/v1", id),
        default_model: format!("{}-chat", id),
        context_length: 32000,
        models: vec![model("m1"), model("m2")],
    }
}

fn config(name: &str) -> OpenAiConfig {
    OpenAiConfig {
        api_key: "k".to_string(),
        base_url: "u".to_string(),
        model: "m".to_string(),
        context_length: 1,
        provider_name: name.to_string(),
    }
}

#[test]
fn register_and_select_provider() {
    let mut r = LlmRouter::new();
    r.register_openai_compatible("qwen", config("qwen"));
    r.register_openai_compatible("deepseek", config("deepseek"));
    assert_eq!(r.get_provider("deepseek:deepseek-chat").unwrap().provider_name, "deepseek");
    assert_eq!(r.get_provider("qwen:qwen-plus").unwrap().provider_name, "qwen");
    assert_eq!(r.available_providers(), vec!["deepseek".to_string(), "qwen".to_string()]);
    let mut c = config("qwen");
    c.model = "other".to_string();
    r.register_openai_compatible("qwen", c);
    assert_eq!(r.get_provider("qwen:x").unwrap().model, "other");
    assert_eq!(r.available_providers().len(), 2);
}

#[test]
fn unknown_provider_lists_available() {
    let mut r = LlmRouter::default();
    r.register_openai_compatible("qwen", config("qwen"));
    r.register_openai_compatible("deepseek", config("deepseek"));
    let err = r.get_provider("gpt-4o").unwrap_err();
    assert_eq!(
        err,
        "Unknown provider 'openai'. Available: deepseek, qwen. Set the corresponding API key env var to enable it."
    );
    let err2 = LlmRouter::new().get_provider("x:y").unwrap_err();
    assert_eq!(err2, "Unknown provider 'x'. Available: . Set the corresponding API key env var to enable it.");
}

#[test]
fn rebuild_from_entries_skips_keyless_remote_providers() {
    let entries = vec![entry("moonshot", "sk-test-key"), entry("qwen", ""), entry("llamacpp", ""), entry("local", "")];
    let r = LlmRouter::rebuild_from_entries(&entries);
    assert_eq!(r.available_providers(), vec!["llamacpp".to_string(), "local".to_string(), "moonshot".to_string()]);
    let m = r.get_provider("moonshot:kimi").unwrap();
    assert_eq!(m.api_key, "sk-test-key");
    assert_eq!(m.base_url, "https://moonshot.example/v1");
    assert_eq!(m.model, "moonshot-chat");
    assert_eq!(m.context_length, 64000);
    assert_eq!(r.get_provider("llamacpp:q").unwrap().api_key, "unused");
    assert!(r.get_provider("qwen:qwen-plus").is_err());
    let info = r.providers_info();
    assert_eq!(info.len(), 3);
    assert_eq!(info[0].id, "llamacpp");
    assert_eq!(info[2].id, "moonshot");
    assert_eq!(info[2].name, "moonshot name");
    assert_eq!(info[2].models.len(), 1);
    assert_eq!(info[2].models[0].id, "moonshot-chat");
}

#[test]
fn from_definitions_with_keys_and_overrides() {
    let defs = vec![definition("deepseek", "DEEPSEEK_API_KEY"), definition("qwen", "QWEN_API_KEY"), definition("ollama", "")];
    let keys = vec![Some("sk-1".to_string()), Some(String::new()), None];
    let urls = vec![Some("https://proxy/v1".to_string()), None, None];
    let r = LlmRouter::from_provider_configs(defs, &keys, &urls);
    assert_eq!(r.available_providers(), vec!["deepseek".to_string(), "ollama".to_string()]);
    let d = r.get_provider("deepseek:deepseek-chat").unwrap();
    assert_eq!(d.api_key, "sk-1");
    assert_eq!(d.base_url, "https://proxy/v1");
    let o = r.get_provider("ollama:llama3").unwrap();
    assert_eq!(o.api_key, "unused");
    assert_eq!(o.base_url, "https://ollama.example/v1");
    let info = r.providers_info();
    assert_eq!(info[0].name, "deepseek name");
    assert_eq!(info[0].models.len(), 2);
}

#[test]
fn listing_without_definition_uses_name() {
    let mut r = LlmRouter::new();
    r.register_openai_compatible("custom", config("custom"));
    let info = r.providers_info();
    assert_eq!(info.len(), 1);
    assert_eq!(info[0].name, "custom");
    assert!(info[0].models.is_empty());
}

#[test]
fn file_and_variable_names() {
    assert_eq!(LlmRouter::providers_file_path("/data"), "/data/providers.json");
    assert_eq!(base_url_env_name("deepseek"), "DEEPSEEK_BASE_URL");
}

#[test]
fn providers_info_keeps_vision_flags() {
    let mut moonshot = entry("moonshot", "sk-test-key");
    moonshot.models = vec![
        ModelInfo { id: "kimi-k2.6".to_string(), name: "Kimi K2.6".to_string(), context_length: 256000, vision: true },
        ModelInfo { id: "kimi-k2.7-code".to_string(), name: "Kimi K2.7".to_string(), context_length: 256000, vision: false },
    ];
    let entries = vec![moonshot, entry("llamacpp", "")];
    let r = LlmRouter::rebuild_from_entries(&entries);
    let info = r.providers_info();
    assert_eq!(info.len(), 2);
    assert_eq!(info[0].id, "llamacpp");
    assert_eq!(info[1].id, "moonshot");
    assert!(info[1].models[0].vision);
    assert!(!info[1].models[1].vision);
}
