use jcowork::llm::{provider_name_of, MockLlmProvider, OpenAiConfig, StreamChunk};
use jcowork::router::LlmRouter;

#[test]
fn model_strings() {
    assert_eq!(LlmRouter::extract_model_name("deepseek:deepseek-chat"), "deepseek-chat");
    assert_eq!(LlmRouter::extract_model_name("gpt-4o"), "gpt-4o");
    assert_eq!(LlmRouter::extract_model_name("a:b:c"), "b:c");
    assert_eq!(provider_name_of("qwen:qwen-plus"), "qwen");
    assert_eq!(provider_name_of("gpt-4o"), "openai");
}

#[test]
fn mock_provider() {
    let p = MockLlmProvider::new();
    assert_eq!(p.context_length(), 128000);
    assert_eq!(MockLlmProvider::with_context_length(42).context_length(), 42);
    assert_eq!(p.name(), "mock");
    let r = p.chat(&[], &[]);
    assert_eq!(r.message.content, "This is a mock response for testing.");
    assert_eq!(r.usage.total_tokens, 15);
    let chunks = p.chat_stream(&[], &[]);
    assert_eq!(chunks.len(), 4);
    assert!(matches!(&chunks[3], StreamChunk::Done(u) if u.total_tokens == 13));
}

#[test]
fn openai_defaults() {
    let c = OpenAiConfig::default();
    assert_eq!(c.base_url, "https://api.openai.com/v1");
    assert_eq!(c.model, "gpt-4o");
    assert_eq!(c.context_length, 128000);
    assert_eq!(c.provider_name, "openai");
}
