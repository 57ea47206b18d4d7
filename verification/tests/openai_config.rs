use agent_bridge::openai::client::OpenAICompatible;
use agent_bridge::openai::config::{OpenAICompatibleConfig, ReasoningEffort};

type Client = OpenAICompatible<u32>;

#[test]
fn extra_headers_parse_at_client_construction() {
    let config = OpenAICompatibleConfig::new("test-key", "test-model")
        .with_extra_headers(vec![("X-Agent-Id".to_string(), "agent-7".to_string())]);
    let client = Client::new(config).ok().expect("client creation failed");
    assert_eq!(client.extra_headers.get("x-agent-id").unwrap(), "agent-7");
}

#[test]
fn invalid_extra_header_name_fails_construction() {
    let config = OpenAICompatibleConfig::new("test-key", "test-model")
        .with_extra_headers(vec![("Bad Name".to_string(), "v".to_string())]);
    assert!(Client::new(config).is_err());
}

#[test]
fn test_parallel_tool_calls_config() {
    let config =
        OpenAICompatibleConfig::new("test-key", "test-model").with_parallel_tool_calls(false);

    assert!(!config.parallel_tool_calls, "parallel_tool_calls should be false in config");

    let client = Client::new(config).ok().expect("client creation failed");
    assert!(!client.parallel_tool_calls, "parallel_tool_calls should be false in client");
}

#[test]
fn test_parallel_tool_calls_default() {
    let config = OpenAICompatibleConfig::new("test-key", "test-model");

    assert!(config.parallel_tool_calls, "parallel_tool_calls should default to true");

    let client = Client::new(config).ok().expect("client creation failed");
    assert!(client.parallel_tool_calls, "parallel_tool_calls should default to true in client");
}

#[test]
fn gemini_preset_sets_endpoint_and_provider() {
    let config = OpenAICompatibleConfig::gemini("test-key", "gemini-3.5-flash");
    assert_eq!(config.provider_name, "gemini");
    assert_eq!(config.model, "gemini-3.5-flash");
    assert_eq!(
        config.base_url.as_deref(),
        Some("https://generativelanguage.googleapis.com/v1beta/openai")
    );
    assert_eq!(config.api_key, "test-key");
}

#[test]
fn gemini_preset_supports_reasoning_effort() {
    let config = OpenAICompatibleConfig::gemini("k", "gemini-3.5-flash")
        .with_reasoning_effort(ReasoningEffort::Low);
    assert_eq!(config.reasoning_effort, Some(ReasoningEffort::Low));
}

#[test]
fn gemini_preset_builds_client() {
    let config = OpenAICompatibleConfig::gemini("k", "gemini-3.5-flash");
    let client = Client::new(config).ok().expect("client builds");
    assert_eq!(client.name(), "gemini-3.5-flash");
}

#[test]
fn presets_set_provider_and_endpoint() {
    let made = [
        OpenAICompatibleConfig::fireworks("k", "m"),
        OpenAICompatibleConfig::together("k", "m"),
        OpenAICompatibleConfig::mistral("k", "m"),
        OpenAICompatibleConfig::perplexity("k", "m"),
        OpenAICompatibleConfig::cerebras("k", "m"),
        OpenAICompatibleConfig::sambanova("k", "m"),
        OpenAICompatibleConfig::xai("k", "m"),
        OpenAICompatibleConfig::minimax("k", "m"),
        OpenAICompatibleConfig::bytedance("k", "m"),
        OpenAICompatibleConfig::zhipu("k", "m"),
        OpenAICompatibleConfig::baidu("k", "m"),
        OpenAICompatibleConfig::cohere("k", "m"),
    ];
    let expected = [
        ("fireworks", "https://api.fireworks.ai/inference/v1"),
        ("together", "https://api.together.xyz/v1"),
        ("mistral", "https://api.mistral.ai/v1"),
        ("perplexity", "https://api.perplexity.ai"),
        ("cerebras", "https://api.cerebras.ai/v1"),
        ("sambanova", "https://api.sambanova.ai/v1"),
        ("xai", "https://api.x.ai/v1"),
        ("minimax", "https://api.minimax.chat/v1"),
        ("bytedance", "https://ark.cn-beijing.volces.com/api/v3"),
        ("zhipu", "https://open.bigmodel.cn/api/paas/v4"),
        ("baidu", "https://qianfan.baidubce.com/v2"),
        ("cohere", "https://api.cohere.com/compatibility/v1"),
    ];
    for (config, (name, url)) in made.iter().zip(expected) {
        assert_eq!(config.provider_name, name);
        assert_eq!(config.base_url.as_deref(), Some(url));
        assert_eq!(config.api_key, "k");
        assert_eq!(config.model, "m");
        assert!(config.parallel_tool_calls);
        assert!(config.organization_id.is_none());
    }
}

#[test]
fn a_client_has_what_its_config_says() {
    let config = OpenAICompatibleConfig::new("key", "model")
        .with_organization("org")
        .with_project("proj")
        .with_provider_name("prov");
    assert_eq!(config.project_id.as_deref(), Some("proj"));
    let mut client = Client::new(config).ok().unwrap();
    assert_eq!(client.base_url, "https://api.openai.com/v1");
    assert_eq!(client.chat_url(), "https://api.openai.com/v1/chat/completions");
    assert_eq!(client.organization_id.as_deref(), Some("org"));
    assert_eq!(*client.retry_config(), 0);
    client.set_retry_config(3);
    assert_eq!(*client.retry_config(), 3);
    let client = client.with_retry_config(4);
    assert_eq!(*client.retry_config(), 4);
    assert_eq!(client.request_error("refused").message(), "prov request error: refused");
    assert_eq!(
        client.api_error(404, "404 Not Found", "nope").message(),
        "prov API error (HTTP 404 Not Found): nope"
    );
    assert_eq!(client.parse_error("eof").message(), "prov response parse error: eof");
}
