use agent_bridge::json::{Json, JsonObject};
use agent_bridge::llm::GenerateConfig;
use agent_bridge::openai::client::OpenAICompatible;
use agent_bridge::openai::config::{OpenAICompatibleConfig, ReasoningEffort};
use agent_bridge::openai::request::{
    build_failure, build_request_json, serialize_failure, streaming_body, ChatInput,
};
use async_openai::error::OpenAIError;
use async_openai::types::chat::{
    ChatCompletionRequestMessage, ChatCompletionTool, ChatCompletionTools, FunctionObject,
};

fn message(text: &str) -> ChatCompletionRequestMessage {
    serde_json::from_str(&format!("{{\"role\":\"user\",\"content\":\"{text}\"}}")).unwrap()
}

fn tool(name: &str) -> ChatCompletionTools {
    ChatCompletionTools::Function(ChatCompletionTool {
        function: FunctionObject { name: name.to_string(), ..Default::default() },
    })
}

fn object(text: &str) -> JsonObject {
    match Json::parse(text) {
        Some(Json::Object(o)) => o,
        _ => panic!("not an object"),
    }
}

fn input(config: Option<GenerateConfig>) -> ChatInput {
    ChatInput {
        model: "org/gpt-4.1-x".to_string(),
        messages: vec![message("hello")],
        tool_count: 0,
        tools: Vec::new(),
        config,
    }
}

fn config() -> GenerateConfig {
    GenerateConfig {
        temperature: None,
        top_p: None,
        max_output_tokens: None,
        response_schema: None,
        extensions: JsonObject::new(),
    }
}

#[test]
fn a_plain_request_has_model_and_messages_only() {
    let body = build_request_json("gpt-test", input(None), &None, true).unwrap();
    assert_eq!(
        body.to_text(),
        "{\"messages\":[{\"role\":\"user\",\"content\":\"hello\"}],\"model\":\"gpt-test\"}"
    );
}

#[test]
fn tools_bring_the_parallel_flag_along() {
    let mut with_tools = input(None);
    with_tools.tool_count = 1;
    with_tools.tools = vec![tool("read_file")];
    let body = build_request_json("m", with_tools, &Some(ReasoningEffort::Low), false).unwrap();
    assert_eq!(body.get("parallel_tool_calls").map(|j| j.to_text()).as_deref(), Some("false"));
    assert_eq!(body.get("reasoning_effort").unwrap().as_str(), Some("low"));
    let listed = body.get("tools").unwrap().at(0).unwrap();
    assert_eq!(listed.get("type").unwrap().as_str(), Some("function"));
    assert_eq!(listed.get("function").unwrap().get("name").unwrap().as_str(), Some("read_file"));
}

#[test]
fn every_effort_has_its_word() {
    for (effort, word) in [
        (ReasoningEffort::Off, "none"),
        (ReasoningEffort::Minimal, "minimal"),
        (ReasoningEffort::Low, "low"),
        (ReasoningEffort::Medium, "medium"),
        (ReasoningEffort::High, "high"),
        (ReasoningEffort::Xhigh, "xhigh"),
        (ReasoningEffort::Max, "max"),
    ] {
        let body = build_request_json("m", input(None), &Some(effort), true).unwrap();
        assert_eq!(body.get("reasoning_effort").unwrap().as_str(), Some(word));
    }
}

#[test]
fn generation_settings_reach_the_body() {
    let mut settings = config();
    settings.temperature = Some(Json::from_value(serde_json::Value::from(0.5f32)));
    settings.top_p = Some(Json::from_value(serde_json::Value::from(0.25f32)));
    settings.max_output_tokens = Some(-1);
    settings.response_schema = Json::parse("{\"type\":\"object\"}");
    let body = build_request_json("m", input(Some(settings)), &None, true).unwrap();
    assert_eq!(body.get("temperature").unwrap().to_text(), "0.5");
    assert_eq!(body.get("top_p").unwrap().to_text(), "0.25");
    assert_eq!(body.get("max_completion_tokens").unwrap().as_u64(), Some(4294967295));
    assert_eq!(
        body.get("response_format").unwrap().to_text(),
        "{\"type\":\"json_schema\",\"json_schema\":{\"name\":\"org_gpt_4_1_x\",\
         \"schema\":{\"type\":\"object\",\"additionalProperties\":false},\"strict\":true}}"
    );
}

#[test]
fn provider_fields_win_over_everything() {
    let mut settings = config();
    settings.temperature = Some(Json::PosInt(1));
    settings.top_p = Some(Json::PosInt(2));
    settings.max_output_tokens = Some(3);
    settings.extensions = object(
        "{\"openai\":{\"temperature\":0,\"model\":\"other\",\"seed\":7},\"anthropic\":{\"x\":1}}",
    );
    let body = build_request_json("m", input(Some(settings)), &None, true).unwrap();
    assert_eq!(body.get("temperature").unwrap().as_u64(), Some(0));
    assert_eq!(body.get("model").unwrap().as_str(), Some("other"));
    assert_eq!(body.get("seed").unwrap().as_u64(), Some(7));
    assert!(body.get("x").is_none());
    // What the provider's fields do not name stays as it was set.
    assert_eq!(body.get("top_p").unwrap().as_u64(), Some(2));
    assert_eq!(body.get("max_completion_tokens").unwrap().as_u64(), Some(3));
    let mut settings = config();
    settings.extensions = object("{\"openai\":[1]}");
    let body = build_request_json("m", input(Some(settings)), &None, true).unwrap();
    assert_eq!(body.get("model").unwrap().as_str(), Some("m"));
}

#[test]
fn a_schema_that_is_no_object_is_kept() {
    let mut settings = config();
    settings.response_schema = Some(Json::Bool(true));
    let body = build_request_json("m", input(Some(settings)), &None, true).unwrap();
    let schema = body.get("response_format").unwrap().get("json_schema").unwrap().get("schema");
    assert!(matches!(schema, Some(Json::Bool(true))));
}

#[test]
fn streaming_adds_two_fields() {
    let client: OpenAICompatible<u8> =
        OpenAICompatible::new(OpenAICompatibleConfig::new("k", "m")).ok().unwrap();
    let body = client.request_body(input(None)).unwrap();
    assert_eq!(
        streaming_body(body).to_text(),
        "{\"messages\":[{\"role\":\"user\",\"content\":\"hello\"}],\"model\":\"m\",\
         \"stream\":true,\"stream_options\":{\"include_usage\":true}}"
    );
    assert!(matches!(streaming_body(Json::Null), Json::Null));
}

#[test]
fn failures_say_what_could_not_be_done() {
    let refused = OpenAIError::InvalidArgument("no model".to_string());
    let text = refused.to_string();
    assert!(text.contains("no model"));
    assert_eq!(*build_failure(&refused).message(), format!("failed to build request: {text}"));
    let unserialised = serde_json::from_str::<u8>("x").unwrap_err();
    let text = unserialised.to_string();
    assert_eq!(
        *serialize_failure(&unserialised).message(),
        format!("failed to serialize request: {text}")
    );
}
