use agent_bridge::deepseek::client::{
    http_client_error, parse_error, read_error, request_error, response_error, DeepSeekClient,
};
use agent_bridge::deepseek::config::{DeepSeekConfig, ThinkingMode};
use agent_bridge::deepseek::request::{
    build_request_with, mentions_json, ChatCompletionRequest, ChatInput, Message,
};
use agent_bridge::deepseek::stream::{
    Choice, Chunk, Delta, FunctionDelta, StreamDecoder, StreamItem, ToolCallDelta, Usage,
};
use agent_bridge::error::{AdkError, ErrorCategory};
use agent_bridge::json::{Json, JsonObject};
use agent_bridge::llm::{FinishReason, GenerateConfig, LlmResponse, Part};
use agent_bridge::sse::Line;

fn client() -> DeepSeekClient<u8> {
    DeepSeekClient::chat("test-key")
}

fn schema() -> Json {
    Json::parse(
        "{\"type\":\"object\",\"properties\":{\"answer\":{\"type\":\"string\"}},\"required\":[\"answer\"]}",
    )
    .unwrap()
}

fn user(text: &str) -> Message {
    Message { role: "user".to_string(), content: Some(text.to_string()), extra: JsonObject::new() }
}

fn with_schema() -> GenerateConfig {
    GenerateConfig {
        temperature: None,
        top_p: None,
        max_output_tokens: None,
        response_schema: Some(schema()),
        extensions: JsonObject::new(),
    }
}

fn request_with(config: Option<GenerateConfig>, prompt: &str) -> ChatInput {
    ChatInput { messages: vec![user(prompt)], tool_count: 0, tools: Vec::new(), config }
}

#[test]
fn a_response_schema_requests_json_output() {
    let request = request_with(Some(with_schema()), "give me the answer as json");
    let built = client().build_request(request, false);
    let wire = built.to_json();
    assert_eq!(
        wire.get("response_format").map(|j| j.to_text()).as_deref(),
        Some("{\"type\":\"json_object\"}"),
        "a response schema must request DeepSeek's JSON Output mode"
    );
}

#[test]
fn no_schema_leaves_the_response_format_unset() {
    let built = client().build_request(request_with(None, "hello"), false);
    let wire = built.to_json();
    assert!(
        wire.get("response_format").is_none(),
        "an ordinary turn must not request JSON Output"
    );
}

#[test]
fn thinking_mode_and_effort_reach_the_wire() {
    let explicit: DeepSeekClient<u8> = DeepSeekClient::new(
        DeepSeekConfig::new("test-key", "deepseek-v4-flash")
            .with_thinking_mode(ThinkingMode::Enabled)
            .with_reasoning_effort("max"),
    );
    let wire = explicit.build_request(request_with(None, "hi"), false).to_json();
    assert_eq!(wire.get("thinking").unwrap().to_text(), "{\"type\":\"enabled\"}");
    assert_eq!(wire.get("reasoning_effort").unwrap().as_str(), Some("max"));

    let default_wire = client().build_request(request_with(None, "hi"), false).to_json();
    assert!(default_wire.get("thinking").is_none());
    assert!(default_wire.get("reasoning_effort").is_none());
}

fn has_keyword(built: &ChatCompletionRequest) -> bool {
    built
        .messages
        .iter()
        .any(|m| m.content.as_deref().is_some_and(|text| text.to_lowercase().contains("json")))
}

#[test]
fn the_documented_json_keyword_requirement_is_satisfied() {
    let request = request_with(Some(with_schema()), "summarise the document");
    let built = client().build_request(request, false);
    assert!(has_keyword(&built), "enabling JSON Output without the keyword risks empty responses");
    assert_eq!(
        built.messages[0].content.as_deref(),
        Some(
            "Respond with a single json object matching this schema: \
             {\"type\":\"object\",\"properties\":{\"answer\":{\"type\":\"string\"}},\"required\":[\"answer\"]}"
        )
    );
    assert_eq!(built.messages[0].role, "system");
}

#[test]
fn an_existing_json_mention_is_not_duplicated() {
    let request = request_with(Some(with_schema()), "reply in json please");
    let built = client().build_request(request, false);
    assert_eq!(
        built.messages.len(),
        1,
        "the prompt already mentions json, so nothing needs to be added"
    );
}

#[test]
fn the_keyword_is_found_in_any_case() {
    let texts = ["JSON", "aJsOn", "j son", "jso", "\u{17f}json", "j\u{17f}on", "", "js\u{f6}n", "jjsonn"];
    for text in texts {
        assert_eq!(mentions_json(&[user(text)]), text.to_lowercase().contains("json"), "{text}");
    }
    assert!(!mentions_json(&[]));
    let silent = Message { role: "a".to_string(), content: None, extra: JsonObject::new() };
    assert!(mentions_json(&[silent, user("x json")]));
}

#[test]
fn limits_and_tools_reach_the_wire() {
    let mut config = DeepSeekConfig::new("k", "m");
    config.max_tokens = Some(100);
    config.thinking_enabled = true;
    let client: DeepSeekClient<u8> = DeepSeekClient::new(config);
    let wire = client.build_request(request_with(None, "hi"), true).to_json();
    assert_eq!(
        wire.to_text(),
        "{\"model\":\"m\",\"messages\":[{\"role\":\"user\",\"content\":\"hi\"}],\
         \"max_tokens\":100,\"stream\":true,\"thinking\":{\"type\":\"enabled\"}}"
    );
    let mut generate = with_schema();
    generate.response_schema = None;
    generate.max_output_tokens = Some(-2);
    generate.temperature = Some(Json::PosInt(1));
    let mut extra = JsonObject::new();
    extra.insert("tool_call_id".to_string(), Json::string("c"));
    let input = ChatInput {
        messages: vec![Message { role: "tool".to_string(), content: None, extra }],
        tool_count: 1,
        tools: vec![Json::string("t")],
        config: Some(generate),
    };
    let wire = client.build_request(input, false).to_json();
    assert_eq!(
        wire.to_text(),
        "{\"model\":\"m\",\"messages\":[{\"role\":\"tool\",\"tool_call_id\":\"c\"}],\"temperature\":1,\
         \"max_tokens\":4294967294,\"stream\":false,\"tools\":[\"t\"],\"thinking\":{\"type\":\"enabled\"}}"
    );
}

#[test]
fn the_newer_thinking_setting_wins() {
    let mut config = DeepSeekConfig::new("k", "m").with_thinking_mode(ThinkingMode::Disabled);
    config.thinking_enabled = true;
    let built = build_request_with(&config, request_with(None, "x"), Some("S".to_string()), true);
    assert_eq!(built.thinking, Some(ThinkingMode::Disabled));
    assert_eq!(built.response_format.as_deref(), Some("json_object"));
    assert_eq!(
        built.messages[0].content.as_deref(),
        Some("Respond with a single json object matching this schema: S")
    );
}

#[test]
fn clients_are_made_for_known_models() {
    let pro: DeepSeekClient<u8> = DeepSeekClient::v4_pro("k");
    assert_eq!(pro.name(), "deepseek-v4-pro");
    assert_eq!(pro.config.thinking, Some(ThinkingMode::Enabled));
    let flash: DeepSeekClient<u8> = DeepSeekClient::v4_flash("k");
    assert_eq!(flash.name(), "deepseek-v4-flash");
    assert_eq!(flash.config.thinking, None);
    let reasoner: DeepSeekClient<u8> = DeepSeekClient::reasoner("k");
    assert_eq!(reasoner.name(), "deepseek-reasoner");
    assert!(reasoner.config.thinking_enabled);
    assert_eq!(client().name(), "deepseek-chat");
    let mut tuned = client().with_retry_config(5);
    assert_eq!(*tuned.retry_config(), 5);
    tuned.set_retry_config(6);
    assert_eq!(*tuned.retry_config(), 6);
    assert_eq!(tuned.api_url("https://h/x//"), "https://h/x/chat/completions");
    assert_eq!(tuned.api_url("https://h"), "https://h/chat/completions");
    assert_eq!(tuned.api_url("//"), "/chat/completions");
}

#[test]
fn errors_of_the_client_say_what_failed() {
    assert_eq!(http_client_error("x").message(), "failed to create HTTP client: x");
    assert_eq!(request_error("x").message(), "DeepSeek API request failed: x");
    assert_eq!(read_error("x").message(), "failed to read response: x");
    assert_eq!(parse_error("x", "body").message(), "failed to parse response: x - body");
    assert_eq!(
        response_error(500, "500 Internal Server Error", "b").message(),
        "DeepSeek API error (HTTP 500 Internal Server Error): b"
    );
}

// ── streaming ──────────────────────────────────────────────────────────

fn empty_delta() -> Delta {
    Delta { reasoning_content: None, content: None, tool_calls: None }
}

fn chunk(delta: Delta, finish: Option<&str>) -> Chunk {
    Chunk {
        choices: vec![Choice { delta: Some(delta), finish_reason: finish.map(str::to_string) }],
        usage: None,
    }
}

fn counted_chunk(delta: Delta, finish: Option<&str>) -> Chunk {
    Chunk {
        usage: Some(Usage {
            prompt_tokens: 12,
            completion_tokens: 40,
            total_tokens: 52,
            reasoning_tokens: Some(25),
            prompt_cache_hit_tokens: None,
            prompt_cache_miss_tokens: None,
        }),
        ..chunk(delta, finish)
    }
}

fn call_delta(index: u32, id: Option<&str>, name: Option<&str>, arguments: Option<&str>) -> ToolCallDelta {
    ToolCallDelta {
        index,
        id: id.map(str::to_string),
        function: Some(FunctionDelta {
            name: name.map(str::to_string),
            arguments: arguments.map(str::to_string),
        }),
    }
}

fn calls(deltas: Vec<ToolCallDelta>) -> Delta {
    Delta { tool_calls: Some(deltas), ..empty_delta() }
}

fn reasoning(text: &str) -> Delta {
    Delta { reasoning_content: Some(text.to_string()), ..empty_delta() }
}

fn content(text: &str) -> Delta {
    Delta { content: Some(text.to_string()), ..empty_delta() }
}

fn run(chunks: Vec<Chunk>) -> (Vec<StreamItem>, Option<AdkError>) {
    let mut decoder = StreamDecoder::new();
    let mut items = Vec::new();
    for chunk in &chunks {
        let outcome = decoder.on_chunk(chunk);
        items.extend(outcome.items);
        if outcome.error.is_some() {
            return (items, outcome.error);
        }
    }
    (items, None)
}

fn reasoning_text(resp: &LlmResponse) -> Option<String> {
    let content = resp.content.as_ref()?;
    let mut out = String::new();
    for part in &content.parts {
        if let Part::Thinking { thinking, .. } = part {
            out.push_str(thinking);
        }
    }
    (!out.is_empty()).then_some(out)
}

fn plain_text(resp: &LlmResponse) -> String {
    resp.content.as_ref().map_or(String::new(), |c| {
        c.parts
            .iter()
            .map(|p| match p {
                Part::Text { text } => text.clone(),
                _ => String::new(),
            })
            .collect()
    })
}

#[test]
fn empty_streamed_tool_name_fails_the_turn() {
    let (items, error) = run(vec![
        chunk(calls(vec![call_delta(0, Some("call_0"), Some(""), Some("{\"path\":\"/tmp\"}"))]), None),
        chunk(empty_delta(), Some("tool_calls")),
    ]);
    assert!(items.is_empty());
    match error.expect("stream must yield an error for an empty tool name") {
        AdkError::Coded { code, message, should_retry, category, provider, .. } => {
            assert_eq!(code, "model.deepseek.empty_tool_name");
            assert_eq!(should_retry, Some(true), "the drop is transient, retry must be suggested");
            assert!(message.contains("call_0"), "error should name the call id: {message}");
            assert_eq!(category, ErrorCategory::Unavailable);
            assert_eq!(provider.as_deref(), Some("deepseek"));
        }
        other => panic!("{other:?}"),
    }
}

#[test]
fn named_streamed_tool_call_still_passes() {
    let (items, error) = run(vec![
        chunk(
            calls(vec![call_delta(0, Some("call_0"), Some("read_file"), Some("{\"path\":\"/tmp\"}"))]),
            None,
        ),
        chunk(empty_delta(), Some("tool_calls")),
    ]);
    assert!(error.is_none(), "a named tool call must not error");
    match &items[..] {
        [StreamItem::ToolCalls { calls, finish_reason, reasoning }] => {
            assert_eq!(calls.len(), 1);
            assert_eq!(calls[0].name, "read_file");
            assert_eq!(calls[0].id, "call_0");
            assert_eq!(calls[0].args.to_text(), "{\"path\":\"/tmp\"}");
            assert_eq!(*finish_reason, Some(FinishReason::Stop));
            assert!(reasoning.is_none());
        }
        other => panic!("the named tool call should reach the stream: {other:?}"),
    }
}

#[test]
fn reasoning_deltas_stream_without_local_thinking_flag() {
    let (items, error) = run(vec![
        counted_chunk(reasoning("step one… "), None),
        counted_chunk(reasoning("step two"), None),
        counted_chunk(content("The answer."), None),
        counted_chunk(empty_delta(), Some("stop")),
    ]);
    assert!(error.is_none());
    let responses: Vec<&LlmResponse> = items
        .iter()
        .map(|i| match i {
            StreamItem::Response(r) => r,
            other => panic!("{other:?}"),
        })
        .collect();
    let reasoning_partials: Vec<String> =
        responses.iter().filter(|r| r.partial).filter_map(|r| reasoning_text(r)).collect();
    assert_eq!(reasoning_partials, vec!["step one… ", "step two"]);
    assert_eq!(responses.iter().filter(|r| r.partial).count(), 3);
    let last = responses.last().unwrap();
    assert!(!last.partial && last.turn_complete);
    assert_eq!(reasoning_text(last).as_deref(), Some("step one… step two"));
    assert_eq!(plain_text(last), "The answer.");
    let usage = last.usage_metadata.unwrap();
    assert_eq!(usage.total_token_count, 52);
    assert_eq!(usage.thinking_token_count, Some(25));
}

#[test]
fn tool_call_turn_keeps_its_reasoning_without_local_flag() {
    let (items, _) = run(vec![
        counted_chunk(reasoning("need a tool"), None),
        counted_chunk(
            calls(vec![call_delta(0, Some("call_0"), Some("read_file"), Some("{\"path\":\"/tmp\"}"))]),
            None,
        ),
        counted_chunk(empty_delta(), Some("tool_calls")),
    ]);
    let tool_thinking = items.iter().find_map(|i| match i {
        StreamItem::ToolCalls { reasoning, .. } => reasoning.clone(),
        _ => None,
    });
    assert_eq!(
        tool_thinking.as_deref(),
        Some("need a tool"),
        "a thinking→tool-call turn keeps its reasoning trail"
    );
}

#[test]
fn a_blank_name_does_not_clobber_the_name() {
    let (items, error) = run(vec![
        chunk(calls(vec![call_delta(3, None, Some("f"), Some("{\"a\":"))]), None),
        chunk(
            calls(vec![
                call_delta(3, None, Some(" "), Some("1}")),
                call_delta(1, Some("x"), Some("g"), None),
            ]),
            None,
        ),
        chunk(empty_delta(), Some("stop")),
    ]);
    assert!(error.is_none());
    match &items[..] {
        [StreamItem::ToolCalls { calls, .. }] => {
            assert_eq!(calls[0].name, "g");
            assert_eq!(calls[0].args.to_text(), "{}");
            assert_eq!(calls[1].name, "f");
            assert_eq!(calls[1].id, "call_3");
            assert_eq!(calls[1].args.to_text(), "{\"a\":1}");
        }
        other => panic!("{other:?}"),
    }
}

#[test]
fn text_on_the_last_chunk_is_not_part_of_the_reply() {
    let mut last = content("lost");
    last.reasoning_content = Some("why".to_string());
    let (items, _) = run(vec![chunk(content("kept"), None), chunk(last, Some("length"))]);
    match &items[..] {
        [StreamItem::Response(_), StreamItem::Response(thinking), StreamItem::Response(end)] => {
            assert!(thinking.partial);
            assert_eq!(plain_text(end), "kept");
            assert_eq!(reasoning_text(end).as_deref(), Some("why"));
            assert_eq!(end.finish_reason, Some(FinishReason::MaxTokens));
        }
        other => panic!("{other:?}"),
    }
    let (items, _) = run(vec![Chunk { choices: Vec::new(), usage: None }]);
    assert!(items.is_empty());
    let (items, _) = run(vec![Chunk {
        choices: vec![Choice { delta: None, finish_reason: Some("stop".to_string()) }],
        usage: None,
    }]);
    assert!(matches!(&items[..], [StreamItem::Response(r)] if r.content.is_none() && r.usage_metadata.is_none()));
}

#[test]
fn deepseek_lines_are_cut_from_bytes() {
    let mut decoder = StreamDecoder::new();
    decoder.push_bytes(b"data: {\"x\":1}\n\ndata: [DONE]\nda");
    assert!(matches!(decoder.next_line(), Some(Line::Data(d)) if d == "{\"x\":1}"));
    assert!(matches!(decoder.next_line(), Some(Line::Other)));
    assert!(matches!(decoder.next_line(), Some(Line::Done)));
    assert!(decoder.next_line().is_none());
    decoder.push_bytes(b"ta: y\n");
    assert!(matches!(decoder.next_line(), Some(Line::Data(d)) if d == "y"));
}

#[test]
fn the_thinking_settings_do_not_change_the_reply() {
    let mut configs = vec![DeepSeekConfig::new("k", "m")];
    for mode in [ThinkingMode::Enabled, ThinkingMode::Disabled] {
        configs.push(DeepSeekConfig::new("k", "m").with_thinking_mode(mode));
    }
    let mut legacy = DeepSeekConfig::new("k", "m");
    legacy.thinking_enabled = true;
    configs.push(legacy);
    let body = "data: a\n: note\ndata: \u{e4}\ndata: end\n\ndata: [DONE]\n";
    let mut replies = Vec::new();
    for config in configs {
        let client: DeepSeekClient<u8> = DeepSeekClient::new(config);
        for cut in (0..body.len()).filter(|i| body.is_char_boundary(*i)) {
            let mut decoder = client.decoder();
            let mut items = Vec::new();
            for piece in [&body[..cut], &body[cut..]] {
                decoder.push_bytes(piece.as_bytes());
                while let Some(line) = decoder.next_line() {
                    let Line::Data(data) = line else { continue };
                    let chunk = match data.as_str() {
                        "end" => chunk(empty_delta(), Some("stop")),
                        text => chunk(reasoning(text), None),
                    };
                    items.extend(decoder.on_chunk(&chunk).items);
                }
            }
            replies.push(items);
        }
    }
    for items in replies {
        match &items[..] {
            [StreamItem::Response(a), StreamItem::Response(b), StreamItem::Response(end)] => {
                assert!(a.partial && b.partial && !end.partial);
                assert_eq!(reasoning_text(a).as_deref(), Some("a"));
                assert_eq!(reasoning_text(b).as_deref(), Some("\u{e4}"));
                assert_eq!(reasoning_text(end).as_deref(), Some("a\u{e4}"));
            }
            other => panic!("{other:?}"),
        }
    }
}
