use agent_bridge::json::Json;
use agent_bridge::llm::{FinishReason, LlmResponse, Part, UsageMetadata};
use agent_bridge::openai::stream::{parse_finish_reason, StreamDecoder};
use agent_bridge::openai::usage::parse_usage_from_chunk as parse_usage;

fn parse_usage_from_chunk(text: &str) -> Option<UsageMetadata> {
    parse_usage(&Json::parse(text).unwrap())
}

/// Runs a whole response body through a decoder. Text holds no tool calls here.
fn drive(body: &str) -> Vec<LlmResponse> {
    drive_in_pieces(body, body.len())
}

fn drive_in_pieces(body: &str, size: usize) -> Vec<LlmResponse> {
    let mut decoder = StreamDecoder::new();
    let mut responses = Vec::new();
    for piece in body.as_bytes().chunks(size) {
        decoder.push_bytes(piece);
        while let Some(outcome) = decoder.next() {
            responses.extend(outcome.responses);
            if let Some(text) = outcome.text {
                responses.extend(decoder.on_parts(vec![Part::Text { text }]));
            }
        }
    }
    responses.extend(decoder.finish());
    responses
}

#[test]
fn usage_on_trailing_empty_choices_chunk_attaches_to_final() {
    let responses = drive(
        "data: {\"id\":\"c1\",\"object\":\"chat.completion.chunk\",\"model\":\"gpt-test\",\"choices\":[{\"index\":0,\"delta\":{\"role\":\"assistant\"},\"finish_reason\":null}],\"usage\":null}\n\n\
         data: {\"id\":\"c1\",\"object\":\"chat.completion.chunk\",\"model\":\"gpt-test\",\"choices\":[{\"index\":0,\"delta\":{\"content\":\"hello\"},\"finish_reason\":null}],\"usage\":null}\n\n\
         data: {\"id\":\"c1\",\"object\":\"chat.completion.chunk\",\"model\":\"gpt-test\",\"choices\":[{\"index\":0,\"delta\":{},\"finish_reason\":\"stop\"}],\"usage\":null}\n\n\
         data: {\"id\":\"c1\",\"object\":\"chat.completion.chunk\",\"model\":\"gpt-test\",\"choices\":[],\"usage\":{\"prompt_tokens\":10,\"completion_tokens\":5,\"total_tokens\":15,\"prompt_tokens_details\":{\"cached_tokens\":4}}}\n\n\
         data: [DONE]\n\n",
    );

    assert_eq!(responses.len(), 2, "one partial + one final");
    assert!(responses[0].partial);
    assert!(!responses[1].partial);
    assert_eq!(responses[1].finish_reason, Some(FinishReason::Stop));
    let usage = responses[1].usage_metadata.as_ref().expect("final must carry the trailing usage");
    assert_eq!(usage.prompt_token_count, 10);
    assert_eq!(usage.candidates_token_count, 5);
    assert_eq!(usage.total_token_count, 15);
    assert_eq!(usage.cache_read_input_token_count, Some(4));
}

#[test]
fn usage_riding_finish_chunk_attaches_to_final() {
    let responses = drive(
        "data: {\"id\":\"c1\",\"object\":\"chat.completion.chunk\",\"model\":\"gpt-test\",\"choices\":[{\"index\":0,\"delta\":{\"content\":\"hi\"},\"finish_reason\":null}]}\n\n\
         data: {\"id\":\"c1\",\"object\":\"chat.completion.chunk\",\"model\":\"gpt-test\",\"choices\":[{\"index\":0,\"delta\":{},\"finish_reason\":\"stop\"}],\"usage\":{\"prompt_tokens\":7,\"completion_tokens\":3,\"total_tokens\":10,\"prompt_cache_hit_tokens\":2,\"prompt_cache_miss_tokens\":5}}\n\n\
         data: [DONE]\n\n",
    );

    assert_eq!(responses.len(), 2);
    let usage = responses[1].usage_metadata.as_ref().expect("finish-chunk usage must survive");
    assert_eq!(usage.prompt_token_count, 7);
    assert_eq!(usage.total_token_count, 10);
    assert_eq!(usage.cache_read_input_token_count, Some(2));
    assert_eq!(usage.cache_creation_input_token_count, Some(5));
}

#[test]
fn tool_call_final_holds_for_trailing_usage() {
    let responses = drive(
        "data: {\"id\":\"c1\",\"object\":\"chat.completion.chunk\",\"model\":\"gpt-test\",\"choices\":[{\"index\":0,\"delta\":{\"tool_calls\":[{\"index\":0,\"id\":\"call_1\",\"type\":\"function\",\"function\":{\"name\":\"get_weather\",\"arguments\":\"\"}}]},\"finish_reason\":null}]}\n\n\
         data: {\"id\":\"c1\",\"object\":\"chat.completion.chunk\",\"model\":\"gpt-test\",\"choices\":[{\"index\":0,\"delta\":{\"tool_calls\":[{\"index\":0,\"function\":{\"arguments\":\"{\\\"city\\\":\\\"SF\\\"}\"}}]},\"finish_reason\":null}]}\n\n\
         data: {\"id\":\"c1\",\"object\":\"chat.completion.chunk\",\"model\":\"gpt-test\",\"choices\":[{\"index\":0,\"delta\":{},\"finish_reason\":\"tool_calls\"}]}\n\n\
         data: {\"id\":\"c1\",\"object\":\"chat.completion.chunk\",\"model\":\"gpt-test\",\"choices\":[],\"usage\":{\"prompt_tokens\":20,\"completion_tokens\":4,\"total_tokens\":24}}\n\n\
         data: [DONE]\n\n",
    );

    let final_response =
        responses.iter().rev().find(|r| !r.partial).expect("a non-partial final must be emitted");
    assert!(!final_response.turn_complete, "tool-call turns stay open");
    assert!(final_response.content.as_ref().is_some_and(|c| c.has_function_calls()));
    assert_eq!(final_response.usage_metadata.as_ref().map(|u| u.total_token_count), Some(24));
    match &final_response.content.as_ref().unwrap().parts[..] {
        [Part::FunctionCall { name, args, id, thought_signature }] => {
            assert_eq!(name, "get_weather");
            assert_eq!(args.to_text(), "{\"city\":\"SF\"}");
            assert_eq!(id.as_deref(), Some("call_1"));
            assert!(thought_signature.is_none());
        }
        other => panic!("expected one call, got {other:?}"),
    }
}

#[test]
fn streamed_text_lands_in_the_tool_call_final() {
    let responses = drive(
        "data: {\"id\":\"c1\",\"object\":\"chat.completion.chunk\",\"model\":\"gpt-test\",\"choices\":[{\"index\":0,\"delta\":{\"content\":\"我先看看目录。\"},\"finish_reason\":null}]}\n\n\
         data: {\"id\":\"c1\",\"object\":\"chat.completion.chunk\",\"model\":\"gpt-test\",\"choices\":[{\"index\":0,\"delta\":{\"content\":\"再读 README。\"},\"finish_reason\":null}]}\n\n\
         data: {\"id\":\"c1\",\"object\":\"chat.completion.chunk\",\"model\":\"gpt-test\",\"choices\":[{\"index\":0,\"delta\":{\"tool_calls\":[{\"index\":0,\"id\":\"call_1\",\"type\":\"function\",\"function\":{\"name\":\"read_file\",\"arguments\":\"{}\"}}]},\"finish_reason\":null}]}\n\n\
         data: {\"id\":\"c1\",\"object\":\"chat.completion.chunk\",\"model\":\"gpt-test\",\"choices\":[{\"index\":0,\"delta\":{},\"finish_reason\":\"tool_calls\"}]}\n\n\
         data: [DONE]\n\n",
    );

    let final_response =
        responses.iter().rev().find(|r| !r.partial).expect("a non-partial final must be emitted");
    let content = final_response.content.as_ref().expect("final must carry content");
    match &content.parts[..] {
        [Part::Text { text }, Part::FunctionCall { name, .. }] => {
            assert_eq!(text, "我先看看目录。再读 README。");
            assert_eq!(name, "read_file");
        }
        other => panic!("expected [Text, FunctionCall], got {other:?}"),
    }
}

#[test]
fn stream_end_without_done_marker_flushes_held_final() {
    let responses = drive(
        "data: {\"id\":\"c1\",\"object\":\"chat.completion.chunk\",\"model\":\"gpt-test\",\"choices\":[{\"index\":0,\"delta\":{\"content\":\"hi\"},\"finish_reason\":null}]}\n\n\
         data: {\"id\":\"c1\",\"object\":\"chat.completion.chunk\",\"model\":\"gpt-test\",\"choices\":[{\"index\":0,\"delta\":{},\"finish_reason\":\"stop\"}]}\n\n\
         data: {\"id\":\"c1\",\"object\":\"chat.completion.chunk\",\"model\":\"gpt-test\",\"choices\":[],\"usage\":{\"prompt_tokens\":9,\"completion_tokens\":2,\"total_tokens\":11}}\n\n",
    );

    let final_response =
        responses.iter().rev().find(|r| !r.partial).expect("held final must flush at stream end");
    assert_eq!(final_response.usage_metadata.as_ref().map(|u| u.total_token_count), Some(11));
}

#[test]
fn usage_free_stream_still_emits_final() {
    let responses = drive(
        "data: {\"id\":\"c1\",\"object\":\"chat.completion.chunk\",\"model\":\"gpt-test\",\"choices\":[{\"index\":0,\"delta\":{\"content\":\"hi\"},\"finish_reason\":null}]}\n\n\
         data: {\"id\":\"c1\",\"object\":\"chat.completion.chunk\",\"model\":\"gpt-test\",\"choices\":[{\"index\":0,\"delta\":{},\"finish_reason\":\"stop\"}]}\n\n\
         data: [DONE]\n\n",
    );

    assert_eq!(responses.len(), 2);
    assert!(!responses[1].partial);
    assert!(responses[1].usage_metadata.is_none());
}

#[test]
fn parse_usage_rejects_null_and_zeroed_shells() {
    assert!(parse_usage_from_chunk("{}").is_none());
    assert!(parse_usage_from_chunk("{\"choices\": [], \"usage\": null}").is_none());
    assert!(parse_usage_from_chunk(
        "{\"usage\": {\"prompt_tokens\": 0, \"completion_tokens\": 0, \"total_tokens\": 0}}"
    )
    .is_none());
}

#[test]
fn parse_usage_falls_back_to_responses_style_fields() {
    let usage = parse_usage_from_chunk(
        "{\"usage\": {\"input_tokens\": 8, \"output_tokens\": 2, \"input_tokens_details\": {\"cached_tokens\": 6}}}",
    )
    .expect("responses-style usage should parse");
    assert_eq!(usage.prompt_token_count, 8);
    assert_eq!(usage.candidates_token_count, 2);
    assert_eq!(usage.total_token_count, 10, "total derived as input+output");
    assert_eq!(usage.cache_read_input_token_count, Some(6));
}

#[test]
fn parse_usage_prefers_deepseek_cache_fields() {
    let usage = parse_usage_from_chunk(
        "{\"usage\": {\"prompt_tokens\": 10, \"completion_tokens\": 1, \"total_tokens\": 11, \
          \"prompt_cache_hit_tokens\": 7, \"prompt_tokens_details\": {\"cached_tokens\": 3}}}",
    )
    .expect("usage should parse");
    assert_eq!(usage.cache_read_input_token_count, Some(7));
    assert_eq!(usage.cache_creation_input_token_count, None);

    let nested = parse_usage_from_chunk(
        "{\"usage\": {\"prompt_tokens\": 10, \"completion_tokens\": 1, \"total_tokens\": 11, \
          \"prompt_tokens_details\": {\"cached_tokens\": 3}}}",
    )
    .expect("usage should parse");
    assert_eq!(nested.cache_read_input_token_count, Some(3));
}

#[test]
fn usage_details_are_read() {
    let usage = parse_usage_from_chunk(
        "{\"usage\": {\"prompt_tokens\": 4, \"total_tokens\": 9, \"completion_tokens\": \"x\", \"output_tokens\": 5, \
          \"prompt_tokens_details\": {\"audio_tokens\": 1}, \
          \"completion_tokens_details\": {\"audio_tokens\": 2, \"reasoning_tokens\": 3}}}",
    )
    .unwrap();
    assert_eq!(usage.candidates_token_count, 5);
    assert_eq!(usage.audio_input_token_count, Some(1));
    assert_eq!(usage.audio_output_token_count, Some(2));
    assert_eq!(usage.thinking_token_count, Some(3));
    assert!(parse_usage_from_chunk("{\"usage\": [1]}").is_none());
}

#[test]
fn only_an_empty_usage_has_no_counts() {
    let usage = parse_usage_from_chunk(
        "{\"usage\": {\"prompt_tokens\": 5, \"completion_tokens\": 2, \"total_tokens\": 0}}",
    )
    .expect("counts that are not all zero");
    assert_eq!(usage.prompt_token_count, 5);
    assert_eq!(usage.candidates_token_count, 2);
    assert_eq!(usage.total_token_count, 0);
    let usage = parse_usage_from_chunk("{\"usage\": {\"total_tokens\": -5}}").unwrap();
    assert_eq!(usage.total_token_count, -5);
    let usage =
        parse_usage_from_chunk("{\"usage\": {\"prompt_cache_miss_tokens\": 1}}").unwrap();
    assert_eq!(usage.cache_creation_input_token_count, Some(1));
    // Counts are cut to 32 bits once they have been looked at.
    let usage = parse_usage_from_chunk("{\"usage\": {\"total_tokens\": 4294967297}}").unwrap();
    assert_eq!(usage.total_token_count, 1);
    assert!(parse_usage_from_chunk("{\"usage\": {}}").is_none());
    assert!(parse_usage_from_chunk(
        "{\"usage\": {\"prompt_tokens\": 0, \"prompt_cache_hit_tokens\": 0, \
          \"completion_tokens_details\": {\"reasoning_tokens\": 0}}}",
    )
    .is_none());
}

#[test]
fn finish_words_are_understood() {
    for word in ["stop", "tool_calls", "function_call", "anything"] {
        assert_eq!(parse_finish_reason(word), FinishReason::Stop);
    }
    assert_eq!(parse_finish_reason("length"), FinishReason::MaxTokens);
    assert_eq!(parse_finish_reason("content_filter"), FinishReason::Safety);
}

#[test]
fn reasoning_goes_out_at_once_under_either_name() {
    let responses = drive(
        "data: {\"choices\":[{\"delta\":{\"reasoning_content\":\"a\"}}]}\n\
         data: {\"choices\":[{\"delta\":{\"reasoning\":\"b\"}}]}\n\
         data: {\"choices\":[{\"delta\":{\"reasoning_content\":null,\"reasoning\":\"c\"}}]}\n\
         data: not json\n\
         : comment\n\
         data: {\"choices\":[{\"delta\":{},\"finish_reason\":\"length\"}]}\n",
    );
    assert_eq!(responses.len(), 3);
    for (response, expected) in responses.iter().zip(["a", "b"]) {
        assert!(response.partial && !response.turn_complete);
        match &response.content.as_ref().unwrap().parts[..] {
            [Part::Thinking { thinking, signature }] => {
                assert_eq!(thinking, expected);
                assert!(signature.is_none());
            }
            other => panic!("{other:?}"),
        }
    }
    assert!(responses[2].turn_complete && responses[2].content.is_none());
    assert_eq!(responses[2].finish_reason, Some(FinishReason::MaxTokens));
}

#[test]
fn tool_calls_come_in_the_order_of_their_index() {
    let body = "data: {\"choices\":[{\"delta\":{\"tool_calls\":[\
        {\"index\":2,\"id\":\"c\",\"function\":{\"name\":\"three\",\"arguments\":\"oops\"}},\
        {\"id\":\"a\",\"function\":{\"name\":\"one\",\"arguments\":\"[1\"}}]}}]}\n\
        data: {\"choices\":[{\"delta\":{\"tool_calls\":[\
        {\"index\":0,\"id\":\"\",\"function\":{\"arguments\":\",2]\"}}]}}]}\n\
        data: {\"choices\":[{\"delta\":{\"content\":\"tail\"},\"finish_reason\":\"tool_calls\"}]}\n";
    for size in [1, 7, body.len()] {
        let responses = drive_in_pieces(body, size);
        assert_eq!(responses.len(), 1);
        match &responses[0].content.as_ref().unwrap().parts[..] {
            [Part::Text { text }, Part::FunctionCall { name: n1, args: a1, id: i1, .. }, Part::FunctionCall { name: n2, args: a2, id: i2, .. }] =>
            {
                assert_eq!(text, "tail");
                assert_eq!((n1.as_str(), i1.as_deref()), ("one", Some("a")));
                assert_eq!(a1.to_text(), "[1,2]");
                assert_eq!((n2.as_str(), i2.as_deref()), ("three", Some("c")));
                assert_eq!(a2.to_text(), "{}", "arguments that are not JSON count as none");
            }
            other => panic!("{other:?}"),
        }
    }
}

#[test]
fn the_larger_counts_win_and_go_out_once() {
    let responses = drive(
        "data: {\"choices\":[{\"delta\":{}}],\"usage\":{\"total_tokens\":9}}\n\
         data: {\"choices\":[{\"delta\":{}}],\"usage\":{\"total_tokens\":4}}\n\
         data: {\"choices\":[{\"delta\":{\"content\":\"end\"},\"finish_reason\":\"stop\"}]}\n\
         data: {\"choices\":[]}\n\
         data: [DONE]\n\
         data: [DONE]\n",
    );
    assert_eq!(responses.len(), 1);
    assert_eq!(responses[0].usage_metadata.unwrap().total_token_count, 9);
    assert!(matches!(&responses[0].content.as_ref().unwrap().parts[..], [Part::Text { text }] if text == "end"));
}

#[test]
fn calls_found_in_text_are_not_partial() {
    let mut decoder = StreamDecoder::new();
    let call = |id: &str| Part::FunctionCall {
        name: "f".to_string(),
        args: Json::Null,
        id: Some(id.to_string()),
        thought_signature: None,
    };
    let responses = decoder.on_parts(vec![Part::Text { text: "x".to_string() }, call("1")]);
    assert!(responses[0].partial && !responses[1].partial);
    assert!(!responses[1].turn_complete && responses[1].finish_reason.is_none());
    let left = decoder.on_leftover_parts(vec![call("2"), Part::Text { text: "y".to_string() }]);
    assert!(!left[0].partial && left[0].turn_complete);
    assert_eq!(left[0].finish_reason, Some(FinishReason::Stop));
    assert!(left[1].partial && !left[1].turn_complete && left[1].finish_reason.is_none());
}

#[test]
fn a_reply_depends_on_the_body_only() {
    let body = "data: {\"choices\":[{\"delta\":{\"content\":\"gr\u{fc}\u{df}e \u{1f600}\"}}]}\n\
        data: {\"choices\":[{\"delta\":{\"reasoning\":\"\u{e9}\"}}]}\n\n\
        data: {\"choices\":[{\"delta\":{},\"finish_reason\":\"stop\"}]}\n\
        data: {\"choices\":[],\"usage\":{\"prompt_tokens\":1,\"total_tokens\":1}}\n\
        data: [DONE]\n";
    let whole = format!("{:?}", drive(body));
    for cut in (0..body.len()).filter(|i| body.is_char_boundary(*i)) {
        let mut decoder = StreamDecoder::new();
        let mut responses = Vec::new();
        for piece in [&body[..cut], &body[cut..]] {
            decoder.push_bytes(piece.as_bytes());
            while let Some(outcome) = decoder.next() {
                responses.extend(outcome.responses);
                if let Some(text) = outcome.text {
                    responses.extend(decoder.on_parts(vec![Part::Text { text }]));
                }
            }
        }
        responses.extend(decoder.finish());
        assert_eq!(format!("{responses:?}"), whole, "cut at {cut}");
    }
}
