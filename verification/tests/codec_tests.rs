//! Tests of the JSON codec, the OpenAI-compatible translator and the
//! stream collectors.

use bamboo_agent::errors::LLMError;
use bamboo_agent::json::{json_to_string, Json};
use bamboo_agent::llm::{LLMChunk, Message, ToolSchema, FunctionSchema};
use bamboo_agent::openai::{
    build_openai_compat_body, openai_chunk_from_json, parse_openai_compat_sse_data_strict,
};
use bamboo_agent::parse::parse_json_text;
use bamboo_agent::stream::{collect_openai_stream, SseAssembler};

#[test]
fn test_parse_simple_token() {
    let data = r#"{"id":"chatcmpl-123","choices":[{"delta":{"content":"Hello"},"finish_reason":null}]}"#;

    let chunk = parse_openai_compat_sse_data_strict(data).unwrap();

    match chunk {
        LLMChunk::Token(text) => assert_eq!(text, "Hello"),
        _ => panic!("Expected Token chunk"),
    }
}

#[test]
fn test_parse_tool_call() {
    let data = r#"{"id":"chatcmpl-123","choices":[{"delta":{"tool_calls":[{"index":0,"id":"call_abc123","type":"function","function":{"name":"search","arguments":"{\"q\":\"test\"}"}}]},"finish_reason":null}]}"#;

    let chunk = parse_openai_compat_sse_data_strict(data).unwrap();

    match chunk {
        LLMChunk::ToolCalls(calls) => {
            assert_eq!(calls.len(), 1);
            assert_eq!(calls[0].id, "call_abc123");
            assert_eq!(calls[0].tool_type, "function");
            assert_eq!(calls[0].function.name, "search");
            assert_eq!(calls[0].function.arguments, r#"{"q":"test"}"#);
        }
        _ => panic!("Expected ToolCalls chunk"),
    }
}

#[test]
fn test_parse_done_signal() {
    let data = "[DONE]";

    let chunk = parse_openai_compat_sse_data_strict(data).unwrap();

    assert!(matches!(chunk, LLMChunk::Done));
}

#[test]
fn test_parse_empty_delta() {
    let data = r#"{"id":"chatcmpl-123","choices":[{"delta":{},"finish_reason":null}]}"#;

    let chunk = parse_openai_compat_sse_data_strict(data).unwrap();

    match chunk {
        LLMChunk::Token(text) => assert!(text.is_empty()),
        _ => panic!("Expected empty Token chunk"),
    }
}

#[test]
fn test_invalid_json_response() {
    let invalid_data = "{not valid json}";

    let result = parse_openai_compat_sse_data_strict(invalid_data);

    assert!(result.is_err());
}

#[test]
fn test_tool_call_partial_delta() {
    let data = r#"{"id":"chatcmpl-123","choices":[{"delta":{"tool_calls":[{"index":0,"id":"call_123","type":"function","function":{"name":"search"}}]},"finish_reason":null}]}"#;

    let chunk = parse_openai_compat_sse_data_strict(data).unwrap();

    match chunk {
        LLMChunk::ToolCalls(calls) => {
            assert_eq!(calls[0].id, "call_123");
            assert_eq!(calls[0].function.name, "search");
            // Arguments should be empty string when not provided
            assert_eq!(calls[0].function.arguments, "");
        }
        _ => panic!("Expected ToolCalls chunk"),
    }
}

#[test]
fn test_multiple_tool_calls_in_single_chunk() {
    let data = r#"{"id":"chatcmpl-123","choices":[{"delta":{"tool_calls":[{"index":0,"id":"call_1","type":"function","function":{"name":"search","arguments":"{}"}},{"index":1,"id":"call_2","type":"function","function":{"name":"lookup","arguments":"{}"}}]},"finish_reason":null}]}"#;

    let chunk = parse_openai_compat_sse_data_strict(data).unwrap();

    match chunk {
        LLMChunk::ToolCalls(calls) => {
            assert_eq!(calls.len(), 2);
            assert_eq!(calls[0].function.name, "search");
            assert_eq!(calls[1].function.name, "lookup");
        }
        _ => panic!("Expected ToolCalls chunk"),
    }
}

#[test]
fn test_whitespace_in_done_signal() {
    let data = "  [DONE]  ";

    let chunk = parse_openai_compat_sse_data_strict(data).unwrap();

    assert!(matches!(chunk, LLMChunk::Done));
}

#[test]
fn done_forms_yield_a_single_done_chunk() {
    for data in ["[DONE]", "  [DONE]  "] {
        let chunk = parse_openai_compat_sse_data_strict(data).unwrap();
        assert!(matches!(chunk, LLMChunk::Done));
    }
}

#[test]
fn json_round_trips_a_document() {
    let text = r#"{"name":"search","args":{"q":"test"},"n":42,"flag":true,"none":null,"list":[1,2,3]}"#;
    let parsed = parse_json_text(text).expect("parses");
    let rendered = json_to_string(&parsed);
    let reparsed = parse_json_text(&rendered).expect("reparses");
    assert_eq!(parsed, reparsed);
}

#[test]
fn json_escapes_survive_round_trip() {
    let text = "{\"s\":\"a\\\"b\\\\c\\nd\\te\"}";
    let parsed = parse_json_text(text).expect("parses");
    match &parsed {
        Json::Obj(fields) => match &fields[0].1 {
            Json::Str(s) => assert_eq!(s, "a\"b\\c\nd\te"),
            _ => panic!("expected a string"),
        },
        _ => panic!("expected an object"),
    }
    let rendered = json_to_string(&parsed);
    let reparsed = parse_json_text(&rendered).expect("reparses");
    assert_eq!(parsed, reparsed);
}

#[test]
fn json_rejects_malformed_documents() {
    assert!(parse_json_text("{").is_none());
    assert!(parse_json_text("[1,]").is_none());
    assert!(parse_json_text("01").is_none());
    assert!(parse_json_text("\"unterminated").is_none());
    assert!(parse_json_text("{\"a\":1} extra").is_none());
    assert!(parse_json_text("").is_none());
}

#[test]
fn json_accepts_numbers_and_whitespace() {
    assert!(parse_json_text(" -12.5e3 ").is_some());
    assert!(parse_json_text("0").is_some());
    assert!(parse_json_text("[ 1 , 2 ]").is_some());
}

#[test]
fn openai_body_carries_model_messages_and_tools() {
    let messages = vec![Message::user("Search for weather")];
    let tools = vec![ToolSchema {
        schema_type: "function".to_string(),
        function: FunctionSchema {
            name: "search_weather".to_string(),
            description: "Search for weather information".to_string(),
            parameters: parse_json_text(r#"{"type":"object"}"#).unwrap(),
        },
    }];

    let body = build_openai_compat_body("gpt-4o-mini", &messages, &tools, Some(4096));
    match &body {
        Json::Obj(fields) => {
            assert_eq!(fields[0].0, "model");
            assert_eq!(fields[0].1, Json::Str("gpt-4o-mini".to_string()));
            assert_eq!(fields[1].0, "stream");
            assert_eq!(fields[1].1, Json::Bool(true));
            assert_eq!(fields[2].0, "messages");
            assert_eq!(fields[3].0, "tools");
            assert_eq!(fields[4].0, "max_tokens");
            assert_eq!(fields[4].1, Json::Num("4096".to_string()));
        }
        _ => panic!("expected an object"),
    }
    let text = json_to_string(&body);
    assert!(text.contains("\"search_weather\""));
    assert!(text.contains("\"stream\":true"));
}

#[test]
fn openai_chunk_reader_keeps_content_exact() {
    let j = parse_json_text(r#"{"choices":[{"delta":{"content":"He said \"hi\""}}]}"#).unwrap();
    match openai_chunk_from_json(&j) {
        LLMChunk::Token(t) => assert_eq!(t, "He said \"hi\""),
        _ => panic!("expected a token"),
    }
}

#[test]
fn collected_stream_ends_with_exactly_one_done() {
    let datas = vec![
        r#"{"choices":[{"delta":{"content":"Hel"}}]}"#.to_string(),
        "".to_string(),
        r#"{"choices":[{"delta":{"content":"lo"}}]}"#.to_string(),
        "[DONE]".to_string(),
        r#"{"choices":[{"delta":{"content":"late"}}]}"#.to_string(),
    ];
    let chunks = collect_openai_stream(&datas).unwrap();
    assert_eq!(chunks.len(), 3);
    assert!(matches!(chunks[0], LLMChunk::Token(_)));
    assert!(matches!(chunks[1], LLMChunk::Token(_)));
    assert!(matches!(chunks[2], LLMChunk::Done));
    let done_count = chunks.iter().filter(|c| matches!(c, LLMChunk::Done)).count();
    assert_eq!(done_count, 1);
}

#[test]
fn collected_stream_without_done_is_a_stream_error() {
    let datas = vec![r#"{"choices":[{"delta":{"content":"x"}}]}"#.to_string()];
    match collect_openai_stream(&datas) {
        Err(LLMError::Stream(_)) => {}
        other => panic!("expected a stream error, got {:?}", other),
    }
}

#[test]
fn sse_assembler_collects_event_and_data_lines() {
    let mut assembler = SseAssembler::new();
    assert!(assembler.feed_line("event: message").is_none());
    assert!(assembler.feed_line("data: hello").is_none());
    let ev = assembler.feed_line("").expect("dispatches");
    assert_eq!(ev.event, "message");
    assert_eq!(ev.data, "hello");

    assert!(assembler.feed_line("data: a").is_none());
    assert!(assembler.feed_line("data: b").is_none());
    let ev2 = assembler.feed_line("").expect("dispatches");
    assert_eq!(ev2.event, "");
    assert_eq!(ev2.data, "a\nb");

    assert!(assembler.feed_line("").is_none());
}

#[test]
fn unicode_escapes_decode_to_their_characters() {
    let parsed = parse_json_text("\"\\u0041\\u00e9\\ud83d\\ude00\"").expect("parses");
    match parsed {
        Json::Str(s) => assert_eq!(s, "A\u{e9}\u{1F600}"),
        _ => panic!("expected a string"),
    }
    // a lone surrogate half is not a valid escape
    assert!(parse_json_text("\"\\ud83d\"").is_none());
}

#[test]
fn provider_errors_render_their_messages() {
    assert_eq!(LLMError::Http("boom".to_string()).message(), "HTTP error: boom");
    assert_eq!(LLMError::Json("bad".to_string()).message(), "JSON error: bad");
    assert_eq!(LLMError::Stream("cut".to_string()).message(), "Stream error: cut");
    assert_eq!(LLMError::Api("500".to_string()).message(), "API error: 500");
    assert_eq!(LLMError::Auth("key".to_string()).message(), "Authentication error: key");
    assert_eq!(
        LLMError::Protocol("shape".to_string()).message(),
        "Protocol conversion error: shape"
    );
}
